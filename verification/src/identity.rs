//! Caller identities and the timestamps that accompany every call.

use vstd::prelude::*;

verus! {

/// A caller identity: a 256-bit value, held as its 32 bytes in big-endian order.
#[derive(Clone, Copy, Debug, PartialEq, Eq)]
pub struct Identity {
    pub bytes: [u8; 32],
}

impl View for Identity {
    type V = Seq<u8>;

    open spec fn view(&self) -> Seq<u8> {
        self.bytes@
    }
}

impl Identity {
    /// The identity whose big-endian bytes are `bytes`.
    pub fn from_be_bytes(bytes: [u8; 32]) -> (id: Identity)
        ensures
            id@ == bytes@,
    {
        Identity { bytes }
    }

    /// The 32 bytes of this identity, most significant first.
    pub fn to_be_bytes(&self) -> (bytes: [u8; 32])
        ensures
            bytes@ == self@,
    {
        self.bytes
    }

    /// Whether two identities are the same 256-bit value.
    pub fn same_as(&self, other: &Identity) -> (same: bool)
        ensures
            same == (self@ == other@),
    {
        let mut i: usize = 0;
        while i < 32
            invariant
                i <= 32,
                forall|j: int| 0 <= j < i ==> self.bytes@[j] == other.bytes@[j],
            decreases 32 - i,
        {
            if self.bytes[i] != other.bytes[i] {
                return false;
            }
            i += 1;
        }
        assert(self.bytes@ =~= other.bytes@);
        true
    }
}

/// A point in time, in microseconds since the Unix epoch; negative before it.
#[derive(Clone, Copy, Debug, PartialEq, Eq, Structural)]
pub struct Timestamp {
    pub micros: i64,
}

impl Timestamp {
    /// The instant `micros` microseconds after the Unix epoch.
    pub fn from_micros(micros: i64) -> (at: Timestamp)
        ensures
            at.micros == micros,
    {
        Timestamp { micros }
    }
}

/// What the host supplies with every call: who calls, and when.
#[derive(Clone, Copy, Debug)]
pub struct CallContext {
    pub sender: Identity,
    pub timestamp: Timestamp,
}

impl CallContext {
    /// A call made by `sender` at `timestamp`.
    pub fn new(sender: Identity, timestamp: Timestamp) -> (ctx: CallContext)
        ensures
            ctx.sender == sender,
            ctx.timestamp == timestamp,
    {
        CallContext { sender, timestamp }
    }
}

} // verus!
