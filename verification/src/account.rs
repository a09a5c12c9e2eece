//! Records as the handler sees them: an owner and a buffer of fixed length.

use vstd::prelude::*;
use vstd::std_specs::cmp::PartialEqSpecImpl;

verus! {

/// The name of a program or of an account's owner: 32 opaque bytes.
#[derive(Clone, Copy, Debug, Eq)]
pub struct Identity {
    /// The bytes of the name.
    pub bytes: [u8; 32],
}

impl View for Identity {
    type V = Seq<u8>;

    open spec fn view(&self) -> Seq<u8> {
        self.bytes@
    }
}

impl PartialEq for Identity {
    /// Two identities are equal when all 32 bytes are.
    fn eq(&self, other: &Identity) -> (same: bool) {
        let mut i: usize = 0;
        while i < 32
            invariant
                i <= 32,
                forall|j: int| 0 <= j < i ==> self.bytes@[j] == other.bytes@[j],
            decreases 32 - i,
        {
            if self.bytes[i] != other.bytes[i] {
                return false;
            }
            i += 1;
        }
        assert(self.bytes@ =~= other.bytes@);
        true
    }
}

impl PartialEqSpecImpl for Identity {
    open spec fn obeys_eq_spec() -> bool {
        true
    }

    open spec fn eq_spec(&self, other: &Identity) -> bool {
        self@ == other@
    }
}

impl Default for Identity {
    /// The identity of 32 zero bytes.
    fn default() -> (id: Identity)
        ensures
            id@ == Seq::new(32, |i: int| 0u8),
    {
        let id = Identity { bytes: [0u8; 32] };
        assert(id@ =~= Seq::new(32, |i: int| 0u8));
        id
    }
}

/// A record: who owns it, and the bytes it stores. The handler writes into
/// `data` but never makes it longer or shorter.
#[derive(Clone, Debug, PartialEq, Eq)]
pub struct Account {
    /// The program that may change the record.
    pub owner: Identity,
    /// The record's storage.
    pub data: Vec<u8>,
}

impl Account {
    /// Whether `program` is the owner of this record.
    pub fn is_owned_by(&self, program: &Identity) -> (owned: bool)
        ensures
            owned == (self.owner@ == program@),
    {
        self.owner == *program
    }
}

} // verus!
