//! Canonical identities of participants.

use vstd::prelude::*;

verus! {

/// The canonical form of an account's address: the bytes by which the ledger
/// knows a participant, however the address was written by the caller.
#[derive(Debug, Eq)]
pub struct Identity {
    pub bytes: Vec<u8>,
}

impl View for Identity {
    type V = Seq<u8>;

    open spec fn view(&self) -> Seq<u8> {
        self.bytes@
    }
}

impl Clone for Identity {
    /// A copy that names the same account.
    fn clone(&self) -> (id: Identity)
        ensures
            id@ == self@,
    {
        let bytes = self.bytes.clone();
        assert(bytes@ =~= self.bytes@);
        Identity { bytes }
    }
}

impl PartialEq for Identity {
    /// Two identities are equal when their bytes are.
    fn eq(&self, other: &Identity) -> (r: bool) {
        let n: usize = self.bytes.len();
        if other.bytes.len() != n {
            return false;
        }
        let mut i: usize = 0;
        while i < n
            invariant
                i <= n,
                n == self.bytes@.len(),
                n == other.bytes@.len(),
                forall|k: int| 0 <= k < i ==> self.bytes@[k] == other.bytes@[k],
            decreases n - i,
        {
            if self.bytes[i] != other.bytes[i] {
                return false;
            }
            i += 1;
        }
        assert(self.bytes@ =~= other.bytes@);
        true
    }
}

impl vstd::std_specs::cmp::PartialEqSpecImpl for Identity {
    open spec fn obeys_eq_spec() -> bool {
        true
    }

    open spec fn eq_spec(&self, other: &Identity) -> bool {
        self@ == other@
    }
}

impl Identity {
    /// Wraps canonical address bytes.
    pub fn new(bytes: Vec<u8>) -> (id: Identity)
        ensures
            id@ == bytes@,
    {
        Identity { bytes }
    }

}

} // verus!
