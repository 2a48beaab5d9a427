use vstd::prelude::*;

verus! {

/// The identity of an account (an administrator, a sponsor, a student or a
/// token), held as the bytes of its textual address.
#[derive(Debug, PartialEq, Eq)]
pub struct PartyId {
    pub bytes: Vec<u8>,
}

impl View for PartyId {
    type V = Seq<u8>;

    open spec fn view(&self) -> Seq<u8> {
        self.bytes@
    }
}

impl Clone for PartyId {
    fn clone(&self) -> (res: Self)
        ensures
            res@ == self@,
    {
        PartyId { bytes: self.bytes.clone() }
    }
}

impl PartyId {
    /// Makes an identity from the bytes of an address.
    pub fn new(bytes: Vec<u8>) -> (res: Self)
        ensures
            res@ == bytes@,
    {
        PartyId { bytes }
    }

    /// Whether two identities name the same account.
    pub fn same_as(&self, other: &PartyId) -> (res: bool)
        ensures
            res == (self@ == other@),
    {
        let n = self.bytes.len();
        if n != other.bytes.len() {
            return false;
        }
        let mut i: usize = 0;
        while i < n
            invariant
                n == self.bytes@.len(),
                n == other.bytes@.len(),
                i <= n,
                forall|j: int| 0 <= j < i ==> self.bytes@[j] == other.bytes@[j],
            decreases n - i,
        {
            if self.bytes[i] != other.bytes[i] {
                return false;
            }
            i = i + 1;
        }
        assert(self.bytes@ =~= other.bytes@);
        true
    }
}

} // verus!
