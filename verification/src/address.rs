use vstd::prelude::*;

verus! {

/// A Stellar account (`G...`) or contract (`C...`), identified by the bytes
/// of its strkey text. Two addresses are the same party exactly when their
/// strkeys are equal.
#[derive(Clone, Debug, PartialEq, Eq)]
pub struct Address {
    strkey: Vec<u8>,
}

impl View for Address {
    type V = Seq<u8>;

    closed spec fn view(&self) -> Seq<u8> {
        self.strkey@
    }
}

impl Address {
    /// The address whose strkey text is `strkey`.
    pub fn from_strkey(strkey: Vec<u8>) -> (a: Address)
        ensures
            a@ == strkey@,
    {
        Address { strkey }
    }

    /// The strkey bytes of this address.
    pub fn strkey(&self) -> (s: &Vec<u8>)
        ensures
            s@ == self@,
    {
        &self.strkey
    }

    /// Whether `self` and `other` name the same party.
    pub fn same_as(&self, other: &Address) -> (b: bool)
        ensures
            b == (self@ == other@),
    {
        let n = self.strkey.len();
        if n != other.strkey.len() {
            return false;
        }
        let mut i: usize = 0;
        while i < n
            invariant
                n == self.strkey@.len(),
                n == other.strkey@.len(),
                i <= n,
                forall|j: int| 0 <= j < i ==> self.strkey@[j] == other.strkey@[j],
            decreases n - i,
        {
            if self.strkey[i] != other.strkey[i] {
                return false;
            }
            i = i + 1;
        }
        assert(self.strkey@ =~= other.strkey@);
        true
    }

    /// A copy of this address.
    pub fn duplicate(&self) -> (a: Address)
        ensures
            a@ == self@,
    {
        let strkey = self.strkey.clone();
        assert(strkey@ =~= self.strkey@);
        Address { strkey }
    }
}

} // verus!
