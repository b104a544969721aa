//! Plain value types shared by the whole registry.

use vstd::prelude::*;

verus! {

/// Identifies an account of the surrounding ledger.
pub type AccountId = u64;

/// An amount of the ledger's currency.
pub type Balance = u64;

/// A 256-bit hash value. It serves both as a kitty's identifier and as its
/// dna.
#[derive(Clone, Copy, Debug, Default, PartialEq, Eq)]
pub struct H256(pub [u8; 32]);

impl View for H256 {
    type V = Seq<u8>;

    open spec fn view(&self) -> Seq<u8> {
        self.0@
    }
}

impl H256 {
    /// The little-endian number formed by the first eight bytes.
    pub open spec fn spec_prefix(self) -> u64 {
        (self@[0] + self@[1] * 0x100 + self@[2] * 0x1_0000 + self@[3] * 0x100_0000 + self@[4]
            * 0x1_0000_0000 + self@[5] * 0x100_0000_0000 + self@[6] * 0x1_0000_0000_0000
            + self@[7] * 0x100_0000_0000_0000) as u64
    }

    /// Two hashes with the same bytes are the same hash.
    pub proof fn lemma_view_injective(a: H256, b: H256)
        requires
            a@ == b@,
        ensures
            a == b,
    {
        assert(a.0@.len() == 32 && b.0@.len() == 32);
        assert forall|i: int| 0 <= i < 32 implies a.0[i] == b.0[i] by {
            assert(a.0@[i] == b.0@[i]);
        }
        assert(a.0 =~= b.0);
    }

    /// The hash whose bytes are all zero.
    pub fn zero() -> (h: H256)
        ensures
            h@ == Seq::new(32, |i: int| 0u8),
    {
        let h = H256([0u8; 32]);
        assert(h@ =~= Seq::new(32, |i: int| 0u8));
        h
    }

    /// The byte at position `i`.
    pub fn byte(&self, i: usize) -> (b: u8)
        requires
            i < 32,
        ensures
            b == self@[i as int],
    {
        self.0[i]
    }

    /// Whether `self` and `other` hold the same bytes.
    pub fn same(&self, other: &H256) -> (r: bool)
        ensures
            r == (*self == *other),
    {
        let mut i: usize = 0;
        while i < 32
            invariant
                i <= 32,
                forall|j: int| 0 <= j < i ==> self@[j] == other@[j],
            decreases 32 - i,
        {
            if self.0[i] != other.0[i] {
                return false;
            }
            i += 1;
        }
        proof {
            assert(self@ =~= other@);
            Self::lemma_view_injective(*self, *other);
        }
        true
    }

    /// The number that selects this hash's bucket in a `HashStore`.
    pub fn prefix(&self) -> (p: u64)
        ensures
            p == self.spec_prefix(),
    {
        let b0: u64 = self.0[0] as u64;
        let b1: u64 = self.0[1] as u64;
        let b2: u64 = self.0[2] as u64;
        let b3: u64 = self.0[3] as u64;
        let b4: u64 = self.0[4] as u64;
        let b5: u64 = self.0[5] as u64;
        let b6: u64 = self.0[6] as u64;
        let b7: u64 = self.0[7] as u64;
        b0 + b1 * 0x100 + b2 * 0x1_0000 + b3 * 0x100_0000 + b4 * 0x1_0000_0000 + b5
            * 0x100_0000_0000 + b6 * 0x1_0000_0000_0000 + b7 * 0x100_0000_0000_0000
    }
}

} // verus!
