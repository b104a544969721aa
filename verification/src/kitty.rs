//! The kitty record, and how a child's traits derive from its parents.

use crate::primitives::{AccountId, Balance, H256};
use vstd::prelude::*;

verus! {

/// A collectible record: its identifier, the dna that encodes its traits, its
/// sale price (zero when it is not for sale) and its breeding depth.
#[derive(Clone, Copy, Debug, Default, PartialEq, Eq)]
pub struct Kitty<Hash, Balance> {
    pub id: Hash,
    pub dna: Hash,
    pub price: Balance,
    pub gen: u64,
}

/// A kitty as the registry stores it.
pub type KittyOf = Kitty<H256, Balance>;

/// What the registry reports after a successful operation.
#[derive(Clone, Copy, Debug, PartialEq, Eq)]
pub enum Event {
    /// A kitty with this id was created for this owner.
    Created(AccountId, H256),
    /// This owner set the price of this kitty.
    PriceSet(AccountId, H256, Balance),
    /// A kitty moved from the first account to the second.
    Transferred(AccountId, AccountId, H256),
    /// The first account bought the kitty from the second at this price.
    Bought(AccountId, AccountId, H256, Balance),
}

/// Why the registry refused an operation.
#[derive(Clone, Copy, Debug, PartialEq, Eq)]
pub enum Error {
    /// No kitty has this id.
    NotFound,
    /// The kitty belongs to another account.
    NotOwner,
    /// A kitty with this id exists already.
    AlreadyExists,
    /// An account, or the registry as a whole, holds as many kitties as can
    /// be counted.
    CountOverflow,
    /// The sender holds no kitty to give away.
    CountUnderflow,
    /// The kitty's price is zero.
    NotForSale,
    /// The kitty costs more than the buyer is willing to pay.
    PriceExceedsLimit,
    /// The currency ledger refused to move the funds.
    FundsTransferFailed,
}

/// The dna of a child: the first parent's, but for the positions where the
/// mask byte is even, which come from the second parent.
pub open spec fn spliced(dna_1: Seq<u8>, dna_2: Seq<u8>, mask: Seq<u8>) -> Seq<u8> {
    Seq::new(
        32,
        |i: int|
            if mask[i] % 2 == 0 {
                dna_2[i]
            } else {
                dna_1[i]
            },
    )
}

/// The larger of two generations.
pub open spec fn max_gen(gen_1: u64, gen_2: u64) -> u64 {
    if gen_1 >= gen_2 {
        gen_1
    } else {
        gen_2
    }
}

/// Whether a child of parents with these generations has a generation that
/// can be counted.
pub open spec fn can_breed(parent_1: KittyOf, parent_2: KittyOf) -> bool {
    max_gen(parent_1.gen, parent_2.gen) < u64::MAX
}

/// The kitty that `create_kitty` mints for a fresh random hash: the hash is
/// both id and dna, it is not for sale and of generation zero.
pub open spec fn spec_newborn(random_hash: H256) -> KittyOf {
    Kitty { id: random_hash, dna: random_hash, price: 0, gen: 0 }
}

/// The child of two parents under a random mask, which also becomes its id.
pub open spec fn spec_child(parent_1: KittyOf, parent_2: KittyOf, mask: H256) -> KittyOf {
    Kitty {
        id: mask,
        dna: spec_splice(parent_1.dna, parent_2.dna, mask),
        price: 0,
        gen: (max_gen(parent_1.gen, parent_2.gen) + 1) as u64,
    }
}

/// The hash whose bytes are `spliced` from those of the arguments.
pub closed spec fn spec_splice(dna_1: H256, dna_2: H256, mask: H256) -> H256 {
    choose|h: H256| h@ == spliced(dna_1@, dna_2@, mask@)
}

/// `spec_splice` holds the spliced bytes.
pub proof fn lemma_splice_bytes(dna_1: H256, dna_2: H256, mask: H256)
    ensures
        spec_splice(dna_1, dna_2, mask)@ == spliced(dna_1@, dna_2@, mask@),
{
    lemma_partial_splice(dna_1, dna_2, mask, 32);
    let witness = partial_splice(dna_1, dna_2, mask, 32);
    assert(witness@ =~= spliced(dna_1@, dna_2@, mask@));
}

/// A hash that agrees with the spliced bytes below `n` and with the first
/// parent from there on.
spec fn partial_splice(dna_1: H256, dna_2: H256, mask: H256, n: nat) -> H256
    decreases n,
{
    if n == 0 {
        dna_1
    } else {
        let rest = partial_splice(dna_1, dna_2, mask, (n - 1) as nat);
        H256(
            vstd::array::spec_array_update(
                rest.0,
                n - 1,
                spliced(dna_1@, dna_2@, mask@)[n - 1],
            ),
        )
    }
}

proof fn lemma_partial_splice(dna_1: H256, dna_2: H256, mask: H256, n: nat)
    requires
        n <= 32,
    ensures
        partial_splice(dna_1, dna_2, mask, n)@.len() == 32,
        forall|i: int|
            0 <= i < 32 ==> #[trigger] partial_splice(dna_1, dna_2, mask, n)@[i] == (if i < n {
                spliced(dna_1@, dna_2@, mask@)[i]
            } else {
                dna_1@[i]
            }),
    decreases n,
{
    broadcast use vstd::array::axiom_spec_array_update;

    if n > 0 {
        lemma_partial_splice(dna_1, dna_2, mask, (n - 1) as nat);
    }
}

/// Builds a child's dna from its parents' under a random mask.
pub fn splice_dna(dna_1: &H256, dna_2: &H256, mask: &H256) -> (child: H256)
    ensures
        child == spec_splice(*dna_1, *dna_2, *mask),
        child@ == spliced(dna_1@, dna_2@, mask@),
{
    let mut bytes: [u8; 32] = dna_1.0;
    let mut i: usize = 0;
    while i < 32
        invariant
            i <= 32,
            forall|j: int| 0 <= j < i ==> bytes@[j] == spliced(dna_1@, dna_2@, mask@)[j],
            forall|j: int| i <= j < 32 ==> bytes@[j] == dna_1@[j],
        decreases 32 - i,
    {
        if mask.0[i] % 2 == 0 {
            bytes[i] = dna_2.0[i];
        }
        i += 1;
    }
    let child = H256(bytes);
    proof {
        assert(child@ =~= spliced(dna_1@, dna_2@, mask@));
        lemma_splice_bytes(*dna_1, *dna_2, *mask);
        H256::lemma_view_injective(child, spec_splice(*dna_1, *dna_2, *mask));
    }
    child
}

/// Calls `sr_std::cmp::max`, which is std's `max`, on two generations. The
/// contract claims that the result is the larger of the two.
#[verifier::external_body]
fn larger_gen(gen_1: u64, gen_2: u64) -> (older: u64)
    ensures
        older == max_gen(gen_1, gen_2),
{
    sr_std::cmp::max(gen_1, gen_2)
}

impl Kitty<H256, Balance> {
    /// The kitty that is minted for a fresh random hash.
    pub fn newborn(random_hash: H256) -> (kitty: Self)
        ensures
            kitty == spec_newborn(random_hash),
    {
        Kitty { id: random_hash, dna: random_hash, price: 0, gen: 0 }
    }

    /// The child of `self` and `other` under a random mask.
    pub fn child(&self, other: &Self, mask: H256) -> (kitty: Self)
        requires
            can_breed(*self, *other),
        ensures
            kitty == spec_child(*self, *other, mask),
    {
        let gen_1: u64 = self.gen;
        let gen_2: u64 = other.gen;
        let older: u64 = larger_gen(gen_1, gen_2);
        Kitty { id: mask, dna: splice_dna(&self.dna, &other.dna, &mask), price: 0, gen: older + 1 }
    }
}

} // verus!
