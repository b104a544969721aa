//! The operations that need the hosting ledger: a source of randomness, its
//! hash function and its currency.

use crate::kitty::Error;
use crate::primitives::{AccountId, Balance, H256};
use crate::registry::Module;
use crate::state::Call;
use parity_codec::Encode;
use vstd::bytes::spec_u64_to_le_bytes;
use vstd::prelude::*;

verus! {

/// What the registry needs from the ledger that hosts it.
pub trait Trait {
    /// The ledger's current seed of randomness.
    fn random_seed(&self) -> H256;

    /// The ledger's hash of `data`.
    fn hash(&self, data: &[u8]) -> H256;

    /// Moves `value` from `from` to `to` in the ledger's currency, or fails
    /// and moves nothing.
    fn transfer(&mut self, from: AccountId, to: AccountId, value: Balance) -> Result<
        (),
        &'static str,
    >;
}

/// The bytes that are hashed to derive a fresh id: the seed, then the sender
/// and the nonce, each as eight bytes with the lowest first.
pub open spec fn spec_random_hash_input(seed: Seq<u8>, sender: AccountId, nonce: u64) -> Seq<u8> {
    seed + spec_u64_to_le_bytes(sender) + spec_u64_to_le_bytes(nonce)
}

/// Calls `parity_codec::Encode::encode` on the tuple of the seed's bytes, the
/// sender and the nonce. The contract claims what the codec's source shows
/// for such a tuple: its parts follow one another, a byte array as its bytes
/// and a `u64` as eight bytes in little-endian order.
#[verifier::external_body]
fn encode_random_hash_input(seed: &H256, sender: AccountId, nonce: u64) -> (bytes: Vec<u8>)
    ensures
        bytes@ == spec_random_hash_input(seed@, sender, nonce),
{
    (seed.0, &sender, nonce).encode()
}

/// The bytes whose hash becomes the id of the next kitty of `sender`.
pub fn random_hash_input(seed: &H256, sender: AccountId, nonce: u64) -> (bytes: Vec<u8>)
    ensures
        bytes@ == spec_random_hash_input(seed@, sender, nonce),
        bytes@.len() == 48,
{
    let bytes = encode_random_hash_input(seed, sender, nonce);
    proof {
        vstd::bytes::lemma_auto_spec_u64_to_from_le_bytes();
    }
    bytes
}

/// A fresh hash for `sender`: the host's hash of its seed, the sender and
/// the nonce. The result is what the host's `hash` gave for the bytes of
/// `spec_random_hash_input`, built on a seed that its `random_seed` gave.
pub fn random_hash<T: Trait>(host: &T, sender: AccountId, nonce: u64) -> (fresh: H256)
    ensures
        exists|seed: H256, input: &[u8]|
            #![trigger
                call_ensures(T::random_seed, (host,), seed),
                call_ensures(T::hash, (host, input), fresh)]
            call_ensures(T::random_seed, (host,), seed) && input@ == spec_random_hash_input(
                seed@,
                sender,
                nonce,
            ) && call_ensures(T::hash, (host, input), fresh),
{
    let seed = host.random_seed();
    let input = random_hash_input(&seed, sender, nonce);
    let bytes = input.as_slice();
    let fresh = host.hash(bytes);
    assert(call_ensures(T::random_seed, (host,), seed) && call_ensures(
        T::hash,
        (host, bytes),
        fresh,
    ));
    fresh
}

impl Module {
    /// Creates a kitty for `sender` from a fresh random hash. The outcome is
    /// that of `create_kitty_from` for the hash that the host returned.
    pub fn create_kitty<T: Trait>(&mut self, host: &T, sender: AccountId) -> (r: Result<(), Error>)
        requires
            old(self).wf(),
        ensures
            final(self).wf(),
            exists|random_hash: H256|
                r == old(self)@.mint_result(sender, random_hash) && final(self)@ == (if r is Ok {
                    old(self)@.create_kitty(sender, random_hash)
                } else {
                    old(self)@
                }),
    {
        let random_hash = random_hash(host, sender, self.nonce());
        self.create_kitty_from(sender, random_hash)
    }

    /// Buys `kitty_id` for `sender` at its price, if that is not zero and at
    /// most `max_price`. The funds move first; where the host refuses to move
    /// them the purchase fails and nothing changes.
    pub fn buy_kitty<T: Trait>(
        &mut self,
        host: &mut T,
        sender: AccountId,
        kitty_id: H256,
        max_price: Balance,
    ) -> (r: Result<(), Error>)
        requires
            old(self).wf(),
        ensures
            final(self).wf(),
            match old(self)@.purchase_result(sender, kitty_id, max_price) {
                Err(e) => r == Err::<(), Error>(e) && final(self)@ == old(self)@,
                Ok(()) => (r == Ok::<(), Error>(()) && final(self)@ == old(self)@.purchase(
                    sender,
                    kitty_id,
                )) || (r == Err::<(), Error>(Error::FundsTransferFailed) && final(self)@
                    == old(self)@),
            },
            r is Ok ==> final(self)@ == old(self)@.apply(Call::Buy(sender, kitty_id, max_price)),
            r is Err ==> final(self)@ == old(self)@,
    {
        let (owner, kitty_price) = match self.check_purchase(sender, kitty_id, max_price) {
            Ok(funds) => funds,
            Err(e) => {
                return Err(e);
            },
        };
        let funds = host.transfer(sender, owner, kitty_price);
        self.settle_purchase(sender, kitty_id, funds)
    }

    /// Breeds a child of `kitty_id_1` and `kitty_id_2` for `sender` under a
    /// fresh random hash. The host is asked for the hash only where both
    /// parents exist; the outcome is that of `breed_kitty_from` for it.
    pub fn breed_kitty<T: Trait>(
        &mut self,
        host: &T,
        sender: AccountId,
        kitty_id_1: H256,
        kitty_id_2: H256,
    ) -> (r: Result<(), Error>)
        requires
            old(self).wf(),
            old(self)@.can_breed(kitty_id_1, kitty_id_2),
        ensures
            final(self).wf(),
            exists|random_hash: H256|
                r == old(self)@.breed_result(sender, kitty_id_1, kitty_id_2, random_hash)
                    && final(self)@ == (if r is Ok {
                    old(self)@.breed_kitty(sender, kitty_id_1, kitty_id_2, random_hash)
                } else {
                    old(self)@
                }),
    {
        if !self.kitty_exists(&kitty_id_1) || !self.kitty_exists(&kitty_id_2) {
            assert(old(self)@.breed_result(sender, kitty_id_1, kitty_id_2, kitty_id_1) == Err::<
                (),
                Error,
            >(Error::NotFound));
            return Err(Error::NotFound);
        }
        let random_hash = random_hash(host, sender, self.nonce());
        self.breed_kitty_from(sender, kitty_id_1, kitty_id_2, random_hash)
    }
}

} // verus!
