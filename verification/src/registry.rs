//! The registry itself: the stored records and indices, and the operations
//! that change them.

use crate::enumeration::{
    append, index_after_removal, indexed, lemma_append_indexed, lemma_indexed,
    lemma_indexed_frame, lemma_removal_indexed, remove,
};
use crate::kitty::{Error, Event, KittyOf};
use crate::laws::{
    lemma_breed_kitty_wf, lemma_create_kitty_wf, lemma_drained_wf, lemma_init_wf, lemma_mint_wf,
    lemma_purchase_wf, lemma_set_price_wf, lemma_transfer_wf,
};
use crate::primitives::{AccountId, Balance, H256};
use crate::state::{lemma_position_of, lemma_swap_and_pop, swap_and_pop, Call, State};
use crate::store::HashStore;
use std::collections::HashMap;
use vstd::prelude::*;

verus! {

broadcast use vstd::std_specs::hash::group_hash_axioms;

/// The kitty registry. Records and owners are stored by id; the ids of all
/// kitties and of each owner's kitties are kept as enumerations with a stored
/// count and a reverse index.
pub struct Module {
    kitties: HashStore<KittyOf>,
    kitty_owner: HashStore<AccountId>,
    all_kitties_array: Vec<H256>,
    all_kitties_count: u64,
    all_kitties_index: HashStore<u64>,
    owned_kitties_array: HashMap<AccountId, Vec<H256>>,
    owned_kitties_count: HashMap<AccountId, u64>,
    owned_kitties_index: HashStore<u64>,
    nonce: u64,
    events: Vec<Event>,
}

/// The ids stored for `who`, none if the account has no entry.
spec fn holdings(array: Map<AccountId, Vec<H256>>, who: AccountId) -> Seq<H256> {
    if array.contains_key(who) {
        array[who]@
    } else {
        Seq::empty()
    }
}

/// The count stored for `who`, zero if the account has no entry.
spec fn stored_count(counts: Map<AccountId, u64>, who: AccountId) -> u64 {
    if counts.contains_key(who) {
        counts[who]
    } else {
        0
    }
}

impl View for Module {
    type V = State;

    closed spec fn view(&self) -> State {
        State {
            kitties: self.kitties@,
            kitty_owner: self.kitty_owner@,
            all_kitties: self.all_kitties_array@,
            owned_kitties: Map::new(
                |a: AccountId| true,
                |a: AccountId| holdings(self.owned_kitties_array@, a),
            ),
            nonce: self.nonce,
            events: self.events@,
        }
    }
}

impl Module {
    /// The stored counts and reverse indices agree with the enumerations,
    /// and the registry as a whole is consistent.
    pub closed spec fn wf(&self) -> bool {
        &&& self.kitties.wf()
        &&& self.kitty_owner.wf()
        &&& self.all_kitties_index.wf()
        &&& self.owned_kitties_index.wf()
        &&& self.all_kitties_count == self.all_kitties_array@.len()
        &&& indexed(self.all_kitties_array@, self.all_kitties_index@)
        &&& forall|id: H256| #[trigger]
            self.all_kitties_index@.contains_key(id) ==> self.kitty_owner@.contains_key(id)
        &&& forall|a: AccountId|
            indexed(#[trigger] holdings(self.owned_kitties_array@, a), self.owned_kitties_index@)
        &&& forall|id: H256| #[trigger]
            self.owned_kitties_index@.contains_key(id) ==> self.kitty_owner@.contains_key(id)
        &&& forall|a: AccountId| #[trigger]
            stored_count(self.owned_kitties_count@, a) == holdings(
                self.owned_kitties_array@,
                a,
            ).len()
        &&& self@.wf()
    }

    /// A consistent registry is a consistent value.
    pub proof fn lemma_wf(&self)
        requires
            self.wf(),
        ensures
            self@.wf(),
    {
    }

    /// An empty registry.
    pub fn new() -> (registry: Self)
        ensures
            registry.wf(),
            registry@ == State::init(),
    {
        let registry = Module {
            kitties: HashStore::new(),
            kitty_owner: HashStore::new(),
            all_kitties_array: Vec::new(),
            all_kitties_count: 0,
            all_kitties_index: HashStore::new(),
            owned_kitties_array: HashMap::new(),
            owned_kitties_count: HashMap::new(),
            owned_kitties_index: HashStore::new(),
            nonce: 0,
            events: Vec::new(),
        };
        proof {
            lemma_init_wf();
            assert(registry@.owned_kitties =~= State::init().owned_kitties);
        }
        registry
    }

    /// The number of kitties that `who` holds.
    pub fn owned_kitty_count(&self, who: AccountId) -> (count: u64)
        requires
            self.wf(),
        ensures
            count == self@.owned(who).len(),
    {
        assert(stored_count(self.owned_kitties_count@, who) == holdings(
            self.owned_kitties_array@,
            who,
        ).len());
        match self.owned_kitties_count.get(&who) {
            Some(count) => *count,
            None => 0,
        }
    }

    /// Registers `new_kitty` under `kitty_id` as a kitty of `to`, unless the
    /// id is taken or a count is at its limit. Nothing changes on failure.
    pub fn mint(&mut self, to: AccountId, kitty_id: H256, new_kitty: KittyOf) -> (r: Result<
        (),
        Error,
    >)
        requires
            old(self).wf(),
        ensures
            final(self).wf(),
            r == old(self)@.mint_result(to, kitty_id),
            final(self)@ == (if r is Ok {
                old(self)@.mint(to, kitty_id, new_kitty)
            } else {
                old(self)@
            }),
            final(self)@ == old(self)@.apply(Call::Mint(to, kitty_id, new_kitty)),
    {
        if self.kitty_owner.contains(&kitty_id) {
            return Err(Error::AlreadyExists);
        }
        let owned_kitty_count = self.owned_kitty_count(to);
        let new_owned_kitty_count = match owned_kitty_count.checked_add(1) {
            Some(count) => count,
            None => {
                return Err(Error::CountOverflow);
            },
        };
        let all_kitties_count = self.all_kitties_count;
        let new_all_kitties_count = match all_kitties_count.checked_add(1) {
            Some(count) => count,
            None => {
                return Err(Error::CountOverflow);
            },
        };
        let ghost before = self@;
        let ghost old_array = self.owned_kitties_array@;
        let ghost old_index = self.owned_kitties_index@;

        self.kitties.insert(kitty_id, new_kitty);
        self.kitty_owner.insert(kitty_id, to);

        append(&mut self.all_kitties_array, &mut self.all_kitties_index, kitty_id);
        self.all_kitties_count = new_all_kitties_count;

        let mut owned: Vec<H256> = match self.owned_kitties_array.remove(&to) {
            Some(found) => found,
            None => Vec::new(),
        };
        assert(owned@ == holdings(old_array, to));
        append(&mut owned, &mut self.owned_kitties_index, kitty_id);
        self.owned_kitties_array.insert(to, owned);
        self.owned_kitties_count.insert(to, new_owned_kitty_count);

        self.events.push(Event::Created(to, kitty_id));

        proof {
            let after = before.mint(to, kitty_id, new_kitty);
            assert(self@.owned_kitties =~= after.owned_kitties);
            assert(self@ == after);
            lemma_mint_wf(before, to, kitty_id, new_kitty);
            assert(!old(self).all_kitties_index@.contains_key(kitty_id));
            assert(!old_index.contains_key(kitty_id));
            lemma_append_indexed(
                old(self).all_kitties_array@,
                old(self).all_kitties_index@,
                kitty_id,
            );
            assert forall|a: AccountId|
                indexed(
                    #[trigger] holdings(self.owned_kitties_array@, a),
                    self.owned_kitties_index@,
                ) by {
                assert(indexed(holdings(old_array, a), old_index));
                if a == to {
                    lemma_append_indexed(holdings(old_array, a), old_index, kitty_id);
                } else {
                    assert(holdings(self.owned_kitties_array@, a) == holdings(old_array, a));
                    lemma_indexed(holdings(old_array, a), old_index);
                    lemma_indexed_frame(
                        holdings(old_array, a),
                        old_index,
                        self.owned_kitties_index@,
                    );
                }
            }
            assert forall|a: AccountId| #[trigger]
                stored_count(self.owned_kitties_count@, a) == holdings(
                    self.owned_kitties_array@,
                    a,
                ).len() by {
                assert(stored_count(old(self).owned_kitties_count@, a) == holdings(
                    old_array,
                    a,
                ).len());
            }
        }
        Ok(())
    }

    /// Moves `kitty_id` from `from` to `to`, unless the kitty is unknown,
    /// `from` does not own it, or the recipient's count is at its limit.
    /// Nothing changes on failure.
    pub fn transfer_from(&mut self, from: AccountId, to: AccountId, kitty_id: H256) -> (r: Result<
        (),
        Error,
    >)
        requires
            old(self).wf(),
        ensures
            final(self).wf(),
            r == old(self)@.transfer_result(from, to, kitty_id),
            final(self)@ == (if r is Ok {
                old(self)@.transfer_from(from, to, kitty_id)
            } else {
                old(self)@
            }),
            final(self)@ == old(self)@.apply(Call::Transfer(from, to, kitty_id)),
    {
        let owner = match self.kitty_owner.get(&kitty_id) {
            Some(owner) => owner,
            None => {
                return Err(Error::NotFound);
            },
        };
        if owner != from {
            return Err(Error::NotOwner);
        }
        let owned_kitty_count_from = self.owned_kitty_count(from);
        let owned_kitty_count_to = self.owned_kitty_count(to);
        let new_owned_kitty_count_to = match owned_kitty_count_to.checked_add(1) {
            Some(count) => count,
            None => {
                return Err(Error::CountOverflow);
            },
        };
        let new_owned_kitty_count_from = match owned_kitty_count_from.checked_sub(1) {
            Some(count) => count,
            None => {
                return Err(Error::CountUnderflow);
            },
        };
        let ghost before = self@;
        let ghost array_0 = self.owned_kitties_array@;
        let ghost index_0 = self.owned_kitties_index@;
        let ghost counts_0 = self.owned_kitties_count@;
        let ghost sender_0 = holdings(array_0, from);
        proof {
            assert(before.owned(from) == sender_0);
            assert(sender_0.contains(kitty_id));
            assert(indexed(sender_0, index_0));
            lemma_indexed(sender_0, index_0);
            lemma_position_of(sender_0, index_0[kitty_id] as int);
        }
        let ghost idx = index_0[kitty_id] as int;

        // The kitty leaves the sender's enumeration.
        let mut sender_kitties: Vec<H256> = match self.owned_kitties_array.remove(&from) {
            Some(found) => found,
            None => Vec::new(),
        };
        remove(&mut sender_kitties, &mut self.owned_kitties_index, kitty_id);
        self.owned_kitties_array.insert(from, sender_kitties);
        self.owned_kitties_count.insert(from, new_owned_kitty_count_from);

        let ghost array_1 = self.owned_kitties_array@;
        let ghost index_1 = self.owned_kitties_index@;
        let ghost released = before.released(from, kitty_id);
        proof {
            assert(holdings(array_1, from) == swap_and_pop(sender_0, idx));
            assert(index_1 == index_after_removal(sender_0, index_0, idx));
            assert forall|a: AccountId| holdings(array_1, a) == #[trigger] released.owned(a) by {
                if a != from {
                    assert(holdings(array_1, a) == holdings(array_0, a));
                }
            }
            lemma_removal_indexed(sender_0, index_0, idx);
            lemma_swap_and_pop(sender_0, idx);
            assert forall|a: AccountId| indexed(#[trigger] holdings(array_1, a), index_1) by {
                if a != from {
                    let items = holdings(array_0, a);
                    assert(indexed(items, index_0));
                    lemma_indexed(items, index_0);
                    assert forall|e: H256| #[trigger] items.contains(e) implies index_1.contains_key(
                        e,
                    ) && index_1[e] == index_0[e] by {
                        assert(before.owned(a).contains(e));
                        assert(before.kitty_owner[e] == a);
                        assert(sender_0.contains(sender_0.last()));
                        assert(before.owned(from).contains(sender_0.last()));
                    }
                    lemma_indexed_frame(items, index_0, index_1);
                }
            }
            assert(!index_1.contains_key(kitty_id));
        }

        // The kitty joins the recipient's enumeration.
        let mut recipient_kitties: Vec<H256> = match self.owned_kitties_array.remove(&to) {
            Some(found) => found,
            None => Vec::new(),
        };
        let ghost recipient_1 = recipient_kitties@;
        assert(recipient_1 == holdings(array_1, to));
        assert(recipient_1.len() < u64::MAX);
        append(&mut recipient_kitties, &mut self.owned_kitties_index, kitty_id);
        let received_count: u64 = recipient_kitties.len() as u64;
        self.owned_kitties_array.insert(to, recipient_kitties);
        self.owned_kitties_count.insert(to, received_count);
        self.kitty_owner.insert(kitty_id, to);

        self.events.push(Event::Transferred(from, to, kitty_id));

        proof {
            let after = before.transfer_from(from, to, kitty_id);
            let array_2 = self.owned_kitties_array@;
            let index_2 = self.owned_kitties_index@;
            assert(released.owned(to) == recipient_1);
            assert forall|a: AccountId| holdings(array_2, a) == #[trigger] after.owned(a) by {
                if a != to {
                    assert(holdings(array_2, a) == holdings(array_1, a));
                    assert(holdings(array_1, a) == released.owned(a));
                }
            }
            assert(self@.owned_kitties =~= after.owned_kitties);
            assert(self@ == after);
            lemma_transfer_wf(before, from, to, kitty_id);
            assert forall|a: AccountId| indexed(#[trigger] holdings(array_2, a), index_2) by {
                let items = holdings(array_1, a);
                assert(indexed(items, index_1));
                if a == to {
                    lemma_append_indexed(items, index_1, kitty_id);
                } else {
                    assert(holdings(array_2, a) == items);
                    lemma_indexed(items, index_1);
                    lemma_indexed_frame(items, index_1, index_2);
                }
            }
            assert forall|id: H256| #[trigger] index_2.contains_key(id) implies self.kitty_owner@.contains_key(
                id,
            ) by {
                if id != kitty_id {
                    assert(index_1.contains_key(id));
                    if id == sender_0.last() {
                        assert(sender_0.contains(sender_0.last()));
                        assert(before.owned(from).contains(id));
                    } else {
                        assert(index_0.contains_key(id));
                    }
                }
            }
            assert forall|a: AccountId| #[trigger]
                stored_count(self.owned_kitties_count@, a) == holdings(array_2, a).len() by {
                assert(stored_count(counts_0, a) == holdings(array_0, a).len());
                if a != to {
                    assert(holdings(array_2, a) == holdings(array_1, a));
                    if a != from {
                        assert(holdings(array_1, a) == holdings(array_0, a));
                    }
                }
            }
        }
        Ok(())
    }

    /// The record of `kitty_id`, if such a kitty exists.
    pub fn kitty(&self, kitty_id: &H256) -> (r: Option<KittyOf>)
        requires
            self.wf(),
        ensures
            r == (if self@.kitties.contains_key(*kitty_id) {
                Some(self@.kitties[*kitty_id])
            } else {
                None
            }),
    {
        self.kitties.get(kitty_id)
    }

    /// Whether a kitty with this id exists.
    pub fn kitty_exists(&self, kitty_id: &H256) -> (r: bool)
        requires
            self.wf(),
        ensures
            r == self@.kitties.contains_key(*kitty_id),
    {
        self.kitties.contains(kitty_id)
    }

    /// The owner of `kitty_id`, if such a kitty exists.
    pub fn owner_of(&self, kitty_id: &H256) -> (r: Option<AccountId>)
        requires
            self.wf(),
        ensures
            r == (if self@.kitty_owner.contains_key(*kitty_id) {
                Some(self@.kitty_owner[*kitty_id])
            } else {
                None
            }),
    {
        self.kitty_owner.get(kitty_id)
    }

    /// The number of kitties.
    pub fn all_kitties_count(&self) -> (count: u64)
        requires
            self.wf(),
        ensures
            count == self@.all_kitties.len(),
    {
        self.all_kitties_count
    }

    /// The id of the kitty that was minted as number `index`, counting from
    /// zero.
    pub fn kitty_by_index(&self, index: u64) -> (r: Option<H256>)
        requires
            self.wf(),
        ensures
            r == (if index < self@.all_kitties.len() {
                Some(self@.all_kitties[index as int])
            } else {
                None
            }),
    {
        if index < self.all_kitties_array.len() as u64 {
            Some(self.all_kitties_array[index as usize])
        } else {
            None
        }
    }

    /// The id at position `index` among the kitties of `who`.
    pub fn kitty_of_owner_by_index(&self, who: AccountId, index: u64) -> (r: Option<H256>)
        requires
            self.wf(),
        ensures
            r == (if index < self@.owned(who).len() {
                Some(self@.owned(who)[index as int])
            } else {
                None
            }),
    {
        match self.owned_kitties_array.get(&who) {
            Some(owned) => {
                assert(owned@ == holdings(self.owned_kitties_array@, who));
                if index < owned.len() as u64 {
                    Some(owned[index as usize])
                } else {
                    None
                }
            },
            None => {
                assert(holdings(self.owned_kitties_array@, who).len() == 0);
                None
            },
        }
    }

    /// The number of kitties created from a random hash so far.
    pub fn nonce(&self) -> (nonce: u64)
        ensures
            nonce == self@.nonce,
    {
        self.nonce
    }

    /// Hands out the events recorded since the last call, oldest first.
    pub fn take_events(&mut self) -> (events: Vec<Event>)
        requires
            old(self).wf(),
        ensures
            final(self).wf(),
            events@ == old(self)@.events,
            final(self)@ == old(self)@.drained(),
            final(self)@ == old(self)@.apply(Call::TakeEvents),
    {
        let mut events: Vec<Event> = Vec::new();
        std::mem::swap(&mut self.events, &mut events);
        proof {
            lemma_drained_wf(old(self)@);
            assert(self@.owned_kitties =~= old(self)@.owned_kitties);
        }
        events
    }

    /// Sets the price of `kitty_id`, unless the kitty is unknown or `sender`
    /// does not own it. A price of zero takes the kitty off the market.
    pub fn set_price(&mut self, sender: AccountId, kitty_id: H256, new_price: Balance) -> (r:
        Result<(), Error>)
        requires
            old(self).wf(),
        ensures
            final(self).wf(),
            r == old(self)@.set_price_result(sender, kitty_id),
            final(self)@ == (if r is Ok {
                old(self)@.set_price(sender, kitty_id, new_price)
            } else {
                old(self)@
            }),
            final(self)@ == old(self)@.apply(Call::SetPrice(sender, kitty_id, new_price)),
    {
        let mut kitty = match self.kitties.get(&kitty_id) {
            Some(kitty) => kitty,
            None => {
                return Err(Error::NotFound);
            },
        };
        let owner = match self.kitty_owner.get(&kitty_id) {
            Some(owner) => owner,
            None => {
                return Err(Error::NotFound);
            },
        };
        if owner != sender {
            return Err(Error::NotOwner);
        }
        kitty.price = new_price;
        self.kitties.insert(kitty_id, kitty);
        self.events.push(Event::PriceSet(sender, kitty_id, new_price));
        proof {
            lemma_set_price_wf(old(self)@, sender, kitty_id, new_price);
            assert(self@.owned_kitties =~= old(self)@.owned_kitties);
        }
        Ok(())
    }

    /// Gives `kitty_id` to `to`, unless the kitty is unknown, `sender` does
    /// not own it, or the recipient's count is at its limit.
    pub fn transfer(&mut self, sender: AccountId, to: AccountId, kitty_id: H256) -> (r: Result<
        (),
        Error,
    >)
        requires
            old(self).wf(),
        ensures
            final(self).wf(),
            r == old(self)@.transfer_result(sender, to, kitty_id),
            final(self)@ == (if r is Ok {
                old(self)@.transfer_from(sender, to, kitty_id)
            } else {
                old(self)@
            }),
            final(self)@ == old(self)@.apply(Call::Transfer(sender, to, kitty_id)),
    {
        let owner = match self.owner_of(&kitty_id) {
            Some(owner) => owner,
            None => {
                return Err(Error::NotFound);
            },
        };
        if owner != sender {
            return Err(Error::NotOwner);
        }
        self.transfer_from(sender, to, kitty_id)
    }

    /// Decides whether `sender` may buy `kitty_id` for at most `max_price`.
    /// Where the purchase may go ahead, the result names the seller and the
    /// price: the funds that have to move from the buyer to the seller before
    /// the purchase is settled.
    pub fn check_purchase(&self, sender: AccountId, kitty_id: H256, max_price: Balance) -> (r:
        Result<(AccountId, Balance), Error>)
        requires
            self.wf(),
        ensures
            match self@.purchase_result(sender, kitty_id, max_price) {
                Ok(()) => r == Ok::<(AccountId, Balance), Error>(
                    (self@.kitty_owner[kitty_id], self@.kitties[kitty_id].price),
                ) && self@.can_settle(sender, kitty_id),
                Err(e) => r == Err::<(AccountId, Balance), Error>(e),
            },
    {
        let kitty = match self.kitties.get(&kitty_id) {
            Some(kitty) => kitty,
            None => {
                return Err(Error::NotFound);
            },
        };
        let owner = match self.kitty_owner.get(&kitty_id) {
            Some(owner) => owner,
            None => {
                return Err(Error::NotFound);
            },
        };
        let kitty_price = kitty.price;
        if kitty_price == 0 {
            return Err(Error::NotForSale);
        }
        if kitty_price > max_price {
            return Err(Error::PriceExceedsLimit);
        }
        if self.owned_kitty_count(sender) == u64::MAX {
            return Err(Error::CountOverflow);
        }
        if self.owned_kitty_count(owner) == 0 {
            return Err(Error::CountUnderflow);
        }
        Ok((owner, kitty_price))
    }

    /// Settles a purchase that `check_purchase` allowed, once the currency
    /// ledger has answered. Where the funds did not move nothing changes;
    /// where they did, the kitty goes to the buyer and its price back to
    /// zero.
    pub fn settle_purchase(
        &mut self,
        sender: AccountId,
        kitty_id: H256,
        funds: Result<(), &'static str>,
    ) -> (r: Result<(), Error>)
        requires
            old(self).wf(),
            old(self)@.can_settle(sender, kitty_id),
        ensures
            final(self).wf(),
            r == (if funds is Ok {
                Ok::<(), Error>(())
            } else {
                Err::<(), Error>(Error::FundsTransferFailed)
            }),
            final(self)@ == (if funds is Ok {
                old(self)@.purchase(sender, kitty_id)
            } else {
                old(self)@
            }),
    {
        if funds.is_err() {
            return Err(Error::FundsTransferFailed);
        }
        let ghost before = self@;
        let mut kitty = match self.kitties.get(&kitty_id) {
            Some(kitty) => kitty,
            None => {
                return Err(Error::NotFound);
            },
        };
        let owner = match self.kitty_owner.get(&kitty_id) {
            Some(owner) => owner,
            None => {
                return Err(Error::NotFound);
            },
        };
        let kitty_price = kitty.price;
        match self.transfer_from(owner, sender, kitty_id) {
            Ok(()) => {},
            Err(e) => {
                return Err(e);
            },
        }
        let ghost moved = self@;
        kitty.price = 0;
        self.kitties.insert(kitty_id, kitty);
        self.events.push(Event::Bought(sender, owner, kitty_id, kitty_price));
        proof {
            lemma_purchase_wf(before, sender, kitty_id);
            assert(self@.owned_kitties =~= moved.owned_kitties);
            assert(self@ == before.purchase(sender, kitty_id));
        }
        Ok(())
    }

    /// Creates a kitty for `sender` whose id and dna are `random_hash`,
    /// unless the id is taken or a count is at its limit.
    pub fn create_kitty_from(&mut self, sender: AccountId, random_hash: H256) -> (r: Result<
        (),
        Error,
    >)
        requires
            old(self).wf(),
        ensures
            final(self).wf(),
            r == old(self)@.mint_result(sender, random_hash),
            final(self)@ == (if r is Ok {
                old(self)@.create_kitty(sender, random_hash)
            } else {
                old(self)@
            }),
            final(self)@ == old(self)@.apply(Call::Create(sender, random_hash)),
    {
        let new_kitty = KittyOf::newborn(random_hash);
        match self.mint(sender, random_hash, new_kitty) {
            Ok(()) => {},
            Err(e) => {
                return Err(e);
            },
        }
        let ghost minted = self@;
        proof {
            lemma_create_kitty_wf(old(self)@, sender, random_hash);
        }
        self.nonce = self.nonce + 1;
        proof {
            assert(self@.owned_kitties =~= minted.owned_kitties);
        }
        Ok(())
    }

    /// Breeds a child of `kitty_id_1` and `kitty_id_2` for `sender`. The
    /// child's id is `random_hash`, which also decides which parent each byte
    /// of its dna comes from. Fails where a parent is unknown, the id is
    /// taken or a count is at its limit.
    pub fn breed_kitty_from(
        &mut self,
        sender: AccountId,
        kitty_id_1: H256,
        kitty_id_2: H256,
        random_hash: H256,
    ) -> (r: Result<(), Error>)
        requires
            old(self).wf(),
            old(self)@.can_breed(kitty_id_1, kitty_id_2),
        ensures
            final(self).wf(),
            r == old(self)@.breed_result(sender, kitty_id_1, kitty_id_2, random_hash),
            final(self)@ == (if r is Ok {
                old(self)@.breed_kitty(sender, kitty_id_1, kitty_id_2, random_hash)
            } else {
                old(self)@
            }),
            final(self)@ == old(self)@.apply(
                Call::Breed(sender, kitty_id_1, kitty_id_2, random_hash),
            ),
    {
        let kitty_1 = match self.kitties.get(&kitty_id_1) {
            Some(kitty) => kitty,
            None => {
                return Err(Error::NotFound);
            },
        };
        let kitty_2 = match self.kitties.get(&kitty_id_2) {
            Some(kitty) => kitty,
            None => {
                return Err(Error::NotFound);
            },
        };
        let new_kitty = kitty_1.child(&kitty_2, random_hash);
        match self.mint(sender, random_hash, new_kitty) {
            Ok(()) => {},
            Err(e) => {
                return Err(e);
            },
        }
        let ghost minted = self@;
        proof {
            lemma_breed_kitty_wf(old(self)@, sender, kitty_id_1, kitty_id_2, random_hash);
        }
        self.nonce = self.nonce + 1;
        proof {
            assert(self@.owned_kitties =~= minted.owned_kitties);
        }
        Ok(())
    }
}

} // verus!
