//! The registry as a mathematical value: what it holds, which values are
//! consistent, and what each operation makes of it.

use crate::kitty::{can_breed, spec_child, spec_newborn, Error, Event, Kitty, KittyOf};
use crate::primitives::{AccountId, Balance, H256};
use vstd::prelude::*;

verus! {

/// One more than the largest account id.
pub open spec fn account_limit() -> nat {
    0x1_0000_0000_0000_0000
}

/// `items` without the entry at `idx`: the last entry takes its place.
pub open spec fn swap_and_pop(items: Seq<H256>, idx: int) -> Seq<H256> {
    items.update(idx, items.last()).drop_last()
}

/// Where `id` stands in `items`.
pub open spec fn position_of(items: Seq<H256>, id: H256) -> int {
    choose|i: int| 0 <= i < items.len() && items[i] == id
}

/// In a sequence without duplicates an entry's position is the only index
/// that holds it.
pub proof fn lemma_position_of(items: Seq<H256>, i: int)
    requires
        items.no_duplicates(),
        0 <= i < items.len(),
    ensures
        position_of(items, items[i]) == i,
        items.contains(items[i]),
{
}

/// Appending keeps what was there and adds the new entry.
pub proof fn lemma_push_contains(items: Seq<H256>, id: H256)
    ensures
        forall|e: H256| #[trigger] items.push(id).contains(e) <==> items.contains(e) || e == id,
        items.no_duplicates() && !items.contains(id) ==> items.push(id).no_duplicates(),
{
    let pushed = items.push(id);
    assert forall|e: H256| #[trigger] pushed.contains(e) <==> items.contains(e) || e == id by {
        if items.contains(e) {
            let i = choose|i: int| 0 <= i < items.len() && items[i] == e;
            assert(pushed[i] == e);
        }
        if e == id {
            assert(pushed[items.len() as int] == e);
        }
        if pushed.contains(e) && e != id {
            let i = choose|i: int| 0 <= i < pushed.len() && pushed[i] == e;
            assert(items[i] == e);
        }
    }
    if items.no_duplicates() && !items.contains(id) {
        assert forall|i: int, j: int|
            0 <= i < pushed.len() && 0 <= j < pushed.len() && i != j implies pushed[i]
            != pushed[j] by {
            if i < items.len() {
                assert(items.contains(items[i]));
            }
            if j < items.len() {
                assert(items.contains(items[j]));
            }
        }
    }
}

/// Removing by swap-and-pop takes out exactly the entry at `idx`.
pub proof fn lemma_swap_and_pop(items: Seq<H256>, idx: int)
    requires
        items.no_duplicates(),
        0 <= idx < items.len(),
    ensures
        swap_and_pop(items, idx).len() == items.len() - 1,
        swap_and_pop(items, idx).no_duplicates(),
        !swap_and_pop(items, idx).contains(items[idx]),
        forall|e: H256|
            e != items[idx] ==> (#[trigger] swap_and_pop(items, idx).contains(e)
                <==> items.contains(e)),
{
    let popped = swap_and_pop(items, idx);
    let last = items.len() - 1;
    // Where the entry at `i` in `popped` stood in `items`.
    let origin = |i: int|
        if i == idx {
            last
        } else {
            i
        };
    assert forall|i: int| 0 <= i < popped.len() implies popped[i] == items[origin(i)]
        && popped[i] != items[idx] by {}
    assert forall|i: int, j: int|
        0 <= i < popped.len() && 0 <= j < popped.len() && i != j implies popped[i]
        != popped[j] by {
        assert(popped[i] == items[origin(i)]);
        assert(popped[j] == items[origin(j)]);
    }
    if popped.contains(items[idx]) {
        let i = choose|i: int| 0 <= i < popped.len() && popped[i] == items[idx];
        assert(popped[i] == items[origin(i)]);
    }
    assert forall|e: H256| e != items[idx] implies (#[trigger] popped.contains(e)
        <==> items.contains(e)) by {
        if popped.contains(e) {
            let i = choose|i: int| 0 <= i < popped.len() && popped[i] == e;
            assert(items[origin(i)] == e);
        }
        if items.contains(e) {
            let i = choose|i: int| 0 <= i < items.len() && items[i] == e;
            if i == last {
                assert(popped[idx] == e);
            } else {
                assert(popped[i] == e);
            }
        }
    }
}

/// Everything the registry holds.
pub struct State {
    /// The record of every kitty, by id.
    pub kitties: Map<H256, KittyOf>,
    /// The owner of every kitty, by id.
    pub kitty_owner: Map<H256, AccountId>,
    /// All kitty ids, in the order in which they were minted.
    pub all_kitties: Seq<H256>,
    /// For every account, the ids of the kitties it holds.
    pub owned_kitties: Map<AccountId, Seq<H256>>,
    /// How many kitties were created from a random hash so far.
    pub nonce: u64,
    /// The events of all successful operations, oldest first.
    pub events: Seq<Event>,
}

impl State {
    /// The registry before anything was minted.
    pub open spec fn init() -> State {
        State {
            kitties: Map::empty(),
            kitty_owner: Map::empty(),
            all_kitties: Seq::empty(),
            owned_kitties: Map::new(|a: AccountId| true, |a: AccountId| Seq::empty()),
            nonce: 0,
            events: Seq::empty(),
        }
    }

    /// The ids that `who` holds, in enumeration order.
    pub open spec fn owned(self, who: AccountId) -> Seq<H256> {
        self.owned_kitties[who]
    }

    /// The number of kitties held by accounts below `n`, taken together.
    pub open spec fn owned_below(self, n: nat) -> nat
        decreases n,
    {
        if n == 0 {
            0
        } else {
            self.owned((n - 1) as AccountId).len() + self.owned_below((n - 1) as nat)
        }
    }

    /// The sum of all owners' counts.
    pub open spec fn total_owned(self) -> nat {
        self.owned_below(account_limit())
    }

    /// The consistency that every operation keeps.
    pub open spec fn wf(self) -> bool {
        &&& self.all_kitties.no_duplicates()
        &&& self.all_kitties.len() <= u64::MAX
        &&& forall|id: H256| #[trigger] self.kitties.contains_key(id) ==> self.all_kitties.contains(id)
        &&& forall|id: H256| #[trigger]
            self.all_kitties.contains(id) ==> self.kitties.contains_key(id)
                && self.kitty_owner.contains_key(id)
        &&& forall|id: H256| #[trigger]
            self.kitty_owner.contains_key(id) ==> self.all_kitties.contains(id) && self.owned(
                self.kitty_owner[id],
            ).contains(id)
        &&& forall|a: AccountId| #[trigger] self.owned_kitties.contains_key(a)
        &&& forall|a: AccountId|
            (#[trigger] self.owned(a)).no_duplicates() && self.owned(a).len() <= u64::MAX
        &&& forall|a: AccountId, id: H256| #[trigger]
            self.owned(a).contains(id) ==> self.kitty_owner.contains_key(id)
                && self.kitty_owner[id] == a
        &&& self.total_owned() == self.all_kitties.len()
        &&& self.nonce <= self.all_kitties.len()
    }

    /// Whether `mint` goes through, and why not.
    pub open spec fn mint_result(self, to: AccountId, id: H256) -> Result<(), Error> {
        if self.kitty_owner.contains_key(id) {
            Err(Error::AlreadyExists)
        } else if self.owned(to).len() >= u64::MAX {
            Err(Error::CountOverflow)
        } else if self.all_kitties.len() >= u64::MAX {
            Err(Error::CountOverflow)
        } else {
            Ok(())
        }
    }

    /// The registry after `kitty` was minted for `to` under `id`.
    pub open spec fn mint(self, to: AccountId, id: H256, kitty: KittyOf) -> State {
        State {
            kitties: self.kitties.insert(id, kitty),
            kitty_owner: self.kitty_owner.insert(id, to),
            all_kitties: self.all_kitties.push(id),
            owned_kitties: self.owned_kitties.insert(to, self.owned(to).push(id)),
            nonce: self.nonce,
            events: self.events.push(Event::Created(to, id)),
        }
    }

    /// Whether `transfer_from` goes through, and why not.
    pub open spec fn transfer_result(self, from: AccountId, to: AccountId, id: H256) -> Result<
        (),
        Error,
    > {
        if !self.kitty_owner.contains_key(id) {
            Err(Error::NotFound)
        } else if self.kitty_owner[id] != from {
            Err(Error::NotOwner)
        } else if self.owned(to).len() >= u64::MAX {
            Err(Error::CountOverflow)
        } else if self.owned(from).len() == 0 {
            Err(Error::CountUnderflow)
        } else {
            Ok(())
        }
    }

    /// The registry after `id` was taken out of the holdings of `from`.
    pub open spec fn released(self, from: AccountId, id: H256) -> State {
        State {
            owned_kitties: self.owned_kitties.insert(
                from,
                swap_and_pop(self.owned(from), position_of(self.owned(from), id)),
            ),
            ..self
        }
    }

    /// The registry after `id` was added to the holdings of `to`.
    pub open spec fn received(self, to: AccountId, id: H256) -> State {
        State {
            kitty_owner: self.kitty_owner.insert(id, to),
            owned_kitties: self.owned_kitties.insert(to, self.owned(to).push(id)),
            ..self
        }
    }

    /// The registry after `id` moved from `from` to `to`: it leaves the
    /// sender's holdings by swap-and-pop and joins the end of the
    /// recipient's.
    pub open spec fn transfer_from(self, from: AccountId, to: AccountId, id: H256) -> State {
        let moved = self.released(from, id).received(to, id);
        State { events: self.events.push(Event::Transferred(from, to, id)), ..moved }
    }

    /// Whether `set_price` goes through, and why not.
    pub open spec fn set_price_result(self, caller: AccountId, id: H256) -> Result<(), Error> {
        if !self.kitties.contains_key(id) || !self.kitty_owner.contains_key(id) {
            Err(Error::NotFound)
        } else if self.kitty_owner[id] != caller {
            Err(Error::NotOwner)
        } else {
            Ok(())
        }
    }

    /// The registry after the price of `id` was set.
    pub open spec fn priced(self, id: H256, price: Balance) -> State {
        State { kitties: self.kitties.insert(id, Kitty { price, ..self.kitties[id] }), ..self }
    }

    /// The registry after `caller` set the price of `id` to `new_price`.
    pub open spec fn set_price(self, caller: AccountId, id: H256, new_price: Balance) -> State {
        State {
            events: self.events.push(Event::PriceSet(caller, id, new_price)),
            ..self.priced(id, new_price)
        }
    }

    /// Whether `buyer` may buy `id` for at most `max_price`, and why not. The
    /// conditions of the transfer from the seller are part of it, so that
    /// nothing can fail once the funds have moved.
    pub open spec fn purchase_result(self, buyer: AccountId, id: H256, max_price: Balance) -> Result<
        (),
        Error,
    > {
        if !self.kitties.contains_key(id) || !self.kitty_owner.contains_key(id) {
            Err(Error::NotFound)
        } else if self.kitties[id].price == 0 {
            Err(Error::NotForSale)
        } else if self.kitties[id].price > max_price {
            Err(Error::PriceExceedsLimit)
        } else {
            self.transfer_result(self.kitty_owner[id], buyer, id)
        }
    }

    /// Whether a purchase of `id` by `buyer` can be settled: the kitty is for
    /// sale and its transfer to the buyer goes through.
    pub open spec fn can_settle(self, buyer: AccountId, id: H256) -> bool {
        self.purchase_result(buyer, id, u64::MAX) is Ok
    }

    /// The registry after `buyer` bought `id`: the kitty moved from its
    /// seller to the buyer and is no longer for sale.
    pub open spec fn purchase(self, buyer: AccountId, id: H256) -> State {
        let seller = self.kitty_owner[id];
        let price = self.kitties[id].price;
        let moved = self.transfer_from(seller, buyer, id).priced(id, 0);
        State { events: moved.events.push(Event::Bought(buyer, seller, id, price)), ..moved }
    }

    /// The registry after a kitty was created for `sender` from a fresh
    /// random hash.
    pub open spec fn create_kitty(self, sender: AccountId, random_hash: H256) -> State {
        State {
            nonce: (self.nonce + 1) as u64,
            ..self.mint(sender, random_hash, spec_newborn(random_hash))
        }
    }

    /// Whether breeding goes through, and why not.
    pub open spec fn breed_result(
        self,
        sender: AccountId,
        id_1: H256,
        id_2: H256,
        random_hash: H256,
    ) -> Result<(), Error> {
        if !self.kitties.contains_key(id_1) || !self.kitties.contains_key(id_2) {
            Err(Error::NotFound)
        } else {
            self.mint_result(sender, random_hash)
        }
    }

    /// Whether the child of `id_1` and `id_2` has a generation that can be
    /// counted. It holds wherever one of the two is unknown.
    pub open spec fn can_breed(self, id_1: H256, id_2: H256) -> bool {
        self.kitties.contains_key(id_1) && self.kitties.contains_key(id_2) ==> can_breed(
            self.kitties[id_1],
            self.kitties[id_2],
        )
    }

    /// The registry after `sender` bred `id_1` with `id_2` under a fresh
    /// random hash.
    pub open spec fn breed_kitty(
        self,
        sender: AccountId,
        id_1: H256,
        id_2: H256,
        random_hash: H256,
    ) -> State {
        State {
            nonce: (self.nonce + 1) as u64,
            ..self.mint(
                sender,
                random_hash,
                spec_child(self.kitties[id_1], self.kitties[id_2], random_hash),
            )
        }
    }

    /// The registry after its events were handed out.
    pub open spec fn drained(self) -> State {
        State { events: Seq::empty(), ..self }
    }
}

/// A call that changes the registry.
pub enum Call {
    /// Mint this kitty for this account under this id.
    Mint(AccountId, H256, KittyOf),
    /// Move this kitty from the first account to the second.
    Transfer(AccountId, AccountId, H256),
    /// Let this account set the price of this kitty.
    SetPrice(AccountId, H256, Balance),
    /// Let this account buy this kitty for at most this price, the funds
    /// having moved.
    Buy(AccountId, H256, Balance),
    /// Create a kitty for this account from this random hash.
    Create(AccountId, H256),
    /// Breed these two kitties for this account under this random hash.
    Breed(AccountId, H256, H256, H256),
    /// Hand out the events.
    TakeEvents,
}

impl State {
    /// The registry after `call`: what the operation makes of it where it
    /// goes through, and the registry as it was where it is refused.
    pub open spec fn apply(self, call: Call) -> State {
        match call {
            Call::Mint(to, id, kitty) => if self.mint_result(to, id) is Ok {
                self.mint(to, id, kitty)
            } else {
                self
            },
            Call::Transfer(from, to, id) => if self.transfer_result(from, to, id) is Ok {
                self.transfer_from(from, to, id)
            } else {
                self
            },
            Call::SetPrice(caller, id, price) => if self.set_price_result(caller, id) is Ok {
                self.set_price(caller, id, price)
            } else {
                self
            },
            Call::Buy(buyer, id, max_price) => if self.purchase_result(buyer, id, max_price) is Ok {
                self.purchase(buyer, id)
            } else {
                self
            },
            Call::Create(sender, random_hash) => if self.mint_result(sender, random_hash) is Ok {
                self.create_kitty(sender, random_hash)
            } else {
                self
            },
            Call::Breed(sender, id_1, id_2, random_hash) => if self.breed_result(
                sender,
                id_1,
                id_2,
                random_hash,
            ) is Ok {
                self.breed_kitty(sender, id_1, id_2, random_hash)
            } else {
                self
            },
            Call::TakeEvents => self.drained(),
        }
    }

    /// The registry that a sequence of calls makes of the empty one.
    pub open spec fn after(calls: Seq<Call>) -> State
        decreases calls.len(),
    {
        if calls.len() == 0 {
            State::init()
        } else {
            State::after(calls.drop_last()).apply(calls.last())
        }
    }
}

} // verus!
