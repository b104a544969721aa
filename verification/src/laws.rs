//! What holds of every consistent registry, and that every operation keeps
//! the registry consistent.

use crate::kitty::{lemma_splice_bytes, max_gen, spec_child, spec_newborn, Error, KittyOf};
use crate::primitives::{AccountId, Balance, H256};
use crate::state::{
    account_limit, lemma_push_contains, lemma_swap_and_pop, position_of, swap_and_pop, Call,
    State,
};
use vstd::prelude::*;

verus! {

/// Two registries whose holdings differ in length for one account at most
/// differ by as much in the sum of the counts.
pub proof fn lemma_owned_below_frame(before: State, after: State, who: AccountId, n: nat)
    requires
        n <= account_limit(),
        forall|a: AccountId| a != who ==> #[trigger] after.owned(a).len() == before.owned(a).len(),
    ensures
        after.owned_below(n) - before.owned_below(n) == (if who < n {
            after.owned(who).len() - before.owned(who).len()
        } else {
            0
        }),
    decreases n,
{
    if n > 0 {
        lemma_owned_below_frame(before, after, who, (n - 1) as nat);
        let a = (n - 1) as AccountId;
        if a != who {
            assert(after.owned(a).len() == before.owned(a).len());
        }
    }
}

/// No account holds more kitties than all accounts together.
pub proof fn lemma_owned_below_bounds(s: State, who: AccountId, n: nat)
    requires
        n <= account_limit(),
    ensures
        who < n ==> s.owned(who).len() <= s.owned_below(n),
    decreases n,
{
    if n > 0 {
        lemma_owned_below_bounds(s, who, (n - 1) as nat);
    }
}

/// The empty registry is consistent.
pub proof fn lemma_init_wf()
    ensures
        State::init().wf(),
{
    let s = State::init();
    lemma_init_owned_below(account_limit());
}

proof fn lemma_init_owned_below(n: nat)
    requires
        n <= account_limit(),
    ensures
        State::init().owned_below(n) == 0,
    decreases n,
{
    if n > 0 {
        lemma_init_owned_below((n - 1) as nat);
    }
}

/// A successful mint keeps the registry consistent.
pub proof fn lemma_mint_wf(s: State, to: AccountId, id: H256, kitty: KittyOf)
    requires
        s.wf(),
        s.mint_result(to, id) is Ok,
    ensures
        s.mint(to, id, kitty).wf(),
{
    let t = s.mint(to, id, kitty);
    lemma_push_contains(s.all_kitties, id);
    lemma_push_contains(s.owned(to), id);
    assert(!s.all_kitties.contains(id));
    assert(!s.owned(to).contains(id));
    assert forall|a: AccountId| #[trigger] t.owned_kitties.contains_key(a) by {
        assert(s.owned_kitties.contains_key(a));
    }
    assert forall|a: AccountId|
        (#[trigger] t.owned(a)).no_duplicates() && t.owned(a).len() <= u64::MAX by {
        assert(s.owned(a).no_duplicates());
    }
    assert forall|a: AccountId, e: H256| #[trigger] t.owned(a).contains(e) implies t.kitty_owner.contains_key(
        e,
    ) && t.kitty_owner[e] == a by {
        if a == to {
            if e != id {
                assert(s.owned(a).contains(e));
            }
        } else {
            assert(s.owned(a).contains(e));
        }
    }
    assert forall|e: H256| #[trigger] t.kitty_owner.contains_key(e) implies t.all_kitties.contains(
        e,
    ) && t.owned(t.kitty_owner[e]).contains(e) by {
        if e != id {
            assert(s.kitty_owner.contains_key(e));
            assert(s.owned(s.kitty_owner[e]).contains(e));
        }
    }
    assert forall|e: H256| #[trigger] t.all_kitties.contains(e) implies t.kitties.contains_key(e)
        && t.kitty_owner.contains_key(e) by {
        if e != id {
            assert(s.all_kitties.contains(e));
        }
    }
    assert forall|e: H256| #[trigger] t.kitties.contains_key(e) implies t.all_kitties.contains(
        e,
    ) by {
        if e != id {
            assert(s.kitties.contains_key(e));
        }
    }
    assert(t.total_owned() == t.all_kitties.len()) by {
        assert forall|a: AccountId| a != to implies #[trigger] t.owned(a).len() == s.owned(
            a,
        ).len() by {}
        lemma_owned_below_frame(s, t, to, account_limit());
    }
}

/// Taking a kitty out of its owner's holdings leaves every other holding as
/// it was.
proof fn lemma_released(s: State, from: AccountId, id: H256)
    requires
        s.wf(),
        s.kitty_owner.contains_key(id),
        s.kitty_owner[id] == from,
    ensures
        s.released(from, id).owned(from).len() == s.owned(from).len() - 1,
        s.released(from, id).owned(from).no_duplicates(),
        !s.released(from, id).owned(from).contains(id),
        forall|e: H256|
            e != id ==> (#[trigger] s.released(from, id).owned(from).contains(e) <==> s.owned(
                from,
            ).contains(e)),
        forall|a: AccountId| a != from ==> #[trigger] s.released(from, id).owned(a) == s.owned(a),
        s.released(from, id).total_owned() == s.total_owned() - 1,
{
    let r = s.released(from, id);
    let items = s.owned(from);
    assert(items.contains(id));
    let idx = position_of(items, id);
    assert(items.no_duplicates());
    lemma_swap_and_pop(items, idx);
    assert(s.owned_kitties.contains_key(from));
    assert(r.owned(from) == swap_and_pop(items, idx));
    assert forall|a: AccountId| a != from implies #[trigger] r.owned(a) == s.owned(a) by {}
    assert forall|a: AccountId| a != from implies #[trigger] r.owned(a).len() == s.owned(a).len() by {
        assert(r.owned(a) == s.owned(a));
    }
    lemma_owned_below_frame(s, r, from, account_limit());
}

/// A successful transfer keeps the registry consistent.
pub proof fn lemma_transfer_wf(s: State, from: AccountId, to: AccountId, id: H256)
    requires
        s.wf(),
        s.transfer_result(from, to, id) is Ok,
    ensures
        s.transfer_from(from, to, id).wf(),
{
    let r = s.released(from, id);
    let t = s.transfer_from(from, to, id);
    lemma_released(s, from, id);
    lemma_push_contains(r.owned(to), id);
    assert(r.owned_kitties.contains_key(to)) by {
        assert(s.owned_kitties.contains_key(to));
    }
    assert(t.owned(to) == r.owned(to).push(id));
    assert(!r.owned(to).contains(id)) by {
        if to != from {
            assert(r.owned(to) == s.owned(to));
            if s.owned(to).contains(id) {
                assert(s.kitty_owner[id] == to);
            }
        }
    }
    assert forall|a: AccountId| a != to implies #[trigger] t.owned(a) == r.owned(a) by {}
    assert forall|a: AccountId| #[trigger] t.owned_kitties.contains_key(a) by {
        assert(s.owned_kitties.contains_key(a));
    }
    assert forall|a: AccountId|
        (#[trigger] t.owned(a)).no_duplicates() && t.owned(a).len() <= u64::MAX by {
        assert(s.owned(a).no_duplicates());
        if a != to {
            assert(t.owned(a) == r.owned(a));
            if a != from {
                assert(r.owned(a) == s.owned(a));
            }
        } else if a != from {
            assert(r.owned(a) == s.owned(a));
        }
    }
    assert forall|a: AccountId, e: H256| #[trigger] t.owned(a).contains(e) implies t.kitty_owner.contains_key(
        e,
    ) && t.kitty_owner[e] == a by {
        if a == to {
            if e != id {
                assert(r.owned(a).contains(e));
                if a == from {
                    assert(s.owned(a).contains(e));
                } else {
                    assert(r.owned(a) == s.owned(a));
                    assert(s.owned(a).contains(e));
                }
            }
        } else {
            assert(t.owned(a) == r.owned(a));
            if a == from {
                assert(e != id);
                assert(s.owned(a).contains(e));
            } else {
                assert(r.owned(a) == s.owned(a));
                assert(s.owned(a).contains(e));
                assert(e != id);
            }
        }
    }
    assert forall|e: H256| #[trigger] t.kitty_owner.contains_key(e) implies t.all_kitties.contains(
        e,
    ) && t.owned(t.kitty_owner[e]).contains(e) by {
        assert(s.kitty_owner.contains_key(e));
        if e != id {
            let a = s.kitty_owner[e];
            assert(s.owned(a).contains(e));
            if a == from {
                assert(r.owned(a).contains(e));
            } else {
                assert(r.owned(a) == s.owned(a));
            }
            if a != to {
                assert(t.owned(a) == r.owned(a));
            }
        }
    }
    assert(t.total_owned() == t.all_kitties.len()) by {
        assert forall|a: AccountId| a != to implies #[trigger] t.owned(a).len() == r.owned(
            a,
        ).len() by {
            assert(t.owned(a) == r.owned(a));
        }
        lemma_owned_below_frame(r, t, to, account_limit());
    }
}

/// Setting a price keeps the registry consistent.
pub proof fn lemma_priced_wf(s: State, id: H256, price: Balance)
    requires
        s.wf(),
        s.kitties.contains_key(id),
    ensures
        s.priced(id, price).wf(),
        s.priced(id, price).total_owned() == s.total_owned(),
{
    let t = s.priced(id, price);
    assert forall|e: H256| #[trigger] t.kitties.contains_key(e) implies t.all_kitties.contains(
        e,
    ) by {
        if e != id {
            assert(s.kitties.contains_key(e));
        }
    }
    assert forall|a: AccountId| #[trigger] t.owned(a) == s.owned(a) by {}
    lemma_same_holdings(s, t);
}

/// Registries with the same holdings have the same sum of counts.
pub proof fn lemma_same_holdings(s: State, t: State)
    requires
        s.owned_kitties == t.owned_kitties,
    ensures
        s.total_owned() == t.total_owned(),
{
    assert forall|a: AccountId| a != 0 implies #[trigger] t.owned(a).len() == s.owned(a).len() by {}
    lemma_owned_below_frame(s, t, 0, account_limit());
}

/// Consistency does not depend on the events, and on the nonce only in that
/// it does not exceed the number of kitties.
pub proof fn lemma_same_kitties_wf(s: State, t: State)
    requires
        s.wf(),
        t.kitties == s.kitties,
        t.kitty_owner == s.kitty_owner,
        t.all_kitties == s.all_kitties,
        t.owned_kitties == s.owned_kitties,
        t.nonce <= t.all_kitties.len(),
    ensures
        t.wf(),
{
    lemma_same_holdings(s, t);
    assert forall|a: AccountId|
        (#[trigger] t.owned(a)).no_duplicates() && t.owned(a).len() <= u64::MAX by {
        assert(t.owned(a) == s.owned(a));
    }
    assert forall|a: AccountId, e: H256| #[trigger] t.owned(a).contains(e) implies t.kitty_owner.contains_key(
        e,
    ) && t.kitty_owner[e] == a by {
        assert(s.owned(a).contains(e));
    }
    assert forall|e: H256| #[trigger] t.kitty_owner.contains_key(e) implies t.all_kitties.contains(
        e,
    ) && t.owned(t.kitty_owner[e]).contains(e) by {
        assert(s.owned(s.kitty_owner[e]).contains(e));
    }
}

/// A successful `set_price` keeps the registry consistent.
pub proof fn lemma_set_price_wf(s: State, caller: AccountId, id: H256, new_price: Balance)
    requires
        s.wf(),
        s.set_price_result(caller, id) is Ok,
    ensures
        s.set_price(caller, id, new_price).wf(),
{
    lemma_priced_wf(s, id, new_price);
    lemma_same_kitties_wf(s.priced(id, new_price), s.set_price(caller, id, new_price));
}

/// A purchase that can be settled keeps the registry consistent.
pub proof fn lemma_purchase_wf(s: State, buyer: AccountId, id: H256)
    requires
        s.wf(),
        s.can_settle(buyer, id),
    ensures
        s.purchase(buyer, id).wf(),
{
    let seller = s.kitty_owner[id];
    lemma_transfer_wf(s, seller, buyer, id);
    let moved = s.transfer_from(seller, buyer, id);
    assert(moved.kitties.contains_key(id));
    lemma_priced_wf(moved, id, 0);
    lemma_same_kitties_wf(moved.priced(id, 0), s.purchase(buyer, id));
}

/// Creating a kitty from a fresh hash keeps the registry consistent.
pub proof fn lemma_create_kitty_wf(s: State, sender: AccountId, random_hash: H256)
    requires
        s.wf(),
        s.mint_result(sender, random_hash) is Ok,
    ensures
        s.create_kitty(sender, random_hash).wf(),
        s.nonce < u64::MAX,
{
    let kitty = spec_newborn(random_hash);
    lemma_mint_wf(s, sender, random_hash, kitty);
    lemma_same_kitties_wf(s.mint(sender, random_hash, kitty), s.create_kitty(sender, random_hash));
}

/// Breeding keeps the registry consistent.
pub proof fn lemma_breed_kitty_wf(
    s: State,
    sender: AccountId,
    id_1: H256,
    id_2: H256,
    random_hash: H256,
)
    requires
        s.wf(),
        s.breed_result(sender, id_1, id_2, random_hash) is Ok,
    ensures
        s.breed_kitty(sender, id_1, id_2, random_hash).wf(),
        s.nonce < u64::MAX,
{
    let kitty = spec_child(s.kitties[id_1], s.kitties[id_2], random_hash);
    lemma_mint_wf(s, sender, random_hash, kitty);
    lemma_same_kitties_wf(
        s.mint(sender, random_hash, kitty),
        s.breed_kitty(sender, id_1, id_2, random_hash),
    );
}

/// Handing out the events keeps the registry consistent.
pub proof fn lemma_drained_wf(s: State)
    requires
        s.wf(),
    ensures
        s.drained().wf(),
{
    lemma_same_kitties_wf(s, s.drained());
}

/// What a transfer makes of the holdings: the recipient gains the kitty, the
/// sender loses it, and nobody else's holdings change.
pub proof fn lemma_transfer_holdings(s: State, from: AccountId, to: AccountId, id: H256)
    requires
        s.wf(),
        s.transfer_result(from, to, id) is Ok,
    ensures
        s.transfer_from(from, to, id).kitty_owner == s.kitty_owner.insert(id, to),
        forall|e: H256| #[trigger]
            s.transfer_from(from, to, id).owned(to).contains(e) <==> e == id || s.owned(
                to,
            ).contains(e),
        from != to ==> forall|e: H256| #[trigger]
            s.transfer_from(from, to, id).owned(from).contains(e) <==> e != id && s.owned(
                from,
            ).contains(e),
        forall|a: AccountId|
            a != from && a != to ==> #[trigger] s.transfer_from(from, to, id).owned(a) == s.owned(
                a,
            ),
{
    let r = s.released(from, id);
    let t = s.transfer_from(from, to, id);
    lemma_released(s, from, id);
    lemma_push_contains(r.owned(to), id);
    assert(s.owned_kitties.contains_key(to));
    assert(s.owned_kitties.contains_key(from));
    assert(t.owned(to) == r.owned(to).push(id));
    assert(s.owned(from).contains(id));
    assert forall|e: H256| #[trigger] t.owned(to).contains(e) <==> e == id || s.owned(to).contains(
        e,
    ) by {
        if to != from {
            assert(r.owned(to) == s.owned(to));
        }
    }
    if from != to {
        assert(t.owned(from) == r.owned(from));
    }
    assert forall|a: AccountId| a != from && a != to implies #[trigger] t.owned(a) == s.owned(
        a,
    ) by {
        assert(r.owned(a) == s.owned(a));
    }
}

/// In a consistent registry the global enumeration holds every kitty at
/// exactly one index, and nothing else.
pub proof fn law_global_enumeration(s: State)
    requires
        s.wf(),
    ensures
        forall|i: int, j: int|
            0 <= i < s.all_kitties.len() && 0 <= j < s.all_kitties.len() && s.all_kitties[i]
                == s.all_kitties[j] ==> i == j,
        forall|id: H256|
            s.kitties.contains_key(id) <==> exists|i: int|
                0 <= i < s.all_kitties.len() && s.all_kitties[i] == id,
        s.kitties.dom() == s.all_kitties.to_set(),
        s.kitty_owner.dom() == s.all_kitties.to_set(),
{
    assert forall|id: H256|
        s.kitties.contains_key(id) <==> exists|i: int|
            0 <= i < s.all_kitties.len() && s.all_kitties[i] == id by {
        assert(s.kitties.contains_key(id) <==> s.all_kitties.contains(id));
    }
    assert(s.kitties.dom() =~= s.all_kitties.to_set());
    assert(s.kitty_owner.dom() =~= s.all_kitties.to_set());
}

/// In a consistent registry the counts of all owners add up to the number of
/// kitties, and no owner's count exceeds it.
pub proof fn law_counts_sum(s: State, who: AccountId)
    requires
        s.wf(),
    ensures
        s.total_owned() == s.all_kitties.len(),
        s.owned(who).len() <= s.all_kitties.len(),
{
    lemma_owned_below_bounds(s, who, account_limit());
}

/// In a consistent registry the owner of a kitty is the one account whose
/// holdings contain it, and they contain it once.
pub proof fn law_owner_holds(s: State, id: H256)
    requires
        s.wf(),
        s.kitty_owner.contains_key(id),
    ensures
        s.owned(s.kitty_owner[id]).contains(id),
        forall|a: AccountId| s.owned(a).contains(id) ==> a == s.kitty_owner[id],
        s.owned(s.kitty_owner[id]).no_duplicates(),
{
}

/// A transfer from `a` to `b` followed by the transfer back goes through,
/// gives the kitty back to `a`, and leaves both accounts with the kitties
/// they held at first.
pub proof fn law_transfer_round_trip(s: State, a: AccountId, b: AccountId, id: H256)
    requires
        s.wf(),
        s.transfer_result(a, b, id) is Ok,
    ensures
        s.transfer_from(a, b, id).transfer_result(b, a, id) is Ok,
        s.transfer_from(a, b, id).transfer_from(b, a, id).kitty_owner[id] == a,
        s.transfer_from(a, b, id).transfer_from(b, a, id).kitty_owner == s.kitty_owner,
        s.transfer_from(a, b, id).transfer_from(b, a, id).owned(a).to_set() == s.owned(a).to_set(),
        s.transfer_from(a, b, id).transfer_from(b, a, id).owned(b).to_set() == s.owned(b).to_set(),
{
    let there = s.transfer_from(a, b, id);
    lemma_transfer_wf(s, a, b, id);
    lemma_transfer_holdings(s, a, b, id);
    lemma_released(s, a, id);
    assert(there.owned(b).contains(id));
    assert(there.owned(a).len() < u64::MAX) by {
        if a != b {
            assert(s.owned_kitties.contains_key(a));
            assert(s.owned_kitties.contains_key(b));
            assert(there.owned(a) == s.released(a, id).owned(a));
        }
    }
    assert(there.transfer_result(b, a, id) is Ok);
    let back = there.transfer_from(b, a, id);
    lemma_transfer_holdings(there, b, a, id);
    assert(back.kitty_owner =~= s.kitty_owner);
    assert(s.owned(a).contains(id));
    assert(!s.owned(b).contains(id) || a == b) by {
        if s.owned(b).contains(id) {
            assert(s.kitty_owner[id] == b);
        }
    }
    assert forall|e: H256| back.owned(a).contains(e) <==> s.owned(a).contains(e) by {}
    assert forall|e: H256| back.owned(b).contains(e) <==> s.owned(b).contains(e) by {}
    assert(back.owned(a).to_set() =~= s.owned(a).to_set());
    assert(back.owned(b).to_set() =~= s.owned(b).to_set());
}

/// Minting under an id that exists is refused, whoever it is for.
pub proof fn law_mint_rejects_existing(s: State, to: AccountId, id: H256)
    requires
        s.wf(),
        s.kitties.contains_key(id),
    ensures
        s.mint_result(to, id) == Err::<(), Error>(Error::AlreadyExists),
{
    assert(s.all_kitties.contains(id));
}

/// A kitty that was bred is one generation deeper than the older of its
/// parents, is not for sale, has the random hash as its id, and has its
/// first parent's dna but for the bytes where the hash is even, which are its
/// second parent's.
pub proof fn law_bred_kitty(s: State, sender: AccountId, id_1: H256, id_2: H256, random_hash: H256)
    requires
        s.wf(),
        s.can_breed(id_1, id_2),
        s.breed_result(sender, id_1, id_2, random_hash) is Ok,
    ensures
        ({
            let child = s.breed_kitty(sender, id_1, id_2, random_hash).kitties[random_hash];
            &&& child.id == random_hash
            &&& child.price == 0
            &&& child.gen == max_gen(s.kitties[id_1].gen, s.kitties[id_2].gen) + 1
            &&& child.dna@.len() == 32
            &&& forall|i: int|
                0 <= i < 32 ==> child.dna@[i] == (if random_hash@[i] % 2 == 0 {
                    s.kitties[id_2].dna@[i]
                } else {
                    s.kitties[id_1].dna@[i]
                })
        }),
        s.breed_kitty(sender, id_1, id_2, random_hash).kitty_owner[random_hash] == sender,
{
    lemma_splice_bytes(s.kitties[id_1].dna, s.kitties[id_2].dna, random_hash);
}

/// Every call keeps the registry consistent.
pub proof fn lemma_apply_wf(s: State, call: Call)
    requires
        s.wf(),
    ensures
        s.apply(call).wf(),
{
    match call {
        Call::Mint(to, id, kitty) => {
            if s.mint_result(to, id) is Ok {
                lemma_mint_wf(s, to, id, kitty);
            }
        },
        Call::Transfer(from, to, id) => {
            if s.transfer_result(from, to, id) is Ok {
                lemma_transfer_wf(s, from, to, id);
            }
        },
        Call::SetPrice(caller, id, price) => {
            if s.set_price_result(caller, id) is Ok {
                lemma_set_price_wf(s, caller, id, price);
            }
        },
        Call::Buy(buyer, id, max_price) => {
            if s.purchase_result(buyer, id, max_price) is Ok {
                lemma_purchase_wf(s, buyer, id);
            }
        },
        Call::Create(sender, random_hash) => {
            if s.mint_result(sender, random_hash) is Ok {
                lemma_create_kitty_wf(s, sender, random_hash);
            }
        },
        Call::Breed(sender, id_1, id_2, random_hash) => {
            if s.breed_result(sender, id_1, id_2, random_hash) is Ok {
                lemma_breed_kitty_wf(s, sender, id_1, id_2, random_hash);
            }
        },
        Call::TakeEvents => {
            lemma_drained_wf(s);
        },
    }
}

/// Whatever calls were made, in whatever order, the registry is consistent:
/// the global enumeration holds every kitty at exactly one index, the counts
/// of all owners add up to the number of kitties, and every kitty is held by
/// its owner and by nobody else.
pub proof fn law_reachable_wf(calls: Seq<Call>)
    ensures
        State::after(calls).wf(),
        State::after(calls).all_kitties.no_duplicates(),
        State::after(calls).kitties.dom() == State::after(calls).all_kitties.to_set(),
        State::after(calls).total_owned() == State::after(calls).all_kitties.len(),
        forall|id: H256, a: AccountId|
            State::after(calls).kitty_owner.contains_key(id) ==> (State::after(calls).owned(
                a,
            ).contains(id) <==> a == State::after(calls).kitty_owner[id]),
    decreases calls.len(),
{
    if calls.len() == 0 {
        lemma_init_wf();
    } else {
        law_reachable_wf(calls.drop_last());
        lemma_apply_wf(State::after(calls.drop_last()), calls.last());
    }
    let s = State::after(calls);
    law_global_enumeration(s);
    assert forall|id: H256, a: AccountId| s.kitty_owner.contains_key(id) implies (s.owned(
        a,
    ).contains(id) <==> a == s.kitty_owner[id]) by {
        law_owner_holds(s, id);
    }
}

} // verus!
