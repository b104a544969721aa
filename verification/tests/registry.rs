use substratekitties::{Error, Event, Kitty, Module, H256};

const ALICE: u64 = 1;
const BOB: u64 = 2;
const CAROL: u64 = 3;

fn id_of(tag: u8) -> H256 {
    let mut bytes = [0u8; 32];
    bytes[0] = tag;
    bytes[31] = tag;
    H256(bytes)
}

fn plain_kitty(id: H256) -> Kitty<H256, u64> {
    Kitty { id, dna: id, price: 0, gen: 0 }
}

fn holdings_of(registry: &Module, who: u64) -> Vec<H256> {
    let mut out = Vec::new();
    let mut i = 0u64;
    while let Some(id) = registry.kitty_of_owner_by_index(who, i) {
        out.push(id);
        i += 1;
    }
    out
}

fn all_of(registry: &Module) -> Vec<H256> {
    let mut out = Vec::new();
    let mut i = 0u64;
    while let Some(id) = registry.kitty_by_index(i) {
        out.push(id);
        i += 1;
    }
    out
}

fn sorted(mut ids: Vec<H256>) -> Vec<[u8; 32]> {
    ids.sort_by_key(|h| h.0);
    ids.into_iter().map(|h| h.0).collect()
}

#[test]
fn new_registry_is_empty() {
    let registry = Module::new();
    assert_eq!(registry.all_kitties_count(), 0);
    assert_eq!(registry.owned_kitty_count(ALICE), 0);
    assert_eq!(registry.kitty_by_index(0), None);
    assert_eq!(registry.kitty_of_owner_by_index(ALICE, 0), None);
    assert_eq!(registry.owner_of(&id_of(1)), None);
    assert_eq!(registry.kitty(&id_of(1)), None);
    assert!(!registry.kitty_exists(&id_of(1)));
    assert_eq!(registry.nonce(), 0);
}

#[test]
fn mint_for_alice_counts_one() {
    let mut registry = Module::new();
    let a = id_of(1);
    assert_eq!(registry.mint(ALICE, a, plain_kitty(a)), Ok(()));
    assert_eq!(registry.all_kitties_count(), 1);
    assert_eq!(registry.owned_kitty_count(ALICE), 1);
    assert_eq!(registry.owner_of(&a), Some(ALICE));
    assert_eq!(registry.kitty(&a), Some(plain_kitty(a)));
    assert!(registry.kitty_exists(&a));
    assert_eq!(registry.kitty_by_index(0), Some(a));
    assert_eq!(registry.kitty_by_index(1), None);
    assert_eq!(registry.kitty_of_owner_by_index(ALICE, 0), Some(a));
    assert_eq!(registry.take_events(), vec![Event::Created(ALICE, a)]);
    assert_eq!(registry.nonce(), 0);
}

#[test]
fn transfer_of_middle_kitty_swaps_last_into_its_slot() {
    let mut registry = Module::new();
    let (a, b, c) = (id_of(1), id_of(2), id_of(3));
    for id in [a, b, c] {
        assert_eq!(registry.mint(ALICE, id, plain_kitty(id)), Ok(()));
    }
    assert_eq!(holdings_of(&registry, ALICE), vec![a, b, c]);
    assert_eq!(registry.transfer(ALICE, BOB, b), Ok(()));
    assert_eq!(holdings_of(&registry, ALICE), vec![a, c]);
    assert_eq!(holdings_of(&registry, BOB), vec![b]);
    assert_eq!(registry.owned_kitty_count(ALICE), 2);
    assert_eq!(registry.owned_kitty_count(BOB), 1);
    assert_eq!(registry.owner_of(&b), Some(BOB));
    assert_eq!(registry.owner_of(&a), Some(ALICE));
    assert_eq!(registry.owner_of(&c), Some(ALICE));
    assert_eq!(all_of(&registry), vec![a, b, c]);
    let events = registry.take_events();
    assert_eq!(events.len(), 4);
    assert_eq!(events[3], Event::Transferred(ALICE, BOB, b));
}

#[test]
fn transfer_of_first_kitty_moves_last_to_front() {
    let mut registry = Module::new();
    let (a, b, c, d) = (id_of(1), id_of(2), id_of(3), id_of(4));
    for id in [a, b, c, d] {
        assert_eq!(registry.mint(ALICE, id, plain_kitty(id)), Ok(()));
    }
    assert_eq!(registry.transfer_from(ALICE, BOB, a), Ok(()));
    assert_eq!(holdings_of(&registry, ALICE), vec![d, b, c]);
    assert_eq!(registry.transfer_from(ALICE, BOB, c), Ok(()));
    assert_eq!(holdings_of(&registry, ALICE), vec![d, b]);
    assert_eq!(holdings_of(&registry, BOB), vec![a, c]);
    // the moved kitty is still found at its new slot
    assert_eq!(registry.transfer_from(ALICE, CAROL, d), Ok(()));
    assert_eq!(holdings_of(&registry, ALICE), vec![b]);
    assert_eq!(holdings_of(&registry, CAROL), vec![d]);
}

#[test]
fn transfer_of_last_kitty_only_pops() {
    let mut registry = Module::new();
    let (a, b) = (id_of(1), id_of(2));
    for id in [a, b] {
        assert_eq!(registry.mint(ALICE, id, plain_kitty(id)), Ok(()));
    }
    assert_eq!(registry.transfer_from(ALICE, BOB, b), Ok(()));
    assert_eq!(holdings_of(&registry, ALICE), vec![a]);
    assert_eq!(registry.transfer_from(ALICE, BOB, a), Ok(()));
    assert_eq!(holdings_of(&registry, ALICE), Vec::<H256>::new());
    assert_eq!(registry.owned_kitty_count(ALICE), 0);
    assert_eq!(holdings_of(&registry, BOB), vec![b, a]);
}

#[test]
fn transfer_to_oneself_keeps_the_count() {
    let mut registry = Module::new();
    let (a, b, c) = (id_of(1), id_of(2), id_of(3));
    for id in [a, b, c] {
        assert_eq!(registry.mint(ALICE, id, plain_kitty(id)), Ok(()));
    }
    assert_eq!(registry.transfer_from(ALICE, ALICE, a), Ok(()));
    assert_eq!(registry.owned_kitty_count(ALICE), 3);
    assert_eq!(holdings_of(&registry, ALICE), vec![c, b, a]);
    assert_eq!(registry.owner_of(&a), Some(ALICE));
    assert_eq!(registry.all_kitties_count(), 3);
}

#[test]
fn transfer_of_unknown_kitty_is_not_found() {
    let mut registry = Module::new();
    let a = id_of(1);
    assert_eq!(registry.mint(ALICE, a, plain_kitty(a)), Ok(()));
    registry.take_events();
    assert_eq!(registry.transfer_from(ALICE, BOB, id_of(9)), Err(Error::NotFound));
    assert_eq!(registry.transfer(ALICE, BOB, id_of(9)), Err(Error::NotFound));
    assert_eq!(registry.owner_of(&a), Some(ALICE));
    assert_eq!(registry.take_events(), Vec::<Event>::new());
}

#[test]
fn transfer_by_another_account_is_not_owner() {
    let mut registry = Module::new();
    let a = id_of(1);
    assert_eq!(registry.mint(ALICE, a, plain_kitty(a)), Ok(()));
    registry.take_events();
    assert_eq!(registry.transfer_from(BOB, CAROL, a), Err(Error::NotOwner));
    assert_eq!(registry.transfer(BOB, CAROL, a), Err(Error::NotOwner));
    assert_eq!(registry.owner_of(&a), Some(ALICE));
    assert_eq!(registry.owned_kitty_count(ALICE), 1);
    assert_eq!(registry.owned_kitty_count(BOB), 0);
    assert_eq!(registry.owned_kitty_count(CAROL), 0);
    assert_eq!(registry.take_events(), Vec::<Event>::new());
}

#[test]
fn mint_under_taken_id_already_exists() {
    let mut registry = Module::new();
    let a = id_of(1);
    assert_eq!(registry.mint(ALICE, a, plain_kitty(a)), Ok(()));
    registry.take_events();
    let other = Kitty { id: a, dna: id_of(7), price: 5, gen: 3 };
    assert_eq!(registry.mint(BOB, a, other), Err(Error::AlreadyExists));
    assert_eq!(registry.mint(ALICE, a, other), Err(Error::AlreadyExists));
    assert_eq!(registry.all_kitties_count(), 1);
    assert_eq!(registry.owned_kitty_count(ALICE), 1);
    assert_eq!(registry.owned_kitty_count(BOB), 0);
    assert_eq!(registry.owner_of(&a), Some(ALICE));
    assert_eq!(registry.kitty(&a), Some(plain_kitty(a)));
    assert_eq!(all_of(&registry), vec![a]);
    assert_eq!(registry.take_events(), Vec::<Event>::new());
}

#[test]
fn create_kitty_from_collision_leaves_nonce() {
    let mut registry = Module::new();
    let a = id_of(1);
    assert_eq!(registry.create_kitty_from(ALICE, a), Ok(()));
    assert_eq!(registry.nonce(), 1);
    assert_eq!(registry.kitty(&a), Some(Kitty { id: a, dna: a, price: 0, gen: 0 }));
    assert_eq!(registry.create_kitty_from(BOB, a), Err(Error::AlreadyExists));
    assert_eq!(registry.nonce(), 1);
    assert_eq!(registry.all_kitties_count(), 1);
    assert_eq!(registry.owner_of(&a), Some(ALICE));
}

#[test]
fn global_enumeration_holds_each_id_once() {
    let mut registry = Module::new();
    let ids: Vec<H256> = (1u8..=20).map(id_of).collect();
    for (n, id) in ids.iter().enumerate() {
        let who = [ALICE, BOB, CAROL][n % 3];
        assert_eq!(registry.mint(who, *id, plain_kitty(*id)), Ok(()));
    }
    for n in 0..10 {
        let id = ids[(n * 7) % 20];
        let from = registry.owner_of(&id).unwrap();
        let to = [BOB, CAROL, ALICE][n % 3];
        assert_eq!(registry.transfer_from(from, to, id), Ok(()));
    }
    let all = all_of(&registry);
    assert_eq!(all, ids);
    assert_eq!(registry.all_kitties_count(), all.len() as u64);
    for id in &ids {
        assert_eq!(all.iter().filter(|e| *e == id).count(), 1);
    }
}

#[test]
fn owner_counts_add_up_to_global_count() {
    let mut registry = Module::new();
    let ids: Vec<H256> = (1u8..=15).map(id_of).collect();
    for (n, id) in ids.iter().enumerate() {
        let who = [ALICE, BOB, CAROL][n % 3];
        assert_eq!(registry.mint(who, *id, plain_kitty(*id)), Ok(()));
        let sum: u64 = [ALICE, BOB, CAROL].iter().map(|a| registry.owned_kitty_count(*a)).sum();
        assert_eq!(sum, registry.all_kitties_count());
    }
    for n in 0..15 {
        let id = ids[(n * 4) % 15];
        let from = registry.owner_of(&id).unwrap();
        let to = [CAROL, ALICE, BOB, BOB][n % 4];
        assert_eq!(registry.transfer_from(from, to, id), Ok(()));
        let sum: u64 = [ALICE, BOB, CAROL].iter().map(|a| registry.owned_kitty_count(*a)).sum();
        assert_eq!(sum, 15);
        assert_eq!(registry.all_kitties_count(), 15);
    }
}

#[test]
fn owner_is_the_one_account_that_holds_the_kitty() {
    let mut registry = Module::new();
    let ids: Vec<H256> = (1u8..=12).map(id_of).collect();
    for (n, id) in ids.iter().enumerate() {
        let who = [ALICE, BOB][n % 2];
        assert_eq!(registry.mint(who, *id, plain_kitty(*id)), Ok(()));
    }
    for n in 0..9 {
        let id = ids[(n * 5) % 12];
        let from = registry.owner_of(&id).unwrap();
        let to = [CAROL, ALICE, BOB][n % 3];
        assert_eq!(registry.transfer_from(from, to, id), Ok(()));
    }
    for id in &ids {
        let owner = registry.owner_of(id).unwrap();
        for who in [ALICE, BOB, CAROL] {
            let held = holdings_of(&registry, who);
            let times = held.iter().filter(|e| *e == id).count();
            assert_eq!(times, if who == owner { 1 } else { 0 });
            assert_eq!(held.len() as u64, registry.owned_kitty_count(who));
        }
    }
}

#[test]
fn transfer_there_and_back_restores_the_holdings() {
    let mut registry = Module::new();
    let (a, b, c, d) = (id_of(1), id_of(2), id_of(3), id_of(4));
    for id in [a, b, c] {
        assert_eq!(registry.mint(ALICE, id, plain_kitty(id)), Ok(()));
    }
    assert_eq!(registry.mint(BOB, d, plain_kitty(d)), Ok(()));
    let alice_before = sorted(holdings_of(&registry, ALICE));
    let bob_before = sorted(holdings_of(&registry, BOB));
    assert_eq!(registry.transfer_from(ALICE, BOB, a), Ok(()));
    assert_eq!(registry.owner_of(&a), Some(BOB));
    assert_eq!(registry.transfer_from(BOB, ALICE, a), Ok(()));
    assert_eq!(registry.owner_of(&a), Some(ALICE));
    assert_eq!(sorted(holdings_of(&registry, ALICE)), alice_before);
    assert_eq!(sorted(holdings_of(&registry, BOB)), bob_before);
    // the order of Alice's kitties did change
    assert_eq!(holdings_of(&registry, ALICE), vec![c, b, a]);
}

#[test]
fn set_price_overwrites_the_price() {
    let mut registry = Module::new();
    let a = id_of(1);
    assert_eq!(registry.mint(ALICE, a, plain_kitty(a)), Ok(()));
    registry.take_events();
    assert_eq!(registry.set_price(ALICE, a, 100), Ok(()));
    assert_eq!(registry.kitty(&a), Some(Kitty { id: a, dna: a, price: 100, gen: 0 }));
    assert_eq!(registry.set_price(ALICE, a, 0), Ok(()));
    assert_eq!(registry.kitty(&a).unwrap().price, 0);
    assert_eq!(
        registry.take_events(),
        vec![Event::PriceSet(ALICE, a, 100), Event::PriceSet(ALICE, a, 0)]
    );
}

#[test]
fn set_price_fails_for_unknown_kitty_and_for_stranger() {
    let mut registry = Module::new();
    let a = id_of(1);
    assert_eq!(registry.mint(ALICE, a, plain_kitty(a)), Ok(()));
    registry.take_events();
    assert_eq!(registry.set_price(ALICE, id_of(2), 10), Err(Error::NotFound));
    assert_eq!(registry.set_price(BOB, a, 10), Err(Error::NotOwner));
    assert_eq!(registry.kitty(&a).unwrap().price, 0);
    assert_eq!(registry.take_events(), Vec::<Event>::new());
}

#[test]
fn take_events_empties_the_log() {
    let mut registry = Module::new();
    let a = id_of(1);
    assert_eq!(registry.mint(ALICE, a, plain_kitty(a)), Ok(()));
    assert_eq!(registry.take_events().len(), 1);
    assert_eq!(registry.take_events().len(), 0);
    assert_eq!(registry.all_kitties_count(), 1);
    assert_eq!(registry.owner_of(&a), Some(ALICE));
}

#[test]
fn ids_with_the_same_prefix_are_kept_apart() {
    let mut registry = Module::new();
    let mut one = [0u8; 32];
    let mut two = [0u8; 32];
    let mut three = [0u8; 32];
    one[8] = 1;
    two[8] = 2;
    three[31] = 3;
    let (one, two, three) = (H256(one), H256(two), H256(three));
    for (who, id) in [(ALICE, one), (BOB, two), (ALICE, three)] {
        assert_eq!(registry.mint(who, id, plain_kitty(id)), Ok(()));
    }
    assert_eq!(registry.owner_of(&one), Some(ALICE));
    assert_eq!(registry.owner_of(&two), Some(BOB));
    assert_eq!(registry.owner_of(&three), Some(ALICE));
    assert_eq!(registry.transfer_from(ALICE, BOB, one), Ok(()));
    assert_eq!(holdings_of(&registry, ALICE), vec![three]);
    assert_eq!(holdings_of(&registry, BOB), vec![two, one]);
    assert_eq!(registry.mint(CAROL, two, plain_kitty(two)), Err(Error::AlreadyExists));
}
