use std::collections::HashMap;
use substratekitties::host::{random_hash, random_hash_input};
use substratekitties::{Error, Event, Kitty, Module, Trait, H256};

const ALICE: u64 = 1;
const BOB: u64 = 2;

/// A ledger with balances, a fixed seed and a hash that folds its input.
struct Ledger {
    balances: HashMap<u64, u64>,
    seed: H256,
    transfers: usize,
}

impl Ledger {
    fn with(balances: &[(u64, u64)]) -> Ledger {
        Ledger { balances: balances.iter().cloned().collect(), seed: H256([7u8; 32]), transfers: 0 }
    }

    fn balance(&self, who: u64) -> u64 {
        *self.balances.get(&who).unwrap_or(&0)
    }
}

impl Trait for Ledger {
    fn random_seed(&self) -> H256 {
        self.seed
    }

    fn hash(&self, data: &[u8]) -> H256 {
        let mut out = [0u8; 32];
        for (i, b) in data.iter().enumerate() {
            out[i % 32] = out[i % 32].wrapping_mul(31).wrapping_add(*b).wrapping_add(i as u8);
        }
        H256(out)
    }

    fn transfer(&mut self, from: u64, to: u64, value: u64) -> Result<(), &'static str> {
        self.transfers += 1;
        let have = self.balance(from);
        if have < value {
            return Err("balance too low to send value");
        }
        self.balances.insert(from, have - value);
        let there = self.balance(to);
        self.balances.insert(to, there + value);
        Ok(())
    }
}

fn market_id(tag: u8) -> H256 {
    let mut bytes = [0u8; 32];
    bytes[3] = tag;
    H256(bytes)
}

fn priced_registry(price: u64) -> (Module, H256) {
    let mut registry = Module::new();
    let a = market_id(1);
    assert_eq!(registry.mint(ALICE, a, Kitty { id: a, dna: a, price: 0, gen: 0 }), Ok(()));
    if price > 0 {
        assert_eq!(registry.set_price(ALICE, a, price), Ok(()));
    }
    registry.take_events();
    (registry, a)
}

#[test]
fn buy_at_the_asked_price_moves_kitty_and_funds() {
    let (mut registry, a) = priced_registry(100);
    let mut ledger = Ledger::with(&[(ALICE, 10), (BOB, 250)]);
    assert_eq!(registry.buy_kitty(&mut ledger, BOB, a, 100), Ok(()));
    assert_eq!(registry.owner_of(&a), Some(BOB));
    assert_eq!(registry.kitty(&a).unwrap().price, 0);
    assert_eq!(ledger.balance(BOB), 150);
    assert_eq!(ledger.balance(ALICE), 110);
    assert_eq!(registry.owned_kitty_count(ALICE), 0);
    assert_eq!(registry.owned_kitty_count(BOB), 1);
    assert_eq!(registry.kitty_of_owner_by_index(BOB, 0), Some(a));
    assert_eq!(
        registry.take_events(),
        vec![Event::Transferred(ALICE, BOB, a), Event::Bought(BOB, ALICE, a, 100)]
    );
}

#[test]
fn buy_below_the_asked_price_exceeds_limit() {
    let (mut registry, a) = priced_registry(100);
    let mut ledger = Ledger::with(&[(ALICE, 10), (BOB, 250)]);
    assert_eq!(registry.buy_kitty(&mut ledger, BOB, a, 50), Err(Error::PriceExceedsLimit));
    assert_eq!(registry.owner_of(&a), Some(ALICE));
    assert_eq!(registry.kitty(&a).unwrap().price, 100);
    assert_eq!(registry.owned_kitty_count(ALICE), 1);
    assert_eq!(registry.owned_kitty_count(BOB), 0);
    assert_eq!(ledger.balance(BOB), 250);
    assert_eq!(ledger.balance(ALICE), 10);
    assert_eq!(ledger.transfers, 0);
    assert_eq!(registry.take_events(), Vec::<Event>::new());
}

#[test]
fn buy_with_a_higher_limit_pays_the_price_only() {
    let (mut registry, a) = priced_registry(100);
    let mut ledger = Ledger::with(&[(BOB, 500)]);
    assert_eq!(registry.buy_kitty(&mut ledger, BOB, a, 400), Ok(()));
    assert_eq!(ledger.balance(BOB), 400);
    assert_eq!(ledger.balance(ALICE), 100);
}

#[test]
fn buy_of_unpriced_kitty_is_not_for_sale() {
    let (mut registry, a) = priced_registry(0);
    let mut ledger = Ledger::with(&[(BOB, 250)]);
    assert_eq!(registry.buy_kitty(&mut ledger, BOB, a, 100), Err(Error::NotForSale));
    assert_eq!(registry.owner_of(&a), Some(ALICE));
    assert_eq!(ledger.transfers, 0);
}

#[test]
fn buy_of_unknown_kitty_is_not_found() {
    let (mut registry, _) = priced_registry(100);
    let mut ledger = Ledger::with(&[(BOB, 250)]);
    assert_eq!(registry.buy_kitty(&mut ledger, BOB, market_id(9), 100), Err(Error::NotFound));
    assert_eq!(ledger.transfers, 0);
}

#[test]
fn buy_without_funds_fails_and_changes_nothing() {
    let (mut registry, a) = priced_registry(100);
    let mut ledger = Ledger::with(&[(ALICE, 10), (BOB, 99)]);
    assert_eq!(registry.buy_kitty(&mut ledger, BOB, a, 100), Err(Error::FundsTransferFailed));
    assert_eq!(registry.owner_of(&a), Some(ALICE));
    assert_eq!(registry.kitty(&a).unwrap().price, 100);
    assert_eq!(registry.owned_kitty_count(BOB), 0);
    assert_eq!(ledger.balance(BOB), 99);
    assert_eq!(ledger.balance(ALICE), 10);
    assert_eq!(ledger.transfers, 1);
    assert_eq!(registry.take_events(), Vec::<Event>::new());
}

#[test]
fn a_bought_kitty_is_off_the_market() {
    let (mut registry, a) = priced_registry(100);
    let mut ledger = Ledger::with(&[(ALICE, 500), (BOB, 250)]);
    assert_eq!(registry.buy_kitty(&mut ledger, BOB, a, 100), Ok(()));
    assert_eq!(registry.buy_kitty(&mut ledger, ALICE, a, 100), Err(Error::NotForSale));
    assert_eq!(registry.owner_of(&a), Some(BOB));
}

#[test]
fn check_purchase_names_seller_and_price() {
    let (registry, a) = priced_registry(100);
    assert_eq!(registry.check_purchase(BOB, a, 100), Ok((ALICE, 100)));
    assert_eq!(registry.check_purchase(BOB, a, 1000), Ok((ALICE, 100)));
    assert_eq!(registry.check_purchase(BOB, a, 99), Err(Error::PriceExceedsLimit));
    assert_eq!(registry.check_purchase(BOB, market_id(2), 100), Err(Error::NotFound));
}

#[test]
fn settle_purchase_follows_the_ledgers_answer() {
    let (mut registry, a) = priced_registry(100);
    assert_eq!(registry.check_purchase(BOB, a, 100), Ok((ALICE, 100)));
    assert_eq!(
        registry.settle_purchase(BOB, a, Err("not enough free funds")),
        Err(Error::FundsTransferFailed)
    );
    assert_eq!(registry.owner_of(&a), Some(ALICE));
    assert_eq!(registry.kitty(&a).unwrap().price, 100);
    assert_eq!(registry.check_purchase(BOB, a, 100), Ok((ALICE, 100)));
    assert_eq!(registry.settle_purchase(BOB, a, Ok(())), Ok(()));
    assert_eq!(registry.owner_of(&a), Some(BOB));
    assert_eq!(registry.kitty(&a).unwrap().price, 0);
}

#[test]
fn random_hash_input_is_seed_then_sender_then_nonce() {
    let mut seed = [0u8; 32];
    for (i, b) in seed.iter_mut().enumerate() {
        *b = 0xa0 + i as u8;
    }
    let bytes = random_hash_input(&H256(seed), 0x0102_0304_0506_0708, 0x1122_3344_5566_7788);
    let mut expected = seed.to_vec();
    expected.extend_from_slice(&[8, 7, 6, 5, 4, 3, 2, 1]);
    expected.extend_from_slice(&[0x88, 0x77, 0x66, 0x55, 0x44, 0x33, 0x22, 0x11]);
    assert_eq!(bytes.len(), 48);
    assert_eq!(bytes, expected);
}

#[test]
fn random_hash_depends_on_sender_and_nonce() {
    let ledger = Ledger::with(&[]);
    let first = random_hash(&ledger, ALICE, 0);
    assert_eq!(first, ledger.hash(&random_hash_input(&ledger.seed, ALICE, 0)));
    assert_ne!(first, random_hash(&ledger, ALICE, 1));
    assert_ne!(first, random_hash(&ledger, BOB, 0));
    assert_eq!(first, random_hash(&ledger, ALICE, 0));
}

#[test]
fn create_kitty_uses_the_hosts_hash_and_bumps_the_nonce() {
    let mut registry = Module::new();
    let ledger = Ledger::with(&[]);
    let expected = random_hash(&ledger, ALICE, 0);
    assert_eq!(registry.create_kitty(&ledger, ALICE), Ok(()));
    assert_eq!(registry.nonce(), 1);
    assert_eq!(registry.kitty_by_index(0), Some(expected));
    assert_eq!(
        registry.kitty(&expected),
        Some(Kitty { id: expected, dna: expected, price: 0, gen: 0 })
    );
    assert_eq!(registry.owner_of(&expected), Some(ALICE));
    assert_eq!(registry.take_events(), vec![Event::Created(ALICE, expected)]);
    let second = random_hash(&ledger, ALICE, 1);
    assert_eq!(registry.create_kitty(&ledger, ALICE), Ok(()));
    assert_eq!(registry.nonce(), 2);
    assert_eq!(registry.kitty_by_index(1), Some(second));
    assert_eq!(registry.owned_kitty_count(ALICE), 2);
}

#[test]
fn create_kitty_on_collision_already_exists() {
    let mut registry = Module::new();
    let ledger = Ledger::with(&[]);
    let taken = random_hash(&ledger, ALICE, 0);
    assert_eq!(
        registry.mint(BOB, taken, Kitty { id: taken, dna: taken, price: 0, gen: 0 }),
        Ok(())
    );
    assert_eq!(registry.create_kitty(&ledger, ALICE), Err(Error::AlreadyExists));
    assert_eq!(registry.nonce(), 0);
    assert_eq!(registry.all_kitties_count(), 1);
    assert_eq!(registry.owner_of(&taken), Some(BOB));
}
