use kitties::market::{Config, Error, Event, Pallet};

const SEED: [u8; 32] = [7u8; 32];
const STAKE: u64 = 1_000;

/// A marketplace with the stake at 1000 and four endowed accounts:
/// 1 and 2 hold 10_000, 3 holds 8_000, 4 holds 500 (below the stake).
fn new_test_pallet() -> Pallet {
    let mut p = Pallet::new(Config { stake_amount_for_kitty: STAKE });
    p.ledger.set_balance(1, 10_000);
    p.ledger.set_balance(2, 10_000);
    p.ledger.set_balance(3, 8_000);
    p.ledger.set_balance(4, 500);
    p
}

#[test]
fn test_create() {
    let mut p = new_test_pallet();
    assert!(p.create(1, &SEED, 0).is_ok());
    assert_eq!(p.store.get_count(), Some(1));
    assert_eq!(p.store.get_owner(1), Some(1));
    assert!(p.events.contains(&Event::Created(1, 1)));
}

#[test]
fn test_transfer() {
    let mut p = new_test_pallet();
    assert!(p.create(1, &SEED, 0).is_ok());
    assert!(p.transfer(1, 2, 1).is_ok());
    assert_eq!(p.store.get_owner(1), Some(2));
    assert!(p.events.contains(&Event::Transferred(1, 2, 1)));
}

#[test]
fn test_breed() {
    let mut p = new_test_pallet();
    assert!(p.create(1, &SEED, 0).is_ok());
    assert!(p.create(1, &SEED, 1).is_ok());
    assert!(p.breed(1, 1, 2, &SEED, 2).is_ok());
    assert_eq!(p.store.get_count(), Some(3));
    assert!(p.events.contains(&Event::Created(1, 3)));
}

#[test]
fn test_sell() {
    let mut p = new_test_pallet();
    assert!(p.create(1, &SEED, 0).is_ok());
    let price: u64 = 2000;
    assert!(p.sale(1, 1, Some(price)).is_ok());
    assert_eq!(p.store.get_listing(1), Some(Some(price)));
    assert!(p.events.contains(&Event::OnSales(1, 1, Some(price))));
}

#[test]
fn test_buy() {
    let mut p = new_test_pallet();
    assert_eq!(p.store.get_count(), None);
    assert!(p.create(1, &SEED, 0).is_ok());
    let price: u64 = 1_500;
    assert!(p.sale(1, 1, Some(price)).is_ok());
    assert!(p.buy(2, 1).is_ok());
    assert_eq!(p.store.get_owner(1), Some(2));
    assert!(p.events.contains(&Event::Bought(2, 1, 1, Some(price))));
}

#[test]
fn test_kitties_count_overflow() {
    let mut p = new_test_pallet();
    p.store.set_count(u32::MAX);
    let account_id: u64 = 1;
    assert_eq!(p.create(account_id, &SEED, 0), Err(Error::CountOverflow));
    assert_eq!(p.store.get_count(), Some(u32::MAX));
}

#[test]
fn test_buyer_should_not_owner() {
    let mut p = new_test_pallet();
    assert!(p.create(1, &SEED, 0).is_ok());
    let price: u64 = 1_500;
    assert!(p.sale(1, 1, Some(price)).is_ok());
    assert_eq!(p.buy(1, 1), Err(Error::AlreadyOwner));
}

#[test]
fn test_kitty_not_exist() {
    let mut p = new_test_pallet();
    let price: u64 = 1_500;
    assert_eq!(p.sale(1, 0, Some(price)), Err(Error::NotFound));
}

#[test]
fn test_not_kitty_owner() {
    let mut p = new_test_pallet();
    assert!(p.create(1, &SEED, 0).is_ok());
    assert_eq!(p.transfer(2, 3, 1), Err(Error::NotOwner));
}

#[test]
fn test_kitty_not_on_sale() {
    let mut p = new_test_pallet();
    assert!(p.create(1, &SEED, 0).is_ok());
    assert_eq!(p.buy(2, 1), Err(Error::NotListed));
}

#[test]
fn test_not_enough_balance() {
    let mut p = new_test_pallet();
    assert!(p.create(1, &SEED, 0).is_ok());
    let price: u64 = 7_500;
    assert!(p.sale(1, 1, Some(price)).is_ok());
    assert_eq!(p.buy(3, 1), Err(Error::InsufficientBalance));
}

#[test]
fn test_not_enough_balance_for_staking() {
    let mut p = new_test_pallet();
    assert_eq!(p.create(4, &SEED, 0), Err(Error::InsufficientStakeBalance));
}

#[test]
fn create_fails_leave_no_trace() {
    let mut p = new_test_pallet();
    assert_eq!(p.create(4, &SEED, 0), Err(Error::InsufficientStakeBalance));
    assert!(p.store.get_creature(1).is_none());
    assert_eq!(p.store.get_owner(1), None);
    assert_eq!(p.store.get_count(), None);
    assert_eq!(p.ledger.free_balance(4), 500);
    assert_eq!(p.ledger.reserved_balance(4), 0);
    assert!(p.events.is_empty());
}

#[test]
fn breed_same_parent_consumes_no_id() {
    let mut p = new_test_pallet();
    assert!(p.create(1, &SEED, 0).is_ok());
    assert_eq!(p.breed(1, 1, 1, &SEED, 1), Err(Error::SameParent));
    assert_eq!(p.breed(1, 99, 99, &SEED, 1), Err(Error::SameParent));
    assert_eq!(p.store.get_count(), Some(1));
}

#[test]
fn breed_requires_both_parents_owned() {
    let mut p = new_test_pallet();
    assert!(p.create(1, &SEED, 0).is_ok());
    assert!(p.create(2, &SEED, 1).is_ok());
    assert_eq!(p.breed(1, 1, 2, &SEED, 2), Err(Error::NotOwner));
    assert_eq!(p.breed(1, 1, 3, &SEED, 2), Err(Error::NotFound));
    assert_eq!(p.store.get_count(), Some(2));
}

#[test]
fn transfer_keeps_record_and_map_in_step() {
    let mut p = new_test_pallet();
    assert!(p.create(1, &SEED, 0).is_ok());
    assert!(p.transfer(1, 2, 1).is_ok());
    assert_eq!(p.store.get_owner(1), Some(2));
    assert_eq!(p.store.get_creature(1).unwrap().owner, 2);
}

#[test]
fn full_purchase_scenario_moves_stake_and_funds() {
    let mut p = new_test_pallet();
    assert!(p.create(1, &SEED, 0).is_ok());
    assert_eq!(p.ledger.reserved_balance(1), STAKE);
    let price: u64 = 1_500;
    assert!(p.sale(1, 1, Some(price)).is_ok());
    assert!(p.buy(2, 1).is_ok());
    assert_eq!(p.store.get_owner(1), Some(2));
    assert_eq!(p.store.get_listing(1), None);
    assert_eq!(p.ledger.reserved_balance(1), 0);
    assert_eq!(p.ledger.reserved_balance(2), STAKE);
    assert_eq!(p.ledger.free_balance(1), 10_000 - STAKE + STAKE + price);
    assert_eq!(p.ledger.free_balance(2), 10_000 - price - STAKE);
}

#[test]
fn delisted_price_is_not_for_sale() {
    let mut p = new_test_pallet();
    assert!(p.create(1, &SEED, 0).is_ok());
    assert!(p.sale(1, 1, Some(2_000)).is_ok());
    assert!(p.sale(1, 1, None).is_ok());
    assert_eq!(p.store.get_listing(1), Some(None));
    assert_eq!(p.buy(2, 1), Err(Error::NotListed));
}

#[test]
fn created_genome_is_the_blake2_digest_of_the_payload() {
    let mut p = new_test_pallet();
    let caller: u64 = 1;
    let nonce: u32 = 9;
    assert!(p.create(caller, &SEED, nonce).is_ok());
    let mut payload: Vec<u8> = Vec::new();
    payload.extend_from_slice(&SEED);
    payload.extend_from_slice(&caller.to_le_bytes());
    payload.extend_from_slice(&nonce.to_le_bytes());
    let expected = sp_core_hashing::blake2_128(&payload);
    assert_eq!(p.store.get_creature(1).unwrap().dna, expected);
}

#[test]
fn bred_genome_multiplexes_the_parents() {
    let mut p = new_test_pallet();
    assert!(p.create(1, &SEED, 0).is_ok());
    assert!(p.create(1, &SEED, 1).is_ok());
    let dna_a = p.store.get_creature(1).unwrap().dna;
    let dna_b = p.store.get_creature(2).unwrap().dna;
    let nonce: u32 = 2;
    assert!(p.breed(1, 1, 2, &SEED, nonce).is_ok());
    let child = p.store.get_creature(3).unwrap().dna;
    let mut payload: Vec<u8> = Vec::new();
    payload.extend_from_slice(&SEED);
    payload.extend_from_slice(&1u64.to_le_bytes());
    payload.extend_from_slice(&nonce.to_le_bytes());
    let selector = sp_core_hashing::blake2_128(&payload);
    for i in 0..16 {
        assert_eq!(child[i], (selector[i] & dna_a[i]) | (!selector[i] & dna_b[i]));
    }
}
