use kitties::poe::{Config, Error, Pallet};

fn new_test_registry() -> Pallet {
    Pallet::new(Config { asset_deposit_base: 6 })
}

#[test]
fn create_claim_works() {
    let mut p = new_test_registry();
    let claim = vec![1, 2];
    assert!(p.create_claim(1, claim.clone(), 1).is_ok());
    assert_eq!(p.get_claim(&claim), Some((1, 1)));
}

#[test]
fn create_claim_failed_when_claim_already_exist() {
    let mut p = new_test_registry();
    let claim = vec![1, 2];
    let _ = p.create_claim(1, claim.clone(), 1);
    assert_eq!(p.create_claim(1, claim.clone(), 1), Err(Error::ProofAlreadyClaimed));
}

#[test]
fn create_claim_rejects_overlong_claims() {
    let mut p = new_test_registry();
    let claim = vec![1, 2, 3, 4, 5, 6, 7];
    assert_eq!(p.create_claim(1, claim.clone(), 1), Err(Error::ClaimTooLong));
    assert_eq!(p.get_claim(&claim), None);
}

#[test]
fn revoke_claim_removes_only_the_named_claim() {
    let mut p = new_test_registry();
    let one = vec![1, 2];
    let two = vec![3, 4];
    assert!(p.create_claim(1, one.clone(), 1).is_ok());
    assert!(p.create_claim(1, two.clone(), 2).is_ok());
    assert!(p.revoke_claim(1, one.clone()).is_ok());
    assert_eq!(p.get_claim(&one), None);
    assert_eq!(p.get_claim(&two), Some((1, 2)));
}

#[test]
fn revoke_claim_refuses_strangers_and_unknowns() {
    let mut p = new_test_registry();
    let claim = vec![1, 2];
    assert_eq!(p.revoke_claim(1, claim.clone()), Err(Error::NoSuchProof));
    assert!(p.create_claim(1, claim.clone(), 1).is_ok());
    assert_eq!(p.revoke_claim(2, claim.clone()), Err(Error::NotProofOwner));
    assert_eq!(p.get_claim(&claim), Some((1, 1)));
}

#[test]
fn transfer_claim_hands_over_and_restamps() {
    let mut p = new_test_registry();
    let claim = vec![1, 2];
    assert!(p.create_claim(1, claim.clone(), 1).is_ok());
    assert!(p.transfer_claim(1, claim.clone(), 2, 5).is_ok());
    assert_eq!(p.get_claim(&claim), Some((2, 5)));
    assert_eq!(p.transfer_claim(1, claim.clone(), 3, 6), Err(Error::NotProofOwner));
}

#[test]
fn empty_claim_is_a_valid_claim() {
    let mut p = new_test_registry();
    let claim: Vec<u8> = vec![];
    assert!(p.create_claim(1, claim.clone(), 1).is_ok());
    assert_eq!(p.get_claim(&claim), Some((1, 1)));
}
