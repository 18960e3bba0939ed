use poe::registry::{Config, Error, Event, Pallet};

const ALICE: u64 = 1;
const BOB: u64 = 2;

fn registry() -> Pallet {
    Pallet::new(Config { max_claim_length: 10 })
}

fn hello() -> Vec<u8> {
    b"hello".to_vec()
}

#[test]
fn concrete_scenario() {
    let mut p = registry();
    let ev = p.create_claim(ALICE, hello(), 100);
    assert_eq!(ev, Ok(Event::ClaimCreated(ALICE, hello())));
    assert_eq!(p.get(&hello()), Some((ALICE, 100)));
    assert_eq!(p.create_claim(BOB, hello(), 101), Err(Error::ProofAlreadyExists));
    assert_eq!(p.transfer_claim(ALICE, hello(), BOB, 102), Ok(()));
    assert_eq!(p.get(&hello()), Some((BOB, 102)));
    assert_eq!(p.revoke_claim(ALICE, hello()), Err(Error::NotClaimOwner));
    assert_eq!(p.revoke_claim(BOB, hello()), Ok(()));
    assert!(!p.contains_claim(&hello()));
    assert_eq!(p.get(&hello()), None);
}

#[test]
fn overlong_claim_rejected_everywhere() {
    let mut p = registry();
    p.create_claim(ALICE, hello(), 1).unwrap();
    let long = vec![7u8; 11];
    assert_eq!(p.create_claim(ALICE, long.clone(), 2), Err(Error::ClaimTooLong));
    assert_eq!(p.revoke_claim(ALICE, long.clone()), Err(Error::ClaimTooLong));
    assert_eq!(p.transfer_claim(ALICE, long.clone(), BOB, 3), Err(Error::ClaimTooLong));
    assert!(!p.contains_claim(&long));
    assert_eq!(p.get(&hello()), Some((ALICE, 1)));
}

#[test]
fn claim_at_bound_accepted() {
    let mut p = registry();
    let exact = vec![1u8; 10];
    assert!(p.create_claim(ALICE, exact.clone(), 5).is_ok());
    assert_eq!(p.get(&exact), Some((ALICE, 5)));
}

#[test]
fn empty_claim_is_a_claim() {
    let mut p = registry();
    assert!(p.create_claim(ALICE, Vec::new(), 1).is_ok());
    assert_eq!(p.create_claim(BOB, Vec::new(), 2), Err(Error::ProofAlreadyExists));
    assert_eq!(p.revoke_claim(ALICE, Vec::new()), Ok(()));
    assert!(!p.contains_claim(&Vec::new()));
}

#[test]
fn register_twice_same_origin() {
    let mut p = registry();
    assert!(p.create_claim(ALICE, hello(), 1).is_ok());
    assert_eq!(p.create_claim(ALICE, hello(), 2), Err(Error::ProofAlreadyExists));
    assert_eq!(p.get(&hello()), Some((ALICE, 1)));
}

#[test]
fn non_owner_cannot_transfer() {
    let mut p = registry();
    p.create_claim(ALICE, hello(), 1).unwrap();
    assert_eq!(p.transfer_claim(BOB, hello(), BOB, 2), Err(Error::NotClaimOwner));
    assert_eq!(p.get(&hello()), Some((ALICE, 1)));
}

#[test]
fn round_trip_register_transfer_revoke() {
    let mut p = registry();
    let c = b"doc".to_vec();
    assert!(p.create_claim(ALICE, c.clone(), 1).is_ok());
    assert_eq!(p.transfer_claim(ALICE, c.clone(), BOB, 2), Ok(()));
    assert_eq!(p.revoke_claim(BOB, c.clone()), Ok(()));
    assert!(!p.contains_claim(&c));
}

#[test]
fn unregistered_claim_does_not_exist() {
    let mut p = registry();
    p.create_claim(ALICE, hello(), 1).unwrap();
    let other = b"world".to_vec();
    assert_eq!(p.revoke_claim(ALICE, other.clone()), Err(Error::ClaimNotExist));
    assert_eq!(p.transfer_claim(ALICE, other.clone(), BOB, 2), Err(Error::ClaimNotExist));
    assert!(!p.contains_claim(&other));
    assert!(p.contains_claim(&hello()));
}

#[test]
fn claims_are_independent() {
    let mut p = registry();
    p.create_claim(ALICE, b"a".to_vec(), 1).unwrap();
    p.create_claim(BOB, b"b".to_vec(), 2).unwrap();
    p.create_claim(ALICE, b"c".to_vec(), 3).unwrap();
    assert_eq!(p.revoke_claim(BOB, b"b".to_vec()), Ok(()));
    assert_eq!(p.get(&b"a".to_vec()), Some((ALICE, 1)));
    assert_eq!(p.get(&b"c".to_vec()), Some((ALICE, 3)));
    assert_eq!(p.get(&b"b".to_vec()), None);
    assert_eq!(p.max_claim_length(), 10);
}
