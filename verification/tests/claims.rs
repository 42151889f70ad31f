use cortex::claims::{ClaimRecord, Error, Event, Pallet};
use cortex::primitives::{DispatchError, Origin, H256};

fn hash(n: u64) -> H256 {
    H256 { w0: n, w1: 0, w2: 0, w3: n }
}

#[test]
fn claim_is_created_and_recorded() {
    let mut p = Pallet::new();
    let r = p.create_claim(Origin::Signed(1), hash(7), 42);
    assert_eq!(r, Ok(Event::ClaimCreated { who: 1, claim: hash(7) }));
    assert_eq!(p.claim(&hash(7)), Some(ClaimRecord { owner: 1, block: 42 }));
    assert_eq!(p.claim(&hash(8)), None);
}

#[test]
fn claim_cannot_be_created_twice() {
    let mut p = Pallet::new();
    assert!(p.create_claim(Origin::Signed(1), hash(7), 1).is_ok());
    assert_eq!(
        p.create_claim(Origin::Signed(2), hash(7), 2),
        Err(DispatchError::Module(Error::AlreadyClaimed))
    );
    assert_eq!(p.claim(&hash(7)), Some(ClaimRecord { owner: 1, block: 1 }));
}

#[test]
fn unsigned_origins_are_refused() {
    let mut p = Pallet::new();
    for origin in [Origin::Root, Origin::Unsigned, Origin::Authorized] {
        assert_eq!(p.create_claim(origin, hash(1), 1), Err(DispatchError::BadOrigin));
        assert_eq!(p.revoke_claim(origin, hash(1)), Err(DispatchError::BadOrigin));
    }
    assert_eq!(p.claim(&hash(1)), None);
}

#[test]
fn revoke_of_missing_claim_fails() {
    let mut p = Pallet::new();
    assert_eq!(
        p.revoke_claim(Origin::Signed(1), hash(3)),
        Err(DispatchError::Module(Error::NoSuchClaim))
    );
}

#[test]
fn only_owner_can_revoke() {
    let mut p = Pallet::new();
    p.create_claim(Origin::Signed(1), hash(3), 5).unwrap();
    assert_eq!(
        p.revoke_claim(Origin::Signed(2), hash(3)),
        Err(DispatchError::Module(Error::NotClaimOwner))
    );
    assert_eq!(p.claim(&hash(3)), Some(ClaimRecord { owner: 1, block: 5 }));
}

#[test]
fn revoke_undoes_create() {
    let mut p = Pallet::new();
    p.create_claim(Origin::Signed(9), hash(4), 10).unwrap();
    assert_eq!(
        p.revoke_claim(Origin::Signed(9), hash(4)),
        Ok(Event::ClaimRevoked { who: 9, claim: hash(4) })
    );
    assert_eq!(p.claim(&hash(4)), None);
    assert!(p.create_claim(Origin::Signed(2), hash(4), 11).is_ok());
    assert_eq!(p.claim(&hash(4)), Some(ClaimRecord { owner: 2, block: 11 }));
}

#[test]
fn hashes_that_differ_in_one_word_are_distinct_claims() {
    let mut p = Pallet::new();
    let a = H256 { w0: 1, w1: 2, w2: 3, w3: 4 };
    let b = H256 { w0: 1, w1: 2, w2: 3, w3: 5 };
    p.create_claim(Origin::Signed(1), a, 1).unwrap();
    assert!(p.create_claim(Origin::Signed(1), b, 1).is_ok());
    p.revoke_claim(Origin::Signed(1), a).unwrap();
    assert_eq!(p.claim(&a), None);
    assert_eq!(p.claim(&b), Some(ClaimRecord { owner: 1, block: 1 }));
}
