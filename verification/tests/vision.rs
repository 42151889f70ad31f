use cortex::primitives::{DispatchError, Origin, H256};
use cortex::vision::{CognitoDetails, ConnectionDetails, Error, Event, Pallet, PerceptDetails};

type Vision = Pallet<u32, u32, u8, u16>;

fn proof_hash(n: u64) -> H256 {
    H256 { w0: 0, w1: n, w2: 0, w3: 0 }
}

#[test]
fn it_works_for_default_value() {
    let test_val: Vec<u8> = (*b"TEST").to_vec();
    assert!(test_val.len() <= 64);
    let mut p = Vision::new();
    assert!(p.create_percept(Origin::Signed(1), 0, 0).is_ok());
}

#[test]
fn percept_is_created_and_read_back() {
    let mut p = Vision::new();
    assert_eq!(
        p.create_percept(Origin::Signed(1), 5, 6),
        Ok(Event::PerceptCreated { who: 1, percept_id: 0 })
    );
    assert_eq!(p.get_percept_details(1, 0), Ok(PerceptDetails { status: 5, caps: 6 }));
    assert_eq!(p.get_percept_details(2, 0), Err(Error::NoSuchNode));
    assert_eq!(p.next_percept_id(), None);
}

#[test]
fn second_percept_of_an_account_is_refused_until_revoke() {
    let mut p = Vision::new();
    p.create_percept(Origin::Signed(1), 5, 6).unwrap();
    assert_eq!(
        p.create_percept(Origin::Signed(1), 7, 8),
        Err(DispatchError::Module(Error::AlreadyCreated))
    );
    // another account may use the same identifier
    assert_eq!(
        p.create_percept(Origin::Signed(2), 7, 8),
        Ok(Event::PerceptCreated { who: 2, percept_id: 0 })
    );
    assert_eq!(
        p.revoke_percept(Origin::Signed(1), 0),
        Ok(Event::PerceptRevoked { who: 1, percept_id: 0 })
    );
    assert_eq!(p.next_percept_id(), Some(1));
    assert_eq!(
        p.create_percept(Origin::Signed(1), 9, 9),
        Ok(Event::PerceptCreated { who: 1, percept_id: 1 })
    );
    let mut ids = p.get_percepts(1).unwrap();
    ids.sort();
    assert_eq!(ids, vec![1]);
    assert_eq!(p.get_percepts(3).unwrap(), Vec::<u32>::new());
}

#[test]
fn revoke_percept_sets_counter_after_revoked_id() {
    let mut p = Vision::new();
    p.create_percept(Origin::Signed(4), 1, 1).unwrap();
    p.revoke_percept(Origin::Signed(4), 0).unwrap();
    p.create_percept(Origin::Signed(4), 1, 1).unwrap();
    p.revoke_percept(Origin::Signed(4), 1).unwrap();
    assert_eq!(p.next_percept_id(), Some(2));
    assert_eq!(
        p.revoke_percept(Origin::Signed(4), 1),
        Err(DispatchError::Module(Error::NoSuchNode))
    );
    assert_eq!(p.revoke_percept(Origin::Root, 1), Err(DispatchError::BadOrigin));
}

#[test]
fn cognitos_get_successive_ids() {
    let mut p = Vision::new();
    assert_eq!(
        p.create_cognito(Origin::Signed(1), 3, 4),
        Ok(Event::CognitoCreated { who: 1, cognito_id: 0 })
    );
    assert_eq!(
        p.create_cognito(Origin::Signed(1), 5, 6),
        Ok(Event::CognitoCreated { who: 1, cognito_id: 1 })
    );
    assert_eq!(p.next_cognito_id(), Some(2));
    assert_eq!(p.get_cognito_details(1, 1), Ok(CognitoDetails { status: 5, caps: 6 }));
    let mut ids = p.get_cognitos(1).unwrap();
    ids.sort();
    assert_eq!(ids, vec![0, 1]);
    assert_eq!(
        p.revoke_cognito(Origin::Signed(2), 0),
        Err(DispatchError::Module(Error::NoSuchNode))
    );
    assert_eq!(
        p.revoke_cognito(Origin::Signed(1), 0),
        Ok(Event::CognitoRevoked { who: 1, cognito_id: 0 })
    );
    assert_eq!(p.get_cognito_details(1, 0), Err(Error::NoSuchNode));
    assert_eq!(p.get_cognitos(1).unwrap(), vec![1]);
    assert_eq!(p.next_cognito_id(), Some(2));
}

#[test]
fn unsigned_create_is_refused_without_change() {
    let mut p = Vision::new();
    assert_eq!(p.create_cognito(Origin::Unsigned, 1, 1), Err(DispatchError::BadOrigin));
    assert_eq!(p.next_cognito_id(), None);
    assert_eq!(p.create_percept(Origin::Root, 1, 1), Err(DispatchError::BadOrigin));
    assert_eq!(p.create_connection(Origin::Authorized, 0, 0, 1), Err(DispatchError::BadOrigin));
    assert_eq!(p.next_connection_id(), None);
}

#[test]
fn connection_lifecycle() {
    let mut p = Vision::new();
    assert_eq!(
        p.create_connection(Origin::Signed(7), 3, 4, 100),
        Ok(Event::ConnectionCreated { who: 7, connection_id: 0 })
    );
    assert_eq!(
        p.get_connection_details(Origin::Unsigned, 3, 4),
        Ok(ConnectionDetails { owner: 7, connection: 0, start_block: 100, proof: H256::zero() })
    );
    assert_eq!(
        p.create_connection(Origin::Signed(8), 3, 4, 101),
        Err(DispatchError::Module(Error::AlreadyCreated))
    );
    assert_eq!(
        p.create_connection(Origin::Signed(8), 4, 3, 102),
        Ok(Event::ConnectionCreated { who: 8, connection_id: 1 })
    );
    assert_eq!(p.next_connection_id(), Some(2));

    assert_eq!(
        p.update_connection_proof(Origin::Signed(8), 3, 4, proof_hash(5)),
        Err(DispatchError::Module(Error::NotOwner))
    );
    assert_eq!(
        p.update_connection_proof(Origin::Signed(7), 9, 9, proof_hash(5)),
        Err(DispatchError::Module(Error::DoesNotExist))
    );
    assert_eq!(
        p.update_connection_proof(Origin::Signed(7), 3, 4, proof_hash(5)),
        Ok(Event::ConnectionUpdated { who: 7, connection_id: 0 })
    );
    assert_eq!(
        p.get_connection_details(Origin::Signed(1), 3, 4),
        Ok(ConnectionDetails { owner: 7, connection: 0, start_block: 100, proof: proof_hash(5) })
    );

    assert_eq!(
        p.revoke_connection(Origin::Signed(8), 3, 4),
        Err(DispatchError::Module(Error::NotOwner))
    );
    assert_eq!(
        p.revoke_connection(Origin::Signed(7), 3, 4),
        Ok(Event::ConnectionRevoked { who: 7, connection_id: 0 })
    );
    assert_eq!(p.get_connection_details(Origin::Signed(7), 3, 4), Err(Error::NoSuchNode));
    assert_eq!(
        p.revoke_connection(Origin::Signed(7), 3, 4),
        Err(DispatchError::Module(Error::NoSuchNode))
    );
    assert_eq!(
        p.get_connection_details(Origin::Signed(7), 4, 3),
        Ok(ConnectionDetails { owner: 8, connection: 1, start_block: 102, proof: H256::zero() })
    );
}

#[test]
fn percept_blocks_recreation_across_other_calls() {
    let mut p = Vision::new();
    p.create_percept(Origin::Signed(1), 5, 6).unwrap();
    p.create_cognito(Origin::Signed(1), 1, 1).unwrap();
    p.create_connection(Origin::Signed(1), 0, 0, 3).unwrap();
    p.update_connection_proof(Origin::Signed(1), 0, 0, proof_hash(2)).unwrap();
    p.revoke_connection(Origin::Signed(1), 0, 0).unwrap();
    p.revoke_cognito(Origin::Signed(1), 0).unwrap();
    assert_eq!(
        p.create_percept(Origin::Signed(1), 7, 8),
        Err(DispatchError::Module(Error::AlreadyCreated))
    );
    assert_eq!(p.get_percept_details(1, 0), Ok(PerceptDetails { status: 5, caps: 6 }));
}

#[test]
fn connection_ids_are_not_reused_after_revoke() {
    let mut p = Vision::new();
    p.create_connection(Origin::Signed(1), 0, 0, 1).unwrap();
    p.revoke_connection(Origin::Signed(1), 0, 0).unwrap();
    assert_eq!(
        p.create_connection(Origin::Signed(1), 0, 0, 2),
        Ok(Event::ConnectionCreated { who: 1, connection_id: 1 })
    );
    assert_eq!(
        p.create_connection(Origin::Signed(2), 1, 0, 2),
        Ok(Event::ConnectionCreated { who: 2, connection_id: 2 })
    );
}
