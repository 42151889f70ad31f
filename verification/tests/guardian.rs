use cortex::analytics::{
    category_from_document, category_from_response, check_digit_runs, parse_analytics, HttpError,
    JsonDocument, JsonEntry, JsonMember,
};
use cortex::guardian::{
    connections_step, Config, ConnectionsAction, ConnectionsError, Event, MutateStorageError,
    Pallet, PricePayload, StorageRetrievalError, TransactionType,
};
use cortex::primitives::{BadOrigin, Origin, H256};

fn config(grace: u64) -> Config {
    Config { grace_period: grace, unsigned_interval: 128, unsigned_priority: 1 << 20, max_prices: 64 }
}

#[test]
fn category_is_read_from_object() {
    assert_eq!(parse_analytics("{\"CATEGORY\": 7}"), Some(7));
    assert_eq!(parse_analytics(" { \"other\": 1, \"CATEGORY\": 42.5e3 } "), Some(42));
}

#[test]
fn first_category_key_counts() {
    assert_eq!(parse_analytics("{\"CATEGORY\": 3, \"CATEGORY\": 4}"), Some(3));
    assert_eq!(parse_analytics("{\"CATEGORY\": \"x\", \"CATEGORY\": 4}"), None);
}

#[test]
fn category_absent_or_not_a_number() {
    assert_eq!(parse_analytics("{\"category\": 3}"), None);
    assert_eq!(parse_analytics("{\"CATEGORY\": [1]}"), None);
    assert_eq!(parse_analytics("[{\"CATEGORY\": 1}]"), None);
    assert_eq!(parse_analytics("7"), None);
    assert_eq!(parse_analytics("{\"CATEGORY\": 1"), None);
    assert_eq!(parse_analytics(""), None);
}

#[test]
fn category_keeps_integer_part_cut_to_32_bits() {
    assert_eq!(parse_analytics("{\"CATEGORY\": -5}"), Some(5));
    assert_eq!(parse_analytics("{\"CATEGORY\": 4294967298}"), Some(2));
    assert_eq!(parse_analytics("{\"CATEGORY\": 0.99}"), Some(0));
}

#[test]
fn numbers_that_fit() {
    assert!(check_digit_runs("{\"CATEGORY\": 1234567890123456789}"));
    assert!(check_digit_runs("{\"CATEGORY\": 12345678901234567890}"));
    assert!(check_digit_runs("{\"CATEGORY\": 18446744073709551615}"));
    assert!(!check_digit_runs("{\"CATEGORY\": 18446744073709551616}"));
    assert!(!check_digit_runs("{\"CATEGORY\": -99999999999999999999}"));
    assert!(check_digit_runs("{\"CATEGORY\": 1e123456789}"));
    assert!(check_digit_runs("{\"CATEGORY\": 1e2147483647}"));
    assert!(!check_digit_runs("{\"CATEGORY\": 1e2147483648}"));
    assert!(check_digit_runs("{\"CATEGORY\": 1E-1234567890}"));
    assert!(!check_digit_runs("{\"CATEGORY\": 1E-9234567890}"));
    assert!(check_digit_runs("{\"CATEGORY\": 1e+123456789}"));
    assert!(check_digit_runs("{\"CATEGORY\": 0.18446744073709551615}"));
    assert!(!check_digit_runs("{\"CATEGORY\": 0.18446744073709551616}"));
    assert!(check_digit_runs("[0123456789012345678901234567]"));
    assert!(check_digit_runs("\"12345678901234567890123\""));
    assert!(check_digit_runs("[\"a\\\"99999999999999999999999\", 1]"));
    assert!(!check_digit_runs("[\"a\\\\\", 99999999999999999999999]"));
    assert!(check_digit_runs(""));
}

#[test]
fn long_numbers_within_bounds_are_parsed() {
    assert_eq!(parse_analytics("{\"CATEGORY\": 12345678901234567890}"), Some(3944680146));
    assert_eq!(parse_analytics("{\"CATEGORY\": 18446744073709551615}"), Some(4294967295));
    assert_eq!(parse_analytics("{\"CATEGORY\": 7E-1234567890}"), Some(7));
    assert_eq!(
        parse_analytics("{\"x\": \"123456789012345678901234567890\", \"CATEGORY\": 5}"),
        Some(5)
    );
    assert_eq!(parse_analytics("[0123456789012345678901234567]"), None);
    assert_eq!(
        category_from_response(200, b"{\"s\": \"12345678901234567890\", \"CATEGORY\": 8}"),
        Ok(8)
    );
}

#[test]
fn response_status_and_body() {
    let body = b"{\"CATEGORY\": 9}";
    assert_eq!(category_from_response(200, body), Ok(9));
    assert_eq!(category_from_response(404, body), Err(HttpError::Unknown));
    assert_eq!(category_from_response(200, &[0xff, 0xfe]), Err(HttpError::Unknown));
    assert_eq!(category_from_response(200, b"{}"), Err(HttpError::Unknown));
}

#[test]
fn payment_records_signer() {
    let claim = H256 { w0: 1, w1: 2, w2: 3, w3: 4 };
    assert_eq!(
        Pallet::process_payments(Origin::Signed(5), claim, 17),
        Ok(Event::NewAnalytics { claim, analytics_cid: 17, maybe_who: Some(5) })
    );
    assert_eq!(Pallet::process_payments(Origin::Unsigned, claim, 17), Err(BadOrigin));
    assert_eq!(
        Pallet::submit_payment(None, claim, 3),
        Event::NewAnalytics { claim, analytics_cid: 3, maybe_who: None }
    );
}

#[test]
fn lock_within_grace_period_is_refused() {
    let p = Pallet::new(config(5));
    assert_eq!(p.send_lock(Ok(Some(10)), 14), Err(()));
    assert_eq!(p.send_lock(Ok(Some(10)), 15), Ok(15));
    assert_eq!(p.send_lock(Ok(None), 3), Ok(3));
    assert_eq!(p.send_lock(Err(StorageRetrievalError::Undecodable), 3), Ok(3));
    assert_eq!(p.config(), config(5));
    assert!(p.prices().is_empty());
    assert_eq!(p.next_unsigned_at(), 0);
}

#[test]
fn signed_transaction_every_fourth_block() {
    assert_eq!(Pallet::transaction_type(Ok(8)), TransactionType::Signed);
    assert_eq!(Pallet::transaction_type(Ok(0)), TransactionType::Signed);
    assert_eq!(Pallet::transaction_type(Ok(9)), TransactionType::NoTransaction);
    assert_eq!(
        Pallet::transaction_type(Err(MutateStorageError::ValueFunctionFailed)),
        TransactionType::NoTransaction
    );
    assert_eq!(
        Pallet::transaction_type(Err(MutateStorageError::ConcurrentModification(8))),
        TransactionType::NoTransaction
    );
}

#[test]
fn price_payload_public() {
    let p = PricePayload::new(3u64, 100, 77u8);
    assert_eq!(p.public(), 77u8);
}

#[test]
fn connection_requests_are_not_carried_out_yet() {
    let claim = H256 { w0: 9, w1: 9, w2: 9, w3: 9 };
    assert_eq!(Pallet::process_connection_requests(claim), Ok(0));
}

#[test]
fn category_from_parsed_document() {
    let key = |s: &str| s.chars().collect::<Vec<char>>();
    let doc = JsonDocument::Object(vec![
        JsonEntry { key: key("CATEGORIES"), value: JsonMember::Number(1) },
        JsonEntry { key: key("CATEGORY"), value: JsonMember::Number((1u64 << 32) + 6) },
        JsonEntry { key: key("CATEGORY"), value: JsonMember::Number(2) },
    ]);
    assert_eq!(category_from_document(&doc), Some(6));
    let doc = JsonDocument::Object(vec![JsonEntry { key: key("CATEGORY"), value: JsonMember::Null }]);
    assert_eq!(category_from_document(&doc), None);
    assert_eq!(category_from_document(&JsonDocument::Value(JsonMember::Number(3))), None);
    assert_eq!(category_from_document(&JsonDocument::Object(vec![])), None);
}

#[test]
fn texts_with_runs_over_bound_give_no_category() {
    assert!(!check_digit_runs("E9999999999"));
    assert_eq!(parse_analytics("E9999999999"), None);
    assert_eq!(parse_analytics("{\"CATEGORY\": 18446744073709551616}"), None);
    assert_eq!(parse_analytics("{\"CATEGORY\": 1e2147483648}"), None);
    assert_eq!(
        category_from_response(200, b"{\"CATEGORY\": 99999999999999999999}"),
        Err(HttpError::Unknown)
    );
    assert_eq!(category_from_response(200, b"x 99999999999999999999"), Err(HttpError::Unknown));
}

#[test]
fn connections_steps() {
    let claim = H256 { w0: 1, w1: 1, w2: 1, w3: 1 };
    assert_eq!(
        connections_step(claim, false, None),
        ConnectionsAction::Fail(ConnectionsError::NoLocalAccounts)
    );
    assert_eq!(
        connections_step(claim, false, Some(Ok(3))),
        ConnectionsAction::Fail(ConnectionsError::NoLocalAccounts)
    );
    assert_eq!(connections_step(claim, true, None), ConnectionsAction::Fetch);
    assert_eq!(
        connections_step(claim, true, Some(Err(HttpError::IoError))),
        ConnectionsAction::Fail(ConnectionsError::FetchFailed)
    );
    assert_eq!(
        connections_step(claim, true, Some(Ok(3))),
        ConnectionsAction::Submit { claim, category: 3 }
    );
    assert_eq!(ConnectionsError::FetchFailed.message(), "Failed to fetch price");
    assert_eq!(
        ConnectionsError::NoLocalAccounts.message(),
        "No local accounts available. Consider adding one via `author_insertKey` RPC."
    );
}
