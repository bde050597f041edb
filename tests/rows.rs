use casper_types::account::AccountHash;
use casper_types::bytesrepr::ToBytes;
use casper_types::Key;
use marketplace_indexer::dispatch::{dispatch, kind_from_name, kind_name, same_text, Dispatch};
use marketplace_indexer::events::{Address, Amount, DecodeError, DecodedEvent, EventKind, NewListing, OfferAccepted};
use marketplace_indexer::sink::{
    address_text, insert_statement, judge_write, row_for, substring_after_last_hyphen, table_name,
    PersistOutcome, SqlValue, WriteFailure,
};

fn text_bytes(s: &str) -> Vec<u8> {
    let mut v = (s.len() as u32).to_le_bytes().to_vec();
    v.extend_from_slice(s.as_bytes());
    v
}

fn account(b: u8) -> Address {
    Address { encoded: Key::Account(AccountHash::new([b; 32])).to_bytes().unwrap() }
}

fn listing_payload() -> Vec<u8> {
    let mut v = text_bytes("event_NewListing");
    v.extend_from_slice(&account(1).encoded);
    v.extend_from_slice(&[0xab; 32]);
    v.extend(text_bytes("token-7"));
    v.extend_from_slice(&[9, 0, 0, 0, 0, 0, 0, 0, 0, 0x40]);
    v.extend_from_slice(&1_700_000_000u64.to_le_bytes());
    v.extend_from_slice(&1_800_000_000u64.to_le_bytes());
    v
}

#[test]
fn short_form_after_last_hyphen() {
    assert_eq!(substring_after_last_hyphen("account-hash-abc123"), "abc123");
    assert_eq!(substring_after_last_hyphen("hash-ff"), "ff");
    assert_eq!(substring_after_last_hyphen("nohyphen"), "nohyphen");
    assert_eq!(substring_after_last_hyphen("ends-"), "");
    assert_eq!(substring_after_last_hyphen(""), "");
    assert_eq!(substring_after_last_hyphen("ü-é"), "é");
}

#[test]
fn address_text_is_the_short_form_of_the_key() {
    assert_eq!(address_text(&account(1)), "01".repeat(32));
    let h = Address { encoded: Key::Hash([0xcd; 32]).to_bytes().unwrap() };
    assert_eq!(address_text(&h), "cd".repeat(32));
}

#[test]
fn new_listing_row_has_exact_columns() {
    let e = DecodedEvent::NewListing(NewListing {
        seller: account(1),
        contract_hash: vec![0xab; 32],
        token_id: "token-7".to_string(),
        price: Amount { le_bytes: vec![0, 0, 0, 0, 0, 0, 0, 0, 0x40] },
        timestamp: 1_700_000_000,
        expiration_date: 1_800_000_000,
    });
    let row = row_for(&e, 64);
    assert_eq!(row.kind, EventKind::NewListing);
    assert_eq!(row.event_id, 64);
    assert_eq!(
        row.values,
        vec![
            SqlValue::Int(64),
            SqlValue::Text("01".repeat(32)),
            SqlValue::Text("ab".repeat(32)),
            SqlValue::BigInt(1_700_000_000),
            SqlValue::Text("1180591620717411303424".to_string()),
            SqlValue::BigInt(1_800_000_000),
            SqlValue::Text("token-7".to_string()),
        ]
    );
}

#[test]
fn largest_amount_keeps_full_precision() {
    let e = DecodedEvent::NewListing(NewListing {
        seller: account(1),
        contract_hash: vec![0; 32],
        token_id: "t".to_string(),
        price: Amount { le_bytes: vec![0xff; 64] },
        timestamp: 0,
        expiration_date: 0,
    });
    let row = row_for(&e, 1);
    assert_eq!(
        row.values[4],
        SqlValue::Text("13407807929942597099574024998205846127479365820592393377723561443721764030073546976801874298166903427690031858186486050853753882811946569946433649006084095".to_string())
    );
    let z = DecodedEvent::NewListing(NewListing {
        seller: account(1),
        contract_hash: vec![0; 32],
        token_id: "t".to_string(),
        price: Amount { le_bytes: vec![] },
        timestamp: 0,
        expiration_date: 0,
    });
    assert_eq!(row_for(&z, 1).values[4], SqlValue::Text("0".to_string()));
}

#[test]
fn offer_accepted_row_keeps_buyer_and_seller_apart() {
    let e = DecodedEvent::OfferAccepted(OfferAccepted {
        buyer: account(2),
        seller: account(3),
        contract_hash: vec![4; 32],
        token_id: "t".to_string(),
        price: Amount { le_bytes: vec![10] },
        timestamp: 5,
    });
    let row = row_for(&e, 7);
    assert_eq!(row.values[1], SqlValue::Text("02".repeat(32)));
    assert_eq!(row.values[2], SqlValue::Text("03".repeat(32)));
    assert_eq!(row.values[5], SqlValue::Text("10".to_string()));
}

#[test]
fn statements_ignore_a_stored_id() {
    let s = insert_statement(EventKind::NewListing);
    assert!(s.starts_with("INSERT INTO node_casper_marketplace_event_create_listing (event_id, seller, contract_hash, timestamp, price, expiration_date, token_id) VALUES ($1, $2, $3, $4, $5, $6, $7)"));
    assert!(s.ends_with("ON CONFLICT (event_id) DO NOTHING"));
    assert_eq!(table_name(EventKind::Bid), "node_casper_marketplace_event_auction_bid");
}

#[test]
fn duplicate_write_is_success() {
    assert_eq!(judge_write(Ok(1)), PersistOutcome::Stored);
    assert_eq!(judge_write(Ok(0)), PersistOutcome::Duplicate);
    assert_eq!(judge_write(Err(WriteFailure::UniqueViolation)), PersistOutcome::Duplicate);
    assert_eq!(judge_write(Err(WriteFailure::Other)), PersistOutcome::Failed);
}

#[test]
fn kind_names_round_trip() {
    assert_eq!(kind_from_name("NewListing"), Some(EventKind::NewListing));
    assert_eq!(kind_from_name("RoyaltySet"), Some(EventKind::RoyaltySet));
    assert_eq!(kind_from_name("UnknownFutureEvent"), None);
    assert_eq!(kind_from_name("newlisting"), None);
    assert_eq!(kind_from_name(kind_name(EventKind::AuctionEnded)), Some(EventKind::AuctionEnded));
    assert!(same_text("abc", "abc"));
    assert!(!same_text("abc", "abd"));
    assert!(!same_text("abc", "ab"));
}

#[test]
fn unknown_kind_is_skipped_without_error() {
    assert_eq!(dispatch("UnknownFutureEvent", &[1, 2, 3], 65), Ok(Dispatch::Skip));
    assert_eq!(dispatch("", &[], 0), Ok(Dispatch::Skip));
}

#[test]
fn known_kind_becomes_its_row() {
    match dispatch("NewListing", &listing_payload(), 64) {
        Ok(Dispatch::Persist(row)) => {
            assert_eq!(row.kind, EventKind::NewListing);
            assert_eq!(row.values[0], SqlValue::Int(64));
            assert_eq!(row.values[6], SqlValue::Text("token-7".to_string()));
        },
        other => panic!("unexpected {:?}", other),
    }
}

#[test]
fn known_kind_with_bad_payload_is_an_error() {
    let mut p = listing_payload();
    p.push(0);
    assert_eq!(dispatch("NewListing", &p, 64), Err(DecodeError::TrailingBytes));
    assert_eq!(dispatch("Bid", &[], 64), Err(DecodeError::Malformed));
}
