use casper_types::account::AccountHash;
use casper_types::bytesrepr::ToBytes;
use casper_types::Key;
use marketplace_indexer::dispatch::{dispatch, Dispatch};
use marketplace_indexer::poll::{select_interval, wait_after, Action, Cursor, Intervals};
use marketplace_indexer::sink::SqlValue;

const IV: Intervals = Intervals { idle_ms: 10_000, per_event_ms: 2_000 };

fn text_bytes(s: &str) -> Vec<u8> {
    let mut v = (s.len() as u32).to_le_bytes().to_vec();
    v.extend_from_slice(s.as_bytes());
    v
}

fn listing_payload() -> Vec<u8> {
    let mut v = text_bytes("event_NewListing");
    v.extend(Key::Account(AccountHash::new([1; 32])).to_bytes().unwrap());
    v.extend_from_slice(&[0xab; 32]);
    v.extend(text_bytes("token-7"));
    v.extend_from_slice(&[1, 5]);
    v.extend_from_slice(&1u64.to_le_bytes());
    v.extend_from_slice(&2u64.to_le_bytes());
    v
}

#[test]
fn cursor_starts_where_configured_and_advances_by_one() {
    let mut c = Cursor::new(64);
    assert_eq!(c.current(), 64);
    c.advance();
    assert_eq!(c.current(), 65);
}

#[test]
fn backoff_selection() {
    assert_eq!(select_interval(66, 64, &IV), 2_000);
    assert_eq!(select_interval(65, 64, &IV), 2_000);
    assert_eq!(select_interval(64, 64, &IV), 10_000);
    assert_eq!(select_interval(0, 64, &IV), 10_000);
    assert_eq!(select_interval(0, 0, &IV), 10_000);
    assert_eq!(select_interval(u32::MAX, u32::MAX - 1, &IV), 2_000);
    assert_eq!(wait_after(Action::Fetch(3), &IV), 2_000);
    assert_eq!(wait_after(Action::Idle, &IV), 10_000);
}

#[test]
fn idle_leaves_the_cursor() {
    let mut c = Cursor::new(5);
    let a = c.decide(5);
    assert_eq!(a, Action::Idle);
    c.complete(a);
    assert_eq!(c.current(), 5);
}

#[test]
fn fetched_ids_step_by_one_from_the_start() {
    let counts = [3u32, 3, 5, 5, 5, 5, 5, 6, 2, 9];
    let mut c = Cursor::new(2);
    let mut fetched = Vec::new();
    for n in counts {
        let a = c.decide(n);
        if let Action::Fetch(id) = a {
            fetched.push(id);
        }
        c.complete(a);
    }
    assert_eq!(fetched, vec![2, 3, 4, 5, 6]);
    assert_eq!(c.current(), 7);
}

#[test]
fn scenario_listing_then_unknown_then_idle() {
    let mut c = Cursor::new(64);
    let mut stored: Vec<u32> = Vec::new();

    let a = c.decide(66);
    assert_eq!(a, Action::Fetch(64));
    match dispatch("NewListing", &listing_payload(), 64) {
        Ok(Dispatch::Persist(row)) => {
            assert_eq!(row.values[0], SqlValue::Int(64));
            stored.push(row.event_id);
        },
        other => panic!("unexpected {:?}", other),
    }
    c.complete(a);
    assert_eq!(c.current(), 65);
    assert_eq!(wait_after(a, &IV), 2_000);

    let a = c.decide(66);
    assert_eq!(a, Action::Fetch(65));
    assert_eq!(dispatch("UnknownFutureEvent", &[0, 1], 65), Ok(Dispatch::Skip));
    c.complete(a);
    assert_eq!(c.current(), 66);

    let a = c.decide(66);
    assert_eq!(a, Action::Idle);
    assert_eq!(wait_after(a, &IV), 10_000);
    c.complete(a);
    assert_eq!(c.current(), 66);
    assert_eq!(stored, vec![64]);
}
