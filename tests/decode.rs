use casper_types::account::AccountHash;
use casper_types::bytesrepr::ToBytes;
use casper_types::Key;
use marketplace_indexer::events::{
    decode_event, Address, Amount, AuctionEnded, AuctionStarted, Bid, DecodeError, DecodedEvent,
    EventKind, ListingBought, ListingCancelled, NewListing, NewOffer, OfferAccepted,
    OfferCancelled, RoyaltySet,
};

fn text_bytes(s: &str) -> Vec<u8> {
    let mut v = (s.len() as u32).to_le_bytes().to_vec();
    v.extend_from_slice(s.as_bytes());
    v
}

fn account(b: u8) -> Address {
    Address { encoded: Key::Account(AccountHash::new([b; 32])).to_bytes().unwrap() }
}

fn contract_key(b: u8) -> Address {
    Address { encoded: Key::Hash([b; 32]).to_bytes().unwrap() }
}

fn amount(le: &[u8]) -> Amount {
    Amount { le_bytes: le.to_vec() }
}

fn amount_bytes(a: &Amount) -> Vec<u8> {
    let mut v = vec![a.le_bytes.len() as u8];
    v.extend_from_slice(&a.le_bytes);
    v
}

fn sample_listing() -> NewListing {
    NewListing {
        seller: account(1),
        contract_hash: vec![0xab; 32],
        token_id: "token-7".to_string(),
        price: amount(&[0, 0, 0, 0, 0, 0, 0, 0, 0x40]),
        timestamp: 1_700_000_000,
        expiration_date: 1_800_000_000,
    }
}

fn listing_payload(e: &NewListing) -> Vec<u8> {
    let mut v = text_bytes("event_NewListing");
    v.extend_from_slice(&e.seller.encoded);
    v.extend_from_slice(&e.contract_hash);
    v.extend(text_bytes(&e.token_id));
    v.extend(amount_bytes(&e.price));
    v.extend_from_slice(&e.timestamp.to_le_bytes());
    v.extend_from_slice(&e.expiration_date.to_le_bytes());
    v
}

#[test]
fn decodes_new_listing_field_by_field() {
    let e = sample_listing();
    let p = listing_payload(&e);
    let d = decode_event(EventKind::NewListing, &p).unwrap();
    assert_eq!(d, DecodedEvent::NewListing(e));
    assert_eq!(d.kind(), EventKind::NewListing);
}

#[test]
fn one_byte_more_is_trailing() {
    let mut p = listing_payload(&sample_listing());
    p.push(0);
    assert_eq!(decode_event(EventKind::NewListing, &p), Err(DecodeError::TrailingBytes));
}

#[test]
fn one_byte_less_is_malformed() {
    let mut p = listing_payload(&sample_listing());
    p.pop();
    assert_eq!(decode_event(EventKind::NewListing, &p), Err(DecodeError::Malformed));
}

#[test]
fn empty_payload_is_malformed() {
    assert_eq!(decode_event(EventKind::Bid, &[]), Err(DecodeError::Malformed));
}

#[test]
fn invalid_utf8_token_is_malformed() {
    let mut e = sample_listing();
    e.token_id = "ab".to_string();
    let mut p = listing_payload(&e);
    let at = 4 + "event_NewListing".len() + 33 + 32 + 4;
    p[at] = 0xff;
    assert_eq!(decode_event(EventKind::NewListing, &p), Err(DecodeError::Malformed));
}

#[test]
fn amount_longer_than_64_bytes_is_malformed() {
    let mut p = text_bytes("event_RoyaltySet");
    p.extend_from_slice(&account(3).encoded);
    p.extend_from_slice(&[1; 32]);
    p.extend_from_slice(&5u64.to_le_bytes());
    assert!(decode_event(EventKind::RoyaltySet, &p).is_ok());
    let mut q = text_bytes("event_NewOffer");
    q.extend_from_slice(&account(3).encoded);
    q.extend_from_slice(&[1; 32]);
    q.extend(text_bytes("t"));
    q.push(65);
    q.extend_from_slice(&[1; 65]);
    q.extend_from_slice(&[0; 16]);
    assert_eq!(decode_event(EventKind::NewOffer, &q), Err(DecodeError::Malformed));
}

#[test]
fn unknown_key_tag_is_malformed() {
    let mut p = text_bytes("event_OfferCancelled");
    p.push(0xee);
    p.extend_from_slice(&[0; 80]);
    assert_eq!(decode_event(EventKind::OfferCancelled, &p), Err(DecodeError::Malformed));
}

#[test]
fn the_name_field_is_read_but_not_checked() {
    let e = sample_listing();
    let mut p = text_bytes("anything");
    p.extend_from_slice(&listing_payload(&e)[4 + "event_NewListing".len()..]);
    assert_eq!(decode_event(EventKind::NewListing, &p), Ok(DecodedEvent::NewListing(e)));
}

fn key(v: &mut Vec<u8>, a: &Address) {
    v.extend_from_slice(&a.encoded);
}

#[test]
fn round_trip_every_kind() {
    let big = amount(&[0xff; 64]);
    let cases: Vec<(EventKind, DecodedEvent, Vec<u8>)> = vec![
        {
            let e = sample_listing();
            (EventKind::NewListing, DecodedEvent::NewListing(e.clone()), listing_payload(&e))
        },
        {
            let e = ListingBought { seller: account(1), buyer: account(2), contract_hash: vec![3; 32], token_id: "x".into(), price: big.clone(), timestamp: 9 };
            let mut p = text_bytes("event_ListingBought");
            key(&mut p, &e.seller); key(&mut p, &e.buyer); p.extend_from_slice(&e.contract_hash);
            p.extend(text_bytes(&e.token_id)); p.extend(amount_bytes(&e.price)); p.extend_from_slice(&e.timestamp.to_le_bytes());
            (EventKind::ListingBought, DecodedEvent::ListingBought(e), p)
        },
        {
            let e = ListingCancelled { seller: contract_key(4), contract_hash: vec![5; 32], token_id: "".into(), timestamp: u64::MAX };
            let mut p = text_bytes("event_ListingCancelled");
            key(&mut p, &e.seller); p.extend_from_slice(&e.contract_hash);
            p.extend(text_bytes(&e.token_id)); p.extend_from_slice(&e.timestamp.to_le_bytes());
            (EventKind::ListingCancelled, DecodedEvent::ListingCancelled(e), p)
        },
        {
            let e = NewOffer { buyer: account(6), contract_hash: vec![7; 32], token_id: "ü-1".into(), price: amount(&[]), timestamp: 1, expiration_date: 2 };
            let mut p = text_bytes("event_NewOffer");
            key(&mut p, &e.buyer); p.extend_from_slice(&e.contract_hash);
            p.extend(text_bytes(&e.token_id)); p.extend(amount_bytes(&e.price));
            p.extend_from_slice(&e.timestamp.to_le_bytes()); p.extend_from_slice(&e.expiration_date.to_le_bytes());
            (EventKind::NewOffer, DecodedEvent::NewOffer(e), p)
        },
        {
            let e = OfferCancelled { buyer: account(8), contract_hash: vec![9; 32], token_id: "t".into(), timestamp: 3 };
            let mut p = text_bytes("event_OfferCancelled");
            key(&mut p, &e.buyer); p.extend_from_slice(&e.contract_hash);
            p.extend(text_bytes(&e.token_id)); p.extend_from_slice(&e.timestamp.to_le_bytes());
            (EventKind::OfferCancelled, DecodedEvent::OfferCancelled(e), p)
        },
        {
            let e = OfferAccepted { buyer: account(10), seller: account(11), contract_hash: vec![12; 32], token_id: "t".into(), price: amount(&[1, 2]), timestamp: 4 };
            let mut p = text_bytes("event_OfferAccepted");
            key(&mut p, &e.buyer); key(&mut p, &e.seller); p.extend_from_slice(&e.contract_hash);
            p.extend(text_bytes(&e.token_id)); p.extend(amount_bytes(&e.price)); p.extend_from_slice(&e.timestamp.to_le_bytes());
            (EventKind::OfferAccepted, DecodedEvent::OfferAccepted(e), p)
        },
        {
            let e = AuctionStarted { seller: account(13), contract_hash: vec![14; 32], token_id: "t".into(), starting_price: amount(&[5]), timestamp: 5, end_date: 6 };
            let mut p = text_bytes("event_AuctionStarted");
            key(&mut p, &e.seller); p.extend_from_slice(&e.contract_hash);
            p.extend(text_bytes(&e.token_id)); p.extend(amount_bytes(&e.starting_price));
            p.extend_from_slice(&e.timestamp.to_le_bytes()); p.extend_from_slice(&e.end_date.to_le_bytes());
            (EventKind::AuctionStarted, DecodedEvent::AuctionStarted(e), p)
        },
        {
            let e = AuctionEnded { seller: account(15), winner: account(16), contract_hash: vec![17; 32], token_id: "t".into(), ending_price: amount(&[6]), timestamp: 7 };
            let mut p = text_bytes("event_AuctionEnded");
            key(&mut p, &e.seller); key(&mut p, &e.winner); p.extend_from_slice(&e.contract_hash);
            p.extend(text_bytes(&e.token_id)); p.extend(amount_bytes(&e.ending_price)); p.extend_from_slice(&e.timestamp.to_le_bytes());
            (EventKind::AuctionEnded, DecodedEvent::AuctionEnded(e), p)
        },
        {
            let e = Bid { seller: account(18), bidder: account(19), contract_hash: vec![20; 32], bid_price: amount(&[7, 7]), token_id: "t".into(), timestamp: 8, new_end_timestamp: 9 };
            let mut p = text_bytes("event_Bid");
            key(&mut p, &e.seller); key(&mut p, &e.bidder); p.extend_from_slice(&e.contract_hash);
            p.extend(amount_bytes(&e.bid_price)); p.extend(text_bytes(&e.token_id));
            p.extend_from_slice(&e.timestamp.to_le_bytes()); p.extend_from_slice(&e.new_end_timestamp.to_le_bytes());
            (EventKind::Bid, DecodedEvent::Bid(e), p)
        },
        {
            let e = RoyaltySet { recipient: account(21), contract_hash: vec![22; 32], percentage: 250 };
            let mut p = text_bytes("event_RoyaltySet");
            key(&mut p, &e.recipient); p.extend_from_slice(&e.contract_hash); p.extend_from_slice(&e.percentage.to_le_bytes());
            (EventKind::RoyaltySet, DecodedEvent::RoyaltySet(e), p)
        },
    ];
    for (k, e, p) in cases {
        assert_eq!(decode_event(k, &p), Ok(e.clone()));
        assert_eq!(e.kind(), k);
        let mut longer = p.clone();
        longer.push(1);
        assert_eq!(decode_event(k, &longer), Err(DecodeError::TrailingBytes));
        let shorter = &p[..p.len() - 1];
        assert_eq!(decode_event(k, shorter), Err(DecodeError::Malformed));
    }
}
