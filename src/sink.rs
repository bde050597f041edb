//! The persistence side: the row that each decoded event becomes, the
//! statement that stores it, and how a write's outcome is judged.
use crate::events::{
    decode_event, decode_spec, Address, Amount, AuctionEnded, AuctionStarted, Bid, DecodeError,
    DecodedEvent, EventKind, ListingBought, ListingCancelled, NewListing, NewOffer, OfferAccepted,
    OfferCancelled, RoyaltySet,
};
use crate::wire::{le_nat, FieldValue};
use casper_types::bytesrepr::FromBytes;
use vstd::prelude::*;
use vstd::string::StringSliceAdditionalSpecFns;
use vstd::utf8::*;

verus! {

broadcast use {encode_utf8_decode_utf8, encode_utf8_valid_utf8};

/// What follows the last hyphen of `b`, or all of `b` where it has none.
pub open spec fn after_last_hyphen(b: Seq<u8>) -> Seq<u8>
    decreases b.len(),
{
    if b.len() == 0 {
        b
    } else if b.last() == 0x2d {
        Seq::empty()
    } else {
        after_last_hyphen(b.drop_last()).push(b.last())
    }
}

proof fn lemma_after_last_hyphen(b: Seq<u8>, p: int)
    requires
        -1 <= p < b.len(),
        p >= 0 ==> b[p] == 0x2d,
        forall|j: int| p < j < b.len() ==> b[j] != 0x2d,
    ensures
        after_last_hyphen(b) == b.subrange(p + 1, b.len() as int),
    decreases b.len(),
{
    if b.len() > 0 && p < b.len() - 1 {
        lemma_after_last_hyphen(b.drop_last(), p);
        assert(b.drop_last().subrange(p + 1, b.len() - 1).push(b.last()) =~= b.subrange(
            p + 1,
            b.len() as int,
        ));
    } else if b.len() > 0 {
        assert(b.subrange(p + 1, b.len() as int) =~= Seq::<u8>::empty());
    } else {
        assert(b.subrange(p + 1, b.len() as int) =~= b);
    }
}

proof fn lemma_boundary_after_ascii(b: Seq<u8>, p: int)
    requires
        valid_utf8(b),
        0 <= p < b.len(),
        is_char_boundary(b, p),
        b[p] <= 0x7f,
    ensures
        is_char_boundary(b, p + 1),
    decreases b.len(),
{
    let l = length_of_first_scalar(b);
    let q = pop_first_scalar(b);
    if p == 0 {
        assert(l == 1);
        assert(is_char_boundary(q, 0));
    } else {
        assert(q[p - l] == b[p]);
        lemma_boundary_after_ascii(q, p - l);
    }
}

/// The short form of a structured "kind-hash" text: what follows its last
/// hyphen, or the whole text where it has none.
pub fn substring_after_last_hyphen(input: &str) -> (r: &str)
    ensures
        r.spec_bytes() == after_last_hyphen(input.spec_bytes()),
        r@ == decode_utf8(after_last_hyphen(input.spec_bytes())),
{
    let b = input.as_bytes();
    let mut i: usize = b.len();
    while i > 0
        invariant
            i <= b@.len(),
            b@ == input.spec_bytes(),
            forall|j: int| i <= j < b@.len() ==> b@[j] != 0x2d,
        decreases i,
    {
        if b[i - 1] == 0x2d {
            let p = i - 1;
            proof {
                lemma_after_last_hyphen(b@, p as int);
                is_char_boundary_iff_is_leading_byte(b@, p as int);
                lemma_boundary_after_ascii(b@, p as int);
            }
            let (_, rest) = input.split_at(i);
            proof {
                assert(rest@ == decode_utf8(encode_utf8(rest@)));
            }
            return rest;
        }
        i = i - 1;
    }
    proof {
        lemma_after_last_hyphen(b@, -1);
        assert(b@.subrange(0, b@.len() as int) =~= b@);
    }
    input
}

/// The sixteen lowercase hexadecimal digits.
pub open spec fn hex_digits() -> Seq<char> {
    seq!['0', '1', '2', '3', '4', '5', '6', '7', '8', '9', 'a', 'b', 'c', 'd', 'e', 'f']
}

/// `b` written as lowercase hexadecimal, two digits per byte.
pub open spec fn hex_lower(b: Seq<u8>) -> Seq<char>
    decreases b.len(),
{
    if b.len() == 0 {
        Seq::empty()
    } else {
        seq![hex_digits()[(b[0] / 16) as int], hex_digits()[(b[0] % 16) as int]] + hex_lower(b.subrange(1, b.len() as int))
    }
}

/// `n` written in decimal, with no leading zero.
pub open spec fn decimal(n: nat) -> Seq<char>
    decreases n,
{
    if n < 10 {
        seq![hex_digits()[n as int]]
    } else {
        decimal(n / 10).push(hex_digits()[(n % 10) as int])
    }
}

/// Names the text that casper-types' `Key::to_formatted_string` gives for the
/// key whose canonical encoding is `encoded`.
pub uninterp spec fn key_formatted(encoded: Seq<u8>) -> Seq<char>;

/// Relies on casper-types' `Key::from_bytes` and `Key::to_formatted_string`:
/// the text depends on the key's encoding alone.
#[verifier::external_body]
fn key_text(encoded: &Vec<u8>) -> (r: String)
    ensures
        r@ == key_formatted(encoded@),
{
    match casper_types::Key::from_bytes(encoded) {
        Ok((key, _)) => key.to_formatted_string(),
        Err(_) => String::new(),
    }
}

/// Relies on the `Display` of casper-types' `ContractHash`: its 32 bytes in
/// lowercase hexadecimal.
#[verifier::external_body]
fn hash_text(bytes: &Vec<u8>) -> (r: String)
    requires
        bytes@.len() == 32,
    ensures
        r@ == hex_lower(bytes@),
{
    let mut arr = [0u8; 32];
    arr.copy_from_slice(bytes);
    casper_types::ContractHash::new(arr).to_string()
}

/// Relies on casper-types' `U512::from_little_endian` and its `Display`: the
/// amount in decimal.
#[verifier::external_body]
fn amount_text(le_bytes: &Vec<u8>) -> (r: String)
    requires
        le_bytes@.len() <= 64,
    ensures
        r@ == decimal(le_nat(le_bytes@)),
{
    casper_types::U512::from_little_endian(le_bytes).to_string()
}

/// The column text of an address: the short form of its formatted text.
pub open spec fn address_cell_text(encoded: Seq<u8>) -> Seq<char> {
    decode_utf8(after_last_hyphen(encode_utf8(key_formatted(encoded))))
}

/// The column text of an address.
pub fn address_text(a: &Address) -> (r: String)
    ensures
        r@ == address_cell_text(a.encoded@),
{
    let full = key_text(&a.encoded);
    let short = substring_after_last_hyphen(full.as_str());
    short.to_owned()
}

/// A column value of a row.
#[derive(Clone, Debug, PartialEq, Eq)]
pub enum SqlValue {
    /// A 32-bit integer column: the event id.
    Int(i32),
    /// A 64-bit integer column: a timestamp or a count.
    BigInt(i64),
    /// A text column.
    Text(String),
}

/// The value of a column, as the contracts see it.
pub ghost enum SqlCell {
    Int(i32),
    BigInt(i64),
    Text(Seq<char>),
}

impl View for SqlValue {
    type V = SqlCell;

    open spec fn view(&self) -> SqlCell {
        match self {
            SqlValue::Int(v) => SqlCell::Int(*v),
            SqlValue::BigInt(v) => SqlCell::BigInt(*v),
            SqlValue::Text(t) => SqlCell::Text(t@),
        }
    }
}

pub open spec fn key_cell(v: FieldValue) -> SqlCell {
    match v {
        FieldValue::Key(b) => SqlCell::Text(address_cell_text(b)),
        _ => SqlCell::Text(Seq::empty()),
    }
}

pub open spec fn hash_cell(v: FieldValue) -> SqlCell {
    match v {
        FieldValue::Hash(b) => SqlCell::Text(hex_lower(b)),
        _ => SqlCell::Text(Seq::empty()),
    }
}

pub open spec fn text_cell(v: FieldValue) -> SqlCell {
    match v {
        FieldValue::Text(t) => SqlCell::Text(t),
        _ => SqlCell::Text(Seq::empty()),
    }
}

pub open spec fn amount_cell(v: FieldValue) -> SqlCell {
    match v {
        FieldValue::Amount(b) => SqlCell::Text(decimal(le_nat(b))),
        _ => SqlCell::Text(Seq::empty()),
    }
}

pub open spec fn int_cell(v: FieldValue) -> SqlCell {
    match v {
        FieldValue::U64(n) => SqlCell::BigInt(n as i64),
        _ => SqlCell::BigInt(0),
    }
}

/// The row that an event of kind `k` with field values `vals` becomes under
/// `event_id`: the id first, then the kind's columns.
pub open spec fn row_cells(k: EventKind, vals: Seq<FieldValue>, event_id: u32) -> Seq<SqlCell> {
    match k {
        EventKind::NewListing => seq![SqlCell::Int(event_id as i32), key_cell(vals[0]), hash_cell(vals[1]), int_cell(vals[4]), amount_cell(vals[3]), int_cell(vals[5]), text_cell(vals[2])],
        EventKind::ListingBought => seq![SqlCell::Int(event_id as i32), key_cell(vals[0]), key_cell(vals[1]), hash_cell(vals[2]), int_cell(vals[5]), amount_cell(vals[4]), text_cell(vals[3])],
        EventKind::ListingCancelled => seq![SqlCell::Int(event_id as i32), key_cell(vals[0]), hash_cell(vals[1]), int_cell(vals[3]), text_cell(vals[2])],
        EventKind::NewOffer => seq![SqlCell::Int(event_id as i32), key_cell(vals[0]), hash_cell(vals[1]), int_cell(vals[4]), amount_cell(vals[3]), int_cell(vals[5]), text_cell(vals[2])],
        EventKind::OfferCancelled => seq![SqlCell::Int(event_id as i32), key_cell(vals[0]), hash_cell(vals[1]), int_cell(vals[3]), text_cell(vals[2])],
        EventKind::OfferAccepted => seq![SqlCell::Int(event_id as i32), key_cell(vals[0]), key_cell(vals[1]), hash_cell(vals[2]), int_cell(vals[5]), amount_cell(vals[4]), text_cell(vals[3])],
        EventKind::AuctionStarted => seq![SqlCell::Int(event_id as i32), key_cell(vals[0]), hash_cell(vals[1]), int_cell(vals[4]), int_cell(vals[5]), amount_cell(vals[3]), text_cell(vals[2])],
        EventKind::AuctionEnded => seq![SqlCell::Int(event_id as i32), key_cell(vals[0]), key_cell(vals[1]), hash_cell(vals[2]), int_cell(vals[5]), amount_cell(vals[4]), text_cell(vals[3])],
        EventKind::Bid => seq![SqlCell::Int(event_id as i32), key_cell(vals[1]), key_cell(vals[0]), hash_cell(vals[2]), int_cell(vals[5]), int_cell(vals[6]), amount_cell(vals[3]), text_cell(vals[4])],
        EventKind::RoyaltySet => seq![SqlCell::Int(event_id as i32), key_cell(vals[0]), hash_cell(vals[1]), int_cell(vals[2])],
    }
}

/// The table that holds the rows of kind `k`.
pub open spec fn table_of(k: EventKind) -> &'static str {
    match k {
        EventKind::NewListing => "node_casper_marketplace_event_create_listing",
        EventKind::ListingBought => "node_casper_marketplace_event_listing_bought",
        EventKind::ListingCancelled => "node_casper_marketplace_event_listing_cancelled",
        EventKind::NewOffer => "node_casper_marketplace_event_new_offer",
        EventKind::OfferCancelled => "node_casper_marketplace_event_offer_cancelled",
        EventKind::OfferAccepted => "node_casper_marketplace_event_offer_accepted",
        EventKind::AuctionStarted => "node_casper_marketplace_event_auction_started",
        EventKind::AuctionEnded => "node_casper_marketplace_event_auction_ended",
        EventKind::Bid => "node_casper_marketplace_event_auction_bid",
        EventKind::RoyaltySet => "node_casper_marketplace_event_royalty_set",
    }
}

/// The statement that stores a row of kind `k`: a row whose event id is
/// already stored is left as it is.
pub open spec fn insert_sql(k: EventKind) -> &'static str {
    match k {
        EventKind::NewListing => "INSERT INTO node_casper_marketplace_event_create_listing (event_id, seller, contract_hash, timestamp, price, expiration_date, token_id) VALUES ($1, $2, $3, $4, $5, $6, $7) ON CONFLICT (event_id) DO NOTHING",
        EventKind::ListingBought => "INSERT INTO node_casper_marketplace_event_listing_bought (event_id, seller, buyer, contract_hash, timestamp, price, token_id) VALUES ($1, $2, $3, $4, $5, $6, $7) ON CONFLICT (event_id) DO NOTHING",
        EventKind::ListingCancelled => "INSERT INTO node_casper_marketplace_event_listing_cancelled (event_id, seller, contract_hash, timestamp, token_id) VALUES ($1, $2, $3, $4, $5) ON CONFLICT (event_id) DO NOTHING",
        EventKind::NewOffer => "INSERT INTO node_casper_marketplace_event_new_offer (event_id, buyer, contract_hash, timestamp, price, expiration_date, token_id) VALUES ($1, $2, $3, $4, $5, $6, $7) ON CONFLICT (event_id) DO NOTHING",
        EventKind::OfferCancelled => "INSERT INTO node_casper_marketplace_event_offer_cancelled (event_id, buyer, contract_hash, timestamp, token_id) VALUES ($1, $2, $3, $4, $5) ON CONFLICT (event_id) DO NOTHING",
        EventKind::OfferAccepted => "INSERT INTO node_casper_marketplace_event_offer_accepted (event_id, buyer, seller, contract_hash, timestamp, price, token_id) VALUES ($1, $2, $3, $4, $5, $6, $7) ON CONFLICT (event_id) DO NOTHING",
        EventKind::AuctionStarted => "INSERT INTO node_casper_marketplace_event_auction_started (event_id, seller, contract_hash, timestamp, expiration_date, price, token_id) VALUES ($1, $2, $3, $4, $5, $6, $7) ON CONFLICT (event_id) DO NOTHING",
        EventKind::AuctionEnded => "INSERT INTO node_casper_marketplace_event_auction_ended (event_id, seller, winner, contract_hash, timestamp, ending_price, token_id) VALUES ($1, $2, $3, $4, $5, $6, $7) ON CONFLICT (event_id) DO NOTHING",
        EventKind::Bid => "INSERT INTO node_casper_marketplace_event_auction_bid (event_id, bidder, seller, contract_hash, timestamp, new_end_timestamp, bid_price, token_id) VALUES ($1, $2, $3, $4, $5, $6, $7, $8) ON CONFLICT (event_id) DO NOTHING",
        EventKind::RoyaltySet => "INSERT INTO node_casper_marketplace_event_royalty_set (event_id, recipient, contract_hash, percentage) VALUES ($1, $2, $3, $4) ON CONFLICT (event_id) DO NOTHING",
    }
}

/// The table that holds the rows of kind `k`.
pub fn table_name(k: EventKind) -> (r: &'static str)
    ensures
        r == table_of(k),
{
    match k {
        EventKind::NewListing => "node_casper_marketplace_event_create_listing",
        EventKind::ListingBought => "node_casper_marketplace_event_listing_bought",
        EventKind::ListingCancelled => "node_casper_marketplace_event_listing_cancelled",
        EventKind::NewOffer => "node_casper_marketplace_event_new_offer",
        EventKind::OfferCancelled => "node_casper_marketplace_event_offer_cancelled",
        EventKind::OfferAccepted => "node_casper_marketplace_event_offer_accepted",
        EventKind::AuctionStarted => "node_casper_marketplace_event_auction_started",
        EventKind::AuctionEnded => "node_casper_marketplace_event_auction_ended",
        EventKind::Bid => "node_casper_marketplace_event_auction_bid",
        EventKind::RoyaltySet => "node_casper_marketplace_event_royalty_set",
    }
}

/// The statement that stores a row of kind `k`, with one parameter per
/// column in the order of the row.
pub fn insert_statement(k: EventKind) -> (r: &'static str)
    ensures
        r == insert_sql(k),
{
    match k {
        EventKind::NewListing => "INSERT INTO node_casper_marketplace_event_create_listing (event_id, seller, contract_hash, timestamp, price, expiration_date, token_id) VALUES ($1, $2, $3, $4, $5, $6, $7) ON CONFLICT (event_id) DO NOTHING",
        EventKind::ListingBought => "INSERT INTO node_casper_marketplace_event_listing_bought (event_id, seller, buyer, contract_hash, timestamp, price, token_id) VALUES ($1, $2, $3, $4, $5, $6, $7) ON CONFLICT (event_id) DO NOTHING",
        EventKind::ListingCancelled => "INSERT INTO node_casper_marketplace_event_listing_cancelled (event_id, seller, contract_hash, timestamp, token_id) VALUES ($1, $2, $3, $4, $5) ON CONFLICT (event_id) DO NOTHING",
        EventKind::NewOffer => "INSERT INTO node_casper_marketplace_event_new_offer (event_id, buyer, contract_hash, timestamp, price, expiration_date, token_id) VALUES ($1, $2, $3, $4, $5, $6, $7) ON CONFLICT (event_id) DO NOTHING",
        EventKind::OfferCancelled => "INSERT INTO node_casper_marketplace_event_offer_cancelled (event_id, buyer, contract_hash, timestamp, token_id) VALUES ($1, $2, $3, $4, $5) ON CONFLICT (event_id) DO NOTHING",
        EventKind::OfferAccepted => "INSERT INTO node_casper_marketplace_event_offer_accepted (event_id, buyer, seller, contract_hash, timestamp, price, token_id) VALUES ($1, $2, $3, $4, $5, $6, $7) ON CONFLICT (event_id) DO NOTHING",
        EventKind::AuctionStarted => "INSERT INTO node_casper_marketplace_event_auction_started (event_id, seller, contract_hash, timestamp, expiration_date, price, token_id) VALUES ($1, $2, $3, $4, $5, $6, $7) ON CONFLICT (event_id) DO NOTHING",
        EventKind::AuctionEnded => "INSERT INTO node_casper_marketplace_event_auction_ended (event_id, seller, winner, contract_hash, timestamp, ending_price, token_id) VALUES ($1, $2, $3, $4, $5, $6, $7) ON CONFLICT (event_id) DO NOTHING",
        EventKind::Bid => "INSERT INTO node_casper_marketplace_event_auction_bid (event_id, bidder, seller, contract_hash, timestamp, new_end_timestamp, bid_price, token_id) VALUES ($1, $2, $3, $4, $5, $6, $7, $8) ON CONFLICT (event_id) DO NOTHING",
        EventKind::RoyaltySet => "INSERT INTO node_casper_marketplace_event_royalty_set (event_id, recipient, contract_hash, percentage) VALUES ($1, $2, $3, $4) ON CONFLICT (event_id) DO NOTHING",
    }
}

/// A row to store: its kind and its column values.
#[derive(Clone, Debug, PartialEq, Eq)]
pub struct Row {
    pub kind: EventKind,
    pub event_id: u32,
    pub values: Vec<SqlValue>,
}

impl Row {
    /// The row's column values, as the contracts see them.
    pub open spec fn cells(&self) -> Seq<SqlCell> {
        self.values@.map_values(|v: SqlValue| v@)
    }
}

fn push_address(v: &mut Vec<SqlValue>, a: &Address)
    ensures
        final(v)@.map_values(|x: SqlValue| x@) == old(v)@.map_values(|x: SqlValue| x@).push(
            key_cell(FieldValue::Key(a.encoded@)),
        ),
{
    let ghost before = v@;
    v.push(SqlValue::Text(address_text(a)));
    proof {
        assert(v@.map_values(|x: SqlValue| x@) =~= before.map_values(|x: SqlValue| x@).push(
            key_cell(FieldValue::Key(a.encoded@)),
        ));
    }
}

fn push_hash(v: &mut Vec<SqlValue>, h: &Vec<u8>)
    requires
        h@.len() == 32,
    ensures
        final(v)@.map_values(|x: SqlValue| x@) == old(v)@.map_values(|x: SqlValue| x@).push(
            hash_cell(FieldValue::Hash(h@)),
        ),
{
    let ghost before = v@;
    v.push(SqlValue::Text(hash_text(h)));
    proof {
        assert(v@.map_values(|x: SqlValue| x@) =~= before.map_values(|x: SqlValue| x@).push(
            hash_cell(FieldValue::Hash(h@)),
        ));
    }
}

fn push_text(v: &mut Vec<SqlValue>, t: &String)
    ensures
        final(v)@.map_values(|x: SqlValue| x@) == old(v)@.map_values(|x: SqlValue| x@).push(
            text_cell(FieldValue::Text(t@)),
        ),
{
    let ghost before = v@;
    v.push(SqlValue::Text(t.clone()));
    proof {
        assert(v@.map_values(|x: SqlValue| x@) =~= before.map_values(|x: SqlValue| x@).push(
            text_cell(FieldValue::Text(t@)),
        ));
    }
}

fn push_amount(v: &mut Vec<SqlValue>, a: &Amount)
    requires
        a.le_bytes@.len() <= 64,
    ensures
        final(v)@.map_values(|x: SqlValue| x@) == old(v)@.map_values(|x: SqlValue| x@).push(
            amount_cell(FieldValue::Amount(a.le_bytes@)),
        ),
{
    let ghost before = v@;
    v.push(SqlValue::Text(amount_text(&a.le_bytes)));
    proof {
        assert(v@.map_values(|x: SqlValue| x@) =~= before.map_values(|x: SqlValue| x@).push(
            amount_cell(FieldValue::Amount(a.le_bytes@)),
        ));
    }
}

fn push_int(v: &mut Vec<SqlValue>, n: u64)
    ensures
        final(v)@.map_values(|x: SqlValue| x@) == old(v)@.map_values(|x: SqlValue| x@).push(
            int_cell(FieldValue::U64(n)),
        ),
{
    let ghost before = v@;
    v.push(SqlValue::BigInt(n as i64));
    proof {
        assert(v@.map_values(|x: SqlValue| x@) =~= before.map_values(|x: SqlValue| x@).push(
            int_cell(FieldValue::U64(n)),
        ));
    }
}

fn new_listing_row(x: &NewListing, event_id: u32) -> (r: Vec<SqlValue>)
    requires
        x.wf(),
    ensures
        r@.map_values(|c: SqlValue| c@) == row_cells(EventKind::NewListing, x.fields(), event_id),
{
    let mut v: Vec<SqlValue> = Vec::new();
    v.push(SqlValue::Int(event_id as i32));
    proof {
        assert(v@.map_values(|c: SqlValue| c@) =~= seq![SqlCell::Int(event_id as i32)]);
    }
    push_address(&mut v, &x.seller);
    push_hash(&mut v, &x.contract_hash);
    push_int(&mut v, x.timestamp);
    push_amount(&mut v, &x.price);
    push_int(&mut v, x.expiration_date);
    push_text(&mut v, &x.token_id);
    proof {
        assert(v@.map_values(|c: SqlValue| c@) =~= row_cells(EventKind::NewListing, x.fields(), event_id));
    }
    v
}

fn listing_bought_row(x: &ListingBought, event_id: u32) -> (r: Vec<SqlValue>)
    requires
        x.wf(),
    ensures
        r@.map_values(|c: SqlValue| c@) == row_cells(EventKind::ListingBought, x.fields(), event_id),
{
    let mut v: Vec<SqlValue> = Vec::new();
    v.push(SqlValue::Int(event_id as i32));
    proof {
        assert(v@.map_values(|c: SqlValue| c@) =~= seq![SqlCell::Int(event_id as i32)]);
    }
    push_address(&mut v, &x.seller);
    push_address(&mut v, &x.buyer);
    push_hash(&mut v, &x.contract_hash);
    push_int(&mut v, x.timestamp);
    push_amount(&mut v, &x.price);
    push_text(&mut v, &x.token_id);
    proof {
        assert(v@.map_values(|c: SqlValue| c@) =~= row_cells(EventKind::ListingBought, x.fields(), event_id));
    }
    v
}

fn listing_cancelled_row(x: &ListingCancelled, event_id: u32) -> (r: Vec<SqlValue>)
    requires
        x.wf(),
    ensures
        r@.map_values(|c: SqlValue| c@) == row_cells(EventKind::ListingCancelled, x.fields(), event_id),
{
    let mut v: Vec<SqlValue> = Vec::new();
    v.push(SqlValue::Int(event_id as i32));
    proof {
        assert(v@.map_values(|c: SqlValue| c@) =~= seq![SqlCell::Int(event_id as i32)]);
    }
    push_address(&mut v, &x.seller);
    push_hash(&mut v, &x.contract_hash);
    push_int(&mut v, x.timestamp);
    push_text(&mut v, &x.token_id);
    proof {
        assert(v@.map_values(|c: SqlValue| c@) =~= row_cells(EventKind::ListingCancelled, x.fields(), event_id));
    }
    v
}

fn new_offer_row(x: &NewOffer, event_id: u32) -> (r: Vec<SqlValue>)
    requires
        x.wf(),
    ensures
        r@.map_values(|c: SqlValue| c@) == row_cells(EventKind::NewOffer, x.fields(), event_id),
{
    let mut v: Vec<SqlValue> = Vec::new();
    v.push(SqlValue::Int(event_id as i32));
    proof {
        assert(v@.map_values(|c: SqlValue| c@) =~= seq![SqlCell::Int(event_id as i32)]);
    }
    push_address(&mut v, &x.buyer);
    push_hash(&mut v, &x.contract_hash);
    push_int(&mut v, x.timestamp);
    push_amount(&mut v, &x.price);
    push_int(&mut v, x.expiration_date);
    push_text(&mut v, &x.token_id);
    proof {
        assert(v@.map_values(|c: SqlValue| c@) =~= row_cells(EventKind::NewOffer, x.fields(), event_id));
    }
    v
}

fn offer_cancelled_row(x: &OfferCancelled, event_id: u32) -> (r: Vec<SqlValue>)
    requires
        x.wf(),
    ensures
        r@.map_values(|c: SqlValue| c@) == row_cells(EventKind::OfferCancelled, x.fields(), event_id),
{
    let mut v: Vec<SqlValue> = Vec::new();
    v.push(SqlValue::Int(event_id as i32));
    proof {
        assert(v@.map_values(|c: SqlValue| c@) =~= seq![SqlCell::Int(event_id as i32)]);
    }
    push_address(&mut v, &x.buyer);
    push_hash(&mut v, &x.contract_hash);
    push_int(&mut v, x.timestamp);
    push_text(&mut v, &x.token_id);
    proof {
        assert(v@.map_values(|c: SqlValue| c@) =~= row_cells(EventKind::OfferCancelled, x.fields(), event_id));
    }
    v
}

fn offer_accepted_row(x: &OfferAccepted, event_id: u32) -> (r: Vec<SqlValue>)
    requires
        x.wf(),
    ensures
        r@.map_values(|c: SqlValue| c@) == row_cells(EventKind::OfferAccepted, x.fields(), event_id),
{
    let mut v: Vec<SqlValue> = Vec::new();
    v.push(SqlValue::Int(event_id as i32));
    proof {
        assert(v@.map_values(|c: SqlValue| c@) =~= seq![SqlCell::Int(event_id as i32)]);
    }
    push_address(&mut v, &x.buyer);
    push_address(&mut v, &x.seller);
    push_hash(&mut v, &x.contract_hash);
    push_int(&mut v, x.timestamp);
    push_amount(&mut v, &x.price);
    push_text(&mut v, &x.token_id);
    proof {
        assert(v@.map_values(|c: SqlValue| c@) =~= row_cells(EventKind::OfferAccepted, x.fields(), event_id));
    }
    v
}

fn auction_started_row(x: &AuctionStarted, event_id: u32) -> (r: Vec<SqlValue>)
    requires
        x.wf(),
    ensures
        r@.map_values(|c: SqlValue| c@) == row_cells(EventKind::AuctionStarted, x.fields(), event_id),
{
    let mut v: Vec<SqlValue> = Vec::new();
    v.push(SqlValue::Int(event_id as i32));
    proof {
        assert(v@.map_values(|c: SqlValue| c@) =~= seq![SqlCell::Int(event_id as i32)]);
    }
    push_address(&mut v, &x.seller);
    push_hash(&mut v, &x.contract_hash);
    push_int(&mut v, x.timestamp);
    push_int(&mut v, x.end_date);
    push_amount(&mut v, &x.starting_price);
    push_text(&mut v, &x.token_id);
    proof {
        assert(v@.map_values(|c: SqlValue| c@) =~= row_cells(EventKind::AuctionStarted, x.fields(), event_id));
    }
    v
}

fn bid_row(x: &Bid, event_id: u32) -> (r: Vec<SqlValue>)
    requires
        x.wf(),
    ensures
        r@.map_values(|c: SqlValue| c@) == row_cells(EventKind::Bid, x.fields(), event_id),
{
    let mut v: Vec<SqlValue> = Vec::new();
    v.push(SqlValue::Int(event_id as i32));
    proof {
        assert(v@.map_values(|c: SqlValue| c@) =~= seq![SqlCell::Int(event_id as i32)]);
    }
    push_address(&mut v, &x.bidder);
    push_address(&mut v, &x.seller);
    push_hash(&mut v, &x.contract_hash);
    push_int(&mut v, x.timestamp);
    push_int(&mut v, x.new_end_timestamp);
    push_amount(&mut v, &x.bid_price);
    push_text(&mut v, &x.token_id);
    proof {
        assert(v@.map_values(|c: SqlValue| c@) =~= row_cells(EventKind::Bid, x.fields(), event_id));
    }
    v
}

fn auction_ended_row(x: &AuctionEnded, event_id: u32) -> (r: Vec<SqlValue>)
    requires
        x.wf(),
    ensures
        r@.map_values(|c: SqlValue| c@) == row_cells(EventKind::AuctionEnded, x.fields(), event_id),
{
    let mut v: Vec<SqlValue> = Vec::new();
    v.push(SqlValue::Int(event_id as i32));
    proof {
        assert(v@.map_values(|c: SqlValue| c@) =~= seq![SqlCell::Int(event_id as i32)]);
    }
    push_address(&mut v, &x.seller);
    push_address(&mut v, &x.winner);
    push_hash(&mut v, &x.contract_hash);
    push_int(&mut v, x.timestamp);
    push_amount(&mut v, &x.ending_price);
    push_text(&mut v, &x.token_id);
    proof {
        assert(v@.map_values(|c: SqlValue| c@) =~= row_cells(EventKind::AuctionEnded, x.fields(), event_id));
    }
    v
}

fn royalty_set_row(x: &RoyaltySet, event_id: u32) -> (r: Vec<SqlValue>)
    requires
        x.wf(),
    ensures
        r@.map_values(|c: SqlValue| c@) == row_cells(EventKind::RoyaltySet, x.fields(), event_id),
{
    let mut v: Vec<SqlValue> = Vec::new();
    v.push(SqlValue::Int(event_id as i32));
    proof {
        assert(v@.map_values(|c: SqlValue| c@) =~= seq![SqlCell::Int(event_id as i32)]);
    }
    push_address(&mut v, &x.recipient);
    push_hash(&mut v, &x.contract_hash);
    push_int(&mut v, x.percentage);
    proof {
        assert(v@.map_values(|c: SqlValue| c@) =~= row_cells(EventKind::RoyaltySet, x.fields(), event_id));
    }
    v
}

/// The row that `e` becomes under `event_id`.
pub fn row_for(e: &DecodedEvent, event_id: u32) -> (r: Row)
    requires
        e.wf(),
    ensures
        r.kind == e.kind_spec(),
        r.event_id == event_id,
        r.cells() == row_cells(e.kind_spec(), e.fields(), event_id),
{
    let values = match e {
        DecodedEvent::NewListing(x) => new_listing_row(x, event_id),
        DecodedEvent::ListingBought(x) => listing_bought_row(x, event_id),
        DecodedEvent::ListingCancelled(x) => listing_cancelled_row(x, event_id),
        DecodedEvent::NewOffer(x) => new_offer_row(x, event_id),
        DecodedEvent::OfferCancelled(x) => offer_cancelled_row(x, event_id),
        DecodedEvent::OfferAccepted(x) => offer_accepted_row(x, event_id),
        DecodedEvent::AuctionStarted(x) => auction_started_row(x, event_id),
        DecodedEvent::Bid(x) => bid_row(x, event_id),
        DecodedEvent::AuctionEnded(x) => auction_ended_row(x, event_id),
        DecodedEvent::RoyaltySet(x) => royalty_set_row(x, event_id),
    };
    Row { kind: e.kind(), event_id, values }
}


/// How a write failed, as the database reported it.
#[derive(Clone, Copy, Debug, PartialEq, Eq, Structural)]
pub enum WriteFailure {
    /// A row with the same event id is already stored.
    UniqueViolation,
    /// Any other failure: the connection, another constraint.
    Other,
}

/// What became of a write.
#[derive(Clone, Copy, Debug, PartialEq, Eq, Structural)]
pub enum PersistOutcome {
    /// The row is now stored.
    Stored,
    /// The row was already stored: a success that changed nothing.
    Duplicate,
    /// The row could not be stored.
    Failed,
}

/// The outcome of a write that reported `result`: the number of rows it
/// inserted, or how it failed.
pub open spec fn outcome_of(result: Result<u64, WriteFailure>) -> PersistOutcome {
    match result {
        Ok(n) => if n == 0 {
            PersistOutcome::Duplicate
        } else {
            PersistOutcome::Stored
        },
        Err(WriteFailure::UniqueViolation) => PersistOutcome::Duplicate,
        Err(WriteFailure::Other) => PersistOutcome::Failed,
    }
}

/// Judges a write: a duplicate key is a success that changed nothing, not an
/// error.
pub fn judge_write(result: Result<u64, WriteFailure>) -> (r: PersistOutcome)
    ensures
        r == outcome_of(result),
{
    match result {
        Ok(n) => if n == 0 {
            PersistOutcome::Duplicate
        } else {
            PersistOutcome::Stored
        },
        Err(WriteFailure::UniqueViolation) => PersistOutcome::Duplicate,
        Err(WriteFailure::Other) => PersistOutcome::Failed,
    }
}

/// A kind's table after the statement of `insert_sql` stores `cells` under
/// `id`: a row already stored under `id` is left as it is.
pub open spec fn after_write(table: Map<u32, Seq<SqlCell>>, id: u32, cells: Seq<SqlCell>) -> Map<
    u32,
    Seq<SqlCell>,
> {
    if table.contains_key(id) {
        table
    } else {
        table.insert(id, cells)
    }
}

/// The number of rows that statement inserts into `table`.
pub open spec fn rows_inserted(table: Map<u32, Seq<SqlCell>>, id: u32) -> u64 {
    if table.contains_key(id) {
        0
    } else {
        1
    }
}

/// Storing the row of the same event twice under the same id leaves the
/// kind's table as storing it once does, with one row under that id, and
/// the second write is judged a duplicate, not a failure.
pub proof fn lemma_write_twice_is_once(
    table: Map<u32, Seq<SqlCell>>,
    k: EventKind,
    vals: Seq<FieldValue>,
    id: u32,
)
    ensures
        ({
            let cells = row_cells(k, vals, id);
            let once = after_write(table, id, cells);
            &&& after_write(once, id, cells) == once
            &&& once.contains_key(id)
            &&& outcome_of(Ok(rows_inserted(once, id))) == PersistOutcome::Duplicate
            &&& outcome_of(Ok(rows_inserted(table, id))) != PersistOutcome::Failed
        }),
{
}

} // verus!
