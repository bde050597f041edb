//! The event catalog: one record type per event kind, and the decoder that
//! turns a kind's payload into its record.
use crate::wire::{
    encodable, fields_bytes, lemma_fields_round_trip, lemma_parse_fields_stable, conforms, decode_fields, field_views, lemma_parse_fields_conforms, parse_fields, sized, type_of, Field, FieldType, FieldValue};
use vstd::prelude::*;

verus! {

/// A ledger account or contract key, held as its canonical byte encoding.
#[derive(Clone, Debug, PartialEq, Eq)]
pub struct Address {
    pub encoded: Vec<u8>,
}

/// An arbitrary-precision unsigned amount, held as the little-endian bytes
/// of its encoding (at most 64 of them).
#[derive(Clone, Debug, PartialEq, Eq)]
pub struct Amount {
    pub le_bytes: Vec<u8>,
}
/// A token put up for sale at a fixed price.
#[derive(Clone, Debug, PartialEq, Eq)]
pub struct NewListing {
    pub seller: Address,
    pub contract_hash: Vec<u8>,
    pub token_id: String,
    pub price: Amount,
    pub timestamp: u64,
    pub expiration_date: u64,
}
impl NewListing {
    /// The record's field values, in the order of its layout.
    pub open spec fn fields(&self) -> Seq<FieldValue> {
        seq![
            FieldValue::Key(self.seller.encoded@),
            FieldValue::Hash(self.contract_hash@),
            FieldValue::Text(self.token_id@),
            FieldValue::Amount(self.price.le_bytes@),
            FieldValue::U64(self.timestamp),
            FieldValue::U64(self.expiration_date),
        ]
    }


    /// Its hash has 32 bytes and each amount at most 64.
    pub open spec fn wf(&self) -> bool {
        self.contract_hash@.len() == 32
        && self.price.le_bytes@.len() <= 64
    }
}
/// A listed token bought at its price.
#[derive(Clone, Debug, PartialEq, Eq)]
pub struct ListingBought {
    pub seller: Address,
    pub buyer: Address,
    pub contract_hash: Vec<u8>,
    pub token_id: String,
    pub price: Amount,
    pub timestamp: u64,
}
impl ListingBought {
    /// The record's field values, in the order of its layout.
    pub open spec fn fields(&self) -> Seq<FieldValue> {
        seq![
            FieldValue::Key(self.seller.encoded@),
            FieldValue::Key(self.buyer.encoded@),
            FieldValue::Hash(self.contract_hash@),
            FieldValue::Text(self.token_id@),
            FieldValue::Amount(self.price.le_bytes@),
            FieldValue::U64(self.timestamp),
        ]
    }


    /// Its hash has 32 bytes and each amount at most 64.
    pub open spec fn wf(&self) -> bool {
        self.contract_hash@.len() == 32
        && self.price.le_bytes@.len() <= 64
    }
}
/// A listing withdrawn by its seller.
#[derive(Clone, Debug, PartialEq, Eq)]
pub struct ListingCancelled {
    pub seller: Address,
    pub contract_hash: Vec<u8>,
    pub token_id: String,
    pub timestamp: u64,
}
impl ListingCancelled {
    /// The record's field values, in the order of its layout.
    pub open spec fn fields(&self) -> Seq<FieldValue> {
        seq![
            FieldValue::Key(self.seller.encoded@),
            FieldValue::Hash(self.contract_hash@),
            FieldValue::Text(self.token_id@),
            FieldValue::U64(self.timestamp),
        ]
    }


    /// Its hash has 32 bytes and each amount at most 64.
    pub open spec fn wf(&self) -> bool {
        self.contract_hash@.len() == 32
    }
}
/// An offer made on a token.
#[derive(Clone, Debug, PartialEq, Eq)]
pub struct NewOffer {
    pub buyer: Address,
    pub contract_hash: Vec<u8>,
    pub token_id: String,
    pub price: Amount,
    pub timestamp: u64,
    pub expiration_date: u64,
}
impl NewOffer {
    /// The record's field values, in the order of its layout.
    pub open spec fn fields(&self) -> Seq<FieldValue> {
        seq![
            FieldValue::Key(self.buyer.encoded@),
            FieldValue::Hash(self.contract_hash@),
            FieldValue::Text(self.token_id@),
            FieldValue::Amount(self.price.le_bytes@),
            FieldValue::U64(self.timestamp),
            FieldValue::U64(self.expiration_date),
        ]
    }


    /// Its hash has 32 bytes and each amount at most 64.
    pub open spec fn wf(&self) -> bool {
        self.contract_hash@.len() == 32
        && self.price.le_bytes@.len() <= 64
    }
}
/// An offer withdrawn by its buyer.
#[derive(Clone, Debug, PartialEq, Eq)]
pub struct OfferCancelled {
    pub buyer: Address,
    pub contract_hash: Vec<u8>,
    pub token_id: String,
    pub timestamp: u64,
}
impl OfferCancelled {
    /// The record's field values, in the order of its layout.
    pub open spec fn fields(&self) -> Seq<FieldValue> {
        seq![
            FieldValue::Key(self.buyer.encoded@),
            FieldValue::Hash(self.contract_hash@),
            FieldValue::Text(self.token_id@),
            FieldValue::U64(self.timestamp),
        ]
    }


    /// Its hash has 32 bytes and each amount at most 64.
    pub open spec fn wf(&self) -> bool {
        self.contract_hash@.len() == 32
    }
}
/// An offer accepted by the token's seller.
#[derive(Clone, Debug, PartialEq, Eq)]
pub struct OfferAccepted {
    pub buyer: Address,
    pub seller: Address,
    pub contract_hash: Vec<u8>,
    pub token_id: String,
    pub price: Amount,
    pub timestamp: u64,
}
impl OfferAccepted {
    /// The record's field values, in the order of its layout.
    pub open spec fn fields(&self) -> Seq<FieldValue> {
        seq![
            FieldValue::Key(self.buyer.encoded@),
            FieldValue::Key(self.seller.encoded@),
            FieldValue::Hash(self.contract_hash@),
            FieldValue::Text(self.token_id@),
            FieldValue::Amount(self.price.le_bytes@),
            FieldValue::U64(self.timestamp),
        ]
    }


    /// Its hash has 32 bytes and each amount at most 64.
    pub open spec fn wf(&self) -> bool {
        self.contract_hash@.len() == 32
        && self.price.le_bytes@.len() <= 64
    }
}
/// An auction opened on a token.
#[derive(Clone, Debug, PartialEq, Eq)]
pub struct AuctionStarted {
    pub seller: Address,
    pub contract_hash: Vec<u8>,
    pub token_id: String,
    pub starting_price: Amount,
    pub timestamp: u64,
    pub end_date: u64,
}
impl AuctionStarted {
    /// The record's field values, in the order of its layout.
    pub open spec fn fields(&self) -> Seq<FieldValue> {
        seq![
            FieldValue::Key(self.seller.encoded@),
            FieldValue::Hash(self.contract_hash@),
            FieldValue::Text(self.token_id@),
            FieldValue::Amount(self.starting_price.le_bytes@),
            FieldValue::U64(self.timestamp),
            FieldValue::U64(self.end_date),
        ]
    }


    /// Its hash has 32 bytes and each amount at most 64.
    pub open spec fn wf(&self) -> bool {
        self.contract_hash@.len() == 32
        && self.starting_price.le_bytes@.len() <= 64
    }
}
/// An auction closed, with its winner and final price.
#[derive(Clone, Debug, PartialEq, Eq)]
pub struct AuctionEnded {
    pub seller: Address,
    pub winner: Address,
    pub contract_hash: Vec<u8>,
    pub token_id: String,
    pub ending_price: Amount,
    pub timestamp: u64,
}
impl AuctionEnded {
    /// The record's field values, in the order of its layout.
    pub open spec fn fields(&self) -> Seq<FieldValue> {
        seq![
            FieldValue::Key(self.seller.encoded@),
            FieldValue::Key(self.winner.encoded@),
            FieldValue::Hash(self.contract_hash@),
            FieldValue::Text(self.token_id@),
            FieldValue::Amount(self.ending_price.le_bytes@),
            FieldValue::U64(self.timestamp),
        ]
    }


    /// Its hash has 32 bytes and each amount at most 64.
    pub open spec fn wf(&self) -> bool {
        self.contract_hash@.len() == 32
        && self.ending_price.le_bytes@.len() <= 64
    }
}
/// A bid placed in an auction, which may extend its end.
#[derive(Clone, Debug, PartialEq, Eq)]
pub struct Bid {
    pub seller: Address,
    pub bidder: Address,
    pub contract_hash: Vec<u8>,
    pub bid_price: Amount,
    pub token_id: String,
    pub timestamp: u64,
    pub new_end_timestamp: u64,
}
impl Bid {
    /// The record's field values, in the order of its layout.
    pub open spec fn fields(&self) -> Seq<FieldValue> {
        seq![
            FieldValue::Key(self.seller.encoded@),
            FieldValue::Key(self.bidder.encoded@),
            FieldValue::Hash(self.contract_hash@),
            FieldValue::Amount(self.bid_price.le_bytes@),
            FieldValue::Text(self.token_id@),
            FieldValue::U64(self.timestamp),
            FieldValue::U64(self.new_end_timestamp),
        ]
    }


    /// Its hash has 32 bytes and each amount at most 64.
    pub open spec fn wf(&self) -> bool {
        self.contract_hash@.len() == 32
        && self.bid_price.le_bytes@.len() <= 64
    }
}
/// The royalty share set for a recipient.
#[derive(Clone, Debug, PartialEq, Eq)]
pub struct RoyaltySet {
    pub recipient: Address,
    pub contract_hash: Vec<u8>,
    pub percentage: u64,
}
impl RoyaltySet {
    /// The record's field values, in the order of its layout.
    pub open spec fn fields(&self) -> Seq<FieldValue> {
        seq![
            FieldValue::Key(self.recipient.encoded@),
            FieldValue::Hash(self.contract_hash@),
            FieldValue::U64(self.percentage),
        ]
    }


    /// Its hash has 32 bytes and each amount at most 64.
    pub open spec fn wf(&self) -> bool {
        self.contract_hash@.len() == 32
    }
}
/// The kinds of the catalog.
#[derive(Clone, Copy, Debug, PartialEq, Eq, Structural)]
pub enum EventKind {
    NewListing,
    ListingBought,
    ListingCancelled,
    NewOffer,
    OfferCancelled,
    OfferAccepted,
    AuctionStarted,
    AuctionEnded,
    Bid,
    RoyaltySet,
}
/// A decoded event: one record of the catalog.
#[derive(Clone, Debug, PartialEq, Eq)]
pub enum DecodedEvent {
    NewListing(NewListing),
    ListingBought(ListingBought),
    ListingCancelled(ListingCancelled),
    NewOffer(NewOffer),
    OfferCancelled(OfferCancelled),
    OfferAccepted(OfferAccepted),
    AuctionStarted(AuctionStarted),
    AuctionEnded(AuctionEnded),
    Bid(Bid),
    RoyaltySet(RoyaltySet),
}
impl DecodedEvent {
    pub open spec fn kind_spec(&self) -> EventKind {
        match self {
            DecodedEvent::NewListing(_) => EventKind::NewListing,
            DecodedEvent::ListingBought(_) => EventKind::ListingBought,
            DecodedEvent::ListingCancelled(_) => EventKind::ListingCancelled,
            DecodedEvent::NewOffer(_) => EventKind::NewOffer,
            DecodedEvent::OfferCancelled(_) => EventKind::OfferCancelled,
            DecodedEvent::OfferAccepted(_) => EventKind::OfferAccepted,
            DecodedEvent::AuctionStarted(_) => EventKind::AuctionStarted,
            DecodedEvent::AuctionEnded(_) => EventKind::AuctionEnded,
            DecodedEvent::Bid(_) => EventKind::Bid,
            DecodedEvent::RoyaltySet(_) => EventKind::RoyaltySet,
        }
    }

    /// The record's field values, in the order of its layout.
    pub open spec fn fields(&self) -> Seq<FieldValue> {
        match self {
            DecodedEvent::NewListing(e) => e.fields(),
            DecodedEvent::ListingBought(e) => e.fields(),
            DecodedEvent::ListingCancelled(e) => e.fields(),
            DecodedEvent::NewOffer(e) => e.fields(),
            DecodedEvent::OfferCancelled(e) => e.fields(),
            DecodedEvent::OfferAccepted(e) => e.fields(),
            DecodedEvent::AuctionStarted(e) => e.fields(),
            DecodedEvent::AuctionEnded(e) => e.fields(),
            DecodedEvent::Bid(e) => e.fields(),
            DecodedEvent::RoyaltySet(e) => e.fields(),
        }
    }

    /// Every record of the catalog holds sized hashes and amounts.
    pub open spec fn wf(&self) -> bool {
        match self {
            DecodedEvent::NewListing(e) => e.wf(),
            DecodedEvent::ListingBought(e) => e.wf(),
            DecodedEvent::ListingCancelled(e) => e.wf(),
            DecodedEvent::NewOffer(e) => e.wf(),
            DecodedEvent::OfferCancelled(e) => e.wf(),
            DecodedEvent::OfferAccepted(e) => e.wf(),
            DecodedEvent::AuctionStarted(e) => e.wf(),
            DecodedEvent::AuctionEnded(e) => e.wf(),
            DecodedEvent::Bid(e) => e.wf(),
            DecodedEvent::RoyaltySet(e) => e.wf(),
        }
    }

    /// The kind of this event.
    pub fn kind(&self) -> (r: EventKind)
        ensures
            r == self.kind_spec(),
    {
        match self {
            DecodedEvent::NewListing(_) => EventKind::NewListing,
            DecodedEvent::ListingBought(_) => EventKind::ListingBought,
            DecodedEvent::ListingCancelled(_) => EventKind::ListingCancelled,
            DecodedEvent::NewOffer(_) => EventKind::NewOffer,
            DecodedEvent::OfferCancelled(_) => EventKind::OfferCancelled,
            DecodedEvent::OfferAccepted(_) => EventKind::OfferAccepted,
            DecodedEvent::AuctionStarted(_) => EventKind::AuctionStarted,
            DecodedEvent::AuctionEnded(_) => EventKind::AuctionEnded,
            DecodedEvent::Bid(_) => EventKind::Bid,
            DecodedEvent::RoyaltySet(_) => EventKind::RoyaltySet,
        }
    }
}
/// The field layout of each kind, in encoding order.
pub open spec fn layout(k: EventKind) -> Seq<FieldType> {
    match k {
        EventKind::NewListing => seq![FieldType::Key, FieldType::Hash, FieldType::Text, FieldType::Amount, FieldType::U64, FieldType::U64],
        EventKind::ListingBought => seq![FieldType::Key, FieldType::Key, FieldType::Hash, FieldType::Text, FieldType::Amount, FieldType::U64],
        EventKind::ListingCancelled => seq![FieldType::Key, FieldType::Hash, FieldType::Text, FieldType::U64],
        EventKind::NewOffer => seq![FieldType::Key, FieldType::Hash, FieldType::Text, FieldType::Amount, FieldType::U64, FieldType::U64],
        EventKind::OfferCancelled => seq![FieldType::Key, FieldType::Hash, FieldType::Text, FieldType::U64],
        EventKind::OfferAccepted => seq![FieldType::Key, FieldType::Key, FieldType::Hash, FieldType::Text, FieldType::Amount, FieldType::U64],
        EventKind::AuctionStarted => seq![FieldType::Key, FieldType::Hash, FieldType::Text, FieldType::Amount, FieldType::U64, FieldType::U64],
        EventKind::AuctionEnded => seq![FieldType::Key, FieldType::Key, FieldType::Hash, FieldType::Text, FieldType::Amount, FieldType::U64],
        EventKind::Bid => seq![FieldType::Key, FieldType::Key, FieldType::Hash, FieldType::Amount, FieldType::Text, FieldType::U64, FieldType::U64],
        EventKind::RoyaltySet => seq![FieldType::Key, FieldType::Hash, FieldType::U64],
    }
}
/// The layout of a whole payload: the event's name as a string, then the
/// kind's fields.
pub open spec fn payload_layout(k: EventKind) -> Seq<FieldType> {
    seq![FieldType::Text] + layout(k)
}

/// The field layout of kind `k`, with the leading name field.
pub fn payload_layout_of(k: EventKind) -> (r: Vec<FieldType>)
    ensures
        r@ == payload_layout(k),
{
    let mut v: Vec<FieldType> = Vec::new();
    v.push(FieldType::Text);
    match k {
        EventKind::NewListing => {
            v.push(FieldType::Key);
            v.push(FieldType::Hash);
            v.push(FieldType::Text);
            v.push(FieldType::Amount);
            v.push(FieldType::U64);
            v.push(FieldType::U64);
        },
        EventKind::ListingBought => {
            v.push(FieldType::Key);
            v.push(FieldType::Key);
            v.push(FieldType::Hash);
            v.push(FieldType::Text);
            v.push(FieldType::Amount);
            v.push(FieldType::U64);
        },
        EventKind::ListingCancelled => {
            v.push(FieldType::Key);
            v.push(FieldType::Hash);
            v.push(FieldType::Text);
            v.push(FieldType::U64);
        },
        EventKind::NewOffer => {
            v.push(FieldType::Key);
            v.push(FieldType::Hash);
            v.push(FieldType::Text);
            v.push(FieldType::Amount);
            v.push(FieldType::U64);
            v.push(FieldType::U64);
        },
        EventKind::OfferCancelled => {
            v.push(FieldType::Key);
            v.push(FieldType::Hash);
            v.push(FieldType::Text);
            v.push(FieldType::U64);
        },
        EventKind::OfferAccepted => {
            v.push(FieldType::Key);
            v.push(FieldType::Key);
            v.push(FieldType::Hash);
            v.push(FieldType::Text);
            v.push(FieldType::Amount);
            v.push(FieldType::U64);
        },
        EventKind::AuctionStarted => {
            v.push(FieldType::Key);
            v.push(FieldType::Hash);
            v.push(FieldType::Text);
            v.push(FieldType::Amount);
            v.push(FieldType::U64);
            v.push(FieldType::U64);
        },
        EventKind::AuctionEnded => {
            v.push(FieldType::Key);
            v.push(FieldType::Key);
            v.push(FieldType::Hash);
            v.push(FieldType::Text);
            v.push(FieldType::Amount);
            v.push(FieldType::U64);
        },
        EventKind::Bid => {
            v.push(FieldType::Key);
            v.push(FieldType::Key);
            v.push(FieldType::Hash);
            v.push(FieldType::Amount);
            v.push(FieldType::Text);
            v.push(FieldType::U64);
            v.push(FieldType::U64);
        },
        EventKind::RoyaltySet => {
            v.push(FieldType::Key);
            v.push(FieldType::Hash);
            v.push(FieldType::U64);
        },
    }
    proof {
        assert(v@ =~= payload_layout(k));
    }
    v
}

/// Why a payload could not be decoded.
#[derive(Clone, Copy, Debug, PartialEq, Eq, Structural)]
pub enum DecodeError {
    /// A field could not be read from the bytes that remain: too few of
    /// them, or not a valid encoding.
    Malformed,
    /// Every field was read and bytes are left over.
    TrailingBytes,
}

fn take_key(v: &mut Vec<Field>) -> (r: Address)
    requires
        old(v)@.len() > 0,
        type_of(old(v)@.last()@) == FieldType::Key,
    ensures
        final(v)@ == old(v)@.drop_last(),
        old(v)@.last()@ == FieldValue::Key(r.encoded@),
{
    match v.pop() {
        Some(Field::Key(b)) => Address { encoded: b },
        _ => {
            proof {
                assert(false);
            }
            Address { encoded: Vec::new() }
        },
    }
}

fn take_hash(v: &mut Vec<Field>) -> (r: Vec<u8>)
    requires
        old(v)@.len() > 0,
        type_of(old(v)@.last()@) == FieldType::Hash,
    ensures
        final(v)@ == old(v)@.drop_last(),
        old(v)@.last()@ == FieldValue::Hash(r@),
{
    match v.pop() {
        Some(Field::Hash(b)) => b,
        _ => {
            proof {
                assert(false);
            }
            Vec::new()
        },
    }
}

fn take_text(v: &mut Vec<Field>) -> (r: String)
    requires
        old(v)@.len() > 0,
        type_of(old(v)@.last()@) == FieldType::Text,
    ensures
        final(v)@ == old(v)@.drop_last(),
        old(v)@.last()@ == FieldValue::Text(r@),
{
    match v.pop() {
        Some(Field::Text(b)) => b,
        _ => {
            proof {
                assert(false);
            }
            String::new()
        },
    }
}

fn take_amount(v: &mut Vec<Field>) -> (r: Amount)
    requires
        old(v)@.len() > 0,
        type_of(old(v)@.last()@) == FieldType::Amount,
    ensures
        final(v)@ == old(v)@.drop_last(),
        old(v)@.last()@ == FieldValue::Amount(r.le_bytes@),
{
    match v.pop() {
        Some(Field::Amount(b)) => Amount { le_bytes: b },
        _ => {
            proof {
                assert(false);
            }
            Amount { le_bytes: Vec::new() }
        },
    }
}

fn take_u64(v: &mut Vec<Field>) -> (r: u64)
    requires
        old(v)@.len() > 0,
        type_of(old(v)@.last()@) == FieldType::U64,
    ensures
        final(v)@ == old(v)@.drop_last(),
        old(v)@.last()@ == FieldValue::U64(r),
{
    match v.pop() {
        Some(Field::U64(b)) => b,
        _ => {
            proof {
                assert(false);
            }
            0
        },
    }
}

/// Builds the record of kind `k` from its decoded fields.
fn into_record(k: EventKind, fs: Vec<Field>) -> (r: DecodedEvent)
    requires
        conforms(field_views(fs@), layout(k)),
    ensures
        r.kind_spec() == k,
        r.fields() == field_views(fs@),
        r.wf(),
{
    let ghost vals = field_views(fs@);
    let mut fs = fs;
    proof {
        assert forall|i: int| 0 <= i < fs@.len() implies #[trigger] fs@[i]@ == vals[i] by {}
    }
    match k {
        EventKind::NewListing => {
            let expiration_date = take_u64(&mut fs);
            let timestamp = take_u64(&mut fs);
            let price = take_amount(&mut fs);
            let token_id = take_text(&mut fs);
            let contract_hash = take_hash(&mut fs);
            let seller = take_key(&mut fs);
            let e = NewListing { seller, contract_hash, token_id, price, timestamp, expiration_date };
            proof {
                assert(e.fields() =~= vals);
                assert forall|i: int| 0 <= i < vals.len() implies sized(#[trigger] vals[i]) by {}
            }
            DecodedEvent::NewListing(e)
        },
        EventKind::ListingBought => {
            let timestamp = take_u64(&mut fs);
            let price = take_amount(&mut fs);
            let token_id = take_text(&mut fs);
            let contract_hash = take_hash(&mut fs);
            let buyer = take_key(&mut fs);
            let seller = take_key(&mut fs);
            let e = ListingBought { seller, buyer, contract_hash, token_id, price, timestamp };
            proof {
                assert(e.fields() =~= vals);
                assert forall|i: int| 0 <= i < vals.len() implies sized(#[trigger] vals[i]) by {}
            }
            DecodedEvent::ListingBought(e)
        },
        EventKind::ListingCancelled => {
            let timestamp = take_u64(&mut fs);
            let token_id = take_text(&mut fs);
            let contract_hash = take_hash(&mut fs);
            let seller = take_key(&mut fs);
            let e = ListingCancelled { seller, contract_hash, token_id, timestamp };
            proof {
                assert(e.fields() =~= vals);
                assert forall|i: int| 0 <= i < vals.len() implies sized(#[trigger] vals[i]) by {}
            }
            DecodedEvent::ListingCancelled(e)
        },
        EventKind::NewOffer => {
            let expiration_date = take_u64(&mut fs);
            let timestamp = take_u64(&mut fs);
            let price = take_amount(&mut fs);
            let token_id = take_text(&mut fs);
            let contract_hash = take_hash(&mut fs);
            let buyer = take_key(&mut fs);
            let e = NewOffer { buyer, contract_hash, token_id, price, timestamp, expiration_date };
            proof {
                assert(e.fields() =~= vals);
                assert forall|i: int| 0 <= i < vals.len() implies sized(#[trigger] vals[i]) by {}
            }
            DecodedEvent::NewOffer(e)
        },
        EventKind::OfferCancelled => {
            let timestamp = take_u64(&mut fs);
            let token_id = take_text(&mut fs);
            let contract_hash = take_hash(&mut fs);
            let buyer = take_key(&mut fs);
            let e = OfferCancelled { buyer, contract_hash, token_id, timestamp };
            proof {
                assert(e.fields() =~= vals);
                assert forall|i: int| 0 <= i < vals.len() implies sized(#[trigger] vals[i]) by {}
            }
            DecodedEvent::OfferCancelled(e)
        },
        EventKind::OfferAccepted => {
            let timestamp = take_u64(&mut fs);
            let price = take_amount(&mut fs);
            let token_id = take_text(&mut fs);
            let contract_hash = take_hash(&mut fs);
            let seller = take_key(&mut fs);
            let buyer = take_key(&mut fs);
            let e = OfferAccepted { buyer, seller, contract_hash, token_id, price, timestamp };
            proof {
                assert(e.fields() =~= vals);
                assert forall|i: int| 0 <= i < vals.len() implies sized(#[trigger] vals[i]) by {}
            }
            DecodedEvent::OfferAccepted(e)
        },
        EventKind::AuctionStarted => {
            let end_date = take_u64(&mut fs);
            let timestamp = take_u64(&mut fs);
            let starting_price = take_amount(&mut fs);
            let token_id = take_text(&mut fs);
            let contract_hash = take_hash(&mut fs);
            let seller = take_key(&mut fs);
            let e = AuctionStarted { seller, contract_hash, token_id, starting_price, timestamp, end_date };
            proof {
                assert(e.fields() =~= vals);
                assert forall|i: int| 0 <= i < vals.len() implies sized(#[trigger] vals[i]) by {}
            }
            DecodedEvent::AuctionStarted(e)
        },
        EventKind::AuctionEnded => {
            let timestamp = take_u64(&mut fs);
            let ending_price = take_amount(&mut fs);
            let token_id = take_text(&mut fs);
            let contract_hash = take_hash(&mut fs);
            let winner = take_key(&mut fs);
            let seller = take_key(&mut fs);
            let e = AuctionEnded { seller, winner, contract_hash, token_id, ending_price, timestamp };
            proof {
                assert(e.fields() =~= vals);
                assert forall|i: int| 0 <= i < vals.len() implies sized(#[trigger] vals[i]) by {}
            }
            DecodedEvent::AuctionEnded(e)
        },
        EventKind::Bid => {
            let new_end_timestamp = take_u64(&mut fs);
            let timestamp = take_u64(&mut fs);
            let token_id = take_text(&mut fs);
            let bid_price = take_amount(&mut fs);
            let contract_hash = take_hash(&mut fs);
            let bidder = take_key(&mut fs);
            let seller = take_key(&mut fs);
            let e = Bid { seller, bidder, contract_hash, bid_price, token_id, timestamp, new_end_timestamp };
            proof {
                assert(e.fields() =~= vals);
                assert forall|i: int| 0 <= i < vals.len() implies sized(#[trigger] vals[i]) by {}
            }
            DecodedEvent::Bid(e)
        },
        EventKind::RoyaltySet => {
            let percentage = take_u64(&mut fs);
            let contract_hash = take_hash(&mut fs);
            let recipient = take_key(&mut fs);
            let e = RoyaltySet { recipient, contract_hash, percentage };
            proof {
                assert(e.fields() =~= vals);
                assert forall|i: int| 0 <= i < vals.len() implies sized(#[trigger] vals[i]) by {}
            }
            DecodedEvent::RoyaltySet(e)
        },
    }
}

/// What decoding `payload` as kind `k` yields: the record's field values, or
/// the error.
pub open spec fn decode_spec(k: EventKind, payload: Seq<u8>) -> Result<Seq<FieldValue>, DecodeError> {
    match parse_fields(payload_layout(k), payload) {
        Some((vals, n)) => if n == payload.len() {
            Ok(vals.drop_first())
        } else {
            Err(DecodeError::TrailingBytes)
        },
        None => Err(DecodeError::Malformed),
    }
}

/// Decodes the payload of an event of kind `k`: the event's name as a
/// string, then each field of the kind in order, with no byte left over.
pub fn decode_event(k: EventKind, payload: &[u8]) -> (r: Result<DecodedEvent, DecodeError>)
    ensures
        match decode_spec(k, payload@) {
            Ok(vals) => r matches Ok(e) && e.kind_spec() == k && e.fields() == vals && e.wf(),
            Err(err) => r == Err::<DecodedEvent, DecodeError>(err),
        },
{
    let lay = payload_layout_of(k);
    match decode_fields(&lay, payload) {
        Some((fs, n)) => {
            if n == payload.len() {
                proof {
                    lemma_parse_fields_conforms(payload_layout(k), payload@);
                }
                let mut fs = fs;
                let ghost all = field_views(fs@);
                fs.remove(0);
                proof {
                    assert(field_views(fs@) =~= all.drop_first());
                    let vals = all.drop_first();
                    assert forall|i: int| 0 <= i < vals.len() implies type_of(#[trigger] vals[i])
                        == layout(k)[i] && sized(vals[i]) by {
                        assert(vals[i] == all[i + 1]);
                        assert(payload_layout(k)[i + 1] == layout(k)[i]);
                    }
                }
                Ok(into_record(k, fs))
            } else {
                Err(DecodeError::TrailingBytes)
            }
        },
        None => Err(DecodeError::Malformed),
    }
}


/// The payload in which an event with field values `vals` is emitted under
/// the name text `name`.
pub open spec fn payload_bytes(name: Seq<char>, vals: Seq<FieldValue>) -> Seq<u8> {
    fields_bytes(seq![FieldValue::Text(name)] + vals)
}

/// Every record of the catalog, encoded under any name, decodes back to the
/// same field values, amounts to the last byte included. Its keys must be
/// whole key encodings and its texts shorter than 2^32 bytes, as the
/// encoding asks.
pub proof fn lemma_decode_round_trip(e: DecodedEvent, name: Seq<char>)
    requires
        e.wf(),
        encodable(FieldValue::Text(name)),
        forall|i: int| 0 <= i < e.fields().len() ==> encodable(#[trigger] e.fields()[i]),
    ensures
        decode_spec(e.kind_spec(), payload_bytes(name, e.fields())) == Ok::<
            Seq<FieldValue>,
            DecodeError,
        >(e.fields()),
{
    let k = e.kind_spec();
    let vals = seq![FieldValue::Text(name)] + e.fields();
    let lay = payload_layout(k);
    assert(e.fields().len() == layout(k).len());
    assert forall|i: int| 0 <= i < vals.len() implies type_of(#[trigger] vals[i]) == lay[i]
        && encodable(vals[i]) by {
        if i > 0 {
            assert(vals[i] == e.fields()[i - 1]);
            assert(lay[i] == layout(k)[i - 1]);
        }
    }
    lemma_fields_round_trip(lay, vals, Seq::empty());
    assert(fields_bytes(vals) + Seq::<u8>::empty() =~= fields_bytes(vals));
    assert(vals.drop_first() =~= e.fields());
}

/// A payload that decodes fails with one more byte after it, as trailing
/// bytes, and without its last byte, as malformed.
pub proof fn lemma_exact_consumption(k: EventKind, p: Seq<u8>, extra: u8)
    requires
        decode_spec(k, p) is Ok,
        p.len() > 0,
    ensures
        decode_spec(k, p.push(extra)) == Err::<Seq<FieldValue>, DecodeError>(
            DecodeError::TrailingBytes,
        ),
        decode_spec(k, p.drop_last()) == Err::<Seq<FieldValue>, DecodeError>(
            DecodeError::Malformed,
        ),
{
    let lay = payload_layout(k);
    let (vals, n) = parse_fields(lay, p).unwrap();
    lemma_parse_fields_stable(lay, p, seq![extra]);
    assert(p.subrange(0, n as int) + seq![extra] =~= p.push(extra));
    let q = p.drop_last();
    if let Some((v2, m)) = parse_fields(lay, q) {
        lemma_parse_fields_stable(lay, q, q.subrange(m as int, q.len() as int).push(p.last()));
        assert(q.subrange(0, m as int) + q.subrange(m as int, q.len() as int).push(p.last()) =~= p);
    }
}

} // verus!
