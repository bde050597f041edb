//! Routing a fetched event by its kind name: decode it and turn it into the
//! row to store, or skip a kind that the catalog does not hold.
use crate::events::{decode_event, decode_spec, DecodeError, EventKind};
use crate::sink::{row_cells, row_for, Row};
use vstd::prelude::*;
use vstd::string::StringSliceAdditionalSpecFns;
use vstd::utf8::*;

verus! {

broadcast use encode_utf8_decode_utf8;

/// Whether two texts are the same.
pub fn same_text(a: &str, b: &str) -> (r: bool)
    ensures
        r == (a@ == b@),
{
    let x = a.as_bytes();
    let y = b.as_bytes();
    if x.len() != y.len() {
        proof {
            if a@ == b@ {
                assert(x@ == y@);
            }
        }
        return false;
    }
    let mut i: usize = 0;
    while i < x.len()
        invariant
            i <= x@.len(),
            x@.len() == y@.len(),
            x@ == a.spec_bytes(),
            y@ == b.spec_bytes(),
            forall|j: int| 0 <= j < i ==> x@[j] == y@[j],
        decreases x@.len() - i,
    {
        if x[i] != y[i] {
            return false;
        }
        i = i + 1;
    }
    proof {
        assert(x@ =~= y@);
        assert(decode_utf8(encode_utf8(a@)) == a@);
        assert(decode_utf8(encode_utf8(b@)) == b@);
    }
    true
}

/// The name under which the ledger emits events of kind `k`.
pub open spec fn name_of(k: EventKind) -> &'static str {
    match k {
        EventKind::NewListing => "NewListing",
        EventKind::ListingBought => "ListingBought",
        EventKind::ListingCancelled => "ListingCancelled",
        EventKind::NewOffer => "NewOffer",
        EventKind::OfferCancelled => "OfferCancelled",
        EventKind::OfferAccepted => "OfferAccepted",
        EventKind::AuctionStarted => "AuctionStarted",
        EventKind::AuctionEnded => "AuctionEnded",
        EventKind::Bid => "Bid",
        EventKind::RoyaltySet => "RoyaltySet",
    }
}

/// The kind of the catalog that `name` names, if any.
pub open spec fn kind_named(name: Seq<char>) -> Option<EventKind> {
    if name == name_of(EventKind::NewListing)@ {
        Some(EventKind::NewListing)
    } else if name == name_of(EventKind::ListingBought)@ {
        Some(EventKind::ListingBought)
    } else if name == name_of(EventKind::ListingCancelled)@ {
        Some(EventKind::ListingCancelled)
    } else if name == name_of(EventKind::NewOffer)@ {
        Some(EventKind::NewOffer)
    } else if name == name_of(EventKind::OfferCancelled)@ {
        Some(EventKind::OfferCancelled)
    } else if name == name_of(EventKind::OfferAccepted)@ {
        Some(EventKind::OfferAccepted)
    } else if name == name_of(EventKind::AuctionStarted)@ {
        Some(EventKind::AuctionStarted)
    } else if name == name_of(EventKind::AuctionEnded)@ {
        Some(EventKind::AuctionEnded)
    } else if name == name_of(EventKind::Bid)@ {
        Some(EventKind::Bid)
    } else if name == name_of(EventKind::RoyaltySet)@ {
        Some(EventKind::RoyaltySet)
    } else {
        None
    }
}

/// The name under which the ledger emits events of kind `k`.
pub fn kind_name(k: EventKind) -> (r: &'static str)
    ensures
        r == name_of(k),
{
    match k {
        EventKind::NewListing => "NewListing",
        EventKind::ListingBought => "ListingBought",
        EventKind::ListingCancelled => "ListingCancelled",
        EventKind::NewOffer => "NewOffer",
        EventKind::OfferCancelled => "OfferCancelled",
        EventKind::OfferAccepted => "OfferAccepted",
        EventKind::AuctionStarted => "AuctionStarted",
        EventKind::AuctionEnded => "AuctionEnded",
        EventKind::Bid => "Bid",
        EventKind::RoyaltySet => "RoyaltySet",
    }
}

/// The kind of the catalog that `name` names, or `None` for a kind the
/// catalog does not hold.
pub fn kind_from_name(name: &str) -> (r: Option<EventKind>)
    ensures
        r == kind_named(name@),
{
    if same_text(name, kind_name(EventKind::NewListing)) {
        return Some(EventKind::NewListing);
    }
    if same_text(name, kind_name(EventKind::ListingBought)) {
        return Some(EventKind::ListingBought);
    }
    if same_text(name, kind_name(EventKind::ListingCancelled)) {
        return Some(EventKind::ListingCancelled);
    }
    if same_text(name, kind_name(EventKind::NewOffer)) {
        return Some(EventKind::NewOffer);
    }
    if same_text(name, kind_name(EventKind::OfferCancelled)) {
        return Some(EventKind::OfferCancelled);
    }
    if same_text(name, kind_name(EventKind::OfferAccepted)) {
        return Some(EventKind::OfferAccepted);
    }
    if same_text(name, kind_name(EventKind::AuctionStarted)) {
        return Some(EventKind::AuctionStarted);
    }
    if same_text(name, kind_name(EventKind::AuctionEnded)) {
        return Some(EventKind::AuctionEnded);
    }
    if same_text(name, kind_name(EventKind::Bid)) {
        return Some(EventKind::Bid);
    }
    if same_text(name, kind_name(EventKind::RoyaltySet)) {
        return Some(EventKind::RoyaltySet);
    }
    None
}

/// What to do with a fetched event.
#[derive(Clone, Debug, PartialEq, Eq)]
pub enum Dispatch {
    /// Store this row.
    Persist(Row),
    /// The kind is not in the catalog: store nothing and move on.
    Skip,
}

/// Routes the event fetched under `event_id`: a kind absent from the catalog
/// is skipped without error; a known kind is decoded and becomes its row, or
/// its decode error.
pub fn dispatch(kind_name: &str, payload: &[u8], event_id: u32) -> (r: Result<Dispatch, DecodeError>)
    ensures
        match kind_named(kind_name@) {
            None => r matches Ok(Dispatch::Skip),
            Some(k) => match decode_spec(k, payload@) {
                Ok(vals) => r matches Ok(Dispatch::Persist(row)) && row.kind == k && row.event_id
                    == event_id && row.cells() == row_cells(k, vals, event_id),
                Err(err) => r == Err::<Dispatch, DecodeError>(err),
            },
        },
{
    match kind_from_name(kind_name) {
        None => Ok(Dispatch::Skip),
        Some(k) => match decode_event(k, payload) {
            Ok(e) => Ok(Dispatch::Persist(row_for(&e, event_id))),
            Err(err) => Err(err),
        },
    }
}

} // verus!
