//! Events and entries: the records that a log is made of, and their
//! mathematical models.
use crate::hashing::Sha256Hash;
use crate::payload::Payload;
use crate::signing::{PublicKey, Signature};
use vstd::prelude::*;

verus! {

/// What an entry commits to. A `Tick` carries nothing and only witnesses the
/// hashing work. A `Claim` is a statement `data` signed by `key` itself. A
/// `Transaction` is a statement `data` that `from` directs to `to`; the
/// signature covers the payload together with the destination.
#[derive(Debug, PartialEq, Eq, Clone)]
pub enum Event<T> {
    Tick,
    Claim { key: PublicKey, data: T, sig: Signature },
    Transaction { from: PublicKey, to: PublicKey, data: T, sig: Signature },
}

/// One record of the log. `num_hashes` counts the hash iterations since the
/// previous entry, `end_hash` is the digest reached after them and after
/// folding in `event`.
#[derive(Debug, PartialEq, Eq, Clone)]
pub struct Entry<T> {
    pub num_hashes: u64,
    pub end_hash: Sha256Hash,
    pub event: Event<T>,
}

/// The model of an event: its keys and signature as byte strings, and its
/// payload as the bytes of its canonical encoding.
pub enum EventView {
    Tick,
    Claim { key: Seq<u8>, data: Seq<u8>, sig: Seq<u8> },
    Transaction { from: Seq<u8>, to: Seq<u8>, data: Seq<u8>, sig: Seq<u8> },
}

/// The model of an entry.
pub struct EntryView {
    pub num_hashes: nat,
    pub end_hash: Seq<u8>,
    pub event: EventView,
}

impl<T: Payload> View for Event<T> {
    type V = EventView;

    open spec fn view(&self) -> EventView {
        match *self {
            Event::Tick => EventView::Tick,
            Event::Claim { key, data, sig } => EventView::Claim {
                key: key@,
                data: data.encoding(),
                sig: sig@,
            },
            Event::Transaction { from, to, data, sig } => EventView::Transaction {
                from: from@,
                to: to@,
                data: data.encoding(),
                sig: sig@,
            },
        }
    }
}

impl<T: Payload> View for Entry<T> {
    type V = EntryView;

    open spec fn view(&self) -> EntryView {
        EntryView {
            num_hashes: self.num_hashes as nat,
            end_hash: self.end_hash@,
            event: self.event@,
        }
    }
}

/// The models of a sequence of events, in order.
pub open spec fn events_view<T: Payload>(events: Seq<Event<T>>) -> Seq<EventView> {
    Seq::new(events.len(), |i: int| events[i]@)
}

/// The models of a sequence of entries, in order.
pub open spec fn chain_view<T: Payload>(entries: Seq<Entry<T>>) -> Seq<EntryView> {
    Seq::new(entries.len(), |i: int| entries[i]@)
}

impl<T> Entry<T> {
    /// Creates a `Tick` entry from the number of hashes `num_hashes` since
    /// the previous entry and the resulting `end_hash`. Both are stored as
    /// given; nothing is checked.
    pub fn new_tick(num_hashes: u64, end_hash: &Sha256Hash) -> (entry: Self)
        ensures
            entry == (Entry::<T> { num_hashes, end_hash: *end_hash, event: Event::Tick }),
    {
        Entry { num_hashes, end_hash: *end_hash, event: Event::Tick }
    }
}

} // verus!
