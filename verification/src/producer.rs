//! Extending a chain: the next hash, the next entry, and whole runs of
//! entries.
use crate::chain::{
    entry_hash, folded_hash, produced_chain, produced_entry, produced_hash, ticks, CLAIM_TAG,
    TRANSACTION_TAG,
};
use crate::entry::{chain_view, events_view, Entry, Event, EventView};
use crate::hashing::{extend_and_hash, hash, iterated_hash, Sha256Hash};
use crate::payload::Payload;
use vstd::prelude::*;

verus! {

/// Commits `event` on top of the digest `end_hash`: a `Tick` leaves the
/// digest unchanged, a `Claim` or a `Transaction` extends it with its tag and
/// its signature.
pub fn hash_event<T: Payload>(end_hash: &Sha256Hash, event: &Event<T>) -> (digest: Sha256Hash)
    ensures
        digest@ == folded_hash(end_hash@, event@),
{
    match event {
        Event::Tick => *end_hash,
        Event::Claim { sig, .. } => extend_and_hash(end_hash, CLAIM_TAG, sig),
        Event::Transaction { sig, .. } => extend_and_hash(end_hash, TRANSACTION_TAG, sig),
    }
}

/// Creates the hash `num_hashes` after `start_hash`, plus an additional hash
/// for any event data.
pub fn next_hash<T: Payload>(start_hash: &Sha256Hash, num_hashes: u64, event: &Event<T>) -> (digest:
    Sha256Hash)
    ensures
        digest@ == entry_hash(start_hash@, num_hashes as nat, event@),
{
    let mut end_hash = *start_hash;
    for i in 0..num_hashes
        invariant
            end_hash@ == iterated_hash(start_hash@, i as nat),
    {
        end_hash = hash(&end_hash);
    }
    hash_event(&end_hash, event)
}

/// Creates the next entry `num_hashes` after `start_hash`, committing
/// `event`. The event is taken as it is: its signature is not checked.
pub fn next_entry<T: Payload>(start_hash: &Sha256Hash, num_hashes: u64, event: Event<T>) -> (entry:
    Entry<T>)
    ensures
        entry.num_hashes == num_hashes,
        entry.event == event,
        entry.end_hash@ == entry_hash(start_hash@, num_hashes as nat, event@),
        entry@ == produced_entry(start_hash@, num_hashes as nat, event@),
{
    let end_hash = next_hash(start_hash, num_hashes, &event);
    Entry { num_hashes, end_hash, event }
}

/// Creates the next entry `num_hashes` after `start_hash`, committing
/// `event`, and moves `start_hash` on to the `end_hash` of the new entry.
pub fn next_entry_mut<T: Payload>(
    start_hash: &mut Sha256Hash,
    num_hashes: u64,
    event: Event<T>,
) -> (entry: Entry<T>)
    ensures
        entry.num_hashes == num_hashes,
        entry.event == event,
        entry.end_hash@ == entry_hash(old(start_hash)@, num_hashes as nat, event@),
        entry@ == produced_entry(old(start_hash)@, num_hashes as nat, event@),
        *final(start_hash) == entry.end_hash,
{
    let entry = next_entry(start_hash, num_hashes, event);
    *start_hash = entry.end_hash;
    entry
}

/// Creates the next `Tick` entry `num_hashes` after `start_hash`.
pub fn next_tick<T: Payload>(start_hash: &Sha256Hash, num_hashes: u64) -> (entry: Entry<T>)
    ensures
        entry.num_hashes == num_hashes,
        entry.event == Event::<T>::Tick,
        entry.end_hash@ == iterated_hash(start_hash@, num_hashes as nat),
        entry@ == produced_entry(start_hash@, num_hashes as nat, EventView::Tick),
{
    next_entry(start_hash, num_hashes, Event::Tick)
}

/// Creates one entry per event, in order, each `num_hashes` after the one
/// before it, the first `num_hashes` after `start_hash`. The events are taken
/// as they are: their signatures are not checked.
pub fn create_entries<T: Payload>(
    start_hash: &Sha256Hash,
    num_hashes: u64,
    events: Vec<Event<T>>,
) -> (entries: Vec<Entry<T>>)
    ensures
        entries@.len() == events@.len(),
        forall|i: int|
            0 <= i < entries@.len() ==> (#[trigger] entries@[i]).num_hashes == num_hashes
                && entries@[i].event == events@[i],
        chain_view(entries@) == produced_chain(
            start_hash@,
            num_hashes as nat,
            events_view(events@),
        ),
{
    let ghost all = events@;
    let ghost models = events_view(events@);
    let mut end_hash = *start_hash;
    let mut entries: Vec<Entry<T>> = Vec::new();
    for event in it: events
        invariant
            it.seq() == all,
            models == events_view(all),
            entries@.len() == it.index(),
            end_hash@ == produced_hash(start_hash@, num_hashes as nat, models, it.index() as nat),
            forall|i: int|
                0 <= i < entries@.len() ==> (#[trigger] entries@[i]).num_hashes == num_hashes
                    && entries@[i].event == all[i] && entries@[i]@ == produced_entry(
                    produced_hash(start_hash@, num_hashes as nat, models, i as nat),
                    num_hashes as nat,
                    models[i],
                ),
    {
        let entry = next_entry_mut(&mut end_hash, num_hashes, event);
        entries.push(entry);
    }
    assert(chain_view(entries@) =~= produced_chain(start_hash@, num_hashes as nat, models));
    entries
}

/// Creates `len` `Tick` entries, each `num_hashes` after the one before it,
/// the first `num_hashes` after `start_hash`.
pub fn create_ticks(start_hash: &Sha256Hash, num_hashes: u64, len: usize) -> (entries: Vec<
    Entry<Sha256Hash>,
>)
    ensures
        entries@.len() == len,
        forall|i: int|
            0 <= i < len ==> (#[trigger] entries@[i]).num_hashes == num_hashes && entries@[i].event
                == Event::<Sha256Hash>::Tick,
        chain_view(entries@) == produced_chain(start_hash@, num_hashes as nat, ticks(len as nat)),
{
    let ghost models = ticks(len as nat);
    let mut end_hash = *start_hash;
    let mut entries: Vec<Entry<Sha256Hash>> = Vec::new();
    for k in 0..len
        invariant
            models == ticks(len as nat),
            entries@.len() == k,
            end_hash@ == produced_hash(start_hash@, num_hashes as nat, models, k as nat),
            forall|i: int|
                0 <= i < entries@.len() ==> (#[trigger] entries@[i]).num_hashes == num_hashes
                    && entries@[i].event == Event::<Sha256Hash>::Tick && entries@[i]@
                    == produced_entry(
                    produced_hash(start_hash@, num_hashes as nat, models, i as nat),
                    num_hashes as nat,
                    models[i],
                ),
    {
        let entry = next_entry_mut(&mut end_hash, num_hashes, Event::Tick);
        entries.push(entry);
    }
    assert(chain_view(entries@) =~= produced_chain(start_hash@, num_hashes as nat, models));
    entries
}

} // verus!
