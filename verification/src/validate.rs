//! Checking a chain against its anchor, entry by entry or all entries at
//! once.
use crate::chain::{
    chain_valid, entry_valid, event_authentic, lemma_serial_verdict_is_chain_valid, predecessor,
    serial_verdict,
};
use crate::entry::{chain_view, Entry, Event};
use crate::hashing::{same_hash, Sha256Hash};
use crate::payload::Payload;
use crate::producer::next_hash;
use crate::signing::{transfer_message, verify_signature};
use rayon::iter::{IndexedParallelIterator, IntoParallelRefIterator, ParallelIterator};
use vstd::prelude::*;

verus! {

/// Verifies the signature of an event. A `Tick` has none and passes; a
/// `Claim` has to be signed by its key over its payload; a `Transaction` has
/// to be signed by its sender over its payload and its destination.
pub fn verify_event<T: Payload>(event: &Event<T>) -> (ok: bool)
    ensures
        ok == event_authentic(event@),
{
    match event {
        Event::Tick => true,
        Event::Claim { key, data, sig } => {
            let claim_data = data.encode();
            verify_signature(key, claim_data.as_slice(), sig)
        },
        Event::Transaction { from, to, data, sig } => {
            let sign_data = transfer_message(data, to);
            verify_signature(from, sign_data.as_slice(), sig)
        },
    }
}

/// Verifies that the event of `entry` is authentic and that its `end_hash`
/// is the result of hashing `start_hash` `entry.num_hashes` times and then
/// committing the event.
pub fn verify_entry<T: Payload>(entry: &Entry<T>, start_hash: &Sha256Hash) -> (ok: bool)
    ensures
        ok == entry_valid(start_hash@, entry@),
{
    if !verify_event(&entry.event) {
        return false;
    }
    let expected = next_hash(start_hash, entry.num_hashes, &entry.event);
    same_hash(&entry.end_hash, &expected)
}

/// Verifies the hashes, counts and signatures of a slice of entries one after
/// the other, starting from the anchor `start_hash`. The empty slice is
/// valid.
pub fn verify_slice_seq<T: Payload>(events: &[Entry<T>], start_hash: &Sha256Hash) -> (verdict:
    bool)
    ensures
        verdict == chain_valid(start_hash@, chain_view(events@)),
        verdict == serial_verdict(start_hash@, chain_view(events@)),
{
    let ghost chain = chain_view(events@);
    proof {
        lemma_serial_verdict_is_chain_valid(start_hash@, chain);
    }
    let mut prev = *start_hash;
    let mut i: usize = 0;
    while i < events.len()
        invariant
            i <= events@.len(),
            chain == chain_view(events@),
            serial_verdict(start_hash@, chain) == chain_valid(start_hash@, chain),
            prev@ == predecessor(start_hash@, chain, i as int),
            forall|j: int|
                0 <= j < i ==> entry_valid(predecessor(start_hash@, chain, j), #[trigger] chain[j]),
        decreases events@.len() - i,
    {
        let entry = &events[i];
        assert(entry@ == chain[i as int]);
        if !verify_entry(entry, &prev) {
            assert(!entry_valid(predecessor(start_hash@, chain, i as int), chain[i as int]));
            return false;
        }
        prev = entry.end_hash;
        i += 1;
    }
    true
}

/// Whether every entry of `entries` is a valid successor of the entry at the
/// same position in `heads` followed by `entries`.
///
/// Trusted: calls rayon's `par_iter`, `chain`, `zip` and `all`. The contract
/// claims what their documentation says: `chain` yields the items of `heads`
/// and then those of `entries`, `zip` pairs item `i` of that with item `i` of
/// `entries` and stops with the shorter side, and `all` is true exactly if
/// the closure holds of every pair. The closure is `verify_entry`.
#[verifier::external_body]
fn all_follow_in_parallel<T: Payload + Sync>(heads: &[Entry<T>], entries: &[Entry<T>]) -> (ok:
    bool)
    requires
        heads@.len() + entries@.len() <= usize::MAX,
    ensures
        ok == (forall|i: int|
            0 <= i < entries@.len() ==> entry_valid(
                (heads@ + entries@)[i].end_hash@,
                #[trigger] entries@[i]@,
            )),
{
    heads.par_iter().chain(entries).zip(entries).all(|(x0, x1)| verify_entry(x1, &x0.end_hash))
}

/// Verifies a slice of entries against the anchor `start_hash`, all entries
/// at once: the slice is paired with itself shifted by one, behind a tick
/// that ends in the anchor, and every pair is checked on its own.
fn verify_in_parallel<T: Payload + Sync>(events: &[Entry<T>], start_hash: &Sha256Hash) -> (verdict:
    bool)
    ensures
        verdict == chain_valid(start_hash@, chain_view(events@)),
{
    if events.len() == usize::MAX {
        return verify_slice_seq(events, start_hash);
    }
    let genesis = [Entry::new_tick(0, start_hash)];
    let verdict = all_follow_in_parallel(&genesis, events);
    proof {
        let chain = chain_view(events@);
        let shifted = genesis@ + events@;
        assert forall|i: int| 0 <= i < events@.len() implies shifted[i].end_hash@ == predecessor(
            start_hash@,
            chain,
            i,
        ) by {
            if i > 0 {
                assert(shifted[i] == events@[i - 1]);
            }
        }
        if verdict {
            assert forall|i: int| 0 <= i < chain.len() implies entry_valid(
                predecessor(start_hash@, chain, i),
                #[trigger] chain[i],
            ) by {
                assert(entry_valid(shifted[i].end_hash@, events@[i]@));
            }
        }
        if chain_valid(start_hash@, chain) {
            assert forall|i: int| 0 <= i < events@.len() implies entry_valid(
                shifted[i].end_hash@,
                #[trigger] events@[i]@,
            ) by {
                assert(entry_valid(predecessor(start_hash@, chain, i), chain[i]));
            }
        }
    }
    verdict
}

/// Verifies the hashes, counts and signatures of a slice of entries with
/// digest payloads, all entries in parallel. The empty slice is valid.
pub fn verify_slice(events: &[Entry<Sha256Hash>], start_hash: &Sha256Hash) -> (verdict: bool)
    ensures
        verdict == chain_valid(start_hash@, chain_view(events@)),
{
    verify_in_parallel(events, start_hash)
}

/// Verifies the hashes, counts and signatures of a slice of entries with
/// `u64` payloads, all entries in parallel. The empty slice is valid.
pub fn verify_slice_u64(events: &[Entry<u64>], start_hash: &Sha256Hash) -> (verdict: bool)
    ensures
        verdict == chain_valid(start_hash@, chain_view(events@)),
{
    verify_in_parallel(events, start_hash)
}

} // verus!
