//! What it means for a sequence of entries to be a valid chain, and what
//! follows from it.
use crate::entry::{EntryView, EventView};
use crate::hashing::{extended, iterated_hash, sha256};
use crate::signing::ed25519_verifies;
use vstd::prelude::*;

verus! {

/// The tag byte that precedes the signature of a `Claim` when it is folded
/// into the chain hash.
pub const CLAIM_TAG: u8 = 2;

/// The tag byte that precedes the signature of a `Transaction` when it is
/// folded into the chain hash.
pub const TRANSACTION_TAG: u8 = 3;

/// The bytes that the signature of an event covers: the encoded payload of a
/// `Claim`; the encoded payload of a `Transaction` followed by its
/// destination key. A `Tick` is not signed.
pub open spec fn signed_message(event: EventView) -> Seq<u8> {
    match event {
        EventView::Tick => Seq::empty(),
        EventView::Claim { data, .. } => data,
        EventView::Transaction { to, data, .. } => data + to,
    }
}

/// Whether an event is authentic: a `Tick` always is, a `Claim` or a
/// `Transaction` is when its signature verifies under its signer's key.
pub open spec fn event_authentic(event: EventView) -> bool {
    match event {
        EventView::Tick => true,
        EventView::Claim { key, sig, .. } => ed25519_verifies(key, signed_message(event), sig),
        EventView::Transaction { from, sig, .. } => ed25519_verifies(
            from,
            signed_message(event),
            sig,
        ),
    }
}

/// The digest that commits `event` on top of `base`. A `Tick` leaves the
/// digest as it is; the other events hash the digest, their tag and their
/// signature.
pub open spec fn folded_hash(base: Seq<u8>, event: EventView) -> Seq<u8> {
    match event {
        EventView::Tick => base,
        EventView::Claim { sig, .. } => sha256(extended(base, CLAIM_TAG, sig)),
        EventView::Transaction { sig, .. } => sha256(extended(base, TRANSACTION_TAG, sig)),
    }
}

/// The `end_hash` of the entry that follows `anchor` after `num_hashes` hash
/// iterations and commits `event`.
pub open spec fn entry_hash(anchor: Seq<u8>, num_hashes: nat, event: EventView) -> Seq<u8> {
    folded_hash(iterated_hash(anchor, num_hashes), event)
}

/// Whether `entry` is a valid successor of the digest `prev`.
pub open spec fn entry_valid(prev: Seq<u8>, entry: EntryView) -> bool {
    &&& event_authentic(entry.event)
    &&& entry.end_hash == entry_hash(prev, entry.num_hashes, entry.event)
}

/// The digest that entry `i` of a chain has to follow: the anchor for the
/// first entry, the `end_hash` of the entry before it for the others.
pub open spec fn predecessor(anchor: Seq<u8>, chain: Seq<EntryView>, i: int) -> Seq<u8> {
    if i <= 0 {
        anchor
    } else {
        chain[i - 1].end_hash
    }
}

/// Whether `chain` is a valid chain rooted at `anchor`: every entry is a
/// valid successor of its predecessor. Each entry can be judged on its own.
pub open spec fn chain_valid(anchor: Seq<u8>, chain: Seq<EntryView>) -> bool {
    forall|i: int|
        0 <= i < chain.len() ==> entry_valid(predecessor(anchor, chain, i), #[trigger] chain[i])
}

/// The verdict of walking the chain from its first entry to its last,
/// carrying the digest along.
pub open spec fn serial_verdict(anchor: Seq<u8>, chain: Seq<EntryView>) -> bool
    decreases chain.len(),
{
    if chain.len() == 0 {
        true
    } else {
        entry_valid(anchor, chain[0]) && serial_verdict(chain[0].end_hash, chain.drop_first())
    }
}

/// The entry that a producer emits for `event` after `num_hashes` hash
/// iterations on top of `anchor`.
pub open spec fn produced_entry(anchor: Seq<u8>, num_hashes: nat, event: EventView) -> EntryView {
    EntryView { num_hashes, end_hash: entry_hash(anchor, num_hashes, event), event }
}

/// The running digest of a producer after it has emitted the first `k` of
/// `events`, each after `num_hashes` hash iterations, starting at `anchor`.
pub open spec fn produced_hash(
    anchor: Seq<u8>,
    num_hashes: nat,
    events: Seq<EventView>,
    k: nat,
) -> Seq<u8>
    decreases k,
{
    if k == 0 {
        anchor
    } else {
        entry_hash(
            produced_hash(anchor, num_hashes, events, (k - 1) as nat),
            num_hashes,
            events[k - 1],
        )
    }
}

/// The chain that a producer emits for `events`, each after `num_hashes`
/// hash iterations, starting at `anchor`.
pub open spec fn produced_chain(anchor: Seq<u8>, num_hashes: nat, events: Seq<EventView>) -> Seq<
    EntryView,
> {
    Seq::new(
        events.len(),
        |i: int|
            produced_entry(
                produced_hash(anchor, num_hashes, events, i as nat),
                num_hashes,
                events[i],
            ),
    )
}

/// `len` ticks.
pub open spec fn ticks(len: nat) -> Seq<EventView> {
    Seq::new(len, |i: int| EventView::Tick)
}

/// The empty chain is valid from every anchor.
pub proof fn lemma_empty_chain_valid(anchor: Seq<u8>)
    ensures
        chain_valid(anchor, Seq::empty()),
        serial_verdict(anchor, Seq::empty()),
{
}

/// Walking a chain entry by entry and judging all its entries independently
/// give the same verdict.
pub proof fn lemma_serial_verdict_is_chain_valid(anchor: Seq<u8>, chain: Seq<EntryView>)
    ensures
        serial_verdict(anchor, chain) == chain_valid(anchor, chain),
    decreases chain.len(),
{
    if chain.len() > 0 {
        let rest = chain.drop_first();
        let next = chain[0].end_hash;
        lemma_serial_verdict_is_chain_valid(next, rest);
        if chain_valid(anchor, chain) {
            assert(entry_valid(predecessor(anchor, chain, 0), chain[0]));
            assert forall|i: int| 0 <= i < rest.len() implies entry_valid(
                predecessor(next, rest, i),
                #[trigger] rest[i],
            ) by {
                assert(rest[i] == chain[i + 1]);
                assert(entry_valid(predecessor(anchor, chain, i + 1), chain[i + 1]));
            }
        }
        if serial_verdict(anchor, chain) {
            assert forall|i: int| 0 <= i < chain.len() implies entry_valid(
                predecessor(anchor, chain, i),
                #[trigger] chain[i],
            ) by {
                if i > 0 {
                    assert(rest[i - 1] == chain[i]);
                    assert(entry_valid(predecessor(next, rest, i - 1), rest[i - 1]));
                }
            }
        }
    }
}

/// An entry produced on top of a digest is a valid successor of that digest
/// exactly if its event is authentic; alone it then forms a valid chain.
pub proof fn lemma_produced_entry_valid(anchor: Seq<u8>, num_hashes: nat, event: EventView)
    ensures
        entry_valid(anchor, produced_entry(anchor, num_hashes, event)) == event_authentic(event),
        chain_valid(anchor, seq![produced_entry(anchor, num_hashes, event)]) == event_authentic(
            event,
        ),
{
    let chain = seq![produced_entry(anchor, num_hashes, event)];
    if chain_valid(anchor, chain) {
        assert(entry_valid(predecessor(anchor, chain, 0), chain[0]));
    }
}

/// A tick produced on top of a digest forms a valid chain from that digest,
/// whatever the number of hash iterations.
pub proof fn lemma_tick_self_consistent(anchor: Seq<u8>, num_hashes: nat)
    ensures
        chain_valid(anchor, seq![produced_entry(anchor, num_hashes, EventView::Tick)]),
{
    lemma_produced_entry_valid(anchor, num_hashes, EventView::Tick);
}

/// Entry `i` of a produced chain ends with the producer's running digest
/// after `i + 1` events.
pub proof fn lemma_produced_chain_hashes(
    anchor: Seq<u8>,
    num_hashes: nat,
    events: Seq<EventView>,
    i: int,
)
    requires
        0 <= i < events.len(),
    ensures
        produced_chain(anchor, num_hashes, events)[i].end_hash == produced_hash(
            anchor,
            num_hashes,
            events,
            (i + 1) as nat,
        ),
        predecessor(anchor, produced_chain(anchor, num_hashes, events), i) == produced_hash(
            anchor,
            num_hashes,
            events,
            i as nat,
        ),
{
    if i > 0 {
        assert(produced_chain(anchor, num_hashes, events)[i - 1].end_hash == produced_hash(
            anchor,
            num_hashes,
            events,
            i as nat,
        ));
    }
}

/// A produced chain is valid from its anchor exactly if all its events are
/// authentic: the producer never breaks the hash links.
pub proof fn lemma_produced_chain_valid(anchor: Seq<u8>, num_hashes: nat, events: Seq<EventView>)
    ensures
        chain_valid(anchor, produced_chain(anchor, num_hashes, events)) == (forall|i: int|
            0 <= i < events.len() ==> event_authentic(#[trigger] events[i])),
{
    let chain = produced_chain(anchor, num_hashes, events);
    if chain_valid(anchor, chain) {
        assert forall|i: int| 0 <= i < events.len() implies event_authentic(
            #[trigger] events[i],
        ) by {
            assert(entry_valid(predecessor(anchor, chain, i), chain[i]));
        }
    }
    if forall|i: int| 0 <= i < events.len() ==> event_authentic(#[trigger] events[i]) {
        assert forall|i: int| 0 <= i < chain.len() implies entry_valid(
            predecessor(anchor, chain, i),
            #[trigger] chain[i],
        ) by {
            lemma_produced_chain_hashes(anchor, num_hashes, events, i);
            assert(event_authentic(events[i]));
        }
    }
}

/// A chain of ticks produced from an anchor is valid from that anchor,
/// whatever its length and the number of hash iterations per tick.
pub proof fn lemma_tick_chain_valid(anchor: Seq<u8>, num_hashes: nat, len: nat)
    ensures
        chain_valid(anchor, produced_chain(anchor, num_hashes, ticks(len))),
{
    lemma_produced_chain_valid(anchor, num_hashes, ticks(len));
}

/// Whether SHA-256 tells `a` and `b` apart: it does, unless the two differ
/// and collide.
pub open spec fn collision_free(a: Seq<u8>, b: Seq<u8>) -> bool {
    sha256(a) == sha256(b) ==> a == b
}

/// The input that SHA-256 gets when `event` is folded on top of `base`, for
/// an event that is signed.
pub open spec fn folded_input(base: Seq<u8>, event: EventView) -> Seq<u8> {
    match event {
        EventView::Tick => base,
        EventView::Claim { sig, .. } => extended(base, CLAIM_TAG, sig),
        EventView::Transaction { sig, .. } => extended(base, TRANSACTION_TAG, sig),
    }
}

/// Whether SHA-256 yields no collision between the two runs that produce an
/// entry for `event` after `num_hashes` hash iterations, one run starting at
/// `a` and the other at `b`.
pub open spec fn runs_collision_free(
    a: Seq<u8>,
    b: Seq<u8>,
    num_hashes: nat,
    event: EventView,
) -> bool {
    &&& forall|k: nat|
        k < num_hashes ==> collision_free(#[trigger] iterated_hash(a, k), iterated_hash(b, k))
    &&& collision_free(
        folded_input(iterated_hash(a, num_hashes), event),
        folded_input(iterated_hash(b, num_hashes), event),
    )
}

/// Extending two digests with one tag and one payload gives the same bytes
/// only if the digests are the same.
pub proof fn lemma_extended_same_suffix(a: Seq<u8>, b: Seq<u8>, tag: u8, payload: Seq<u8>)
    requires
        extended(a, tag, payload) == extended(b, tag, payload),
    ensures
        a == b,
{
    let x = extended(a, tag, payload);
    let y = extended(b, tag, payload);
    assert(x.len() == a.len() + 1 + payload.len());
    assert(y.len() == b.len() + 1 + payload.len());
    assert forall|i: int| 0 <= i < a.len() implies a[i] == b[i] by {
        assert(x[i] == a[i]);
        assert(y[i] == b[i]);
    }
    assert(a =~= b);
}

/// Extending one digest with two tags and two payloads gives the same bytes
/// only if the tags and the payloads are the same.
pub proof fn lemma_extended_same_prefix(
    base: Seq<u8>,
    tag1: u8,
    payload1: Seq<u8>,
    tag2: u8,
    payload2: Seq<u8>,
)
    requires
        extended(base, tag1, payload1) == extended(base, tag2, payload2),
    ensures
        tag1 == tag2,
        payload1 == payload2,
{
    let x = extended(base, tag1, payload1);
    let y = extended(base, tag2, payload2);
    let n = base.len() as int;
    assert(x.len() == n + 1 + payload1.len());
    assert(y.len() == n + 1 + payload2.len());
    assert(x[n] == tag1 && y[n] == tag2);
    assert forall|i: int| 0 <= i < payload1.len() implies payload1[i] == payload2[i] by {
        assert(x[n + 1 + i] == payload1[i]);
        assert(y[n + 1 + i] == payload2[i]);
    }
    assert(payload1 =~= payload2);
}

/// Hashing on from two different digests keeps them different, as long as
/// SHA-256 yields no collision on the way.
pub proof fn lemma_iterated_hash_apart(a: Seq<u8>, b: Seq<u8>, n: nat)
    requires
        a != b,
        forall|k: nat| k < n ==> collision_free(#[trigger] iterated_hash(a, k), iterated_hash(b, k)),
    ensures
        iterated_hash(a, n) != iterated_hash(b, n),
    decreases n,
{
    if n > 0 {
        let m = (n - 1) as nat;
        lemma_iterated_hash_apart(a, b, m);
        assert(collision_free(iterated_hash(a, m), iterated_hash(b, m)));
    }
}

/// An entry produced on top of one anchor does not verify against another
/// anchor, as long as SHA-256 yields no collision between the two runs.
pub proof fn lemma_anchor_sensitivity(
    anchor: Seq<u8>,
    other: Seq<u8>,
    num_hashes: nat,
    event: EventView,
)
    requires
        anchor != other,
        runs_collision_free(anchor, other, num_hashes, event),
    ensures
        entry_hash(anchor, num_hashes, event) != entry_hash(other, num_hashes, event),
        !entry_valid(other, produced_entry(anchor, num_hashes, event)),
        !chain_valid(other, seq![produced_entry(anchor, num_hashes, event)]),
{
    let x = iterated_hash(anchor, num_hashes);
    let y = iterated_hash(other, num_hashes);
    lemma_iterated_hash_apart(anchor, other, num_hashes);
    match event {
        EventView::Tick => {},
        EventView::Claim { sig, .. } => {
            if extended(x, CLAIM_TAG, sig) == extended(y, CLAIM_TAG, sig) {
                lemma_extended_same_suffix(x, y, CLAIM_TAG, sig);
            }
        },
        EventView::Transaction { sig, .. } => {
            if extended(x, TRANSACTION_TAG, sig) == extended(y, TRANSACTION_TAG, sig) {
                lemma_extended_same_suffix(x, y, TRANSACTION_TAG, sig);
            }
        },
    }
    let chain = seq![produced_entry(anchor, num_hashes, event)];
    if chain_valid(other, chain) {
        assert(entry_valid(predecessor(other, chain, 0), chain[0]));
    }
}

/// Whether two events are committed alike: both are ticks, or both are
/// claims, or both are transactions, with one and the same signature. The
/// chain hash cannot tell such events apart.
pub open spec fn same_commitment(a: EventView, b: EventView) -> bool {
    match (a, b) {
        (EventView::Tick, EventView::Tick) => true,
        (EventView::Claim { sig: s1, .. }, EventView::Claim { sig: s2, .. }) => s1 == s2,
        (
            EventView::Transaction { sig: s1, .. },
            EventView::Transaction { sig: s2, .. },
        ) => s1 == s2,
        _ => false,
    }
}

/// `chain` with the event of entry `i` replaced by `event`, and with the
/// counts and digests left as they were.
pub open spec fn with_event(chain: Seq<EntryView>, i: int, event: EventView) -> Seq<EntryView> {
    chain.update(
        i,
        EntryView { num_hashes: chain[i].num_hashes, end_hash: chain[i].end_hash, event },
    )
}

/// Replacing an event of a valid chain by one that is committed alike, such
/// as the same claim with another payload or the same transaction with
/// another payload or destination, leaves the chain valid only if the old
/// signature verifies for the new event too.
pub proof fn lemma_tampered_event(
    anchor: Seq<u8>,
    chain: Seq<EntryView>,
    i: int,
    event: EventView,
)
    requires
        chain_valid(anchor, chain),
        0 <= i < chain.len(),
        same_commitment(chain[i].event, event),
    ensures
        chain_valid(anchor, with_event(chain, i, event)) == event_authentic(event),
{
    let tampered = with_event(chain, i, event);
    assert(entry_valid(predecessor(anchor, chain, i), chain[i]));
    assert(predecessor(anchor, tampered, i) == predecessor(anchor, chain, i));
    if chain_valid(anchor, tampered) {
        assert(entry_valid(predecessor(anchor, tampered, i), tampered[i]));
    }
    if event_authentic(event) {
        assert forall|j: int| 0 <= j < tampered.len() implies entry_valid(
            predecessor(anchor, tampered, j),
            #[trigger] tampered[j],
        ) by {
            assert(entry_valid(predecessor(anchor, chain, j), chain[j]));
            assert(predecessor(anchor, tampered, j) == predecessor(anchor, chain, j));
        }
    }
}

/// `chain` with the events of the entries `i` and `i + 1` swapped, and with
/// the counts and digests left as they were.
pub open spec fn with_swapped_events(chain: Seq<EntryView>, i: int) -> Seq<EntryView> {
    with_event(with_event(chain, i, chain[i + 1].event), i + 1, chain[i].event)
}

/// Swapping two neighbouring events of a valid chain without recomputing the
/// digests breaks the chain, wherever the two events fold to different
/// digests at the first of the two positions.
pub proof fn lemma_reordered_events(anchor: Seq<u8>, chain: Seq<EntryView>, i: int)
    requires
        chain_valid(anchor, chain),
        0 <= i,
        i + 1 < chain.len(),
        entry_hash(predecessor(anchor, chain, i), chain[i].num_hashes, chain[i].event)
            != entry_hash(predecessor(anchor, chain, i), chain[i].num_hashes, chain[i + 1].event),
    ensures
        !chain_valid(anchor, with_swapped_events(chain, i)),
{
    let swapped = with_swapped_events(chain, i);
    assert(entry_valid(predecessor(anchor, chain, i), chain[i]));
    assert(predecessor(anchor, swapped, i) == predecessor(anchor, chain, i));
    if chain_valid(anchor, swapped) {
        assert(entry_valid(predecessor(anchor, swapped, i), swapped[i]));
    }
}

/// Two signed events with different tags or different signatures fold to
/// different digests on top of one base, as long as SHA-256 yields no
/// collision between the two inputs.
pub proof fn lemma_signed_events_fold_apart(base: Seq<u8>, a: EventView, b: EventView)
    requires
        !(a is Tick),
        !(b is Tick),
        !same_commitment(a, b),
        collision_free(folded_input(base, a), folded_input(base, b)),
    ensures
        folded_hash(base, a) != folded_hash(base, b),
{
    if folded_input(base, a) == folded_input(base, b) {
        match (a, b) {
            (EventView::Claim { sig: s1, .. }, EventView::Claim { sig: s2, .. }) => {
                lemma_extended_same_prefix(base, CLAIM_TAG, s1, CLAIM_TAG, s2);
            },
            (EventView::Claim { sig: s1, .. }, EventView::Transaction { sig: s2, .. }) => {
                lemma_extended_same_prefix(base, CLAIM_TAG, s1, TRANSACTION_TAG, s2);
            },
            (EventView::Transaction { sig: s1, .. }, EventView::Claim { sig: s2, .. }) => {
                lemma_extended_same_prefix(base, TRANSACTION_TAG, s1, CLAIM_TAG, s2);
            },
            (EventView::Transaction { sig: s1, .. }, EventView::Transaction { sig: s2, .. }) => {
                lemma_extended_same_prefix(base, TRANSACTION_TAG, s1, TRANSACTION_TAG, s2);
            },
            _ => {},
        }
    }
}

} // verus!
