use poh_log::entry::{Entry, Event};
use poh_log::hashing::{extend_and_hash, hash, Sha256Hash};
use poh_log::producer::{
    create_entries, create_ticks, hash_event, next_entry, next_entry_mut, next_hash, next_tick,
};
use poh_log::signing::{
    generate_keypair, get_pubkey, sign_serialized, sign_transaction_data, PublicKey, Signature,
};
use poh_log::validate::{
    verify_entry, verify_event, verify_slice, verify_slice_seq, verify_slice_u64,
};

fn anchors() -> Vec<Sha256Hash> {
    let zero = Sha256Hash::default();
    vec![zero, hash(&zero), hash(b"some anchor"), [0xffu8; 32]]
}

fn claim(data: Sha256Hash) -> Event<Sha256Hash> {
    let keypair = generate_keypair();
    Event::Claim { key: get_pubkey(&keypair), data, sig: sign_serialized(&data, &keypair) }
}

fn transfer(data: Sha256Hash, to: PublicKey) -> Event<Sha256Hash> {
    let keypair = generate_keypair();
    Event::Transaction {
        from: get_pubkey(&keypair),
        to,
        data,
        sig: sign_transaction_data(&data, &keypair, &to),
    }
}

#[test]
fn test_new_tick_stores_fields_verbatim() {
    let one = hash(&Sha256Hash::default());
    let entry: Entry<u64> = Entry::new_tick(42, &one);
    assert_eq!(entry.num_hashes, 42);
    assert_eq!(entry.end_hash, one);
    assert_eq!(entry.event, Event::Tick);
}

#[test]
fn test_hash_event_folds_by_kind() {
    let base = hash(b"base");
    let key = [1u8; 32];
    let to = [4u8; 32];
    let sig: Signature = [5u8; 64];
    assert_eq!(hash_event::<u64>(&base, &Event::Tick), base);
    let claim = Event::Claim { key, data: 3u64, sig };
    assert_eq!(hash_event(&base, &claim), extend_and_hash(&base, 2, &sig));
    let transaction = Event::Transaction { from: key, to, data: 3u64, sig };
    assert_eq!(hash_event(&base, &transaction), extend_and_hash(&base, 3, &sig));
    assert_ne!(hash_event(&base, &claim), hash_event(&base, &transaction));
}

#[test]
fn test_hash_event_ignores_payload_and_keys() {
    let base = hash(b"base");
    let sig: Signature = [5u8; 64];
    let a = Event::Claim { key: [1u8; 32], data: 3u64, sig };
    let b = Event::Claim { key: [2u8; 32], data: 4u64, sig };
    assert_eq!(hash_event(&base, &a), hash_event(&base, &b));
}

#[test]
fn test_next_hash_iterates_then_folds() {
    let zero = Sha256Hash::default();
    let one = hash(&zero);
    let two = hash(&one);
    assert_eq!(next_hash::<u64>(&zero, 0, &Event::Tick), zero);
    assert_eq!(next_hash::<u64>(&zero, 1, &Event::Tick), one);
    assert_eq!(next_hash::<u64>(&zero, 2, &Event::Tick), two);
    assert_eq!(
        next_hash::<u64>(&zero, 2, &Event::Tick).to_vec(),
        vec![
            0x2b, 0x32, 0xdb, 0x6c, 0x2c, 0x0a, 0x62, 0x35, 0xfb, 0x13, 0x97, 0xe8, 0x22, 0x5e,
            0xa8, 0x5e, 0x0f, 0x0e, 0x6e, 0x8c, 0x7b, 0x12, 0x6d, 0x00, 0x16, 0xcc, 0xbd, 0xe0,
            0xe6, 0x67, 0x15, 0x1e
        ]
    );
    let sig: Signature = [5u8; 64];
    let claim = Event::Claim { key: [1u8; 32], data: 3u64, sig };
    assert_eq!(next_hash(&zero, 0, &claim), extend_and_hash(&zero, 2, &sig));
    assert_eq!(next_hash(&zero, 2, &claim), extend_and_hash(&two, 2, &sig));
}

#[test]
fn test_next_entry_keeps_count_and_event() {
    let zero = Sha256Hash::default();
    let sig: Signature = [5u8; 64];
    let event = Event::Transaction { from: [1u8; 32], to: [2u8; 32], data: 9u64, sig };
    let entry = next_entry(&zero, 3, event.clone());
    assert_eq!(entry.num_hashes, 3);
    assert_eq!(entry.event, event);
    assert_eq!(entry.end_hash, next_hash(&zero, 3, &event));
}

#[test]
fn test_next_entry_mut_advances_the_anchor() {
    let zero = Sha256Hash::default();
    let mut running = zero;
    let first: Entry<u64> = next_entry_mut(&mut running, 2, Event::Tick);
    assert_eq!(first.end_hash, hash(&hash(&zero)));
    assert_eq!(running, first.end_hash);
    let second: Entry<u64> = next_entry_mut(&mut running, 1, Event::Tick);
    assert_eq!(second.end_hash, hash(&first.end_hash));
    assert_eq!(running, second.end_hash);
    assert!(verify_slice_u64(&[first, second], &zero));
}

#[test]
fn test_next_tick_is_next_entry_of_a_tick() {
    let one = hash(&Sha256Hash::default());
    let tick: Entry<u64> = next_tick(&one, 5);
    assert_eq!(tick, next_entry(&one, 5, Event::Tick));
    assert_eq!(tick.event, Event::Tick);
    assert_eq!(tick.num_hashes, 5);
}

#[test]
fn test_create_ticks_shape() {
    let zero = Sha256Hash::default();
    let ticks = create_ticks(&zero, 2, 3);
    assert_eq!(ticks.len(), 3);
    let mut expected = zero;
    for tick in &ticks {
        expected = hash(&hash(&expected));
        assert_eq!(tick.num_hashes, 2);
        assert_eq!(tick.event, Event::Tick);
        assert_eq!(tick.end_hash, expected);
    }
    assert!(create_ticks(&zero, 2, 0).is_empty());
}

#[test]
fn test_create_entries_shape() {
    let zero = Sha256Hash::default();
    let events = vec![claim(zero), Event::Tick, transfer(hash(&zero), [7u8; 32])];
    let entries = create_entries(&zero, 1, events.clone());
    assert_eq!(entries.len(), 3);
    let mut running = zero;
    for (entry, event) in entries.iter().zip(&events) {
        assert_eq!(entry.num_hashes, 1);
        assert_eq!(&entry.event, event);
        assert_eq!(entry.end_hash, next_hash(&running, 1, event));
        running = entry.end_hash;
    }
    assert!(create_entries::<u64>(&zero, 1, vec![]).is_empty());
}

#[test]
fn test_create_ticks_is_create_entries_of_ticks() {
    let one = hash(&Sha256Hash::default());
    let events: Vec<Event<Sha256Hash>> = vec![Event::Tick; 4];
    assert_eq!(create_ticks(&one, 3, 4), create_entries(&one, 3, events));
}

#[test]
fn test_empty_chain_is_valid_from_any_anchor() {
    for anchor in anchors() {
        assert!(verify_slice(&[], &anchor));
        assert!(verify_slice_u64(&[], &anchor));
        assert!(verify_slice_seq::<Sha256Hash>(&[], &anchor));
        assert!(verify_slice_seq::<u8>(&[], &anchor));
    }
}

#[test]
fn test_tick_is_consistent_with_its_anchor() {
    for anchor in anchors() {
        for n in [0u64, 1, 2, 17] {
            assert!(verify_slice(&[next_tick(&anchor, n)], &anchor));
            assert!(verify_slice_u64(&[next_tick(&anchor, n)], &anchor));
            assert!(verify_slice_seq::<u8>(&[next_tick(&anchor, n)], &anchor));
        }
    }
}

#[test]
fn test_entry_fails_against_another_anchor() {
    let all = anchors();
    for (i, anchor) in all.iter().enumerate() {
        for (j, other) in all.iter().enumerate() {
            for n in [0u64, 1, 5] {
                let tick: Entry<Sha256Hash> = next_tick(anchor, n);
                assert_eq!(verify_slice(&[tick.clone()], other), i == j);
                assert_eq!(verify_entry(&tick, other), i == j);
            }
        }
    }
    let zero = Sha256Hash::default();
    let entry = next_entry(&zero, 1, claim(zero));
    assert!(verify_entry(&entry, &zero));
    assert!(!verify_entry(&entry, &hash(&zero)));
}

#[test]
fn test_tick_chains_are_valid() {
    for anchor in anchors() {
        for n in [0u64, 1, 3] {
            for len in [0usize, 1, 2, 9] {
                let ticks = create_ticks(&anchor, n, len);
                assert!(verify_slice(&ticks, &anchor));
                assert!(verify_slice_seq(&ticks, &anchor));
            }
        }
    }
}

#[test]
fn test_large_hash_counts() {
    let zero = Sha256Hash::default();
    let ticks = create_ticks(&zero, 10_000, 8);
    assert!(verify_slice(&ticks, &zero));
    assert!(verify_slice_seq(&ticks, &zero));
}

#[test]
fn test_produced_chain_is_valid_iff_events_are_authentic() {
    let zero = Sha256Hash::default();
    let good = vec![claim(zero), Event::Tick, transfer(hash(&zero), [7u8; 32])];
    assert!(verify_slice(&create_entries(&zero, 2, good.clone()), &zero));

    let mut forged = good.clone();
    if let Event::Claim { ref mut sig, .. } = forged[0] {
        sig[0] ^= 1;
    }
    let entries = create_entries(&zero, 2, forged);
    assert!(!verify_event(&entries[0].event));
    assert!(!verify_slice(&entries, &zero));
    assert!(!verify_slice_seq(&entries, &zero));
}

#[test]
fn test_verify_event() {
    let zero = Sha256Hash::default();
    assert!(verify_event::<u64>(&Event::Tick));
    assert!(verify_event(&claim(zero)));
    assert!(verify_event(&transfer(zero, [3u8; 32])));

    let unsigned = Event::Claim { key: [1u8; 32], data: 5u64, sig: [0u8; 64] };
    assert!(!verify_event(&unsigned));

    let keypair = generate_keypair();
    let stranger = generate_keypair();
    let wrong_signer = Event::Claim {
        key: get_pubkey(&stranger),
        data: 5u64,
        sig: sign_serialized(&5u64, &keypair),
    };
    assert!(!verify_event(&wrong_signer));
    let right_signer = Event::Claim {
        key: get_pubkey(&keypair),
        data: 5u64,
        sig: sign_serialized(&5u64, &keypair),
    };
    assert!(verify_event(&right_signer));
}

#[test]
fn test_claim_signature_is_no_transaction_signature() {
    let keypair = generate_keypair();
    let key = get_pubkey(&keypair);
    let to = [3u8; 32];
    let sig = sign_serialized(&5u64, &keypair);
    assert!(verify_event(&Event::Claim { key, data: 5u64, sig }));
    assert!(!verify_event(&Event::Transaction { from: key, to, data: 5u64, sig }));

    let zero = Sha256Hash::default();
    let as_claim = next_entry(&zero, 0, Event::Claim { key, data: 5u64, sig });
    let as_transaction = next_entry(&zero, 0, Event::Transaction { from: key, to, data: 5u64, sig });
    assert_ne!(as_claim.end_hash, as_transaction.end_hash);
}

#[test]
fn test_verify_entry_needs_hash_and_signature() {
    let zero = Sha256Hash::default();
    let good = next_entry(&zero, 3, claim(zero));
    assert!(verify_entry(&good, &zero));

    let mut wrong_count = good.clone();
    wrong_count.num_hashes = 2;
    assert!(!verify_entry(&wrong_count, &zero));

    let mut wrong_hash = good.clone();
    wrong_hash.end_hash[5] ^= 0x10;
    assert!(!verify_entry(&wrong_hash, &zero));

    let mut wrong_payload = good.clone();
    if let Event::Claim { ref mut data, .. } = wrong_payload.event {
        *data = hash(b"other");
    }
    assert!(!verify_entry(&wrong_payload, &zero));
}

#[test]
fn test_payload_tamper_is_detected() {
    let zero = Sha256Hash::default();
    let events = vec![Event::Tick, claim(zero), transfer(hash(&zero), [7u8; 32])];
    let entries = create_entries(&zero, 1, events);
    assert!(verify_slice(&entries, &zero));

    let mut tampered = entries.clone();
    if let Event::Claim { ref mut data, .. } = tampered[1].event {
        data[0] ^= 1;
    }
    assert!(!verify_slice(&tampered, &zero));
    assert!(!verify_slice_seq(&tampered, &zero));

    let mut tampered = entries.clone();
    if let Event::Transaction { ref mut data, .. } = tampered[2].event {
        data[31] ^= 0x80;
    }
    assert!(!verify_slice(&tampered, &zero));
    assert!(!verify_slice_seq(&tampered, &zero));
}

#[test]
fn test_redirected_transaction_is_detected() {
    let zero = Sha256Hash::default();
    let data = hash(b"hello, world");
    let keypair0 = generate_keypair();
    let pubkey1 = get_pubkey(&generate_keypair());
    let thief = get_pubkey(&generate_keypair());
    let sig = sign_transaction_data(&data, &keypair0, &pubkey1);
    let from = get_pubkey(&keypair0);

    let honest = Event::Transaction { from, to: pubkey1, data, sig };
    assert!(verify_slice(&create_entries(&zero, 0, vec![honest]), &zero));

    let redirected = Event::Transaction { from, to: thief, data, sig };
    assert!(!verify_slice(&create_entries(&zero, 0, vec![redirected]), &zero));
}

#[test]
fn test_reordering_is_detected_in_longer_chains() {
    let zero = Sha256Hash::default();
    let events = vec![Event::Tick, claim(zero), transfer(hash(&zero), [7u8; 32]), Event::Tick];
    let entries = create_entries(&zero, 1, events);
    assert!(verify_slice(&entries, &zero));
    for i in 0..entries.len() - 1 {
        let mut swapped = entries.clone();
        let first = swapped[i].event.clone();
        swapped[i].event = swapped[i + 1].event.clone();
        swapped[i + 1].event = first;
        assert!(!verify_slice(&swapped, &zero));
        assert!(!verify_slice_seq(&swapped, &zero));
    }
}

#[test]
fn test_swapping_equal_events_changes_nothing() {
    let zero = Sha256Hash::default();
    let entries = create_ticks(&zero, 1, 2);
    let mut swapped = entries.clone();
    let first = swapped[0].event.clone();
    swapped[0].event = swapped[1].event.clone();
    swapped[1].event = first;
    assert_eq!(swapped, entries);
    assert!(verify_slice(&swapped, &zero));
}

#[test]
fn test_omission_and_insertion_are_detected() {
    let zero = Sha256Hash::default();
    let entries = create_ticks(&zero, 1, 4);

    let mut omitted = entries.clone();
    omitted.remove(1);
    assert!(!verify_slice(&omitted, &zero));

    let mut inserted = entries.clone();
    inserted.insert(2, Entry::new_tick(1, &hash(b"foreign")));
    assert!(!verify_slice(&inserted, &zero));

    assert!(verify_slice(&entries[..2], &zero));
    assert!(!verify_slice(&entries[1..], &zero));
    assert!(verify_slice(&entries[1..], &entries[0].end_hash));
}

#[test]
fn test_parallel_and_serial_agree() {
    let zero = Sha256Hash::default();
    let one = hash(&zero);
    let mut chains: Vec<(Vec<Entry<Sha256Hash>>, Sha256Hash)> = vec![
        (vec![], zero),
        (vec![Entry::new_tick(0, &zero)], zero),
        (vec![Entry::new_tick(0, &zero)], one),
        (create_ticks(&zero, 3, 5), zero),
        (create_ticks(&zero, 3, 5), one),
        (create_entries(&one, 2, vec![claim(zero), Event::Tick, transfer(one, [1u8; 32])]), one),
    ];
    let mut broken = create_ticks(&zero, 1, 6);
    broken[4].end_hash = one;
    chains.push((broken, zero));
    let mut miscounted = create_ticks(&zero, 1, 6);
    miscounted[5].num_hashes = 2;
    chains.push((miscounted, zero));
    let mut forged = create_entries(&zero, 0, vec![claim(zero), claim(one)]);
    if let Event::Claim { ref mut sig, .. } = forged[1].event {
        sig[63] ^= 1;
    }
    chains.push((forged, zero));

    let mut seen_valid = 0;
    let mut seen_invalid = 0;
    for (chain, anchor) in &chains {
        let parallel = verify_slice(chain, anchor);
        assert_eq!(parallel, verify_slice_seq(chain, anchor));
        if parallel {
            seen_valid += 1;
        } else {
            seen_invalid += 1;
        }
    }
    assert_eq!(seen_valid, 4);
    assert_eq!(seen_invalid, 5);
}

#[test]
fn test_verify_slice_u64() {
    let zero = Sha256Hash::default();
    let keypair = generate_keypair();
    let key = get_pubkey(&keypair);
    let to = get_pubkey(&generate_keypair());
    let events = vec![
        Event::Claim { key, data: 10u64, sig: sign_serialized(&10u64, &keypair) },
        Event::Tick,
        Event::Transaction {
            from: key,
            to,
            data: 20u64,
            sig: sign_transaction_data(&20u64, &keypair, &to),
        },
    ];
    let entries = create_entries(&zero, 4, events);
    assert!(verify_slice_u64(&entries, &zero));
    assert!(verify_slice_seq(&entries, &zero));
    assert!(!verify_slice_u64(&entries, &hash(&zero)));

    let mut tampered = entries.clone();
    if let Event::Transaction { ref mut data, .. } = tampered[2].event {
        *data = 21;
    }
    assert!(!verify_slice_u64(&tampered, &zero));
    assert_eq!(verify_slice_u64(&tampered, &zero), verify_slice_seq(&tampered, &zero));
}
