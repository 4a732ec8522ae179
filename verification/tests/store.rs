use bloomfilter::JournaledBloom;
use bloomfilter::JournaledStore;
use bloomfilter::PackedStore;
use bloomfilter::SipKey;

#[test]
fn packed_store_starts_unset() {
    let store = PackedStore::new(19);
    assert_eq!(store.capacity_in_bits(), 19);
    for i in 0..19 {
        assert!(!store.get_bit(i));
    }
    assert_eq!(store.to_byte_array(), vec![0u8, 0, 0]);
}

#[test]
fn packed_store_sets_one_bit() {
    let mut store = PackedStore::new(16);
    store.set_bit(3);
    for i in 0..16 {
        assert_eq!(store.get_bit(i), i == 3);
    }
    store.set_bit(3);
    store.set_bit(15);
    for i in 0..16 {
        assert_eq!(store.get_bit(i), i == 3 || i == 15);
    }
    assert_eq!(store.capacity_in_bits(), 16);
}

#[test]
fn packed_store_packs_most_significant_bit_first() {
    let mut store = PackedStore::new(16);
    store.set_bit(0);
    assert_eq!(store.to_byte_array(), vec![0b1000_0000, 0]);
    store.set_bit(7);
    assert_eq!(store.to_byte_array(), vec![0b1000_0001, 0]);
    store.set_bit(9);
    assert_eq!(store.to_byte_array(), vec![0b1000_0001, 0b0100_0000]);
}

#[test]
fn packed_store_fills_the_last_byte_with_unset_bits() {
    let mut store = PackedStore::new(11);
    store.set_bit(10);
    store.set_bit(8);
    assert_eq!(store.to_byte_array(), vec![0, 0b1010_0000]);
}

#[test]
fn packed_store_reads_bytes_most_significant_bit_first() {
    let store = PackedStore::from_byte_array(&[0b1010_0000, 0b0001_0010]);
    let expected = [
        true, false, true, false, false, false, false, false, false, false, false, true, false,
        false, true, false,
    ];
    assert_eq!(store.capacity_in_bits(), 16);
    for (i, &bit) in expected.iter().enumerate() {
        assert_eq!(store.get_bit(i), bit);
    }
}

#[test]
fn packed_store_round_trips_bytes() {
    let bytes: Vec<u8> = (0u16..256).map(|b| b as u8).collect();
    let store = PackedStore::from_byte_array(&bytes);
    assert_eq!(store.capacity_in_bits(), 2048);
    assert_eq!(store.to_byte_array(), bytes);
    let empty = PackedStore::from_byte_array(&[]);
    assert_eq!(empty.capacity_in_bits(), 0);
    assert_eq!(empty.to_byte_array(), Vec::<u8>::new());
}

#[test]
fn packed_store_clears_every_bit() {
    let mut store = PackedStore::from_byte_array(&[0xff, 0x0f, 0x80]);
    store.clear_all();
    assert_eq!(store.capacity_in_bits(), 24);
    assert_eq!(store.to_byte_array(), vec![0u8, 0, 0]);
    for i in 0..24 {
        assert!(!store.get_bit(i));
    }
}

#[test]
fn journaled_store_starts_unset_with_an_empty_journal() {
    let mut store = JournaledStore::new(130);
    assert_eq!(store.capacity_in_bits(), 130);
    for i in 0..130 {
        assert!(!store.get_bit(i));
    }
    assert_eq!(store.drain(), vec![]);
}

#[test]
fn journaled_store_addresses_bits_by_word() {
    let mut store = JournaledStore::new(200);
    store.set_bit(0);
    store.set_bit(63);
    store.set_bit(64);
    store.set_bit(199);
    for i in 0..200 {
        assert_eq!(store.get_bit(i), i == 0 || i == 63 || i == 64 || i == 199);
    }
    let first_word: u64 = 1 | 1 << 63;
    assert_eq!(store.drain(), vec![(0, first_word), (0, first_word), (1, 1), (3, 1 << 7)]);
}

#[test]
fn journal_reports_present_values_in_logging_order() {
    let mut store = JournaledStore::new(128);
    store.set_bit(65);
    store.set_bit(1);
    store.set_bit(65);
    store.set_bit(2);
    // Word 0 was logged twice, at different times: both entries carry the
    // value it has now.
    assert_eq!(store.drain(), vec![(1, 2), (0, 6), (1, 2), (0, 6)]);
}

#[test]
fn drain_empties_the_journal_and_keeps_the_bits() {
    let mut store = JournaledStore::new(64);
    store.set_bit(5);
    assert_eq!(store.drain(), vec![(0, 32)]);
    assert_eq!(store.drain(), vec![]);
    assert!(store.get_bit(5));
    store.set_bit(6);
    assert_eq!(store.drain(), vec![(0, 96)]);
}

#[test]
fn reading_a_bit_logs_nothing() {
    let mut store = JournaledStore::new(64);
    store.set_bit(9);
    assert!(store.get_bit(9));
    assert!(!store.get_bit(10));
    assert_eq!(store.drain(), vec![(0, 512)]);
}

#[test]
fn journaled_filter_logs_one_entry_per_round() {
    let mut bloom = JournaledBloom::new(8192, 1000);
    let k_num = bloom.number_of_hash_functions();
    assert_eq!(k_num, 46);
    assert_eq!(bloom.number_of_bits(), 65536);
    bloom.set(b"first");
    assert_eq!(bloom.drain_journal().len(), 46);
    // Set again: no bit changes, and still one entry per round.
    bloom.set(b"first");
    bloom.set(b"second");
    assert_eq!(bloom.drain_journal().len(), 92);
    assert_eq!(bloom.drain_journal().len(), 0);
}

#[test]
fn journaled_filter_logs_colliding_rounds() {
    // 3 rounds over 64 bits with hashes 5 and 5: the rounds select the
    // bits 5, 5 and 15.
    let mut bloom = JournaledBloom::new_with_seeds(8, 15, SipKey { k0: 1, k1: 2 }, SipKey { k0: 3, k1: 4 });
    assert_eq!(bloom.number_of_hash_functions(), 3);
    bloom.set_hashed(5, 5);
    let word: u64 = 1 << 5 | 1 << 15;
    assert_eq!(bloom.drain_journal(), vec![(0, word), (0, word), (0, word)]);
    assert!(bloom.check_hashed(5, 5));
    assert!(!bloom.check_hashed(5, 6));
}

#[test]
fn journaled_filter_has_no_false_negatives() {
    let mut bloom = JournaledBloom::new(32, 100);
    assert!(!bloom.check(b"absent"));
    let items: Vec<Vec<u8>> = (0u32..300).map(|i| i.to_le_bytes().to_vec()).collect();
    for item in &items {
        bloom.set(item);
    }
    for item in &items {
        assert!(bloom.check(item));
    }
}

#[test]
fn journaled_check_and_set_logs_only_new_bits() {
    let mut bloom = JournaledBloom::new_with_seeds(8, 15, SipKey { k0: 1, k1: 2 }, SipKey { k0: 3, k1: 4 });
    // The rounds select 5, 5 and 15: the second finds its bit set.
    assert!(!bloom.check_and_set_hashed(5, 5));
    let word: u64 = 1 << 5 | 1 << 15;
    assert_eq!(bloom.drain_journal(), vec![(0, word), (0, word)]);
    assert!(bloom.check_and_set_hashed(5, 5));
    assert_eq!(bloom.drain_journal(), vec![]);
    assert!(!bloom.check_and_set(b"item"));
    assert!(bloom.check_and_set(b"item"));
}

#[test]
fn journaled_filter_replays_onto_a_mirror() {
    let mut bloom = JournaledBloom::new(32, 20);
    let mut mirror = vec![0u64; 4];
    for round in 0u8..5 {
        for i in 0u8..4 {
            bloom.set(&[round, i]);
        }
        for (index, value) in bloom.drain_journal() {
            mirror[index] = value;
        }
    }
    let mut replica = JournaledStore::new(256);
    for (index, word) in mirror.iter().enumerate() {
        for bit in 0..64 {
            if word >> bit & 1 == 1 {
                replica.set_bit(index * 64 + bit);
            }
        }
    }
    let (seed_a, seed_b) = bloom.seeds();
    for round in 0u8..5 {
        for i in 0u8..4 {
            let h0 = bloomfilter::hashing::keyed_hash(seed_a, &[round, i]);
            let h1 = bloomfilter::hashing::keyed_hash(seed_b, &[round, i]);
            for k_i in 0..bloom.number_of_hash_functions() {
                let offset = bloomfilter::hashing::bit_offset(h0, h1, k_i, 256);
                assert!(replica.get_bit(offset as usize));
            }
        }
    }
}
