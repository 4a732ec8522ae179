use bloomfilter::Bloom;
use bloomfilter::SipKey;

fn random_key(len: usize) -> Vec<u8> {
    (0..len).map(|_| rand::random::<u8>()).collect()
}

#[test]
fn bloom_test_set() {
    let mut bloom = Bloom::new(10, 80);
    let key: &Vec<u8> = &random_key(16);
    assert!(bloom.check(key) == false);
    bloom.set(&key);
    assert!(bloom.check(&key.clone()) == true);
}

#[test]
fn bloom_test_check_and_set() {
    let mut bloom = Bloom::new(10, 80);
    let key: &Vec<u8> = &random_key(16);
    assert!(bloom.check_and_set(key) == false);
    assert!(bloom.check_and_set(&key.clone()) == true);
}

#[test]
fn bloom_test_clear() {
    let mut bloom = Bloom::new(10, 80);
    let key: &Vec<u8> = &random_key(16);
    bloom.set(&key);
    assert!(bloom.check(&key) == true);
    bloom.clear();
    assert!(bloom.check(&key) == false);
}

#[test]
fn bloom_recreate() {
    let key: Vec<u8> = vec![0, 5, 8, 10];
    let (bytes, k_num, seeds) = {
        let mut bloom = Bloom::new(16, 1000);
        bloom.set(&key);
        assert!(bloom.check(&key));

        let (bytes, k_num) = bloom.to_bytes();
        (bytes, k_num, bloom.seeds())
    };

    let bloom = Bloom::from_bytes_with_seeds(&bytes, k_num, seeds.0, seeds.1);

    assert!(bloom.check(&key));
}

#[test]
fn recreated_filter_keeps_bits_and_rounds() {
    let mut bloom = Bloom::new(16, 10);
    bloom.set(b"alpha");
    bloom.set(b"beta");
    let (bytes, k_num) = bloom.to_bytes();
    assert_eq!(bytes.len(), 16);
    assert!(bytes.iter().any(|&b| b != 0));

    let rebuilt = Bloom::from_bytes(&bytes, k_num);
    assert_eq!(rebuilt.number_of_bits(), bloom.number_of_bits());
    assert_eq!(rebuilt.number_of_hash_functions(), bloom.number_of_hash_functions());
    assert_eq!(rebuilt.to_bytes(), (bytes, k_num));
}

#[test]
fn recreated_filter_with_same_keys_answers_alike() {
    let seed_a = SipKey { k0: 1, k1: 2 };
    let seed_b = SipKey { k0: 3, k1: 4 };
    let mut bloom = Bloom::new_with_seeds(64, 50, seed_a, seed_b);
    let added: Vec<Vec<u8>> = (0u8..50).map(|i| vec![i, i + 1, 7]).collect();
    for item in &added {
        bloom.set(item);
    }
    let (bytes, k_num) = bloom.to_bytes();
    let rebuilt = Bloom::from_bytes_with_seeds(&bytes, k_num, seed_a, seed_b);
    for i in 0u16..400 {
        let probe = i.to_le_bytes();
        assert_eq!(rebuilt.check(&probe), bloom.check(&probe));
    }
    for item in &added {
        assert!(rebuilt.check(item));
    }
}

#[test]
fn new_filter_sizes() {
    let bloom = Bloom::new(10, 80);
    assert_eq!(bloom.number_of_bits(), 80);
    assert_eq!(bloom.number_of_hash_functions(), 1);
    assert_eq!(bloom.to_bytes(), (vec![0u8; 10], 1));

    let bloom = Bloom::new(8192, 1000);
    assert_eq!(bloom.number_of_bits(), 65536);
    assert_eq!(bloom.number_of_hash_functions(), 46);
}

#[test]
fn new_filters_draw_their_own_keys() {
    let first = Bloom::new(8, 8);
    let second = Bloom::new(8, 8);
    assert_ne!(first.seeds(), second.seeds());
    let (seed_a, seed_b) = first.seeds();
    assert_ne!(seed_a, seed_b);
}

#[test]
fn given_keys_are_kept() {
    let seed_a = SipKey { k0: 11, k1: 12 };
    let seed_b = SipKey { k0: 13, k1: 14 };
    let bloom = Bloom::new_with_seeds(4, 4, seed_a, seed_b);
    assert_eq!(bloom.seeds(), (seed_a, seed_b));
    let rebuilt = Bloom::from_bytes_with_seeds(&[0u8; 4], 3, seed_b, seed_a);
    assert_eq!(rebuilt.seeds(), (seed_b, seed_a));
    assert_eq!(rebuilt.number_of_hash_functions(), 3);
    assert_eq!(rebuilt.number_of_bits(), 32);
}

#[test]
fn fresh_filter_has_no_member() {
    let bloom = Bloom::new(1024, 100);
    assert!(!bloom.check(b"a specific chosen key"));
    assert!(!bloom.check(b""));
    for i in 0u32..200 {
        assert!(!bloom.check(&i.to_be_bytes()));
    }
}

#[test]
fn no_false_negatives_after_many_sets() {
    let mut bloom = Bloom::new(32, 100);
    let items: Vec<Vec<u8>> = (0u32..300).map(|i| i.to_le_bytes().to_vec()).collect();
    for item in &items {
        bloom.set(item);
    }
    for item in &items {
        assert!(bloom.check(item));
    }
}

#[test]
fn setting_twice_changes_nothing() {
    let mut bloom = Bloom::new(16, 4);
    bloom.set(b"once");
    let first = bloom.to_bytes();
    bloom.set(b"once");
    assert_eq!(bloom.to_bytes(), first);
}

#[test]
fn check_and_set_reports_the_state_before() {
    let mut bloom = Bloom::new(128, 16);
    bloom.set(b"known");
    assert!(bloom.check_and_set(b"known"));
    assert!(!bloom.check_and_set(b"unknown"));
    assert!(bloom.check(b"unknown"));
    assert!(bloom.check_and_set(b"unknown"));
}

#[test]
fn check_and_set_sets_what_set_sets() {
    let seed_a = SipKey { k0: 5, k1: 6 };
    let seed_b = SipKey { k0: 7, k1: 8 };
    let mut by_set = Bloom::new_with_seeds(32, 8, seed_a, seed_b);
    let mut by_check_and_set = Bloom::new_with_seeds(32, 8, seed_a, seed_b);
    for i in 0u8..8 {
        by_set.set(&[i, 1, 2]);
        by_check_and_set.check_and_set(&[i, 1, 2]);
    }
    assert_eq!(by_set.to_bytes(), by_check_and_set.to_bytes());
}

#[test]
fn clear_unsets_every_bit_and_keeps_the_rest() {
    let mut bloom = Bloom::new(16, 4);
    let seeds = bloom.seeds();
    let k_num = bloom.number_of_hash_functions();
    bloom.set(b"one");
    bloom.set(b"two");
    bloom.clear();
    assert_eq!(bloom.to_bytes(), (vec![0u8; 16], k_num));
    assert_eq!(bloom.number_of_bits(), 128);
    assert_eq!(bloom.seeds(), seeds);
    assert!(!bloom.check(b"one"));
    assert!(!bloom.check(b"two"));
}

#[test]
fn hashed_entry_points_use_the_given_hashes() {
    // 16 bits and 3 rounds: the rounds select 5 % 16, 9 % 16 and
    // (5 + 2 * 9) % 16.
    let mut bloom = Bloom::from_bytes(&[0, 0], 3);
    assert!(!bloom.check_hashed(5, 9));
    bloom.set_hashed(5, 9);
    assert!(bloom.check_hashed(5, 9));
    assert_eq!(bloom.to_bytes().0, vec![0b0000_0101, 0b0100_0000]);
    // 21 selects 5, 25 selects 9, and 21 + 2 * 25 = 71 selects 7.
    assert!(bloom.check_and_set_hashed(21, 25));
    // 6 is unset; the rounds select 6, 9 and (6 + 2 * 9) % 16 = 8.
    assert!(!bloom.check_and_set_hashed(6, 9));
    assert_eq!(bloom.to_bytes().0, vec![0b0000_0111, 0b1100_0000]);
}

#[test]
fn check_stops_at_an_unset_bit() {
    let bloom = Bloom::from_bytes(&[0xff, 0xfe], 2);
    assert!(bloom.check_hashed(0, 14));
    assert!(!bloom.check_hashed(0, 15));
    assert!(!bloom.check_hashed(15, 0));
}

#[test]
fn hashes_are_the_keyed_hashes_of_the_item() {
    let seed_a = SipKey { k0: 0x0706050403020100, k1: 0x0f0e0d0c0b0a0908 };
    let seed_b = SipKey { k0: 0, k1: 0 };
    let bloom = Bloom::new_with_seeds(4, 4, seed_a, seed_b);
    let (h0, h1) = bloom.hashes(&[]);
    assert_eq!(h0, 0x726fdb47dd0e0e31);
    assert_eq!(h1, bloomfilter::hashing::keyed_hash(seed_b, &[]));
    assert_ne!(h0, h1);
}
