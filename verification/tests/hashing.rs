use bloomfilter::hashing::bit_offset;
use bloomfilter::hashing::bloom_hash;
use bloomfilter::hashing::keyed_hash;
use bloomfilter::hashing::HASH_MODULUS;
use bloomfilter::SipKey;

fn reference_key() -> SipKey {
    SipKey { k0: 0x0706050403020100, k1: 0x0f0e0d0c0b0a0908 }
}

#[test]
fn keyed_hash_is_siphash_2_4() {
    let input: Vec<u8> = (0u8..15).collect();
    assert_eq!(keyed_hash(reference_key(), &[]), 0x726fdb47dd0e0e31);
    assert_eq!(keyed_hash(reference_key(), &input[..1]), 0x74f839c593dc67fd);
    assert_eq!(keyed_hash(reference_key(), &input[..8]), 0x93f5f5799a932462);
    assert_eq!(keyed_hash(reference_key(), &input), 0xa129ca6149be45e5);
}

#[test]
fn keyed_hash_depends_on_key_and_item() {
    let key = reference_key();
    let other = SipKey { k0: key.k0, k1: key.k1 + 1 };
    let swapped = SipKey { k0: key.k1, k1: key.k0 };
    assert_eq!(keyed_hash(key, b"item"), keyed_hash(key, b"item"));
    assert_ne!(keyed_hash(key, b"item"), keyed_hash(other, b"item"));
    assert_ne!(keyed_hash(key, b"item"), keyed_hash(swapped, b"item"));
    assert_ne!(keyed_hash(key, b"item"), keyed_hash(key, b"iten"));
    assert_ne!(keyed_hash(key, b"item"), key.k0);
    assert_ne!(keyed_hash(key, b"item"), key.k1);
}

#[test]
fn random_keys_differ() {
    let first = SipKey::random();
    let second = SipKey::random();
    assert_ne!(first, second);
    assert_ne!(first.k0, first.k1);
}

#[test]
fn first_two_rounds_are_the_real_hashes() {
    assert_eq!(bloom_hash(17, 99, 0), 17);
    assert_eq!(bloom_hash(17, 99, 1), 99);
    assert_eq!(bloom_hash(u64::MAX, 0, 0), u64::MAX);
    assert_eq!(bloom_hash(0, u64::MAX, 1), u64::MAX);
}

#[test]
fn later_rounds_combine_the_real_hashes() {
    assert_eq!(bloom_hash(10, 3, 2), 16);
    assert_eq!(bloom_hash(10, 3, 7), 31);
    assert_eq!(bloom_hash(0, 1, u32::MAX), u32::MAX as u64);
}

#[test]
fn modulus_is_the_largest_prime_below_two_to_64() {
    assert_eq!(HASH_MODULUS, u64::MAX - 58);
    // 2 * (2^64 - 1) wraps to 2^64 - 2, which the modulus reduces to 57.
    assert_eq!(bloom_hash(0, u64::MAX, 2), 57);
    assert_eq!(bloom_hash(5, u64::MAX, 2), 5 + 57);
    // 3 * (2^64 - 59) wraps to 2^64 - 177, which is below the modulus.
    assert_eq!(bloom_hash(0, HASH_MODULUS, 3), u64::MAX - 176);
}

#[test]
fn product_and_sum_wrap_around() {
    // 2 * 2^63 wraps to 0.
    assert_eq!(bloom_hash(9, 1 << 63, 2), 9);
    // 3 * (2^63 + 1) wraps to 2^63 + 3.
    assert_eq!(bloom_hash(0, (1 << 63) + 1, 3), (1 << 63) + 3);
    // The sum wraps as well.
    assert_eq!(bloom_hash(u64::MAX, 1, 2), 1);
    assert_eq!(bloom_hash(u64::MAX - 1, 1, 5), 3);
}

#[test]
fn offsets_stay_inside_the_array() {
    assert_eq!(bit_offset(100, 7, 0, 80), 20);
    assert_eq!(bit_offset(100, 7, 1, 80), 7);
    assert_eq!(bit_offset(100, 7, 2, 80), 34);
    assert_eq!(bit_offset(u64::MAX, u64::MAX, 0, 1), 0);
    for round in 0u32..50 {
        assert!(bit_offset(0xdead_beef, 0x1234_5678_9abc_def0, round, 13) < 13);
    }
}
