//! Keyed hashing of items and the double-hashing scheme that turns two hash
//! values into any number of bit positions.

#![allow(deprecated)]

use std::hash::Hasher;
use std::hash::SipHasher;
use vstd::prelude::*;

verus! {

/// `std::hash::SipHasher`, carried as an opaque value.
#[verifier::external_type_specification]
#[verifier::external_body]
pub struct ExSipHasher(SipHasher);

/// The two keys that a hasher was made with.
pub uninterp spec fn sip_keys(h: SipHasher) -> (u64, u64);

/// The byte strings written into a hasher so far, in order.
pub uninterp spec fn sip_written(h: SipHasher) -> Seq<Seq<u8>>;

/// The SipHash 2-4 value of a sequence of writes under the keys `k0`, `k1`.
pub uninterp spec fn sip_digest(k0: u64, k1: u64, written: Seq<Seq<u8>>) -> u64;

/// `SipHasher::new_with_keys`: a hasher under the two keys, with nothing
/// written yet.
#[verifier::external_body]
fn sip_new_with_keys(k0: u64, k1: u64) -> (h: SipHasher)
    ensures
        sip_keys(h) == (k0, k1),
        sip_written(h) == Seq::<Seq<u8>>::empty(),
{
    SipHasher::new_with_keys(k0, k1)
}

/// `Hasher::write` on a `SipHasher`: the bytes are absorbed after what was
/// written before; the keys stay.
#[verifier::external_body]
fn sip_write(h: &mut SipHasher, bytes: &[u8])
    ensures
        sip_keys(*final(h)) == sip_keys(*old(h)),
        sip_written(*final(h)) == sip_written(*old(h)).push(bytes@),
{
    h.write(bytes)
}

/// `Hasher::finish` on a `SipHasher`: the hash of what was written, which
/// depends on the keys and the writes alone.
#[verifier::external_body]
fn sip_finish(h: &SipHasher) -> (digest: u64)
    ensures
        digest == sip_digest(sip_keys(*h).0, sip_keys(*h).1, sip_written(*h)),
{
    h.finish()
}

/// `rand::random::<u64>`: a value from the thread-local generator. Nothing
/// is known of it.
#[verifier::external_body]
fn random_u64() -> (r: u64) {
    rand::random::<u64>()
}

/// The key of one keyed hash function.
#[derive(Clone, Copy, Debug, PartialEq, Eq, Structural)]
pub struct SipKey {
    pub k0: u64,
    pub k1: u64,
}

/// The hash of an item under a key.
pub open spec fn spec_keyed_hash(key: SipKey, item: Seq<u8>) -> u64 {
    sip_digest(key.k0, key.k1, seq![item])
}

impl SipKey {
    /// A freshly drawn random key.
    pub fn random() -> (key: SipKey) {
        let k0: u64 = random_u64();
        let k1: u64 = random_u64();
        SipKey { k0, k1 }
    }
}

/// Hashes `item` under `key`. Equal keys and equal items give equal hashes.
pub fn keyed_hash(key: SipKey, item: &[u8]) -> (h: u64)
    ensures
        h == spec_keyed_hash(key, item@),
{
    let mut hasher = sip_new_with_keys(key.k0, key.k1);
    sip_write(&mut hasher, item);
    let h: u64 = sip_finish(&hasher);
    proof {
        assert(sip_written(hasher) =~= seq![item@]);
    }
    h
}

/// The modulus of the double-hashing step: the largest prime below 2^64.
pub const HASH_MODULUS: u64 = 0xffff_ffff_ffff_ffc5;

/// The hash value of round `round` derived from the two real hashes: `h0`
/// and `h1` themselves in the first two rounds, after that
/// `h0 + (round * h1 mod 2^64) mod HASH_MODULUS`, the sum taken mod 2^64.
pub open spec fn spec_bloom_hash(h0: u64, h1: u64, round: nat) -> nat {
    if round == 0 {
        h0 as nat
    } else if round == 1 {
        h1 as nat
    } else {
        ((h0 + ((round * h1) % 0x1_0000_0000_0000_0000) % (HASH_MODULUS as int))
            % 0x1_0000_0000_0000_0000) as nat
    }
}

/// The position that round `round` selects in an array of `bit_count` bits.
pub open spec fn spec_bit_offset(h0: u64, h1: u64, round: nat, bit_count: nat) -> int {
    (spec_bloom_hash(h0, h1, round) % bit_count) as int
}

/// Derives the hash value of round `k_i` from the two real hashes.
pub fn bloom_hash(h0: u64, h1: u64, k_i: u32) -> (h: u64)
    ensures
        h == spec_bloom_hash(h0, h1, k_i as nat),
{
    if k_i == 0 {
        h0
    } else if k_i == 1 {
        h1
    } else {
        let product: u64 = (k_i as u64).wrapping_mul(h1);
        h0.wrapping_add(product % HASH_MODULUS)
    }
}

/// The bit position of round `k_i` in an array of `bit_count` bits.
pub fn bit_offset(h0: u64, h1: u64, k_i: u32, bit_count: u64) -> (offset: u64)
    requires
        bit_count > 0,
    ensures
        offset == spec_bit_offset(h0, h1, k_i as nat, bit_count as nat),
        offset < bit_count,
{
    bloom_hash(h0, h1, k_i) % bit_count
}

} // verus!
