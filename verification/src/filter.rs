//! The Bloom filter over the byte-serializable bit store.

use crate::hashing::bit_offset;
use crate::hashing::keyed_hash;
use crate::hashing::spec_bit_offset;
use crate::hashing::spec_keyed_hash;
use crate::hashing::SipKey;
use crate::model::lemma_check_next_round;
use crate::model::lemma_selected_unset_fails_check;
use crate::model::lemma_set_next_round;
use crate::model::lemma_set_no_round;
use crate::model::spec_check;
use crate::model::spec_set;
use crate::packing::bits_of_bytes;
use crate::packing::bytes_of_bits;
use crate::packing::zero_bits;
use crate::packed::PackedStore;
use crate::sizing::spec_optimal_k;
use vstd::prelude::*;

verus! {

/// What a filter is: its bits, its number of hash rounds and its two hash
/// keys.
pub struct BloomView {
    pub bits: Seq<bool>,
    pub hash_rounds: nat,
    pub seed_a: SipKey,
    pub seed_b: SipKey,
}

impl BloomView {
    /// The filter has at least one bit and at least one hash round.
    pub open spec fn wf(self) -> bool {
        &&& self.bits.len() > 0
        &&& self.hash_rounds >= 1
    }

    /// The first of the two real hashes of an item.
    pub open spec fn hash_a(self, item: Seq<u8>) -> u64 {
        spec_keyed_hash(self.seed_a, item)
    }

    /// The second of the two real hashes of an item.
    pub open spec fn hash_b(self, item: Seq<u8>) -> u64 {
        spec_keyed_hash(self.seed_b, item)
    }

    /// Whether the filter answers that `item` may have been added.
    pub open spec fn contains(self, item: Seq<u8>) -> bool {
        spec_check(self.bits, self.hash_a(item), self.hash_b(item), self.hash_rounds)
    }

    /// The filter after `item` has been added.
    pub open spec fn insert(self, item: Seq<u8>) -> BloomView {
        BloomView {
            bits: spec_set(self.bits, self.hash_a(item), self.hash_b(item), self.hash_rounds),
            ..self
        }
    }

    /// The filter after the items of `items` have been added, first to last.
    pub open spec fn insert_all(self, items: Seq<Seq<u8>>) -> BloomView
        decreases items.len(),
    {
        if items.len() == 0 {
            self
        } else {
            self.insert_all(items.drop_last()).insert(items.last())
        }
    }

    /// The filter with every bit unset.
    pub open spec fn cleared(self) -> BloomView {
        BloomView { bits: zero_bits(self.bits.len()), ..self }
    }

    /// The filter rebuilt from its serialized form, with hash keys that
    /// may be new: the bits are packed into bytes and unpacked again, and
    /// the number of hash rounds is carried over.
    pub open spec fn rebuilt(self, seed_a: SipKey, seed_b: SipKey) -> BloomView {
        BloomView {
            bits: bits_of_bytes(bytes_of_bits(self.bits)),
            hash_rounds: self.hash_rounds,
            seed_a,
            seed_b,
        }
    }
}

/// Bloom filter structure
pub struct Bloom {
    bitmap: PackedStore,
    bitmap_bits: u64,
    k_num: u32,
    sips: [SipKey; 2],
}

impl View for Bloom {
    type V = BloomView;

    closed spec fn view(&self) -> BloomView {
        BloomView {
            bits: self.bitmap@,
            hash_rounds: self.k_num as nat,
            seed_a: self.sips[0],
            seed_b: self.sips[1],
        }
    }
}

impl Bloom {
    /// The cached bit count agrees with the store.
    pub closed spec fn consistent(&self) -> bool {
        self.bitmap_bits == self.bitmap@.len()
    }

    /// What holds of every filter: it has at least one bit and at least one
    /// hash round, and its bits fill whole bytes.
    pub open spec fn wf(&self) -> bool {
        &&& self.consistent()
        &&& self@.wf()
        &&& self@.bits.len() <= usize::MAX
        &&& self@.bits.len() % 8 == 0
        &&& self@.hash_rounds <= u32::MAX
    }

    /// Create a new bloom filter structure with the given hash keys.
    /// bitmap_size is the size in bytes (not bits) that will be allocated in memory
    /// items_count is an estimation of the maximum number of items to store.
    pub fn new_with_seeds(
        bitmap_size: usize,
        items_count: usize,
        seed_a: SipKey,
        seed_b: SipKey,
    ) -> (bloom: Bloom)
        requires
            bitmap_size > 0,
            items_count > 0,
            bitmap_size * 8 <= usize::MAX,
        ensures
            bloom.wf(),
            bloom@ == (BloomView {
                bits: zero_bits((bitmap_size * 8) as nat),
                hash_rounds: spec_optimal_k((bitmap_size * 8) as nat, items_count as nat),
                seed_a,
                seed_b,
            }),
    {
        let bitmap_bits: u64 = (bitmap_size as u64) * 8u64;
        let k_num: u32 = Bloom::optimal_k_num(bitmap_bits, items_count);
        let bitmap = PackedStore::new(bitmap_size * 8);
        Bloom { bitmap, bitmap_bits, k_num, sips: [seed_a, seed_b] }
    }

    /// Create a new bloom filter structure with freshly drawn hash keys.
    /// bitmap_size is the size in bytes (not bits) that will be allocated in memory
    /// items_count is an estimation of the maximum number of items to store.
    pub fn new(bitmap_size: usize, items_count: usize) -> (bloom: Bloom)
        requires
            bitmap_size > 0,
            items_count > 0,
            bitmap_size * 8 <= usize::MAX,
        ensures
            bloom.wf(),
            bloom@.bits == zero_bits((bitmap_size * 8) as nat),
            bloom@.hash_rounds == spec_optimal_k((bitmap_size * 8) as nat, items_count as nat),
    {
        let seed_a = SipKey::random();
        let seed_b = SipKey::random();
        Bloom::new_with_seeds(bitmap_size, items_count, seed_a, seed_b)
    }

    /// Rebuild a filter from its serialized bits, its number of hash rounds
    /// and its hash keys.
    pub fn from_bytes_with_seeds(bytes: &[u8], k_num: u32, seed_a: SipKey, seed_b: SipKey) -> (bloom:
        Bloom)
        requires
            bytes@.len() > 0,
            bytes@.len() * 8 <= usize::MAX,
            k_num >= 1,
        ensures
            bloom.wf(),
            bloom@ == (BloomView {
                bits: bits_of_bytes(bytes@),
                hash_rounds: k_num as nat,
                seed_a,
                seed_b,
            }),
    {
        let bitmap_size: usize = bytes.len();
        let bitmap_bits: u64 = (bitmap_size as u64) * 8u64;
        let bitmap = PackedStore::from_byte_array(bytes);
        Bloom { bitmap, bitmap_bits, k_num, sips: [seed_a, seed_b] }
    }

    /// Rebuild a filter from its serialized bits and its number of hash
    /// rounds. The hash keys are freshly drawn: they are not part of the
    /// serialized form.
    pub fn from_bytes(bytes: &[u8], k_num: u32) -> (bloom: Bloom)
        requires
            bytes@.len() > 0,
            bytes@.len() * 8 <= usize::MAX,
            k_num >= 1,
        ensures
            bloom.wf(),
            bloom@.bits == bits_of_bytes(bytes@),
            bloom@.hash_rounds == k_num,
    {
        let seed_a = SipKey::random();
        let seed_b = SipKey::random();
        Bloom::from_bytes_with_seeds(bytes, k_num, seed_a, seed_b)
    }

    /// The serialized bits, most significant bit of each byte first, and the
    /// number of hash rounds.
    pub fn to_bytes(&self) -> (serialized: (Vec<u8>, u32))
        requires
            self.wf(),
        ensures
            serialized.0@ == bytes_of_bits(self@.bits),
            serialized.0@.len() * 8 == self@.bits.len(),
            serialized.1 == self@.hash_rounds,
    {
        (self.bitmap.to_byte_array(), self.k_num)
    }

    /// The two hash keys of the filter.
    pub fn seeds(&self) -> (keys: (SipKey, SipKey))
        ensures
            keys == (self@.seed_a, self@.seed_b),
    {
        (self.sips[0], self.sips[1])
    }

    /// The two real hashes of an item under the filter's keys.
    pub fn hashes(&self, item: &[u8]) -> (pair: (u64, u64))
        ensures
            pair == (self@.hash_a(item@), self@.hash_b(item@)),
    {
        (keyed_hash(self.sips[0], item), keyed_hash(self.sips[1], item))
    }

    /// Record the presence of the item with the two real hashes `h0`, `h1`.
    pub fn set_hashed(&mut self, h0: u64, h1: u64)
        requires
            old(self).wf(),
        ensures
            final(self).wf(),
            final(self)@ == (BloomView {
                bits: spec_set(old(self)@.bits, h0, h1, old(self)@.hash_rounds),
                ..old(self)@
            }),
    {
        let ghost before = self@.bits;
        proof {
            lemma_set_no_round(before, h0, h1);
        }
        let mut k_i: u32 = 0;
        while k_i < self.k_num
            invariant
                self.wf(),
                k_i <= self.k_num,
                self.k_num == old(self).k_num,
                self.sips == old(self).sips,
                before == old(self)@.bits,
                self@.bits == spec_set(before, h0, h1, k_i as nat),
            decreases self.k_num - k_i,
        {
            let bit_offset: usize = bit_offset(h0, h1, k_i, self.bitmap_bits) as usize;
            proof {
                lemma_set_next_round(before, h0, h1, k_i as nat);
            }
            self.bitmap.set_bit(bit_offset);
            k_i += 1;
        }
    }

    /// Record the presence of an item.
    pub fn set(&mut self, item: &[u8])
        requires
            old(self).wf(),
        ensures
            final(self).wf(),
            final(self)@ == old(self)@.insert(item@),
    {
        let (h0, h1) = self.hashes(item);
        self.set_hashed(h0, h1);
    }

    /// Check if the item with the two real hashes `h0`, `h1` is present.
    pub fn check_hashed(&self, h0: u64, h1: u64) -> (present: bool)
        requires
            self.wf(),
        ensures
            present == spec_check(self@.bits, h0, h1, self@.hash_rounds),
    {
        let mut k_i: u32 = 0;
        while k_i < self.k_num
            invariant
                self.wf(),
                k_i <= self.k_num,
                spec_check(self@.bits, h0, h1, k_i as nat),
            decreases self.k_num - k_i,
        {
            let bit_offset: usize = bit_offset(h0, h1, k_i, self.bitmap_bits) as usize;
            if self.bitmap.get_bit(bit_offset) == false {
                assert(!self@.bits[spec_bit_offset(h0, h1, k_i as nat, self@.bits.len())]);
                return false;
            }
            proof {
                lemma_check_next_round(self@.bits, h0, h1, k_i as nat);
            }
            k_i += 1;
        }
        true
    }

    /// Check if an item is present in the set.
    /// There can be false positives, but no false negatives.
    pub fn check(&self, item: &[u8]) -> (present: bool)
        requires
            self.wf(),
        ensures
            present == self@.contains(item@),
    {
        let (h0, h1) = self.hashes(item);
        self.check_hashed(h0, h1)
    }

    /// Record the presence of the item with the two real hashes `h0`, `h1`,
    /// and return whether it was present before.
    pub fn check_and_set_hashed(&mut self, h0: u64, h1: u64) -> (found: bool)
        requires
            old(self).wf(),
        ensures
            final(self).wf(),
            found == spec_check(old(self)@.bits, h0, h1, old(self)@.hash_rounds),
            final(self)@ == (BloomView {
                bits: spec_set(old(self)@.bits, h0, h1, old(self)@.hash_rounds),
                ..old(self)@
            }),
    {
        let ghost before = self@.bits;
        proof {
            lemma_set_no_round(before, h0, h1);
        }
        let mut found = true;
        let mut k_i: u32 = 0;
        while k_i < self.k_num
            invariant
                self.wf(),
                k_i <= self.k_num,
                self.k_num == old(self).k_num,
                self.sips == old(self).sips,
                before == old(self)@.bits,
                self@.bits == spec_set(before, h0, h1, k_i as nat),
                found == spec_check(before, h0, h1, k_i as nat),
            decreases self.k_num - k_i,
        {
            let bit_offset: usize = bit_offset(h0, h1, k_i, self.bitmap_bits) as usize;
            proof {
                lemma_set_next_round(before, h0, h1, k_i as nat);
                lemma_check_next_round(before, h0, h1, k_i as nat);
            }
            if self.bitmap.get_bit(bit_offset) == false {
                found = false;
                self.bitmap.set_bit(bit_offset);
            } else {
                proof {
                    if !before[bit_offset as int] {
                        lemma_selected_unset_fails_check(
                            before,
                            h0,
                            h1,
                            k_i as nat,
                            bit_offset as int,
                        );
                    }
                    assert(self@.bits =~= self@.bits.update(bit_offset as int, true));
                }
            }
            k_i += 1;
        }
        found
    }

    /// Record the presence of an item in the set,
    /// and return the previous state of this item.
    pub fn check_and_set(&mut self, item: &[u8]) -> (found: bool)
        requires
            old(self).wf(),
        ensures
            final(self).wf(),
            found == old(self)@.contains(item@),
            final(self)@ == old(self)@.insert(item@),
    {
        let (h0, h1) = self.hashes(item);
        self.check_and_set_hashed(h0, h1)
    }

    /// Return the number of bits in the filter
    pub fn number_of_bits(&self) -> (bits: u64)
        requires
            self.wf(),
        ensures
            bits == self@.bits.len(),
    {
        self.bitmap_bits
    }

    /// Return the number of hash functions used for `check` and `set`
    pub fn number_of_hash_functions(&self) -> (k_num: u32)
        ensures
            k_num == self@.hash_rounds,
    {
        self.k_num
    }

    /// Clear all of the bits in the filter, removing all keys from the set
    pub fn clear(&mut self)
        requires
            old(self).wf(),
        ensures
            final(self).wf(),
            final(self)@ == old(self)@.cleared(),
    {
        self.bitmap.clear_all()
    }
}

} // verus!
