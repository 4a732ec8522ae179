//! The Bloom filter over the journaled bit store. It can be added to and
//! asked, and hands out the words it changed; it cannot be cleared.

use crate::filter::Bloom;
use crate::filter::BloomView;
use crate::hashing::bit_offset;
use crate::hashing::keyed_hash;
use crate::hashing::spec_bit_offset;
use crate::hashing::SipKey;
use crate::journal::JournalView;
use crate::journal::JournaledStore;
use crate::journal::lemma_set_bit;
use crate::model::lemma_check_next_round;
use crate::model::lemma_selected_unset_fails_check;
use crate::model::lemma_set_next_round;
use crate::model::lemma_set_no_round;
use crate::model::spec_check;
use crate::model::spec_set;
use crate::sizing::spec_optimal_k;
use vstd::prelude::*;

verus! {

/// The word indices that the first `rounds` rounds log, in order.
pub open spec fn spec_logged(h0: u64, h1: u64, rounds: nat, bit_count: nat) -> Seq<usize> {
    Seq::new(rounds, |i: int| (spec_bit_offset(h0, h1, i as nat, bit_count) / 64) as usize)
}

/// The store after each of the first `rounds` rounds has set its bit.
pub open spec fn spec_set_journaled(store: JournalView, h0: u64, h1: u64, rounds: nat) -> JournalView
    decreases rounds,
{
    if rounds == 0 {
        store
    } else {
        spec_set_journaled(store, h0, h1, (rounds - 1) as nat).set_bit(
            spec_bit_offset(h0, h1, (rounds - 1) as nat, store.bit_count),
        )
    }
}

/// The store after each of the first `rounds` rounds has set its bit where
/// it found it unset, and left the store alone where it found it set.
pub open spec fn spec_check_and_set_journaled(
    store: JournalView,
    h0: u64,
    h1: u64,
    rounds: nat,
) -> JournalView
    decreases rounds,
{
    if rounds == 0 {
        store
    } else {
        let before = spec_check_and_set_journaled(store, h0, h1, (rounds - 1) as nat);
        let offset = spec_bit_offset(h0, h1, (rounds - 1) as nat, store.bit_count);
        if before.bits()[offset] {
            before
        } else {
            before.set_bit(offset)
        }
    }
}

/// Adding an item sets the bits that its rounds select and logs one journal
/// entry per round, whether or not two rounds select the same bit and
/// whatever was set before.
pub proof fn lemma_set_journaled(store: JournalView, h0: u64, h1: u64, rounds: nat)
    requires
        store.wf(),
        store.bit_count > 0,
    ensures
        spec_set_journaled(store, h0, h1, rounds).wf(),
        spec_set_journaled(store, h0, h1, rounds).bit_count == store.bit_count,
        spec_set_journaled(store, h0, h1, rounds).bits() == spec_set(store.bits(), h0, h1, rounds),
        spec_set_journaled(store, h0, h1, rounds).journal == store.journal + spec_logged(
            h0,
            h1,
            rounds,
            store.bit_count,
        ),
        spec_set_journaled(store, h0, h1, rounds).journal.len() == store.journal.len() + rounds,
    decreases rounds,
{
    if rounds == 0 {
        lemma_set_no_round(store.bits(), h0, h1);
        assert(store.journal =~= store.journal + spec_logged(h0, h1, 0, store.bit_count));
    } else {
        let earlier = (rounds - 1) as nat;
        let before = spec_set_journaled(store, h0, h1, earlier);
        let offset = spec_bit_offset(h0, h1, earlier, store.bit_count);
        lemma_set_journaled(store, h0, h1, earlier);
        lemma_set_bit(before, offset);
        lemma_set_next_round(store.bits(), h0, h1, earlier);
        assert(before.set_bit(offset).journal =~= store.journal + spec_logged(
            h0,
            h1,
            rounds,
            store.bit_count,
        ));
    }
}

/// Adding an item while asking for it sets the same bits as adding it, and
/// logs at most one journal entry per round after the entries that were
/// there.
pub proof fn lemma_check_and_set_journaled(store: JournalView, h0: u64, h1: u64, rounds: nat)
    requires
        store.wf(),
        store.bit_count > 0,
    ensures
        spec_check_and_set_journaled(store, h0, h1, rounds).wf(),
        spec_check_and_set_journaled(store, h0, h1, rounds).bit_count == store.bit_count,
        spec_check_and_set_journaled(store, h0, h1, rounds).bits() == spec_set(
            store.bits(),
            h0,
            h1,
            rounds,
        ),
        store.journal.is_prefix_of(spec_check_and_set_journaled(store, h0, h1, rounds).journal),
        spec_check_and_set_journaled(store, h0, h1, rounds).journal.len() <= store.journal.len()
            + rounds,
    decreases rounds,
{
    if rounds == 0 {
        lemma_set_no_round(store.bits(), h0, h1);
    } else {
        let earlier = (rounds - 1) as nat;
        let before = spec_check_and_set_journaled(store, h0, h1, earlier);
        let offset = spec_bit_offset(h0, h1, earlier, store.bit_count);
        lemma_check_and_set_journaled(store, h0, h1, earlier);
        lemma_set_next_round(store.bits(), h0, h1, earlier);
        if before.bits()[offset] {
            assert(before.bits() =~= before.bits().update(offset, true));
        } else {
            lemma_set_bit(before, offset);
        }
    }
}

/// What a journaled filter is: its store, its number of hash rounds and its
/// two hash keys.
pub struct JournaledBloomView {
    pub store: JournalView,
    pub hash_rounds: nat,
    pub seed_a: SipKey,
    pub seed_b: SipKey,
}

impl JournaledBloomView {
    /// The filter without its journal.
    pub open spec fn filter(self) -> BloomView {
        BloomView {
            bits: self.store.bits(),
            hash_rounds: self.hash_rounds,
            seed_a: self.seed_a,
            seed_b: self.seed_b,
        }
    }
}

/// Bloom filter structure whose bit array logs the words it changes
pub struct JournaledBloom {
    store: JournaledStore,
    bitmap_bits: u64,
    k_num: u32,
    sips: [SipKey; 2],
}

impl View for JournaledBloom {
    type V = JournaledBloomView;

    closed spec fn view(&self) -> JournaledBloomView {
        JournaledBloomView {
            store: self.store@,
            hash_rounds: self.k_num as nat,
            seed_a: self.sips[0],
            seed_b: self.sips[1],
        }
    }
}

impl JournaledBloom {
    /// The cached bit count agrees with the store.
    pub closed spec fn consistent(&self) -> bool {
        self.bitmap_bits == self.store@.bit_count
    }

    /// What holds of every journaled filter: its store is well formed, and
    /// it has at least one bit and at least one hash round.
    pub open spec fn wf(&self) -> bool {
        &&& self.consistent()
        &&& self@.store.wf()
        &&& 0 < self@.store.bit_count <= usize::MAX
        &&& 1 <= self@.hash_rounds <= u32::MAX
    }

    /// Create a new journaled bloom filter structure with the given hash keys.
    /// bitmap_size is the size in bytes (not bits) that will be allocated in memory
    /// items_count is an estimation of the maximum number of items to store.
    pub fn new_with_seeds(
        bitmap_size: usize,
        items_count: usize,
        seed_a: SipKey,
        seed_b: SipKey,
    ) -> (bloom: JournaledBloom)
        requires
            bitmap_size > 0,
            items_count > 0,
            bitmap_size * 8 <= usize::MAX,
        ensures
            bloom.wf(),
            bloom@.store.bit_count == bitmap_size * 8,
            bloom@.store.journal == Seq::<usize>::empty(),
            bloom@.store.bits() == Seq::new((bitmap_size * 8) as nat, |i: int| false),
            bloom@.hash_rounds == spec_optimal_k((bitmap_size * 8) as nat, items_count as nat),
            bloom@.seed_a == seed_a,
            bloom@.seed_b == seed_b,
    {
        let bitmap_bits: u64 = (bitmap_size as u64) * 8u64;
        let k_num: u32 = Bloom::optimal_k_num(bitmap_bits, items_count);
        let store = JournaledStore::new(bitmap_size * 8);
        JournaledBloom { store, bitmap_bits, k_num, sips: [seed_a, seed_b] }
    }

    /// Create a new journaled bloom filter structure with freshly drawn hash
    /// keys.
    /// bitmap_size is the size in bytes (not bits) that will be allocated in memory
    /// items_count is an estimation of the maximum number of items to store.
    pub fn new(bitmap_size: usize, items_count: usize) -> (bloom: JournaledBloom)
        requires
            bitmap_size > 0,
            items_count > 0,
            bitmap_size * 8 <= usize::MAX,
        ensures
            bloom.wf(),
            bloom@.store.bit_count == bitmap_size * 8,
            bloom@.store.journal == Seq::<usize>::empty(),
            bloom@.store.bits() == Seq::new((bitmap_size * 8) as nat, |i: int| false),
            bloom@.hash_rounds == spec_optimal_k((bitmap_size * 8) as nat, items_count as nat),
    {
        let seed_a = SipKey::random();
        let seed_b = SipKey::random();
        JournaledBloom::new_with_seeds(bitmap_size, items_count, seed_a, seed_b)
    }

    /// The two hash keys of the filter.
    pub fn seeds(&self) -> (keys: (SipKey, SipKey))
        ensures
            keys == (self@.seed_a, self@.seed_b),
    {
        (self.sips[0], self.sips[1])
    }

    /// The two real hashes of an item under the filter's keys.
    pub fn hashes(&self, item: &[u8]) -> (pair: (u64, u64))
        ensures
            pair == (self@.filter().hash_a(item@), self@.filter().hash_b(item@)),
    {
        (keyed_hash(self.sips[0], item), keyed_hash(self.sips[1], item))
    }

    /// Record the presence of the item with the two real hashes `h0`, `h1`.
    /// Every round logs the word of its bit.
    pub fn set_hashed(&mut self, h0: u64, h1: u64)
        requires
            old(self).wf(),
        ensures
            final(self).wf(),
            final(self)@ == (JournaledBloomView {
                store: spec_set_journaled(old(self)@.store, h0, h1, old(self)@.hash_rounds),
                ..old(self)@
            }),
            final(self)@.store.bits() == spec_set(
                old(self)@.store.bits(),
                h0,
                h1,
                old(self)@.hash_rounds,
            ),
            final(self)@.store.journal == old(self)@.store.journal + spec_logged(
                h0,
                h1,
                old(self)@.hash_rounds,
                old(self)@.store.bit_count,
            ),
    {
        let ghost before = self@.store;
        let mut k_i: u32 = 0;
        while k_i < self.k_num
            invariant
                self.wf(),
                k_i <= self.k_num,
                self.k_num == old(self).k_num,
                self.sips == old(self).sips,
                before == old(self)@.store,
                before.wf(),
                before.bit_count == self@.store.bit_count,
                self@.store == spec_set_journaled(before, h0, h1, k_i as nat),
            decreases self.k_num - k_i,
        {
            let bit_offset: usize = bit_offset(h0, h1, k_i, self.bitmap_bits) as usize;
            self.store.set_bit(bit_offset);
            k_i += 1;
        }
        proof {
            lemma_set_journaled(before, h0, h1, self.k_num as nat);
        }
    }

    /// Record the presence of an item.
    pub fn set(&mut self, item: &[u8])
        requires
            old(self).wf(),
        ensures
            final(self).wf(),
            final(self)@.filter() == old(self)@.filter().insert(item@),
            final(self)@.store == spec_set_journaled(
                old(self)@.store,
                old(self)@.filter().hash_a(item@),
                old(self)@.filter().hash_b(item@),
                old(self)@.hash_rounds,
            ),
            final(self)@.store.journal.len() == old(self)@.store.journal.len() + old(
                self,
            )@.hash_rounds,
    {
        let (h0, h1) = self.hashes(item);
        self.set_hashed(h0, h1);
    }

    /// Check if the item with the two real hashes `h0`, `h1` is present.
    pub fn check_hashed(&self, h0: u64, h1: u64) -> (present: bool)
        requires
            self.wf(),
        ensures
            present == spec_check(self@.store.bits(), h0, h1, self@.hash_rounds),
    {
        let mut k_i: u32 = 0;
        while k_i < self.k_num
            invariant
                self.wf(),
                k_i <= self.k_num,
                spec_check(self@.store.bits(), h0, h1, k_i as nat),
            decreases self.k_num - k_i,
        {
            let bit_offset: usize = bit_offset(h0, h1, k_i, self.bitmap_bits) as usize;
            if self.store.get_bit(bit_offset) == false {
                assert(!self@.store.bits()[spec_bit_offset(
                    h0,
                    h1,
                    k_i as nat,
                    self@.store.bits().len(),
                )]);
                return false;
            }
            proof {
                lemma_check_next_round(self@.store.bits(), h0, h1, k_i as nat);
            }
            k_i += 1;
        }
        true
    }

    /// Check if an item is present in the set.
    /// There can be false positives, but no false negatives.
    pub fn check(&self, item: &[u8]) -> (present: bool)
        requires
            self.wf(),
        ensures
            present == self@.filter().contains(item@),
    {
        let (h0, h1) = self.hashes(item);
        self.check_hashed(h0, h1)
    }

    /// Record the presence of the item with the two real hashes `h0`, `h1`,
    /// and return whether it was present before. Only the rounds that find
    /// their bit unset log its word.
    pub fn check_and_set_hashed(&mut self, h0: u64, h1: u64) -> (found: bool)
        requires
            old(self).wf(),
        ensures
            final(self).wf(),
            found == spec_check(old(self)@.store.bits(), h0, h1, old(self)@.hash_rounds),
            final(self)@ == (JournaledBloomView {
                store: spec_check_and_set_journaled(
                    old(self)@.store,
                    h0,
                    h1,
                    old(self)@.hash_rounds,
                ),
                ..old(self)@
            }),
            final(self)@.store.bits() == spec_set(
                old(self)@.store.bits(),
                h0,
                h1,
                old(self)@.hash_rounds,
            ),
    {
        let ghost before = self@.store;
        let mut found = true;
        let mut k_i: u32 = 0;
        while k_i < self.k_num
            invariant
                self.wf(),
                k_i <= self.k_num,
                self.k_num == old(self).k_num,
                self.sips == old(self).sips,
                before == old(self)@.store,
                before.wf(),
                before.bit_count == self@.store.bit_count,
                self@.store == spec_check_and_set_journaled(before, h0, h1, k_i as nat),
                found == spec_check(before.bits(), h0, h1, k_i as nat),
            decreases self.k_num - k_i,
        {
            let bit_offset: usize = bit_offset(h0, h1, k_i, self.bitmap_bits) as usize;
            proof {
                lemma_check_and_set_journaled(before, h0, h1, k_i as nat);
                lemma_check_next_round(before.bits(), h0, h1, k_i as nat);
            }
            if self.store.get_bit(bit_offset) == false {
                found = false;
                self.store.set_bit(bit_offset);
            } else {
                proof {
                    if !before.bits()[bit_offset as int] {
                        lemma_selected_unset_fails_check(
                            before.bits(),
                            h0,
                            h1,
                            k_i as nat,
                            bit_offset as int,
                        );
                    }
                }
            }
            k_i += 1;
        }
        proof {
            lemma_check_and_set_journaled(before, h0, h1, self.k_num as nat);
        }
        found
    }

    /// Record the presence of an item in the set,
    /// and return the previous state of this item.
    pub fn check_and_set(&mut self, item: &[u8]) -> (found: bool)
        requires
            old(self).wf(),
        ensures
            final(self).wf(),
            found == old(self)@.filter().contains(item@),
            final(self)@.filter() == old(self)@.filter().insert(item@),
            final(self)@.store == spec_check_and_set_journaled(
                old(self)@.store,
                old(self)@.filter().hash_a(item@),
                old(self)@.filter().hash_b(item@),
                old(self)@.hash_rounds,
            ),
    {
        let (h0, h1) = self.hashes(item);
        self.check_and_set_hashed(h0, h1)
    }

    /// Empties the journal and returns, for every entry in the order of
    /// logging, the word's index with the word's present value. The bits of
    /// the filter stay as they are.
    pub fn drain_journal(&mut self) -> (changes: Vec<(usize, u64)>)
        requires
            old(self).wf(),
        ensures
            final(self).wf(),
            changes@ == old(self)@.store.drained(),
            final(self)@ == (JournaledBloomView {
                store: JournalView { journal: Seq::<usize>::empty(), ..old(self)@.store },
                ..old(self)@
            }),
    {
        self.store.drain()
    }

    /// Return the number of bits in the filter
    pub fn number_of_bits(&self) -> (bits: u64)
        requires
            self.wf(),
        ensures
            bits == self@.store.bit_count,
    {
        self.bitmap_bits
    }

    /// Return the number of hash functions used for `check` and `set`
    pub fn number_of_hash_functions(&self) -> (k_num: u32)
        ensures
            k_num == self@.hash_rounds,
    {
        self.k_num
    }
}

} // verus!
