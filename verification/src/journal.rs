//! The journaled bit store: 64-bit words with a log of the words that were
//! touched, so that a mirror can be kept up to date word by word.

use vstd::prelude::*;

verus! {

/// Whether bit `b` of a word is set, counted from the least significant bit.
pub open spec fn word_bit(word: u64, b: int) -> bool {
    word & (1u64 << (b as u64)) != 0
}

/// What a journaled store is: its words, the word indices logged since the
/// last drain, and the number of bits it offers.
pub struct JournalView {
    pub words: Seq<u64>,
    pub journal: Seq<usize>,
    pub bit_count: nat,
}

impl JournalView {
    /// The store has one word for every 64 bits, the last one partly used,
    /// and the journal names words of the store.
    pub open spec fn wf(self) -> bool {
        &&& self.words.len() == (self.bit_count + 63) / 64
        &&& forall|i: int| 0 <= i < self.journal.len() ==> self.journal[i] < self.words.len()
    }

    /// The bits of the store, bit `i` being bit `i % 64` of word `i / 64`.
    pub open spec fn bits(self) -> Seq<bool> {
        Seq::new(self.bit_count, |i: int| word_bit(self.words[i / 64], i % 64))
    }

    /// The store after the bit at `index` has been set: the bit is merged into
    /// its word and the word's index is appended to the journal.
    pub open spec fn set_bit(self, index: int) -> JournalView {
        JournalView {
            words: self.words.update(
                index / 64,
                self.words[index / 64] | (1u64 << ((index % 64) as u64)),
            ),
            journal: self.journal.push((index / 64) as usize),
            ..self
        }
    }

    /// What a drain hands out: for every journal entry, in order, the word's
    /// index with the word's present value.
    pub open spec fn drained(self) -> Seq<(usize, u64)> {
        Seq::new(self.journal.len(), |i: int| (self.journal[i], self.words[self.journal[i] as int]))
    }
}

/// Setting a bit of a word sets that bit and no other.
pub proof fn lemma_word_bit_set(word: u64, b: u64, c: u64)
    requires
        b < 64,
        c < 64,
    ensures
        word_bit(word | (1u64 << b), c as int) == (word_bit(word, c as int) || c == b),
{
    assert(((word | (1u64 << b)) & (1u64 << c) != 0) == ((word & (1u64 << c) != 0) || c == b))
        by (bit_vector)
        requires
            b < 64,
            c < 64,
    ;
}

/// No bit of the zero word is set.
pub proof fn lemma_word_bit_zero(c: u64)
    requires
        c < 64,
    ensures
        !word_bit(0, c as int),
{
    assert(0u64 & (1u64 << c) == 0) by (bit_vector);
}

/// Setting a bit of the store sets that bit in the bit sequence, leaves every
/// other bit as it was, and lengthens the journal by one entry.
pub proof fn lemma_set_bit(store: JournalView, index: int)
    requires
        store.wf(),
        0 <= index < store.bit_count,
    ensures
        store.set_bit(index).wf(),
        store.set_bit(index).bits() == store.bits().update(index, true),
        store.set_bit(index).journal.len() == store.journal.len() + 1,
{
    let after = store.set_bit(index);
    assert forall|i: int| 0 <= i < store.bit_count implies after.bits()[i] == store.bits().update(
        index,
        true,
    )[i] by {
        if i / 64 == index / 64 {
            lemma_word_bit_set(store.words[index / 64], (index % 64) as u64, (i % 64) as u64);
        }
    }
    assert(after.bits() =~= store.bits().update(index, true));
}

/// A fixed-length array of bits kept in 64-bit words, with a journal of the
/// words touched since the last drain. The journal is not deduplicated and
/// grows until it is drained.
pub struct JournaledStore {
    words: Vec<u64>,
    dirty: Vec<usize>,
    bit_count: usize,
}

impl View for JournaledStore {
    type V = JournalView;

    closed spec fn view(&self) -> JournalView {
        JournalView { words: self.words@, journal: self.dirty@, bit_count: self.bit_count as nat }
    }
}

impl JournaledStore {
    /// A store of `bit_count` bits, all unset, with an empty journal.
    pub fn new(bit_count: usize) -> (store: JournaledStore)
        ensures
            store@.wf(),
            store@.bit_count == bit_count,
            store@.journal == Seq::<usize>::empty(),
            store@.words == Seq::new(((bit_count + 63) / 64) as nat, |i: int| 0u64),
            store@.bits() == Seq::new(bit_count as nat, |i: int| false),
    {
        let word_count: usize = if bit_count % 64 == 0 {
            bit_count / 64
        } else {
            bit_count / 64 + 1
        };
        let words: Vec<u64> = vec![0u64; word_count];
        let store = JournaledStore { words, dirty: Vec::new(), bit_count };
        proof {
            assert(store@.words =~= Seq::new(((bit_count + 63) / 64) as nat, |i: int| 0u64));
            assert forall|i: int| 0 <= i < bit_count implies !store@.bits()[i] by {
                lemma_word_bit_zero((i % 64) as u64);
            }
            assert(store@.bits() =~= Seq::new(bit_count as nat, |i: int| false));
        }
        store
    }

    /// The number of bits in the store.
    pub fn capacity_in_bits(&self) -> (n: usize)
        ensures
            n == self@.bit_count,
    {
        self.bit_count
    }

    /// Whether the bit at `index` is set. The journal is not touched.
    pub fn get_bit(&self, index: usize) -> (b: bool)
        requires
            self@.wf(),
            index < self@.bit_count,
        ensures
            b == self@.bits()[index as int],
    {
        let word_index: usize = index / 64;
        let bit_index: usize = index % 64;
        let mask: u64 = 1u64 << (bit_index as u64);
        self.words[word_index] & mask != 0
    }

    /// Sets the bit at `index` and logs its word in the journal, whether or
    /// not the bit was set before.
    pub fn set_bit(&mut self, index: usize)
        requires
            old(self)@.wf(),
            index < old(self)@.bit_count,
        ensures
            final(self)@ == old(self)@.set_bit(index as int),
            final(self)@.wf(),
            final(self)@.bits() == old(self)@.bits().update(index as int, true),
    {
        let word_index: usize = index / 64;
        let bit_index: usize = index % 64;
        let mask: u64 = 1u64 << (bit_index as u64);
        let merged: u64 = self.words[word_index] | mask;
        self.words.set(word_index, merged);
        self.dirty.push(word_index);
        proof {
            lemma_set_bit(old(self)@, index as int);
        }
    }

    /// Empties the journal and returns, for every entry in the order of
    /// logging, the word's index with the word's present value. A word logged
    /// twice is reported twice, with the same value.
    pub fn drain(&mut self) -> (changes: Vec<(usize, u64)>)
        requires
            old(self)@.wf(),
        ensures
            changes@ == old(self)@.drained(),
            final(self)@ == (JournalView { journal: Seq::<usize>::empty(), ..old(self)@ }),
            final(self)@.wf(),
    {
        let mut changes: Vec<(usize, u64)> = Vec::new();
        let mut i: usize = 0;
        while i < self.dirty.len()
            invariant
                self@ == old(self)@,
                self@.wf(),
                i <= self.dirty.len(),
                changes@ == old(self)@.drained().subrange(0, i as int),
            decreases self.dirty.len() - i,
        {
            let word_index: usize = self.dirty[i];
            changes.push((word_index, self.words[word_index]));
            i += 1;
            proof {
                assert(changes@ =~= old(self)@.drained().subrange(0, i as int));
            }
        }
        self.dirty = Vec::new();
        proof {
            assert(changes@ =~= old(self)@.drained());
        }
        changes
    }
}

} // verus!
