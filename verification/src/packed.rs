//! The byte-serializable bit store: a `bit_vec::BitVec` behind contracts.

use crate::packing::bits_of_bytes;
use crate::packing::bytes_of_bits;
use crate::packing::lemma_pack_padded;
use crate::packing::lemma_pack_unpack;
use crate::packing::pad_to_bytes;
use crate::packing::zero_bits;
use bit_vec::BitVec;
use vstd::prelude::*;

verus! {

/// `bit_vec::BitVec`, carried as an opaque value.
#[verifier::external_type_specification]
#[verifier::external_body]
#[verifier::reject_recursive_types(B)]
pub struct ExBitVec<B>(BitVec<B>);

/// The bits that a `BitVec` holds, first bit first.
pub uninterp spec fn bitvec_bits(v: BitVec<u32>) -> Seq<bool>;

/// `BitVec::from_elem`: a vector of `len` bits, each equal to `bit`.
#[verifier::external_body]
fn bitvec_from_elem(len: usize, bit: bool) -> (v: BitVec<u32>)
    ensures
        bitvec_bits(v) == Seq::new(len as nat, |i: int| bit),
{
    BitVec::from_elem(len, bit)
}

/// `BitVec::len`: the number of bits held.
#[verifier::external_body]
fn bitvec_len(v: &BitVec<u32>) -> (n: usize)
    ensures
        n == bitvec_bits(*v).len(),
{
    v.len()
}

/// `BitVec::get`: the bit at `i`, or `None` past the end.
#[verifier::external_body]
fn bitvec_get(v: &BitVec<u32>, i: usize) -> (r: Option<bool>)
    ensures
        r == if i < bitvec_bits(*v).len() { Some(bitvec_bits(*v)[i as int]) } else { None },
{
    v.get(i)
}

/// `BitVec::set`: writes `x` at `i` and leaves every other bit as it was.
/// The call panics past the end, which the precondition rules out.
#[verifier::external_body]
fn bitvec_set(v: &mut BitVec<u32>, i: usize, x: bool)
    requires
        i < bitvec_bits(*old(v)).len(),
    ensures
        bitvec_bits(*final(v)) == bitvec_bits(*old(v)).update(i as int, x),
{
    v.set(i, x)
}

/// `BitVec::from_bytes`: each byte becomes eight bits, the most significant
/// first. The call panics when eight times the length overflows `usize`,
/// which the precondition rules out.
#[verifier::external_body]
fn bitvec_from_bytes(bytes: &[u8]) -> (v: BitVec<u32>)
    requires
        bytes@.len() * 8 <= usize::MAX,
    ensures
        bitvec_bits(v) == bits_of_bytes(bytes@),
{
    BitVec::from_bytes(bytes)
}

/// `BitVec::to_bytes`: the bits packed eight to a byte, the first bit in the
/// high-order position of the first byte, the last byte filled up with
/// unset bits.
#[verifier::external_body]
fn bitvec_to_bytes(v: &BitVec<u32>) -> (bytes: Vec<u8>)
    ensures
        bits_of_bytes(bytes@) == pad_to_bytes(bitvec_bits(*v)),
{
    v.to_bytes()
}

/// `BitVec::fill`: every bit becomes `bit`; the length stays.
#[verifier::external_body]
fn bitvec_fill(v: &mut BitVec<u32>, bit: bool)
    ensures
        bitvec_bits(*final(v)) == Seq::new(bitvec_bits(*old(v)).len(), |i: int| bit),
{
    v.fill(bit)
}

/// A fixed-length array of bits that can be written out as bytes and read
/// back. Its view is the sequence of its bits.
pub struct PackedStore {
    bits: BitVec<u32>,
}

impl View for PackedStore {
    type V = Seq<bool>;

    closed spec fn view(&self) -> Seq<bool> {
        bitvec_bits(self.bits)
    }
}

impl PackedStore {
    /// A store of `len` bits, all unset.
    pub fn new(len: usize) -> (s: PackedStore)
        ensures
            s@ == zero_bits(len as nat),
    {
        PackedStore { bits: bitvec_from_elem(len, false) }
    }

    /// The store whose bits are those of `bytes`, most significant bit of
    /// each byte first.
    pub fn from_byte_array(bytes: &[u8]) -> (s: PackedStore)
        requires
            bytes@.len() * 8 <= usize::MAX,
        ensures
            s@ == bits_of_bytes(bytes@),
    {
        PackedStore { bits: bitvec_from_bytes(bytes) }
    }

    /// The bits packed into bytes, most significant bit first; a last
    /// partial byte is filled up with unset bits.
    pub fn to_byte_array(&self) -> (bytes: Vec<u8>)
        ensures
            bytes@ == bytes_of_bits(self@),
    {
        let bytes = bitvec_to_bytes(&self.bits);
        proof {
            lemma_pack_unpack(bytes@);
            lemma_pack_padded(self@);
        }
        bytes
    }

    /// Unsets every bit.
    pub fn clear_all(&mut self)
        ensures
            final(self)@ == zero_bits(old(self)@.len()),
    {
        bitvec_fill(&mut self.bits, false);
    }

    /// The number of bits in the store.
    pub fn capacity_in_bits(&self) -> (n: usize)
        ensures
            n == self@.len(),
    {
        bitvec_len(&self.bits)
    }

    /// Whether the bit at `index` is set.
    pub fn get_bit(&self, index: usize) -> (b: bool)
        requires
            index < self@.len(),
        ensures
            b == self@[index as int],
    {
        match bitvec_get(&self.bits, index) {
            Some(b) => b,
            None => false,
        }
    }

    /// Sets the bit at `index`; every other bit stays as it was.
    pub fn set_bit(&mut self, index: usize)
        requires
            index < old(self)@.len(),
        ensures
            final(self)@ == old(self)@.update(index as int, true),
    {
        bitvec_set(&mut self.bits, index, true);
    }
}

} // verus!
