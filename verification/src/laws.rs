//! What holds of every filter, whatever its bits, keys and items.

use crate::filter::BloomView;
use crate::hashing::spec_bit_offset;
use crate::hashing::SipKey;
use crate::model::spec_check;
use crate::model::spec_selects;
use crate::model::spec_set;
use crate::packing::lemma_pad_whole_bytes;
use crate::packing::lemma_unpack_pack;
use crate::packing::zero_bits;
use vstd::prelude::*;

verus! {

/// An item that has been added is answered as present.
pub proof fn lemma_added_is_member(filter: BloomView, item: Seq<u8>)
    requires
        filter.wf(),
    ensures
        filter.insert(item).contains(item),
{
    let h0 = filter.hash_a(item);
    let h1 = filter.hash_b(item);
    let n = filter.bits.len();
    let after = filter.insert(item).bits;
    assert forall|i: nat| i < filter.hash_rounds implies after[#[trigger] spec_bit_offset(
        h0,
        h1,
        i,
        n,
    )] by {
        assert(spec_selects(h0, h1, filter.hash_rounds, n, spec_bit_offset(h0, h1, i, n)));
    }
}

/// Adding an item takes no other item away: what was answered as present
/// before is answered as present after.
pub proof fn lemma_adding_keeps_members(filter: BloomView, member: Seq<u8>, item: Seq<u8>)
    requires
        filter.wf(),
        filter.contains(member),
    ensures
        filter.insert(item).contains(member),
{
    let h0 = filter.hash_a(member);
    let h1 = filter.hash_b(member);
    let n = filter.bits.len();
    let after = filter.insert(item).bits;
    assert forall|i: nat| i < filter.hash_rounds implies after[#[trigger] spec_bit_offset(
        h0,
        h1,
        i,
        n,
    )] by {
        assert(filter.bits[spec_bit_offset(h0, h1, i, n)]);
    }
}

/// Adding items changes neither the size of the filter nor its rounds nor
/// its keys.
pub proof fn lemma_adding_keeps_shape(filter: BloomView, items: Seq<Seq<u8>>)
    ensures
        filter.insert_all(items).bits.len() == filter.bits.len(),
        filter.insert_all(items).hash_rounds == filter.hash_rounds,
        filter.insert_all(items).seed_a == filter.seed_a,
        filter.insert_all(items).seed_b == filter.seed_b,
    decreases items.len(),
{
    if items.len() > 0 {
        lemma_adding_keeps_shape(filter, items.drop_last());
    }
}

/// No false negatives: an item that has been added is answered as present,
/// whatever was added after it, as long as the filter is not cleared.
pub proof fn lemma_no_false_negatives(filter: BloomView, item: Seq<u8>, later: Seq<Seq<u8>>)
    requires
        filter.wf(),
    ensures
        filter.insert(item).insert_all(later).contains(item),
    decreases later.len(),
{
    if later.len() == 0 {
        lemma_added_is_member(filter, item);
    } else {
        lemma_no_false_negatives(filter, item, later.drop_last());
        lemma_adding_keeps_shape(filter.insert(item), later.drop_last());
        lemma_adding_keeps_members(
            filter.insert(item).insert_all(later.drop_last()),
            item,
            later.last(),
        );
    }
}

/// A filter with no bit set answers every item as absent.
pub proof fn lemma_empty_filter_has_no_member(filter: BloomView, item: Seq<u8>)
    requires
        filter.wf(),
        filter.bits == zero_bits(filter.bits.len()),
    ensures
        !filter.contains(item),
{
    let offset = spec_bit_offset(
        filter.hash_a(item),
        filter.hash_b(item),
        0,
        filter.bits.len(),
    );
    assert(!filter.bits[offset]);
}

/// Adding an item a second time changes nothing.
pub proof fn lemma_adding_twice(filter: BloomView, item: Seq<u8>)
    requires
        filter.wf(),
    ensures
        filter.insert(item).insert(item) == filter.insert(item),
{
    assert(filter.insert(item).insert(item).bits =~= filter.insert(item).bits);
}

/// Asking and adding in one step: on a filter with no bit set the first
/// answer for an item is "absent", the answer right after it for the same
/// item is "present", and the second step changes nothing.
pub proof fn lemma_check_and_set_twice(filter: BloomView, item: Seq<u8>)
    requires
        filter.wf(),
        filter.bits == zero_bits(filter.bits.len()),
    ensures
        !filter.contains(item),
        filter.insert(item).contains(item),
        filter.insert(item).insert(item) == filter.insert(item),
{
    lemma_empty_filter_has_no_member(filter, item);
    lemma_added_is_member(filter, item);
    lemma_adding_twice(filter, item);
}

/// Clearing resets membership: after a clear every item is answered as
/// absent, also one that was added before.
pub proof fn lemma_clear_resets_membership(filter: BloomView, item: Seq<u8>)
    requires
        filter.wf(),
    ensures
        !filter.cleared().contains(item),
        !filter.insert(item).cleared().contains(item),
{
    lemma_empty_filter_has_no_member(filter.cleared(), item);
    lemma_empty_filter_has_no_member(filter.insert(item).cleared(), item);
}

/// Serialization round trip: a filter rebuilt from its serialized form has
/// the bits and the number of rounds of the filter that was serialized, so
/// the two give the same answer for every pair of hash values. Rebuilt with
/// the same keys it is the same filter, and gives the same answer for every
/// item. Rebuilt with other keys it may answer otherwise for an item: the
/// keys are not part of the serialized form.
pub proof fn lemma_serialization_round_trip(filter: BloomView, seed_a: SipKey, seed_b: SipKey)
    requires
        filter.bits.len() % 8 == 0,
    ensures
        filter.rebuilt(seed_a, seed_b).bits == filter.bits,
        filter.rebuilt(seed_a, seed_b).hash_rounds == filter.hash_rounds,
        forall|h0: u64, h1: u64|
            spec_check(filter.rebuilt(seed_a, seed_b).bits, h0, h1, filter.hash_rounds)
                == spec_check(filter.bits, h0, h1, filter.hash_rounds),
        filter.rebuilt(filter.seed_a, filter.seed_b) == filter,
        forall|item: Seq<u8>|
            filter.rebuilt(filter.seed_a, filter.seed_b).contains(item) == filter.contains(item),
{
    lemma_unpack_pack(filter.bits);
    lemma_pad_whole_bytes(filter.bits);
}

} // verus!
