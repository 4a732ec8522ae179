//! What membership and insertion mean on a bit sequence, for a pair of hash
//! values and a number of rounds.

use crate::hashing::spec_bit_offset;
use vstd::prelude::*;

verus! {

/// Whether one of the first `rounds` rounds selects position `j` in an array
/// of `bit_count` bits.
pub open spec fn spec_selects(h0: u64, h1: u64, rounds: nat, bit_count: nat, j: int) -> bool {
    exists|i: nat| i < rounds && #[trigger] spec_bit_offset(h0, h1, i, bit_count) == j
}

/// Whether every position that the first `rounds` rounds select is set.
pub open spec fn spec_check(bits: Seq<bool>, h0: u64, h1: u64, rounds: nat) -> bool {
    forall|i: nat| i < rounds ==> bits[#[trigger] spec_bit_offset(h0, h1, i, bits.len())]
}

/// The bits after setting every position that the first `rounds` rounds
/// select.
pub open spec fn spec_set(bits: Seq<bool>, h0: u64, h1: u64, rounds: nat) -> Seq<bool> {
    Seq::new(bits.len(), |j: int| bits[j] || spec_selects(h0, h1, rounds, bits.len(), j))
}

/// No round at all leaves the bits as they are.
pub proof fn lemma_set_no_round(bits: Seq<bool>, h0: u64, h1: u64)
    ensures
        spec_set(bits, h0, h1, 0) == bits,
{
    assert(spec_set(bits, h0, h1, 0) =~= bits);
}

/// One more round sets one more position.
pub proof fn lemma_set_next_round(bits: Seq<bool>, h0: u64, h1: u64, rounds: nat)
    requires
        bits.len() > 0,
    ensures
        spec_set(bits, h0, h1, rounds + 1) == spec_set(bits, h0, h1, rounds).update(
            spec_bit_offset(h0, h1, rounds, bits.len()),
            true,
        ),
{
    let n = bits.len();
    let target = spec_bit_offset(h0, h1, rounds, n);
    let before = spec_set(bits, h0, h1, rounds);
    let after = spec_set(bits, h0, h1, rounds + 1);
    assert forall|j: int| 0 <= j < n implies after[j] == before.update(target, true)[j] by {
        if j == target {
            assert(spec_selects(h0, h1, rounds + 1, n, j));
        } else if spec_selects(h0, h1, rounds + 1, n, j) {
            let i = choose|i: nat| i < rounds + 1 && #[trigger] spec_bit_offset(h0, h1, i, n) == j;
            assert(i < rounds);
            assert(spec_selects(h0, h1, rounds, n, j));
        } else if spec_selects(h0, h1, rounds, n, j) {
            let i = choose|i: nat| i < rounds && #[trigger] spec_bit_offset(h0, h1, i, n) == j;
            assert(i < rounds + 1);
        }
    }
    assert(after =~= before.update(target, true));
}

/// Checking one more round asks for one more position.
pub proof fn lemma_check_next_round(bits: Seq<bool>, h0: u64, h1: u64, rounds: nat)
    ensures
        spec_check(bits, h0, h1, rounds + 1) == (spec_check(bits, h0, h1, rounds)
            && bits[spec_bit_offset(h0, h1, rounds, bits.len())]),
{
    if spec_check(bits, h0, h1, rounds) && bits[spec_bit_offset(h0, h1, rounds, bits.len())] {
        assert forall|i: nat| i < rounds + 1 implies bits[#[trigger] spec_bit_offset(
            h0,
            h1,
            i,
            bits.len(),
        )] by {
            if i < rounds {
            }
        }
    }
    if spec_check(bits, h0, h1, rounds + 1) {
        assert(bits[spec_bit_offset(h0, h1, rounds, bits.len())]);
        assert forall|i: nat| i < rounds implies bits[#[trigger] spec_bit_offset(
            h0,
            h1,
            i,
            bits.len(),
        )] by {
            assert(i < rounds + 1);
        }
    }
}

/// A position that an earlier round selected and that is unset makes the
/// check of those rounds fail.
pub proof fn lemma_selected_unset_fails_check(
    bits: Seq<bool>,
    h0: u64,
    h1: u64,
    rounds: nat,
    j: int,
)
    requires
        spec_selects(h0, h1, rounds, bits.len(), j),
        !bits[j],
    ensures
        !spec_check(bits, h0, h1, rounds),
{
    let i = choose|i: nat| i < rounds && #[trigger] spec_bit_offset(h0, h1, i, bits.len()) == j;
    assert(!bits[spec_bit_offset(h0, h1, i, bits.len())]);
}

} // verus!
