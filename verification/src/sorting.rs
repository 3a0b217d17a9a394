//! The two sorting workloads: bubble sort on unit draws and quicksort, with
//! Lomuto's partition, on integers.

use vstd::prelude::*;
use vstd::relations::{sorted_by, total_ordering};
use vstd::seq_lib::{lemma_multiset_commutative, lemma_sorted_unique, to_multiset_update};
use crate::generator::{lcg_state, LCG};

verus! {

/// Number of values that the bubble sort workload sorts.
pub const BUBBLE_SORT_LEN: usize = 1000;

/// Seed of the bubble sort workload's generator.
pub const BUBBLE_SORT_SEED: u32 = 999;

/// Number of values that the quicksort workload sorts.
pub const QUICKSORT_LEN: i32 = 10000;

/// Mask that the quicksort workload scrambles its input with.
pub const QUICKSORT_MASK: i32 = 0x3F;

/// `<[T]>::swap` of std: the elements at `a` and `b` change places. std
/// panics when an index is out of bounds.
pub assume_specification<T>[ <[T]>::swap ](slice: &mut [T], a: usize, b: usize)
    requires
        a < old(slice)@.len(),
        b < old(slice)@.len(),
    ensures
        final(slice)@ == old(slice)@.update(a as int, old(slice)@[b as int]).update(
            b as int,
            old(slice)@[a as int],
        ),
;

/// The values from `low` up to `high`, `high` excluded, do not decrease.
pub open spec fn sorted_range<E>(values: Seq<E>, low: int, high: int, leq: spec_fn(E, E) -> bool) -> bool {
    forall|a: int, b: int| low <= a <= b < high ==> #[trigger] leq(values[a], values[b])
}

/// `after` holds what `before` holds everywhere but from `low` up to `high`,
/// `high` excluded.
pub open spec fn unchanged_outside<E>(before: Seq<E>, after: Seq<E>, low: int, high: int) -> bool {
    &&& after.len() == before.len()
    &&& forall|k: int| 0 <= k < before.len() && !(low <= k < high) ==> after[k] == before[k]
}

/// From `low` up to `high`, `high` excluded, `after` holds the values of
/// `before`, each as often, in some order.
pub open spec fn same_elements<E>(before: Seq<E>, after: Seq<E>, low: int, high: int) -> bool {
    before.subrange(low, high).to_multiset() == after.subrange(low, high).to_multiset()
}

/// The order of `u32`.
pub open spec fn leq_u32() -> spec_fn(u32, u32) -> bool {
    |a: u32, b: u32| a <= b
}

/// The order of `i32`.
pub open spec fn leq_i32() -> spec_fn(i32, i32) -> bool {
    |a: i32, b: i32| a <= b
}

/// Bubble sort has one result: two ascending sequences of the same elements
/// are equal.
pub proof fn lemma_ascending_u32_unique(first: Seq<u32>, second: Seq<u32>)
    requires
        sorted_range(first, 0, first.len() as int, leq_u32()),
        sorted_range(second, 0, second.len() as int, leq_u32()),
        first.to_multiset() == second.to_multiset(),
    ensures
        first == second,
{
    assert(total_ordering(leq_u32()));
    assert(sorted_by(first, leq_u32()));
    assert(sorted_by(second, leq_u32()));
    lemma_sorted_unique(first, second, leq_u32());
}

/// Quicksort has one result: two ascending sequences of the same elements
/// are equal.
pub proof fn lemma_ascending_i32_unique(first: Seq<i32>, second: Seq<i32>)
    requires
        sorted_range(first, 0, first.len() as int, leq_i32()),
        sorted_range(second, 0, second.len() as int, leq_i32()),
        first.to_multiset() == second.to_multiset(),
    ensures
        first == second,
{
    assert(total_ordering(leq_i32()));
    assert(sorted_by(first, leq_i32()));
    assert(sorted_by(second, leq_i32()));
    lemma_sorted_unique(first, second, leq_i32());
}

/// Swapping two places of a range keeps its elements.
proof fn lemma_swap_same_elements<E>(values: Seq<E>, a: int, b: int, low: int, high: int)
    requires
        0 <= low <= a < high <= values.len(),
        low <= b < high,
    ensures
        same_elements(values, values.update(a, values[b]).update(b, values[a]), low, high),
{
    broadcast use {to_multiset_update, vstd::multiset::group_multiset_axioms};

    let range = values.subrange(low, high);
    range.to_multiset_ensures();
    assert(range.contains(range[a - low]));
    assert(range.contains(range[b - low]));
    let swapped = values.update(a, values[b]).update(b, values[a]);
    assert(swapped.subrange(low, high) =~= range.update(a - low, range[b - low]).update(
        b - low,
        range[a - low],
    ));
    let first = range.update(a - low, range[b - low]);
    assert(first.to_multiset() == range.to_multiset().insert(range[b - low]).remove(range[a - low]));
    assert(first.update(b - low, range[a - low]).to_multiset() == first.to_multiset().insert(
        range[a - low],
    ).remove(first[b - low]));
    assert(first.update(b - low, range[a - low]).to_multiset() =~= range.to_multiset());
}

/// Elements kept inside a part of a range, and nothing changed in the rest
/// of it, are elements kept in the whole range.
proof fn lemma_same_elements_widen<E>(
    before: Seq<E>,
    after: Seq<E>,
    low: int,
    high: int,
    wide_low: int,
    wide_high: int,
)
    requires
        0 <= wide_low <= low <= high <= wide_high <= before.len(),
        unchanged_outside(before, after, low, high),
        same_elements(before, after, low, high),
    ensures
        same_elements(before, after, wide_low, wide_high),
{
    let b_left = before.subrange(wide_low, low);
    let b_mid = before.subrange(low, high);
    let b_right = before.subrange(high, wide_high);
    let a_left = after.subrange(wide_low, low);
    let a_mid = after.subrange(low, high);
    let a_right = after.subrange(high, wide_high);
    assert(a_left =~= b_left);
    assert(a_right =~= b_right);
    assert(before.subrange(wide_low, wide_high) =~= b_left + b_mid + b_right);
    assert(after.subrange(wide_low, wide_high) =~= a_left + a_mid + a_right);
    lemma_multiset_commutative(b_left, b_mid);
    lemma_multiset_commutative(b_left + b_mid, b_right);
    lemma_multiset_commutative(a_left, a_mid);
    lemma_multiset_commutative(a_left + a_mid, a_right);
}

/// What holds of every element of a range holds of every element of a
/// range with the same elements.
proof fn lemma_same_elements_carry<E>(
    before: Seq<E>,
    after: Seq<E>,
    low: int,
    high: int,
    holds: spec_fn(E) -> bool,
)
    requires
        0 <= low <= high <= before.len(),
        after.len() == before.len(),
        same_elements(before, after, low, high),
        forall|k: int| low <= k < high ==> #[trigger] holds(before[k]),
    ensures
        forall|k: int| low <= k < high ==> #[trigger] holds(after[k]),
{
    let b_range = before.subrange(low, high);
    let a_range = after.subrange(low, high);
    assert forall|k: int| low <= k < high implies #[trigger] holds(after[k]) by {
        let value = after[k];
        assert(a_range[k - low] == value);
        assert(a_range.contains(value));
        a_range.to_multiset_ensures();
        b_range.to_multiset_ensures();
        assert(a_range.to_multiset().count(value) > 0);
        assert(b_range.to_multiset().count(value) > 0);
        assert(b_range.contains(value));
        let at = choose|at: int| 0 <= at < b_range.len() && b_range[at] == value;
        assert(before[at + low] == value);
    }
}

/// Twice the number of comparisons after `passes` passes of bubble sort
/// over `size` values.
proof fn lemma_comparisons_step(size: int, passes: int, count: int)
    by (nonlinear_arith)
    requires
        2 * count == passes * (2 * size - 1 - passes),
    ensures
        2 * (count + (size - 1 - passes)) == (passes + 1) * (2 * size - 1 - (passes + 1)),
        passes == 0 ==> count == 0,
        passes == size - 1 ==> 2 * count == size * (size - 1),
{
}

/// Sorts `arr` by adjacent swaps, each pass carrying the largest value left
/// to its place.
///
/// Returns the number of comparisons made: `n * (n - 1) / 2` for `n` values,
/// whatever they are.
pub fn bubble_sort(arr: &mut Vec<u32>) -> (comparisons: Ghost<nat>)
    ensures
        final(arr)@.len() == old(arr)@.len(),
        sorted_range(final(arr)@, 0, final(arr)@.len() as int, leq_u32()),
        final(arr)@.to_multiset() == old(arr)@.to_multiset(),
        2 * comparisons@ == old(arr)@.len() * (old(arr)@.len() - 1),
{
    let size: usize = arr.len();
    let ghost mut count: nat = 0;
    if size == 0 {
        return Ghost(count);
    }
    proof {
        lemma_comparisons_step(size as int, 0, 0);
        assert(arr@.subrange(0, size as int) =~= arr@);
    }
    for i in 0..(size - 1)
        invariant
            size > 0,
            arr@.len() == size,
            same_elements(old(arr)@, arr@, 0, size as int),
            sorted_range(arr@, size - i, size as int, leq_u32()),
            forall|a: int, b: int| 0 <= a < size - i <= b < size ==> arr@[a] <= arr@[b],
            2 * count == i * (2 * size - 1 - i),
    {
        let ghost count_before = count;
        for j in 0..(size - i - 1)
            invariant
                0 <= i < size - 1,
                arr@.len() == size,
                same_elements(old(arr)@, arr@, 0, size as int),
                sorted_range(arr@, size - i, size as int, leq_u32()),
                forall|a: int, b: int| 0 <= a < size - i <= b < size ==> arr@[a] <= arr@[b],
                forall|a: int| 0 <= a <= j ==> arr@[a] <= arr@[j as int],
                count == count_before + j,
        {
            let ghost before = arr@;
            if arr[j] > arr[j + 1] {
                arr.swap(j, j + 1);
                proof {
                    lemma_swap_same_elements(before, j as int, j + 1, 0, size as int);
                }
            }
            proof {
                count = count + 1;
            }
        }
        proof {
            lemma_comparisons_step(size as int, i as int, count_before as int);
        }
    }
    proof {
        lemma_comparisons_step(size as int, size - 1, count as int);
        assert(arr@.subrange(0, size as int) =~= arr@);
        assert(old(arr)@.subrange(0, size as int) =~= old(arr)@);
    }
    Ghost(count)
}

/// The first `count` unit draws from `seed`, as numerators over `2^32`.
pub fn unit_draws(seed: u32, count: usize) -> (draws: Vec<u32>)
    ensures
        draws@ == draw_sequence(seed, count as nat),
{
    let mut rng = LCG::new(seed);
    let mut arr: Vec<u32> = vec![0u32; count];
    for i in 0..count
        invariant
            arr@.len() == count,
            rng@ == lcg_state(seed, i as nat),
            forall|k: int| 0 <= k < i ==> #[trigger] arr@[k] == lcg_state(seed, (k + 1) as nat),
    {
        let draw: u32 = rng.float64();
        assert(draw == lcg_state(seed, (i + 1) as nat));
        arr.set(i, draw);
    }
    arr
}

/// The first `count` unit draws from `seed`.
pub open spec fn draw_sequence(seed: u32, count: nat) -> Seq<u32> {
    Seq::new(count, |i: int| lcg_state(seed, (i + 1) as nat))
}

/// The bubble sort workload: sorts one thousand unit draws from seed 999 and
/// returns them.
pub fn rust_bubblesort() -> (sorted: Vec<u32>)
    ensures
        sorted@.len() == 1000,
        sorted_range(sorted@, 0, 1000, leq_u32()),
        sorted@.to_multiset() == draw_sequence(999, 1000).to_multiset(),
{
    let mut arr: Vec<u32> = unit_draws(BUBBLE_SORT_SEED, BUBBLE_SORT_LEN);
    let _ = bubble_sort(&mut arr);
    arr
}

/// Lomuto's partition of the values from `low` to `high`, both included,
/// about the value at `high`.
///
/// Returns the place where that value comes to stand: before it stand the
/// values of the range that are not greater, after it those that are.
pub fn partition(arr: &mut Vec<i32>, low: i32, high: i32) -> (pivot_index: i32)
    requires
        0 <= low <= high < old(arr)@.len(),
    ensures
        low <= pivot_index <= high,
        unchanged_outside(old(arr)@, final(arr)@, low as int, high + 1),
        same_elements(old(arr)@, final(arr)@, low as int, high + 1),
        final(arr)@[pivot_index as int] == old(arr)@[high as int],
        forall|k: int| low <= k < pivot_index ==> final(arr)@[k] <= final(arr)@[pivot_index as int],
        forall|k: int| pivot_index < k <= high ==> final(arr)@[k] > final(arr)@[pivot_index as int],
{
    let pivot: i32 = arr[high as usize];
    let mut i: i32 = low - 1;
    for j in low..high
        invariant
            0 <= low <= high < arr@.len(),
            low - 1 <= i < j,
            arr@[high as int] == pivot,
            pivot == old(arr)@[high as int],
            unchanged_outside(old(arr)@, arr@, low as int, high + 1),
            same_elements(old(arr)@, arr@, low as int, high + 1),
            forall|k: int| low <= k <= i ==> arr@[k] <= pivot,
            forall|k: int| i < k < j ==> arr@[k] > pivot,
    {
        if arr[j as usize] <= pivot {
            i += 1;
            let ghost before = arr@;
            arr.swap(i as usize, j as usize);
            proof {
                lemma_swap_same_elements(before, i as int, j as int, low as int, high + 1);
            }
        }
    }
    let ghost before = arr@;
    arr.swap((i + 1) as usize, high as usize);
    proof {
        lemma_swap_same_elements(before, i + 1, high as int, low as int, high + 1);
    }
    i + 1
}

/// Sorts the values from `low` to `high`, both included, by quicksort:
/// partition, then the same on either side. A range of fewer than two
/// values, `high` below `low` included, is left as it is.
pub fn quicksort_impl(arr: &mut Vec<i32>, low: i32, high: i32)
    requires
        0 <= low,
        low <= high + 1,
        high < old(arr)@.len(),
        high < i32::MAX,
    ensures
        unchanged_outside(old(arr)@, final(arr)@, low as int, high + 1),
        same_elements(old(arr)@, final(arr)@, low as int, high + 1),
        sorted_range(final(arr)@, low as int, high + 1, leq_i32()),
    decreases high - low + 1,
{
    if low < high {
        let pivot: i32 = partition(arr, low, high);
        let ghost parted = arr@;
        let ghost pivot_value = parted[pivot as int];
        quicksort_impl(arr, low, pivot - 1);
        let ghost left_done = arr@;
        quicksort_impl(arr, pivot + 1, high);
        proof {
            let not_above = |v: i32| v <= pivot_value;
            let above = |v: i32| v > pivot_value;
            lemma_same_elements_carry(parted, left_done, low as int, pivot as int, not_above);
            lemma_same_elements_carry(left_done, arr@, pivot + 1, high + 1, above);
            lemma_same_elements_widen(
                parted,
                left_done,
                low as int,
                pivot as int,
                low as int,
                high + 1,
            );
            lemma_same_elements_widen(left_done, arr@, pivot + 1, high + 1, low as int, high + 1);
            assert forall|a: int, b: int| low <= a <= b < high + 1 implies #[trigger] leq_i32()(
                arr@[a],
                arr@[b],
            ) by {
                assert(arr@[pivot as int] == pivot_value);
                if a < pivot {
                    assert(not_above(left_done[a]));
                    assert(arr@[a] == left_done[a]);
                }
                if b > pivot {
                    assert(above(arr@[b]));
                }
                if b < pivot {
                    assert(leq_i32()(left_done[a], left_done[b]));
                    assert(arr@[b] == left_done[b]);
                } else if a > pivot {
                    assert(leq_i32()(arr@[a], arr@[b]));
                }
            }
        }
    }
}

/// Sorts `arr` by quicksort.
pub fn quicksort(arr: &mut Vec<i32>)
    requires
        old(arr)@.len() <= i32::MAX,
    ensures
        final(arr)@.len() == old(arr)@.len(),
        sorted_range(final(arr)@, 0, final(arr)@.len() as int, leq_i32()),
        final(arr)@.to_multiset() == old(arr)@.to_multiset(),
{
    let high: i32 = arr.len() as i32 - 1;
    quicksort_impl(arr, 0, high);
    proof {
        assert(arr@.subrange(0, arr@.len() as int) =~= arr@);
        assert(old(arr)@.subrange(0, arr@.len() as int) =~= old(arr)@);
    }
}

/// The values `i XOR mask` for `i` from zero up to `count`, `count`
/// excluded.
pub open spec fn xor_values(count: nat, mask: i32) -> Seq<i32> {
    Seq::new(count, |i: int| (i as i32) ^ mask)
}

/// Builds the values `i XOR mask` for `i` from zero up to `count`, `count`
/// excluded.
pub fn xor_sequence(count: i32, mask: i32) -> (values: Vec<i32>)
    requires
        0 <= count,
    ensures
        values@ == xor_values(count as nat, mask),
{
    let mut values: Vec<i32> = Vec::new();
    for i in 0..count
        invariant
            values@.len() == i,
            forall|k: int| 0 <= k < i ==> #[trigger] values@[k] == (k as i32) ^ mask,
    {
        values.push(i ^ mask);
    }
    values
}

/// The quicksort workload: sorts the ten thousand values `i XOR 0x3F` and
/// returns them.
pub fn rust_quicksort() -> (sorted: Vec<i32>)
    ensures
        sorted@.len() == 10000,
        sorted_range(sorted@, 0, 10000, leq_i32()),
        sorted@.to_multiset() == xor_values(10000, 0x3F).to_multiset(),
{
    let mut arr: Vec<i32> = xor_sequence(QUICKSORT_LEN, QUICKSORT_MASK);
    quicksort(&mut arr);
    arr
}

} // verus!
