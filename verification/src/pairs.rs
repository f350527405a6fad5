//! Bookkeeping for unordered pairs of body slots.

use itertools::Itertools;
use vstd::prelude::*;

verus! {

/// `first` comes before `second` in the order in which pairs are visited:
/// by the lower slot, then by the higher.
pub open spec fn pair_precedes(first: (usize, usize), second: (usize, usize)) -> bool {
    first.0 < second.0 || (first.0 == second.0 && first.1 < second.1)
}

/// `pairs` lists every pair of slots `(i, j)` with `i < j < count` exactly
/// once, in ascending order.
pub open spec fn is_pair_enumeration(pairs: Seq<(usize, usize)>, count: usize) -> bool {
    &&& forall|k: int| 0 <= k < pairs.len() ==> (#[trigger] pairs[k]).0 < pairs[k].1 < count
    &&& forall|a: int, b: int|
        0 <= a < b < pairs.len() ==> pair_precedes(#[trigger] pairs[a], #[trigger] pairs[b])
    &&& forall|i: usize, j: usize| i < j < count ==> pairs.contains((i, j))
}

/// In an enumeration of the pairs, every pair of different slots below
/// `count` stands at exactly one place, lower slot first.
pub proof fn lemma_each_pair_once(pairs: Seq<(usize, usize)>, count: usize, i: usize, j: usize)
    requires
        is_pair_enumeration(pairs, count),
        i < j < count,
    ensures
        exists|at: int|
            {
                &&& 0 <= at < pairs.len()
                &&& pairs[at] == (i, j)
                &&& forall|other: int|
                    0 <= other < pairs.len() && other != at ==> pairs[other] != (i, j)
            },
        !pairs.contains((j, i)),
{
    assert(pairs.contains((i, j)));
    let at = choose|at: int| 0 <= at < pairs.len() && pairs[at] == (i, j);
    assert forall|other: int| 0 <= other < pairs.len() && other != at implies pairs[other] != (
        i,
        j,
    ) by {
        if other < at {
            assert(pair_precedes(pairs[other], pairs[at]));
        } else {
            assert(pair_precedes(pairs[at], pairs[other]));
        }
    }
    if pairs.contains((j, i)) {
        let back = choose|back: int| 0 <= back < pairs.len() && pairs[back] == (j, i);
        assert(pairs[back].0 < pairs[back].1);
    }
}

/// The unordered pairs of the slots `0..count`, in the order of a pass.
///
/// Calls `Itertools::combinations(2)` on the range `0..count`. The contract
/// claims what that adaptor yields for two picks out of an ascending range:
/// every pair with the lower slot first, in lexicographic order, none twice.
#[verifier::external_body]
pub(crate) fn index_pairs(count: usize) -> (pairs: Vec<(usize, usize)>)
    ensures
        is_pair_enumeration(pairs@, count),
{
    (0..count).combinations(2).map(|pick| (pick[0], pick[1])).collect()
}

/// The word that holds `i` in its upper half and `j` in its lower: the
/// ordered building block of the key of a pair.
pub open spec fn spec_percision_key(i: usize, j: usize) -> u64 {
    ((i as u64) << 32) | (j as u64)
}

/// The key of the unordered pair of `i` and `j`: the lower slot goes into
/// the upper half of the word, the higher slot into the lower half.
pub open spec fn pair_key(i: usize, j: usize) -> u64 {
    if i <= j {
        spec_percision_key(i, j)
    } else {
        spec_percision_key(j, i)
    }
}

/// The key under which the pair of `i` and `j` is filed, whichever of the
/// two is given first.
pub fn make_percision_key(i: usize, j: usize) -> (key: u64)
    ensures
        key == pair_key(i, j),
{
    if i <= j {
        ((i as u64) << 32) | (j as u64)
    } else {
        ((j as u64) << 32) | (i as u64)
    }
}

/// The key of an unordered pair does not depend on the order in which its
/// slots are given, and below 2^32 two pairs share a key only if they hold
/// the same two slots.
pub proof fn lemma_pair_key_unordered(i: usize, j: usize, k: usize, l: usize)
    requires
        i < 0x1_0000_0000,
        j < 0x1_0000_0000,
        k < 0x1_0000_0000,
        l < 0x1_0000_0000,
    ensures
        pair_key(i, j) == pair_key(j, i),
        pair_key(i, j) == pair_key(k, l) <==> (i == k && j == l) || (i == l && j == k),
{
    lemma_percision_key_injective(i, j, k, l);
    lemma_percision_key_injective(i, j, l, k);
    lemma_percision_key_injective(j, i, k, l);
    lemma_percision_key_injective(j, i, l, k);
}

/// Slots below 2^32 give different words to different ordered pairs, and
/// the word is the slot `i` scaled by 2^32 plus the slot `j`.
pub proof fn lemma_percision_key_injective(i: usize, j: usize, k: usize, l: usize)
    requires
        i < 0x1_0000_0000,
        j < 0x1_0000_0000,
        k < 0x1_0000_0000,
        l < 0x1_0000_0000,
    ensures
        spec_percision_key(i, j) == i * 0x1_0000_0000 + j,
        spec_percision_key(i, j) == spec_percision_key(k, l) ==> i == k && j == l,
{
    lemma_key_value(i as u64, j as u64);
    lemma_key_value(k as u64, l as u64);
}

proof fn lemma_key_value(a: u64, b: u64)
    requires
        a < 0x1_0000_0000,
        b < 0x1_0000_0000,
    ensures
        ((a << 32) | b) == a * 0x1_0000_0000 + b,
{
    assert(((a << 32) | b) == a * 0x1_0000_0000 + b) by (bit_vector)
        requires
            a < 0x1_0000_0000,
            b < 0x1_0000_0000,
    ;
}

/// The number of cells in the upper triangle of a square table of side
/// `size`, the diagonal included.
pub open spec fn triangle_size(size: int) -> int {
    size * (size + 1) / 2
}

/// The number of cells in the rows above `row`: row `r` holds `size - r`.
pub open spec fn row_start(row: int, size: int) -> int {
    row * size - row * (row - 1) / 2
}

/// The place of the cell for the unordered pair of `i` and `j` when the
/// upper triangle is laid out row by row.
pub open spec fn matrix_to_vector(i: int, j: int, size: int) -> int {
    if i <= j {
        row_start(i, size) + (j - i)
    } else {
        row_start(j, size) + (i - j)
    }
}

proof fn lemma_consecutive_product_even(n: int)
    requires
        0 <= n,
    ensures
        (n * (n - 1)) % 2 == 0,
    decreases n,
{
    if n > 0 {
        lemma_consecutive_product_even(n - 1);
        assert(n * (n - 1) == (n - 1) * (n - 2) + 2 * (n - 1)) by (nonlinear_arith);
    }
}

proof fn lemma_row_start_step(row: int, size: int)
    requires
        0 <= row,
    ensures
        row_start(row + 1, size) == row_start(row, size) + size - row,
{
    assert((row + 1) * row == row * (row - 1) + 2 * row) by (nonlinear_arith);
    assert((row + 1) * size == row * size + size) by (nonlinear_arith);
}

proof fn lemma_row_start_monotone(low: int, high: int, size: int)
    requires
        0 <= low <= high <= size,
    ensures
        row_start(low, size) <= row_start(high, size),
        row_start(0, size) == 0,
        row_start(size, size) == triangle_size(size),
    decreases high - low,
{
    if low < high {
        lemma_row_start_step(high - 1, size);
        lemma_row_start_monotone(low, high - 1, size);
    }
    lemma_consecutive_product_even(size);
    assert(size * (size + 1) == size * (size - 1) + 2 * size) by (nonlinear_arith);
    assert(size * size == size * (size - 1) + size) by (nonlinear_arith);
}

/// Every cell lies inside the table, and the order of the two slots does not
/// matter.
pub proof fn lemma_matrix_to_vector_bounds(i: int, j: int, size: int)
    requires
        0 <= i < size,
        0 <= j < size,
    ensures
        0 <= matrix_to_vector(i, j, size) < triangle_size(size),
        matrix_to_vector(i, j, size) == matrix_to_vector(j, i, size),
{
    let low = if i <= j { i } else { j };
    lemma_row_start_step(low, size);
    lemma_row_start_monotone(0, low, size);
    lemma_row_start_monotone(low + 1, size, size);
}

/// Two pairs share a cell only if they hold the same two slots.
pub proof fn lemma_matrix_to_vector_injective(i: int, j: int, k: int, l: int, size: int)
    requires
        0 <= i < size,
        0 <= j < size,
        0 <= k < size,
        0 <= l < size,
        matrix_to_vector(i, j, size) == matrix_to_vector(k, l, size),
    ensures
        (i == k && j == l) || (i == l && j == k),
{
    let low = if i <= j { i } else { j };
    let other = if k <= l { k } else { l };
    lemma_row_start_step(low, size);
    lemma_row_start_step(other, size);
    if low < other {
        lemma_row_start_monotone(low + 1, other, size);
    } else if other < low {
        lemma_row_start_monotone(other + 1, low, size);
    }
}

/// Computes `matrix_to_vector` for a table whose triangle can be addressed.
pub fn from_matrix_to_vector(i: usize, j: usize, size: usize) -> (cell: usize)
    requires
        i < size,
        j < size,
        triangle_size(size as int) <= usize::MAX,
    ensures
        cell == matrix_to_vector(i as int, j as int, size as int),
{
    let low = if i <= j { i } else { j } as u128;
    let high = if i <= j { j } else { i } as u128;
    let side = size as u128;
    proof {
        lemma_matrix_to_vector_bounds(i as int, j as int, size as int);
        lemma_row_start_monotone(0, low as int, size as int);
        assert(low * side <= 0xffff_ffff_ffff_ffff * 0xffff_ffff_ffff_ffff) by (nonlinear_arith)
            requires
                0 <= low <= 0xffff_ffff_ffff_ffff,
                0 <= side <= 0xffff_ffff_ffff_ffff,
        ;
        assert(low * (low - 1) <= low * side) by (nonlinear_arith)
            requires
                0 <= low <= side,
        ;
        assert(0 <= low * (low - 1)) by (nonlinear_arith)
            requires
                0 <= low,
        ;
    }
    if low == 0 {
        return high as usize;
    }
    let above = low * side - low * (low - 1) / 2;
    (above + (high - low)) as usize
}

} // verus!
