//! Dense square matrix product by the naive triple loop.
//!
//! Entries are unit draws, held as numerators over `2^32`; an entry of the
//! product is therefore an exact numerator over `2^64`.

use vstd::prelude::*;
use crate::generator::{lcg_state, LCG};

verus! {

/// Side of the catalogue's matrices.
pub const MATRIX_SIZE: usize = 128;

/// Seed of the generator that fills them.
pub const MATRIX_SEED: u32 = 12345;

/// Sum of the first `terms` products along row `i` of `a` and column `j` of
/// `b`, both `size` by `size` in row-major order.
pub open spec fn dot(a: Seq<u32>, b: Seq<u32>, size: int, i: int, j: int, terms: int) -> int
    decreases terms,
{
    if terms <= 0 {
        0
    } else {
        dot(a, b, size, i, j, terms - 1) + a[i * size + (terms - 1)] * b[(terms - 1) * size + j]
    }
}

/// The matrix that `matrix_fill` fills first: its cell `i` holds draw
/// `2 * i + 1` from `seed`.
pub open spec fn first_matrix(seed: u32, size: nat) -> Seq<u32> {
    Seq::new(size * size, |i: int| lcg_state(seed, (2 * i + 1) as nat))
}

/// The matrix that `matrix_fill` fills second: its cell `i` holds draw
/// `2 * i + 2` from `seed`.
pub open spec fn second_matrix(seed: u32, size: nat) -> Seq<u32> {
    Seq::new(size * size, |i: int| lcg_state(seed, (2 * i + 2) as nat))
}

/// A cell's index lies inside the matrix.
proof fn lemma_cell_in_bounds(size: int, i: int, j: int)
    by (nonlinear_arith)
    requires
        0 <= i < size,
        0 <= j < size,
    ensures
        0 <= i * size,
        0 <= i * size + j < size * size,
        i * size + size <= size * size,
{
}

/// Distinct cells have distinct indices.
proof fn lemma_cell_distinct(size: int, i: int, j: int, k: int, l: int)
    by (nonlinear_arith)
    requires
        0 <= i < size,
        0 <= j < size,
        0 <= k < size,
        0 <= l < size,
        i * size + j == k * size + l,
    ensures
        i == k,
        j == l,
{
}

/// The bookkeeping of the multiply-add count across the three loops.
proof fn lemma_count_steps(size: int, i: int, j: int)
    by (nonlinear_arith)
    ensures
        0 * size * size == 0,
        i * size * size + 0 * size == i * size * size,
        i * size * size + j * size + size == i * size * size + (j + 1) * size,
        i * size * size + size * size == (i + 1) * size * size,
{
}

/// Fills two `size` by `size` matrices from one generator seeded with
/// `seed`, drawing in turn for the first and for the second, cell by cell.
pub fn matrix_fill(seed: u32, size: usize) -> (filled: (Vec<u32>, Vec<u32>))
    requires
        size * size <= usize::MAX,
    ensures
        filled.0@ == first_matrix(seed, size as nat),
        filled.1@ == second_matrix(seed, size as nat),
{
    let cells: usize = size * size;
    let mut rng = LCG::new(seed);
    let mut mat_a: Vec<u32> = vec![0u32; cells];
    let mut mat_b: Vec<u32> = vec![0u32; cells];
    for i in 0..cells
        invariant
            cells == size * size,
            mat_a@.len() == cells,
            mat_b@.len() == cells,
            rng@ == lcg_state(seed, (2 * i) as nat),
            forall|k: int| 0 <= k < i ==> #[trigger] mat_a@[k] == lcg_state(seed, (2 * k + 1) as nat),
            forall|k: int| 0 <= k < i ==> #[trigger] mat_b@[k] == lcg_state(seed, (2 * k + 2) as nat),
    {
        let first: u32 = rng.float64();
        let second: u32 = rng.float64();
        assert(first == lcg_state(seed, (2 * i + 1) as nat));
        assert(second == lcg_state(seed, (2 * i + 2) as nat));
        mat_a.set(i, first);
        mat_b.set(i, second);
    }
    (mat_a, mat_b)
}

/// Multiplies two `size` by `size` matrices with the naive triple loop.
///
/// Returns the product, each entry the exact sum of its `size` products, and
/// the number of multiply-adds that were made: `size^3`.
pub fn matrix_product(a: &Vec<u32>, b: &Vec<u32>, size: usize) -> (product: (Vec<u128>, Ghost<nat>))
    requires
        a@.len() == size * size,
        b@.len() == size * size,
    ensures
        product.0@.len() == size * size,
        forall|i: int, j: int|
            0 <= i < size && 0 <= j < size ==> product.0@[i * size + j] == #[trigger] dot(
                a@,
                b@,
                size as int,
                i,
                j,
                size as int,
            ),
        product.1@ == size * size * size,
{
    let cells: usize = a.len();
    let mut mat_res: Vec<u128> = vec![0u128; cells];
    let ghost mut multiply_adds: nat = 0;
    proof {
        lemma_count_steps(size as int, 0, 0);
    }
    for i in 0..size
        invariant
            cells == size * size,
            a@.len() == cells,
            b@.len() == cells,
            mat_res@.len() == cells,
            multiply_adds == i * size * size,
            forall|r: int, c: int|
                0 <= r < i && 0 <= c < size ==> mat_res@[r * size + c] == #[trigger] dot(
                    a@,
                    b@,
                    size as int,
                    r,
                    c,
                    size as int,
                ),
    {
        proof {
            lemma_cell_in_bounds(size as int, i as int, 0);
            lemma_count_steps(size as int, i as int, 0);
        }
        let row_offset: usize = i * size;
        for j in 0..size
            invariant
                cells == size * size,
                a@.len() == cells,
                b@.len() == cells,
                mat_res@.len() == cells,
                0 <= i < size,
                row_offset == i * size,
                multiply_adds == i * size * size + j * size,
                forall|r: int, c: int|
                    0 <= r < size && 0 <= c < size && (r < i || (r == i && c < j))
                        ==> mat_res@[r * size + c] == #[trigger] dot(
                        a@,
                        b@,
                        size as int,
                        r,
                        c,
                        size as int,
                    ),
        {
            let mut sum: u128 = 0;
            for k in 0..size
                invariant
                    cells == size * size,
                    a@.len() == cells,
                    b@.len() == cells,
                    0 <= i < size,
                    0 <= j < size,
                    row_offset == i * size,
                    multiply_adds == i * size * size + j * size + k,
                    sum == dot(a@, b@, size as int, i as int, j as int, k as int),
                    sum <= k * 0xFFFF_FFFF_FFFF_FFFF,
            {
                proof {
                    lemma_cell_in_bounds(size as int, i as int, k as int);
                    lemma_cell_in_bounds(size as int, k as int, j as int);
                }
                let x: u128 = a[row_offset + k] as u128;
                let y: u128 = b[k * size + j] as u128;
                assert(x * y <= 0xFFFF_FFFF_FFFF_FFFF) by (nonlinear_arith)
                    requires
                        x <= 0xFFFF_FFFF,
                        y <= 0xFFFF_FFFF,
                ;
                assert((k + 1) * 0xFFFF_FFFF_FFFF_FFFF <= u128::MAX) by (nonlinear_arith)
                    requires
                        k + 1 <= 0xFFFF_FFFF_FFFF_FFFF,
                ;
                sum += x * y;
                proof {
                    multiply_adds = multiply_adds + 1;
                }
            }
            proof {
                lemma_cell_in_bounds(size as int, i as int, j as int);
                lemma_count_steps(size as int, i as int, j as int);
                assert forall|r: int, c: int|
                    0 <= r < size && 0 <= c < size && (r < i || (r == i && c < j + 1))
                        implies mat_res@.update(row_offset + j, sum)[r * size + c] == #[trigger] dot(
                        a@,
                        b@,
                        size as int,
                        r,
                        c,
                        size as int,
                    ) by {
                    lemma_cell_in_bounds(size as int, r, c);
                    if r != i || c != j {
                        if r * size + c == i * size + j {
                            lemma_cell_distinct(size as int, r, c, i as int, j as int);
                        }
                    }
                }
            }
            mat_res.set(row_offset + j, sum);
        }
    }
    (mat_res, Ghost(multiply_adds))
}

/// The matrix workload: fills two matrices of side 128 from seed 12345 and
/// multiplies them.
pub fn rust_matrix_multiply() -> (product: Vec<u128>)
    ensures
        product@.len() == 128 * 128,
        forall|i: int, j: int|
            0 <= i < 128 && 0 <= j < 128 ==> product@[i * 128 + j] == #[trigger] dot(
                first_matrix(12345, 128),
                second_matrix(12345, 128),
                128,
                i,
                j,
                128,
            ),
{
    let (mat_a, mat_b) = matrix_fill(MATRIX_SEED, MATRIX_SIZE);
    let (mat_res, _) = matrix_product(&mat_a, &mat_b, MATRIX_SIZE);
    mat_res
}

} // verus!
