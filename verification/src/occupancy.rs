//! Counting arguments about grid cells: row-major offsets are a bijection
//! between on-grid cells and `[0, area)`, so a set of distinct on-grid cells
//! is no larger than the grid, and a set of fewer than `area` offsets leaves
//! some offset free.

use vstd::prelude::*;
use vstd::arithmetic::div_mod::{
    lemma_div_pos_is_pos, lemma_fundamental_div_mod, lemma_fundamental_div_mod_converse_div,
    lemma_fundamental_div_mod_converse_mod, lemma_mod_bound, lemma_multiply_divide_lt,
};
use vstd::set_lib::{lemma_int_range, lemma_len_subset, set_int_range};
use crate::logic::{flat_index, in_bounds, Vec2};

verus! {

/// A cell on the grid has its row-major offset in `[0, area)`.
pub(crate) proof fn lemma_flat_index_bounds(p: Vec2<i32>, size: Vec2<u32>)
    requires
        in_bounds(p, size),
    ensures
        0 <= flat_index(p, size) < size.x * size.y,
{
    assert(0 <= p.y * size.x + p.x < size.x * size.y) by (nonlinear_arith)
        requires
            0 <= p.x < size.x,
            0 <= p.y < size.y,
    ;
}

/// The coordinates of a cell on the grid can be read back from its offset.
pub(crate) proof fn lemma_flat_index_inverse(p: Vec2<i32>, size: Vec2<u32>)
    requires
        in_bounds(p, size),
    ensures
        flat_index(p, size) / (size.x as int) == p.y,
        flat_index(p, size) % (size.x as int) == p.x,
{
    lemma_fundamental_div_mod_converse_div(
        flat_index(p, size),
        size.x as int,
        p.y as int,
        p.x as int,
    );
    lemma_fundamental_div_mod_converse_mod(
        flat_index(p, size),
        size.x as int,
        p.y as int,
        p.x as int,
    );
}

/// Two cells on the grid with the same offset are the same cell.
pub(crate) proof fn lemma_flat_index_injective(p: Vec2<i32>, q: Vec2<i32>, size: Vec2<u32>)
    requires
        in_bounds(p, size),
        in_bounds(q, size),
        flat_index(p, size) == flat_index(q, size),
    ensures
        p == q,
{
    lemma_flat_index_inverse(p, size);
    lemma_flat_index_inverse(q, size);
}

/// A sequence of pairwise distinct cells, all on the grid, is no longer than
/// the grid's area.
pub(crate) proof fn lemma_distinct_cells_bounded(cells: Seq<Vec2<i32>>, size: Vec2<u32>)
    requires
        cells.no_duplicates(),
        forall|i: int| 0 <= i < cells.len() ==> in_bounds(#[trigger] cells[i], size),
    ensures
        cells.len() <= size.x * size.y,
{
    broadcast use vstd::seq_lib::seq_to_set_is_finite;
    broadcast use vstd::set::group_set_axioms;

    let n = (size.x * size.y) as int;
    let idxs = cells.map_values(|p: Vec2<i32>| flat_index(p, size));
    assert forall|i: int, j: int|
        0 <= i < idxs.len() && 0 <= j < idxs.len() && i != j implies idxs[i] != idxs[j] by {
        if idxs[i] == idxs[j] {
            lemma_flat_index_injective(cells[i], cells[j], size);
        }
    }
    assert(idxs.no_duplicates());
    idxs.unique_seq_to_set();
    assert forall|e: int| idxs.to_set().contains(e) implies set_int_range(0, n).contains(e) by {
        let i = choose|i: int| 0 <= i < idxs.len() && idxs[i] == e;
        lemma_flat_index_bounds(cells[i], size);
    }
    lemma_int_range(0, n);
    lemma_len_subset(idxs.to_set(), set_int_range(0, n));
}

/// A finite set of fewer than `n` integers misses some value in `[0, n)`.
pub(crate) proof fn lemma_free_index_exists(s: Set<int>, n: int)
    requires
        s.finite(),
        s.len() < n,
    ensures
        exists|i: int| 0 <= i < n && !s.contains(i),
{
    broadcast use vstd::set::group_set_axioms;

    if !(exists|i: int| 0 <= i < n && !s.contains(i)) {
        assert(forall|i: int| 0 <= i < n ==> s.contains(i));
        assert(set_int_range(0, n).subset_of(s));
        lemma_int_range(0, n);
        lemma_len_subset(set_int_range(0, n), s);
        assert(false);
    }
}

/// The cell whose row-major offset on the grid is `i`.
pub(crate) open spec fn cell_of_index(i: int, size: Vec2<u32>) -> Vec2<i32> {
    Vec2 { x: (i % (size.x as int)) as i32, y: (i / (size.x as int)) as i32 }
}

/// For an offset in `[0, area)` that grid cell is on the grid and maps back
/// to the offset.
pub(crate) proof fn lemma_cell_of_index(i: int, size: Vec2<u32>)
    requires
        1 <= size.x,
        1 <= size.y,
        size.x + 1 < i32::MAX,
        size.y + 1 < i32::MAX,
        0 <= i < size.x * size.y,
    ensures
        in_bounds(cell_of_index(i, size), size),
        flat_index(cell_of_index(i, size), size) == i,
{
    lemma_mod_bound(i, size.x as int);
    lemma_div_pos_is_pos(i, size.x as int);
    lemma_multiply_divide_lt(i, size.x as int, size.y as int);
    lemma_fundamental_div_mod(i, size.x as int);
    let p = cell_of_index(i, size);
    assert(p.x == i % (size.x as int));
    assert(p.y == i / (size.x as int));
    assert(i == (size.x as int) * (i / (size.x as int)) + i % (size.x as int));
    assert(flat_index(p, size) == p.y * (size.x as int) + p.x);
}

} // verus!
