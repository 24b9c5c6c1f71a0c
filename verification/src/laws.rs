//! Laws relating the grid model's operations, proved once for all grids.

use vstd::prelude::*;

use crate::grid::{
    alive_at, cell_index, lemma_index_bounds, lemma_linear_index,
    lemma_neighbor_count_formulations, next_at, step_grid, toggled, wrap_dec, wrap_inc,
};
use crate::universe::base_alive;

verus! {

/// The grid after `n` generations.
pub open spec fn step_grid_n(s: Seq<bool>, height: int, width: int, n: nat) -> Seq<bool>
    decreases n,
{
    if n == 0 {
        s
    } else {
        step_grid(step_grid_n(s, height, width, (n - 1) as nat), height, width)
    }
}

/// A two-by-two block of live cells: rows `r` and `r + 1`, columns `c` and
/// `c + 1`.
pub open spec fn block_alive(r: int, c: int, i: int, j: int) -> bool {
    (i == r || i == r + 1) && (j == c || j == c + 1)
}

/// A grid whose live cells are exactly a two-by-two block that fits inside it.
pub open spec fn is_block_grid(s: Seq<bool>, height: int, width: int, r: int, c: int) -> bool {
    &&& 3 <= height
    &&& 3 <= width
    &&& s.len() == height * width
    &&& 0 <= r && r + 2 <= height
    &&& 0 <= c && c + 2 <= width
    &&& forall|i: int, j: int|
        0 <= i < height && 0 <= j < width ==> s[cell_index(width, i, j)] == block_alive(r, c, i, j)
}

/// Law: a two-by-two live block with every other cell dead is stable — one
/// generation leaves the grid unchanged.
pub proof fn lemma_block_stable(s: Seq<bool>, height: int, width: int, r: int, c: int)
    requires
        is_block_grid(s, height, width, r, c),
    ensures
        step_grid(s, height, width) == s,
{
    assert forall|i: int, j: int| 0 <= i < height && 0 <= j < width implies next_at(
        s,
        height,
        width,
        i,
        j,
    ) == s[cell_index(width, i, j)] by {
        lemma_block_cell_stable(s, height, width, r, c, i, j);
    }
    assert forall|k: int| 0 <= k < height * width implies step_grid(s, height, width)[k] == s[k] by {
        lemma_linear_index(height, width, k);
        assert(next_at(s, height, width, k / width, k % width) == s[cell_index(
            width,
            k / width,
            k % width,
        )]);
    }
    assert(step_grid(s, height, width) =~= s);
}

/// One cell of the block law: the cell at `(i, j)` keeps its state.
proof fn lemma_block_cell_stable(s: Seq<bool>, height: int, width: int, r: int, c: int, i: int, j: int)
    requires
        is_block_grid(s, height, width, r, c),
        0 <= i < height,
        0 <= j < width,
    ensures
        next_at(s, height, width, i, j) == s[cell_index(width, i, j)],
{
    lemma_neighbor_count_formulations(s, height, width, i, j);
    let north = wrap_dec(i, height);
    let south = wrap_inc(i, height);
    let west = wrap_dec(j, width);
    let east = wrap_inc(j, width);
    assert(0 <= north < height && 0 <= south < height && 0 <= west < width && 0 <= east < width);
    lemma_index_bounds(height, width, i, j);
    assert(alive_at(s, width, north, west) == block_alive(r, c, north, west));
    assert(alive_at(s, width, north, j) == block_alive(r, c, north, j));
    assert(alive_at(s, width, north, east) == block_alive(r, c, north, east));
    assert(alive_at(s, width, i, west) == block_alive(r, c, i, west));
    assert(alive_at(s, width, i, east) == block_alive(r, c, i, east));
    assert(alive_at(s, width, south, west) == block_alive(r, c, south, west));
    assert(alive_at(s, width, south, j) == block_alive(r, c, south, j));
    assert(alive_at(s, width, south, east) == block_alive(r, c, south, east));
    assert(alive_at(s, width, i, j) == block_alive(r, c, i, j));
}

/// Law: a two-by-two live block with every other cell dead is stable under
/// any number of generations.
pub proof fn lemma_block_stable_forever(
    s: Seq<bool>,
    height: int,
    width: int,
    r: int,
    c: int,
    n: nat,
)
    requires
        is_block_grid(s, height, width, r, c),
    ensures
        step_grid_n(s, height, width, n) == s,
    decreases n,
{
    if n > 0 {
        lemma_block_stable_forever(s, height, width, r, c, (n - 1) as nat);
        lemma_block_stable(s, height, width, r, c);
    }
}

/// Law: toggling the same cell twice restores the original grid, and a single
/// toggle leaves every other cell unchanged.
pub proof fn lemma_toggle_twice(s: Seq<bool>, i: int)
    requires
        0 <= i < s.len(),
    ensures
        toggled(toggled(s, i), i) == s,
        forall|j: int| 0 <= j < s.len() && j != i ==> toggled(s, i)[j] == s[j],
{
    assert(toggled(toggled(s, i), i) =~= s);
}

/// Law: base seeding is deterministic — any two grids of the same size that
/// satisfy the base-seeding description are equal.
pub proof fn lemma_base_seed_unique(s1: Seq<bool>, s2: Seq<bool>, size: int)
    requires
        s1.len() == size,
        s2.len() == size,
        forall|i: int| 0 <= i < size ==> s1[i] == base_alive(i),
        forall|i: int| 0 <= i < size ==> s2[i] == base_alive(i),
    ensures
        s1 == s2,
{
    assert forall|i: int| 0 <= i < size implies s1[i] == s2[i] by {
        assert(s1[i] == base_alive(i));
        assert(s2[i] == base_alive(i));
    }
    assert(s1 =~= s2);
}

} // verus!
