//! The mathematical model of a toroidal grid of cells.
//!
//! A grid of `height` rows and `width` columns is modelled as a sequence of
//! `height * width` booleans in row-major order. This module defines the
//! linear indexing, the two equivalent formulations of toroidal neighbor
//! counting, the per-cell transition rule, and the whole-grid step, together
//! with the lemmas that relate them.

use vstd::prelude::*;

verus! {

/// The linear, row-major index of the cell at `(row, col)` on a grid
/// `width` columns wide.
pub open spec fn cell_index(width: int, row: int, col: int) -> int {
    row * width + col
}

/// Whether the cell at `(row, col)` is alive in grid `s`.
pub open spec fn alive_at(s: Seq<bool>, width: int, row: int, col: int) -> bool {
    s[cell_index(width, row, col)]
}

/// One if the cell at `(row, col)` is alive, else zero.
pub open spec fn alive_bit(s: Seq<bool>, width: int, row: int, col: int) -> nat {
    if alive_at(s, width, row, col) {
        1nat
    } else {
        0nat
    }
}

/// One if the neighbor of `(row, col)` at offset `(dr, dc)` is alive, else
/// zero. The neighbor's coordinates wrap toroidally, by Euclidean modulo.
pub open spec fn neighbor_bit(
    s: Seq<bool>,
    height: int,
    width: int,
    row: int,
    col: int,
    dr: int,
    dc: int,
) -> nat {
    alive_bit(s, width, (row + dr) % height, (col + dc) % width)
}

/// The number of live cells among the eight toroidal neighbors of
/// `(row, col)`: the direct offset-with-modulo formulation.
pub open spec fn live_neighbors(s: Seq<bool>, height: int, width: int, row: int, col: int) -> nat {
    neighbor_bit(s, height, width, row, col, -1, -1) + neighbor_bit(s, height, width, row, col, -1, 0)
        + neighbor_bit(s, height, width, row, col, -1, 1) + neighbor_bit(
        s,
        height,
        width,
        row,
        col,
        0,
        -1,
    ) + neighbor_bit(s, height, width, row, col, 0, 1) + neighbor_bit(
        s,
        height,
        width,
        row,
        col,
        1,
        -1,
    ) + neighbor_bit(s, height, width, row, col, 1, 0) + neighbor_bit(s, height, width, row, col, 1, 1)
}

/// The position one step before `x` on a ring of `m` positions.
pub open spec fn wrap_dec(x: int, m: int) -> int {
    if x == 0 {
        m - 1
    } else {
        x - 1
    }
}

/// The position one step after `x` on a ring of `m` positions.
pub open spec fn wrap_inc(x: int, m: int) -> int {
    if x == m - 1 {
        0
    } else {
        x + 1
    }
}

/// The number of live cells among the eight toroidal neighbors of
/// `(row, col)`: the formulation that precomputes the wrapped north, south,
/// west and east coordinates and sums the eight combinations.
pub open spec fn live_neighbors_wrapped(
    s: Seq<bool>,
    height: int,
    width: int,
    row: int,
    col: int,
) -> nat {
    let north = wrap_dec(row, height);
    let south = wrap_inc(row, height);
    let west = wrap_dec(col, width);
    let east = wrap_inc(col, width);
    alive_bit(s, width, north, west) + alive_bit(s, width, north, col) + alive_bit(
        s,
        width,
        north,
        east,
    ) + alive_bit(s, width, row, west) + alive_bit(s, width, row, east) + alive_bit(
        s,
        width,
        south,
        west,
    ) + alive_bit(s, width, south, col) + alive_bit(s, width, south, east)
}

/// The transition table: a live cell dies of underpopulation below two live
/// neighbors, survives with two or three, and dies of overpopulation above
/// three; a dead cell comes alive by reproduction with exactly three; every
/// other cell keeps its state.
pub open spec fn rule_next(alive: bool, count: nat) -> bool {
    if alive && count < 2 {
        false
    } else if alive && (count == 2 || count == 3) {
        true
    } else if alive && count > 3 {
        false
    } else if !alive && count == 3 {
        true
    } else {
        alive
    }
}

/// The next state of the cell at `(row, col)`: the rule applied to its
/// current state and its live-neighbor count, all read from `s`.
pub open spec fn next_at(s: Seq<bool>, height: int, width: int, row: int, col: int) -> bool {
    rule_next(alive_at(s, width, row, col), live_neighbors(s, height, width, row, col))
}

/// The grid after one generation: every cell is rewritten by the rule applied
/// to its current state and its live-neighbor count, all read from `s`.
pub open spec fn step_grid(s: Seq<bool>, height: int, width: int) -> Seq<bool> {
    Seq::new((height * width) as nat, |k: int| next_at(s, height, width, k / width, k % width))
}

/// The grid `s` with the cell at linear index `i` flipped.
pub open spec fn toggled(s: Seq<bool>, i: int) -> Seq<bool> {
    s.update(i, !s[i])
}

/// A cell with in-range coordinates has an in-range linear index.
pub proof fn lemma_index_bounds(height: int, width: int, row: int, col: int)
    by (nonlinear_arith)
    requires
        0 <= row < height,
        0 <= col < width,
    ensures
        0 <= row * width + col,
        row * width + col < height * width,
{
}

/// Row-major indexing is injective on in-range coordinates.
pub proof fn lemma_index_injective(width: int, r1: int, c1: int, r2: int, c2: int)
    by (nonlinear_arith)
    requires
        0 <= c1 < width,
        0 <= c2 < width,
        0 <= r1,
        0 <= r2,
        r1 * width + c1 == r2 * width + c2,
    ensures
        r1 == r2,
        c1 == c2,
{
}

/// Row-major indexing orders cells exactly as the lexicographic order on
/// `(row, col)` does.
pub proof fn lemma_index_order(width: int, r1: int, c1: int, r2: int, c2: int)
    by (nonlinear_arith)
    requires
        0 <= c1 < width,
        0 <= c2 < width,
        0 <= r1,
        0 <= r2,
    ensures
        (r1 * width + c1 < r2 * width + c2) <==> (r1 < r2 || (r1 == r2 && c1 < c2)),
{
}

/// Every in-range linear index comes from exactly the coordinates
/// `(k / width, k % width)`, and those are in range.
pub proof fn lemma_linear_index(height: int, width: int, k: int)
    requires
        1 <= width,
        0 <= k < height * width,
    ensures
        0 <= k / width < height,
        0 <= k % width < width,
        cell_index(width, k / width, k % width) == k,
{
    vstd::arithmetic::div_mod::lemma_fundamental_div_mod(k, width);
    vstd::arithmetic::div_mod::lemma_mod_division_less_than_divisor(k, width);
    let q = k / width;
    let r = k % width;
    assert(0 <= q < height && q * width + r == k) by (nonlinear_arith)
        requires
            k == width * q + r,
            0 <= r < width,
            0 <= k < height * width,
            1 <= width,
    ;
}

/// On a ring of `m` positions, the branching decrement and increment agree
/// with the offset-with-modulo formulation.
pub proof fn lemma_wrap_mod(x: int, m: int)
    requires
        0 <= x < m,
    ensures
        wrap_dec(x, m) == (x - 1) % m,
        wrap_inc(x, m) == (x + 1) % m,
{
    if x == 0 {
        vstd::arithmetic::div_mod::lemma_mod_add_multiples_vanish(-1, m);
        vstd::arithmetic::div_mod::lemma_small_mod((m - 1) as nat, m as nat);
    } else {
        vstd::arithmetic::div_mod::lemma_small_mod((x - 1) as nat, m as nat);
    }
    if x == m - 1 {
        vstd::arithmetic::div_mod::lemma_mod_self_0(m);
    } else {
        vstd::arithmetic::div_mod::lemma_small_mod((x + 1) as nat, m as nat);
    }
}

/// Law: the two neighbor-counting formulations agree. On every grid and at
/// every in-range cell, precomputing the wrapped north, south, west and east
/// coordinates counts exactly the cells that the direct offset-with-modulo
/// formulation counts.
pub proof fn lemma_neighbor_count_formulations(
    s: Seq<bool>,
    height: int,
    width: int,
    row: int,
    col: int,
)
    requires
        0 <= row < height,
        0 <= col < width,
    ensures
        live_neighbors_wrapped(s, height, width, row, col) == live_neighbors(
            s,
            height,
            width,
            row,
            col,
        ),
{
    lemma_wrap_mod(row, height);
    lemma_wrap_mod(col, width);
    vstd::arithmetic::div_mod::lemma_small_mod(row as nat, height as nat);
    vstd::arithmetic::div_mod::lemma_small_mod(col as nat, width as nat);
}

/// The transition rule as an executable function of one cell's current state
/// and its live-neighbor count.
pub fn next_cell_state(alive: bool, live_count: u8) -> (next: bool)
    ensures
        next == rule_next(alive, live_count as nat),
{
    match (alive, live_count) {
        (true, x) if x < 2 => false,
        (true, 2) | (true, 3) => true,
        (true, x) if x > 3 => false,
        (false, 3) => true,
        (otherwise, _) => otherwise,
    }
}

} // verus!
