//! The automaton engine: a bit-packed toroidal cell universe.
//!
//! A [`Universe`] owns a grid of `width * height` cells, one bit each, in
//! row-major order. It is constructed with a seeding mode, advanced one
//! generation at a time, and edited between generations by toggling cells,
//! seeding coordinate lists, overlaying stencils, or resizing (which clears
//! all state).

use vstd::prelude::*;

use fixedbitset::FixedBitSet;

use crate::bits::{
    bit_seq, bitset_clone, bitset_contains, bitset_new, bitset_set, random_boolean,
};
use crate::grid::{
    alive_at, cell_index, lemma_index_bounds, lemma_index_injective, lemma_linear_index,
    lemma_neighbor_count_formulations, live_neighbors, live_neighbors_wrapped, next_at,
    next_cell_state, step_grid, toggled, wrap_dec, wrap_inc,
};
use crate::patterns::{
    glider_alive, glider_stencil, pulsar_alive, pulsar_stencil, GLIDER_SIZE, PULSAR_SIZE,
};

verus! {

/// How a freshly constructed or reset universe is seeded.
#[derive(Clone, Copy)]
pub enum StartState {
    /// Every cell dead.
    Empty,
    /// Cell `i` alive iff `i` is even or divisible by seven.
    Base,
    /// A small spaceship: a fixed literal set of linear indices alive.
    Spaceship,
    /// Every cell alive or dead by an independent draw from the external
    /// randomness source.
    Random,
}

/// Whether the base seeding leaves the cell at linear index `i` alive.
pub open spec fn base_alive(i: int) -> bool {
    i % 2 == 0 || i % 7 == 0
}

/// Whether the spaceship seeding leaves the cell at linear index `i` alive.
pub open spec fn spaceship_alive(i: int) -> bool {
    i == 70 || i == 73 || i == 106 || i == 134 || i == 138 || i == 167 || i == 168 || i == 169
        || i == 170
}

/// What each seeding mode pins down about a grid of `size` cells. A `Random`
/// grid depends on the external randomness source, so only its length is
/// stated.
pub open spec fn seeded(state: StartState, size: int, s: Seq<bool>) -> bool {
    &&& s.len() == size
    &&& (state is Empty ==> forall|i: int| 0 <= i < size ==> !s[i])
    &&& (state is Base ==> forall|i: int| 0 <= i < size ==> s[i] == base_alive(i))
    &&& (state is Spaceship ==> forall|i: int| 0 <= i < size ==> s[i] == spaceship_alive(i))
}

/// A toroidal cell universe.
pub struct Universe {
    /// Number of columns; at least one.
    pub width: u32,
    /// Number of rows; at least one.
    pub height: u32,
    /// The cells, one bit each, row-major: bit `row * width + col` is the
    /// cell at `(row, col)`.
    pub cells: FixedBitSet,
}

impl Universe {
    /// The cells as a sequence of booleans in row-major order.
    pub open spec fn cells_view(self) -> Seq<bool> {
        bit_seq(self.cells)
    }

    /// The number of cells in the grid.
    pub open spec fn size(self) -> int {
        self.width * self.height
    }

    /// Well-formedness: positive dimensions whose product is representable,
    /// and a grid of exactly `width * height` bits.
    pub open spec fn wf(self) -> bool {
        &&& 1 <= self.width
        &&& 1 <= self.height
        &&& self.size() <= u32::MAX
        &&& self.cells_view().len() == self.size()
    }

    /// The linear index of the cell at `(row, column)`.
    fn get_index(&self, row: u32, column: u32) -> (idx: usize)
        requires
            self.wf(),
            row < self.height,
            column < self.width,
        ensures
            idx == cell_index(self.width as int, row as int, column as int),
            idx < self.cells_view().len(),
    {
        proof {
            lemma_index_bounds(self.height as int, self.width as int, row as int, column as int);
        }
        (row * self.width + column) as usize
    }

    /// Whether the cell at `(row, column)` is alive.
    fn is_alive(&self, row: u32, column: u32) -> (r: bool)
        requires
            self.wf(),
            row < self.height,
            column < self.width,
        ensures
            r == alive_at(self.cells_view(), self.width as int, row as int, column as int),
    {
        let idx = self.get_index(row, column);
        bitset_contains(&self.cells, idx)
    }

    /// One if the cell at `(row, column)` is alive, else zero.
    fn alive_bit_at(&self, row: u32, column: u32) -> (r: u8)
        requires
            self.wf(),
            row < self.height,
            column < self.width,
        ensures
            r == crate::grid::alive_bit(
                self.cells_view(),
                self.width as int,
                row as int,
                column as int,
            ),
            r <= 1,
    {
        if self.is_alive(row, column) {
            1
        } else {
            0
        }
    }

    /// The number of live cells among the eight toroidal neighbors of
    /// `(row, column)`, computed from precomputed wrapped coordinates.
    fn live_neighbor_count(&self, row: u32, column: u32) -> (count: u8)
        requires
            self.wf(),
            row < self.height,
            column < self.width,
        ensures
            count == live_neighbors(
                self.cells_view(),
                self.height as int,
                self.width as int,
                row as int,
                column as int,
            ),
            count <= 8,
    {
        let north: u32 = if row == 0 {
            self.height - 1
        } else {
            row - 1
        };
        let south: u32 = if row == self.height - 1 {
            0
        } else {
            row + 1
        };
        let west: u32 = if column == 0 {
            self.width - 1
        } else {
            column - 1
        };
        let east: u32 = if column == self.width - 1 {
            0
        } else {
            column + 1
        };

        let count: u8 = self.alive_bit_at(north, west) + self.alive_bit_at(north, column)
            + self.alive_bit_at(north, east) + self.alive_bit_at(row, west)
            + self.alive_bit_at(row, east) + self.alive_bit_at(south, west)
            + self.alive_bit_at(south, column) + self.alive_bit_at(south, east);
        proof {
            assert(north == wrap_dec(row as int, self.height as int));
            assert(south == wrap_inc(row as int, self.height as int));
            assert(west == wrap_dec(column as int, self.width as int));
            assert(east == wrap_inc(column as int, self.width as int));
            assert(count == live_neighbors_wrapped(
                self.cells_view(),
                self.height as int,
                self.width as int,
                row as int,
                column as int,
            ));
            lemma_neighbor_count_formulations(
                self.cells_view(),
                self.height as int,
                self.width as int,
                row as int,
                column as int,
            );
        }
        count
    }

    /// A fresh all-dead grid of `width * height` cells.
    fn empty_cells(width: u32, height: u32) -> (r: FixedBitSet)
        requires
            width * height <= u32::MAX,
        ensures
            bit_seq(r).len() == width * height,
            forall|i: int| 0 <= i < width * height ==> !bit_seq(r)[i],
    {
        bitset_new((width * height) as usize)
    }

    /// The base seeding: cell `i` alive iff `i % 2 == 0 || i % 7 == 0`.
    fn base_cells(width: u32, height: u32) -> (r: FixedBitSet)
        requires
            width * height <= u32::MAX,
        ensures
            bit_seq(r).len() == width * height,
            forall|i: int| 0 <= i < width * height ==> bit_seq(r)[i] == base_alive(i),
    {
        let size: u32 = width * height;
        let mut cells = bitset_new(size as usize);
        let mut i: u32 = 0;
        while i < size
            invariant
                i <= size,
                bit_seq(cells).len() == size,
                forall|j: int| 0 <= j < i ==> bit_seq(cells)[j] == base_alive(j),
            decreases size - i,
        {
            let alive = i % 2 == 0 || i % 7 == 0;
            bitset_set(&mut cells, i as usize, alive);
            i += 1;
        }
        cells
    }

    /// The spaceship seeding: alive exactly at a fixed literal set of linear
    /// indices.
    fn spaceship_cells(width: u32, height: u32) -> (r: FixedBitSet)
        requires
            width * height <= u32::MAX,
        ensures
            bit_seq(r).len() == width * height,
            forall|i: int| 0 <= i < width * height ==> bit_seq(r)[i] == spaceship_alive(i),
    {
        let size: u32 = width * height;
        let mut cells = bitset_new(size as usize);
        let mut i: u32 = 0;
        while i < size
            invariant
                i <= size,
                bit_seq(cells).len() == size,
                forall|j: int| 0 <= j < i ==> bit_seq(cells)[j] == spaceship_alive(j),
            decreases size - i,
        {
            let alive = i == 70 || i == 73 || i == 106 || i == 134 || i == 138 || i == 167
                || i == 168 || i == 169 || i == 170;
            bitset_set(&mut cells, i as usize, alive);
            i += 1;
        }
        cells
    }

    /// The random seeding: each cell drawn independently from the external
    /// randomness source, so only the length is pinned down.
    fn random_cells(width: u32, height: u32) -> (r: FixedBitSet)
        requires
            width * height <= u32::MAX,
        ensures
            bit_seq(r).len() == width * height,
    {
        let size: u32 = width * height;
        let mut cells = bitset_new(size as usize);
        let mut i: u32 = 0;
        while i < size
            invariant
                i <= size,
                bit_seq(cells).len() == size,
            decreases size - i,
        {
            let alive = random_boolean();
            bitset_set(&mut cells, i as usize, alive);
            i += 1;
        }
        cells
    }

    /// A universe of the given dimensions, seeded by `state`.
    pub fn new_with_size(state: StartState, width: u32, height: u32) -> (u: Universe)
        requires
            1 <= width,
            1 <= height,
            width * height <= u32::MAX,
        ensures
            u.wf(),
            u.width == width,
            u.height == height,
            seeded(state, u.size(), u.cells_view()),
    {
        let cells = match state {
            StartState::Base => Self::base_cells(width, height),
            StartState::Spaceship => Self::spaceship_cells(width, height),
            StartState::Random => Self::random_cells(width, height),
            StartState::Empty => Self::empty_cells(width, height),
        };
        Universe { width, height, cells }
    }

    /// A 64-by-64 universe seeded by `state`.
    pub fn new(state: StartState) -> (u: Universe)
        ensures
            u.wf(),
            u.width == 64,
            u.height == 64,
            seeded(state, u.size(), u.cells_view()),
    {
        Self::new_with_size(state, 64, 64)
    }

    /// Advance one generation: every cell's next state is the transition rule
    /// applied to its current state and live-neighbor count, all read from a
    /// frozen snapshot of the grid; the fresh grid then atomically replaces
    /// the old one.
    #[verifier::rlimit(50)]
    pub fn tick(&mut self)
        requires
            old(self).wf(),
        ensures
            final(self).wf(),
            final(self).width == old(self).width,
            final(self).height == old(self).height,
            final(self).cells_view() == step_grid(
                old(self).cells_view(),
                old(self).height as int,
                old(self).width as int,
            ),
            forall|r: int, c: int|
                0 <= r < old(self).height && 0 <= c < old(self).width
                    ==> final(self).cells_view()[cell_index(old(self).width as int, r, c)]
                    == next_at(
                    old(self).cells_view(),
                    old(self).height as int,
                    old(self).width as int,
                    r,
                    c,
                ),
    {
        let ghost s0 = self.cells_view();
        let ghost h = self.height as int;
        let ghost w = self.width as int;
        let mut next = bitset_clone(&self.cells);
        let mut row: u32 = 0;
        while row < self.height
            invariant
                *self == *old(self),
                self.wf(),
                s0 == self.cells_view(),
                h == self.height as int,
                w == self.width as int,
                row <= self.height,
                bit_seq(next).len() == s0.len(),
                forall|r2: int, c2: int|
                    0 <= r2 < h && 0 <= c2 < w && r2 < row ==> bit_seq(next)[cell_index(
                        w,
                        r2,
                        c2,
                    )] == next_at(s0, h, w, r2, c2),
                forall|r2: int, c2: int|
                    0 <= r2 < h && 0 <= c2 < w && r2 >= row ==> bit_seq(next)[cell_index(
                        w,
                        r2,
                        c2,
                    )] == s0[cell_index(w, r2, c2)],
            decreases self.height - row,
        {
            let mut col: u32 = 0;
            while col < self.width
                invariant
                    *self == *old(self),
                    self.wf(),
                    s0 == self.cells_view(),
                    h == self.height as int,
                    w == self.width as int,
                    row < self.height,
                    col <= self.width,
                    bit_seq(next).len() == s0.len(),
                    forall|r2: int, c2: int|
                        0 <= r2 < h && 0 <= c2 < w && (r2 < row || (r2 == row && c2 < col))
                            ==> bit_seq(next)[cell_index(w, r2, c2)] == next_at(s0, h, w, r2, c2),
                    forall|r2: int, c2: int|
                        0 <= r2 < h && 0 <= c2 < w && (r2 > row || (r2 == row && c2 >= col))
                            ==> bit_seq(next)[cell_index(w, r2, c2)] == s0[cell_index(w, r2, c2)],
                decreases self.width - col,
            {
                let idx = self.get_index(row, col);
                let cell = self.is_alive(row, col);
                let count = self.live_neighbor_count(row, col);
                let cell_next = next_cell_state(cell, count);
                let ghost prev = bit_seq(next);
                bitset_set(&mut next, idx, cell_next);
                proof {
                    assert(cell_next == next_at(s0, h, w, row as int, col as int));
                    assert forall|r2: int, c2: int|
                        0 <= r2 < h && 0 <= c2 < w && (r2 < row || (r2 == row && c2 < col + 1))
                            implies bit_seq(next)[cell_index(w, r2, c2)] == next_at(
                        s0,
                        h,
                        w,
                        r2,
                        c2,
                    ) by {
                        lemma_index_bounds(h, w, r2, c2);
                        if r2 == row as int && c2 == col as int {
                            assert(bit_seq(next)[idx as int] == cell_next);
                        } else {
                            if cell_index(w, r2, c2) == idx as int {
                                lemma_index_injective(w, r2, c2, row as int, col as int);
                            }
                            assert(bit_seq(next)[cell_index(w, r2, c2)] == prev[cell_index(
                                w,
                                r2,
                                c2,
                            )]);
                        }
                    }
                    assert forall|r2: int, c2: int|
                        0 <= r2 < h && 0 <= c2 < w && (r2 > row || (r2 == row && c2 >= col + 1))
                            implies bit_seq(next)[cell_index(w, r2, c2)] == s0[cell_index(
                        w,
                        r2,
                        c2,
                    )] by {
                        lemma_index_bounds(h, w, r2, c2);
                        if cell_index(w, r2, c2) == idx as int {
                            lemma_index_injective(w, r2, c2, row as int, col as int);
                        }
                    }
                }
                col += 1;
            }
            row += 1;
        }
        proof {
            assert forall|k: int| 0 <= k < h * w implies bit_seq(next)[k] == step_grid(s0, h, w)[k]
                by {
                lemma_linear_index(h, w, k);
                assert(bit_seq(next)[cell_index(w, k / w, k % w)] == next_at(
                    s0,
                    h,
                    w,
                    k / w,
                    k % w,
                ));
            }
            assert(bit_seq(next) =~= step_grid(s0, h, w));
        }
        self.cells = next;
    }

    /// The number of columns.
    pub fn width(&self) -> (w: u32)
        ensures
            w == self.width,
    {
        self.width
    }

    /// The number of rows.
    pub fn height(&self) -> (h: u32)
        ensures
            h == self.height,
    {
        self.height
    }

    /// Set the width of the universe. Destructive: the grid is reallocated to
    /// the new `width * height` and every cell is reset to dead; the height
    /// is unchanged.
    pub fn set_width(&mut self, width: u32)
        requires
            old(self).wf(),
            1 <= width,
            width * old(self).height <= u32::MAX,
        ensures
            final(self).wf(),
            final(self).width == width,
            final(self).height == old(self).height,
            final(self).cells_view().len() == width * old(self).height,
            forall|i: int| 0 <= i < width * old(self).height ==> !final(self).cells_view()[i],
    {
        self.width = width;
        self.cells = Self::empty_cells(width, self.height);
    }

    /// Set the height of the universe. Destructive: the grid is reallocated
    /// to the new `width * height` and every cell is reset to dead; the width
    /// is unchanged.
    pub fn set_height(&mut self, height: u32)
        requires
            old(self).wf(),
            1 <= height,
            old(self).width * height <= u32::MAX,
        ensures
            final(self).wf(),
            final(self).width == old(self).width,
            final(self).height == height,
            final(self).cells_view().len() == old(self).width * height,
            forall|i: int| 0 <= i < old(self).width * height ==> !final(self).cells_view()[i],
    {
        self.height = height;
        self.cells = Self::empty_cells(self.width, height);
    }

    /// Flip exactly one cell's state, leaving every other cell unchanged.
    pub fn toggle_cell(&mut self, row: u32, column: u32)
        requires
            old(self).wf(),
            row < old(self).height,
            column < old(self).width,
        ensures
            final(self).wf(),
            final(self).width == old(self).width,
            final(self).height == old(self).height,
            final(self).cells_view() == toggled(
                old(self).cells_view(),
                cell_index(old(self).width as int, row as int, column as int),
            ),
    {
        let idx = self.get_index(row, column);
        let value = bitset_contains(&self.cells, idx);
        bitset_set(&mut self.cells, idx, !value);
    }

    /// Reset the universe in place: `Random` reseeds every cell from the
    /// external randomness source and `Empty` clears every cell; the other
    /// modes are deliberately no-ops under reset.
    pub fn reset(&mut self, state: StartState)
        requires
            old(self).wf(),
        ensures
            final(self).wf(),
            final(self).width == old(self).width,
            final(self).height == old(self).height,
            final(self).cells_view().len() == old(self).cells_view().len(),
            state is Empty ==> forall|i: int|
                0 <= i < final(self).size() ==> !final(self).cells_view()[i],
            state is Base ==> final(self).cells_view() == old(self).cells_view(),
            state is Spaceship ==> final(self).cells_view() == old(self).cells_view(),
    {
        match state {
            StartState::Random => {
                self.cells = Self::random_cells(self.width, self.height);
            },
            StartState::Empty => {
                self.cells = Self::empty_cells(self.width, self.height);
            },
            _ => {
            },
        }
    }

    /// Mark each listed `(row, col)` coordinate alive. Additive: coordinates
    /// not listed keep their state.
    pub fn set_cells(&mut self, cells: &[(u32, u32)])
        requires
            old(self).wf(),
            forall|k: int|
                0 <= k < cells@.len() ==> (#[trigger] cells@[k]).0 < old(self).height
                    && cells@[k].1 < old(self).width,
        ensures
            final(self).wf(),
            final(self).width == old(self).width,
            final(self).height == old(self).height,
            final(self).cells_view().len() == old(self).cells_view().len(),
            forall|i: int|
                0 <= i < old(self).cells_view().len() ==> final(self).cells_view()[i]
                    == (old(self).cells_view()[i] || exists|k: int|
                    0 <= k < cells@.len() && i == cell_index(
                        old(self).width as int,
                        (#[trigger] cells@[k]).0 as int,
                        cells@[k].1 as int,
                    )),
    {
        let ghost w = self.width as int;
        let mut k: usize = 0;
        while k < cells.len()
            invariant
                self.wf(),
                self.width == old(self).width,
                self.height == old(self).height,
                self.cells_view().len() == old(self).cells_view().len(),
                w == self.width as int,
                k <= cells@.len(),
                forall|k2: int|
                    0 <= k2 < cells@.len() ==> (#[trigger] cells@[k2]).0 < self.height
                        && cells@[k2].1 < self.width,
                forall|i: int|
                    0 <= i < old(self).cells_view().len() ==> self.cells_view()[i]
                        == (old(self).cells_view()[i] || exists|k2: int|
                        0 <= k2 < k && i == cell_index(
                            w,
                            (#[trigger] cells@[k2]).0 as int,
                            cells@[k2].1 as int,
                        )),
            decreases cells@.len() - k,
        {
            let pair = cells[k];
            let idx = self.get_index(pair.0, pair.1);
            let ghost prev = self.cells_view();
            bitset_set(&mut self.cells, idx, true);
            proof {
                assert forall|i: int| 0 <= i < old(self).cells_view().len() implies self.cells_view()[i]
                    == (old(self).cells_view()[i] || exists|k2: int|
                    0 <= k2 < k + 1 && i == cell_index(
                        w,
                        (#[trigger] cells@[k2]).0 as int,
                        cells@[k2].1 as int,
                    )) by {
                    if i == idx as int {
                        assert(self.cells_view()[i]);
                        assert(i == cell_index(w, (cells@[k as int]).0 as int, cells@[k as int].1 as int));
                    } else {
                        assert(self.cells_view()[i] == prev[i]);
                        if exists|k2: int|
                            0 <= k2 < k + 1 && i == cell_index(
                                w,
                                (#[trigger] cells@[k2]).0 as int,
                                cells@[k2].1 as int,
                            ) {
                            let k2 = choose|k2: int|
                                0 <= k2 < k + 1 && i == cell_index(
                                    w,
                                    (#[trigger] cells@[k2]).0 as int,
                                    cells@[k2].1 as int,
                                );
                            assert(k2 < k);
                        }
                    }
                }
            }
            k += 1;
        }
    }

    /// Overlay a square boolean stencil onto the grid with its origin at
    /// `(row, col)`: the value at stencil position `[j][i]` is written to grid
    /// cell `(row + i, col + j)` — the stencil's row and column roles are
    /// transposed relative to its literal layout. No wraparound is applied, so
    /// the stencil must fit inside the grid.
    pub fn insert_pattern(&mut self, row: u32, col: u32, values: Vec<Vec<bool>>)
        requires
            old(self).wf(),
            row + values@.len() <= old(self).height,
            col + values@.len() <= old(self).width,
            forall|j: int| 0 <= j < values@.len() ==> (#[trigger] values@[j])@.len() == values@.len(),
        ensures
            final(self).wf(),
            final(self).width == old(self).width,
            final(self).height == old(self).height,
            final(self).cells_view().len() == old(self).cells_view().len(),
            forall|i: int, j: int|
                0 <= i < values@.len() && 0 <= j < values@.len()
                    ==> final(self).cells_view()[cell_index(
                    old(self).width as int,
                    row + i,
                    col + j,
                )] == values@[j]@[i],
            forall|r2: int, c2: int|
                0 <= r2 < old(self).height && 0 <= c2 < old(self).width && !(row <= r2 < row
                    + values@.len() && col <= c2 < col + values@.len())
                    ==> final(self).cells_view()[cell_index(old(self).width as int, r2, c2)]
                    == old(self).cells_view()[cell_index(old(self).width as int, r2, c2)],
    {
        let ghost s0 = self.cells_view();
        let ghost h = self.height as int;
        let ghost w = self.width as int;
        let ghost n = values@.len() as int;
        let mut i: usize = 0;
        while i < values.len()
            invariant
                self.wf(),
                self.width == old(self).width,
                self.height == old(self).height,
                self.cells_view().len() == s0.len(),
                s0 == old(self).cells_view(),
                h == self.height as int,
                w == self.width as int,
                n == values@.len(),
                row + n <= self.height,
                col + n <= self.width,
                forall|j2: int| 0 <= j2 < n ==> (#[trigger] values@[j2])@.len() == n,
                i <= n,
                forall|i2: int, j2: int|
                    0 <= i2 < i && 0 <= j2 < n ==> self.cells_view()[cell_index(
                        w,
                        row + i2,
                        col + j2,
                    )] == values@[j2]@[i2],
                forall|r2: int, c2: int|
                    0 <= r2 < h && 0 <= c2 < w && !(row <= r2 < row + i && col <= c2 < col + n)
                        ==> self.cells_view()[cell_index(w, r2, c2)] == s0[cell_index(w, r2, c2)],
            decreases n - i,
        {
            let mut j: usize = 0;
            while j < values.len()
                invariant
                    self.wf(),
                    self.width == old(self).width,
                    self.height == old(self).height,
                    self.cells_view().len() == s0.len(),
                    s0 == old(self).cells_view(),
                    h == self.height as int,
                    w == self.width as int,
                    n == values@.len(),
                    row + n <= self.height,
                    col + n <= self.width,
                    forall|j2: int| 0 <= j2 < n ==> (#[trigger] values@[j2])@.len() == n,
                    0 <= i < n,
                    j <= n,
                    forall|i2: int, j2: int|
                        0 <= i2 < i && 0 <= j2 < n ==> self.cells_view()[cell_index(
                            w,
                            row + i2,
                            col + j2,
                        )] == values@[j2]@[i2],
                    forall|j2: int|
                        0 <= j2 < j ==> self.cells_view()[cell_index(w, row + i, col + j2)]
                            == values@[j2]@[i as int],
                    forall|r2: int, c2: int|
                        0 <= r2 < h && 0 <= c2 < w && !(row <= r2 < row + i && col <= c2 < col + n)
                            && !(r2 == row + i && col <= c2 < col + j) ==> self.cells_view()[
                        cell_index(w, r2, c2)
                        ] == s0[cell_index(w, r2, c2)],
                decreases n - j,
            {
                let v = values[j][i];
                let gr: u32 = row + (i as u32);
                let gc: u32 = col + (j as u32);
                let idx = self.get_index(gr, gc);
                let ghost prev = self.cells_view();
                bitset_set(&mut self.cells, idx, v);
                proof {
                    assert forall|i2: int, j2: int|
                        0 <= i2 < i && 0 <= j2 < n implies self.cells_view()[cell_index(
                        w,
                        row + i2,
                        col + j2,
                    )] == values@[j2]@[i2] by {
                        lemma_index_bounds(h, w, row + i2, col + j2);
                        if cell_index(w, row + i2, col + j2) == idx as int {
                            lemma_index_injective(w, row + i2, col + j2, gr as int, gc as int);
                        }
                    }
                    assert forall|j2: int|
                        0 <= j2 < j + 1 implies self.cells_view()[cell_index(w, row + i, col + j2)]
                        == values@[j2]@[i as int] by {
                        lemma_index_bounds(h, w, row + i, col + j2);
                        if j2 == j {
                            assert(self.cells_view()[idx as int] == v);
                        } else if cell_index(w, row + i, col + j2) == idx as int {
                            lemma_index_injective(w, row + i, col + j2, gr as int, gc as int);
                        }
                    }
                    assert forall|r2: int, c2: int|
                        0 <= r2 < h && 0 <= c2 < w && !(row <= r2 < row + i && col <= c2 < col + n)
                            && !(r2 == row + i && col <= c2 < col + (j + 1)) implies self.cells_view()[
                        cell_index(w, r2, c2)
                        ] == s0[cell_index(w, r2, c2)] by {
                        lemma_index_bounds(h, w, r2, c2);
                        if cell_index(w, r2, c2) == idx as int {
                            lemma_index_injective(w, r2, c2, gr as int, gc as int);
                        }
                    }
                }
                j += 1;
            }
            i += 1;
        }
    }

    /// Overlay the three-by-three glider stencil with its origin at
    /// `(row, col)`; every cell outside that square is unchanged.
    pub fn insert_glider(&mut self, row: u32, col: u32)
        requires
            old(self).wf(),
            row + GLIDER_SIZE <= old(self).height,
            col + GLIDER_SIZE <= old(self).width,
        ensures
            final(self).wf(),
            final(self).width == old(self).width,
            final(self).height == old(self).height,
            final(self).cells_view().len() == old(self).cells_view().len(),
            forall|i: int, j: int|
                0 <= i < GLIDER_SIZE && 0 <= j < GLIDER_SIZE
                    ==> final(self).cells_view()[cell_index(
                    old(self).width as int,
                    row + i,
                    col + j,
                )] == glider_alive(i, j),
            forall|r2: int, c2: int|
                0 <= r2 < old(self).height && 0 <= c2 < old(self).width && !(row <= r2 < row
                    + GLIDER_SIZE && col <= c2 < col + GLIDER_SIZE)
                    ==> final(self).cells_view()[cell_index(old(self).width as int, r2, c2)]
                    == old(self).cells_view()[cell_index(old(self).width as int, r2, c2)],
    {
        let values = glider_stencil();
        self.insert_pattern(row, col, values);
    }

    /// Overlay the thirteen-by-thirteen pulsar stencil with its origin at
    /// `(row, col)`; every cell outside that square is unchanged.
    pub fn insert_pulsar(&mut self, row: u32, col: u32)
        requires
            old(self).wf(),
            row + PULSAR_SIZE <= old(self).height,
            col + PULSAR_SIZE <= old(self).width,
        ensures
            final(self).wf(),
            final(self).width == old(self).width,
            final(self).height == old(self).height,
            final(self).cells_view().len() == old(self).cells_view().len(),
            forall|i: int, j: int|
                0 <= i < PULSAR_SIZE && 0 <= j < PULSAR_SIZE
                    ==> final(self).cells_view()[cell_index(
                    old(self).width as int,
                    row + i,
                    col + j,
                )] == pulsar_alive(i, j),
            forall|r2: int, c2: int|
                0 <= r2 < old(self).height && 0 <= c2 < old(self).width && !(row <= r2 < row
                    + PULSAR_SIZE && col <= c2 < col + PULSAR_SIZE)
                    ==> final(self).cells_view()[cell_index(old(self).width as int, r2, c2)]
                    == old(self).cells_view()[cell_index(old(self).width as int, r2, c2)],
    {
        let values = pulsar_stencil();
        self.insert_pattern(row, col, values);
    }

    /// The dead and alive values of the entire universe, as the bit-packed
    /// store itself, for zero-copy bulk reads.
    pub fn get_cells(&self) -> (r: &FixedBitSet)
        ensures
            bit_seq(*r) == self.cells_view(),
    {
        &self.cells
    }
}

} // verus!
