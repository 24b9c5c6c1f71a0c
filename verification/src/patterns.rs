//! The named stencil patterns: the glider and the pulsar.
//!
//! A stencil is a square boolean matrix overlaid onto the grid by
//! [`crate::universe::Universe::insert_pattern`], which writes stencil
//! position `[j][i]` to grid cell `(row + i, col + j)`. The spec functions
//! here describe each pattern directly in grid offsets: `glider_alive(i, j)`
//! is the value the insertion writes to grid cell `(row + i, col + j)`.

use vstd::prelude::*;

verus! {

/// The glider, by grid offsets: the value written to grid cell
/// `(row + i, col + j)` when the glider is inserted at `(row, col)`.
pub open spec fn glider_alive(i: int, j: int) -> bool {
    ||| (i == 1 && j == 0)
    ||| (i == 2 && j == 1)
    ||| (i == 0 && j == 2)
    ||| (i == 1 && j == 2)
    ||| (i == 2 && j == 2)
}

/// The glider's side length.
pub const GLIDER_SIZE: u32 = 3;

/// Positions of the pulsar's horizontal bars along one axis.
pub open spec fn pulsar_bar(x: int) -> bool {
    x == 0 || x == 5 || x == 7 || x == 12
}

/// Positions of the pulsar's three-cell segments along one axis.
pub open spec fn pulsar_segment(x: int) -> bool {
    x == 2 || x == 3 || x == 4 || x == 8 || x == 9 || x == 10
}

/// The pulsar, by grid offsets: the value written to grid cell
/// `(row + i, col + j)` when the pulsar is inserted at `(row, col)`.
pub open spec fn pulsar_alive(i: int, j: int) -> bool {
    (pulsar_bar(j) && pulsar_segment(i)) || (pulsar_segment(j) && pulsar_bar(i))
}

/// The pulsar's side length.
pub const PULSAR_SIZE: u32 = 13;

/// One row of the glider stencil: the values written to grid cells
/// `(row + 0 .. row + 3, col + j)`.
pub(crate) fn glider_row(j: u32) -> (r: Vec<bool>)
    requires
        j < GLIDER_SIZE,
    ensures
        r@.len() == GLIDER_SIZE,
        forall|i: int| 0 <= i < GLIDER_SIZE ==> r@[i] == glider_alive(i, j as int),
{
    let mut r: Vec<bool> = Vec::new();
    let mut i: u32 = 0;
    while i < GLIDER_SIZE
        invariant
            i <= GLIDER_SIZE,
            r@.len() == i,
            forall|i2: int| 0 <= i2 < i ==> r@[i2] == glider_alive(i2, j as int),
        decreases GLIDER_SIZE - i,
    {
        let alive = (i == 1 && j == 0) || (i == 2 && j == 1) || (i == 0 && j == 2) || (i == 1 && j
            == 2) || (i == 2 && j == 2);
        r.push(alive);
        i += 1;
    }
    r
}

/// One row of the pulsar stencil: the values written to grid cells
/// `(row + 0 .. row + 13, col + j)`.
pub(crate) fn pulsar_row(j: u32) -> (r: Vec<bool>)
    requires
        j < PULSAR_SIZE,
    ensures
        r@.len() == PULSAR_SIZE,
        forall|i: int| 0 <= i < PULSAR_SIZE ==> r@[i] == pulsar_alive(i, j as int),
{
    let bar_j = j == 0 || j == 5 || j == 7 || j == 12;
    let segment_j = j == 2 || j == 3 || j == 4 || j == 8 || j == 9 || j == 10;
    let mut r: Vec<bool> = Vec::new();
    let mut i: u32 = 0;
    while i < PULSAR_SIZE
        invariant
            i <= PULSAR_SIZE,
            r@.len() == i,
            bar_j == pulsar_bar(j as int),
            segment_j == pulsar_segment(j as int),
            forall|i2: int| 0 <= i2 < i ==> r@[i2] == pulsar_alive(i2, j as int),
        decreases PULSAR_SIZE - i,
    {
        let bar_i = i == 0 || i == 5 || i == 7 || i == 12;
        let segment_i = i == 2 || i == 3 || i == 4 || i == 8 || i == 9 || i == 10;
        r.push((bar_j && segment_i) || (segment_j && bar_i));
        i += 1;
    }
    r
}

/// The glider stencil, laid out for `insert_pattern`: stencil position
/// `[j][i]` holds the value for grid cell `(row + i, col + j)`.
pub(crate) fn glider_stencil() -> (values: Vec<Vec<bool>>)
    ensures
        values@.len() == GLIDER_SIZE,
        forall|j: int| 0 <= j < GLIDER_SIZE ==> (#[trigger] values@[j])@.len() == GLIDER_SIZE,
        forall|i: int, j: int|
            0 <= i < GLIDER_SIZE && 0 <= j < GLIDER_SIZE ==> values@[j]@[i] == glider_alive(i, j),
{
    let mut values: Vec<Vec<bool>> = Vec::new();
    let mut j: u32 = 0;
    while j < GLIDER_SIZE
        invariant
            j <= GLIDER_SIZE,
            values@.len() == j,
            forall|j2: int| 0 <= j2 < j ==> (#[trigger] values@[j2])@.len() == GLIDER_SIZE,
            forall|i2: int, j2: int|
                0 <= i2 < GLIDER_SIZE && 0 <= j2 < j ==> values@[j2]@[i2] == glider_alive(i2, j2),
        decreases GLIDER_SIZE - j,
    {
        values.push(glider_row(j));
        j += 1;
    }
    values
}

/// The pulsar stencil, laid out as `glider_stencil` is.
pub(crate) fn pulsar_stencil() -> (values: Vec<Vec<bool>>)
    ensures
        values@.len() == PULSAR_SIZE,
        forall|j: int| 0 <= j < PULSAR_SIZE ==> (#[trigger] values@[j])@.len() == PULSAR_SIZE,
        forall|i: int, j: int|
            0 <= i < PULSAR_SIZE && 0 <= j < PULSAR_SIZE ==> values@[j]@[i] == pulsar_alive(i, j),
{
    let mut values: Vec<Vec<bool>> = Vec::new();
    let mut j: u32 = 0;
    while j < PULSAR_SIZE
        invariant
            j <= PULSAR_SIZE,
            values@.len() == j,
            forall|j2: int| 0 <= j2 < j ==> (#[trigger] values@[j2])@.len() == PULSAR_SIZE,
            forall|i2: int, j2: int|
                0 <= i2 < PULSAR_SIZE && 0 <= j2 < j ==> values@[j2]@[i2] == pulsar_alive(i2, j2),
        decreases PULSAR_SIZE - j,
    {
        values.push(pulsar_row(j));
        j += 1;
    }
    values
}

} // verus!
