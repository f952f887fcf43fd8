//! Geometry of the arena grid: squares of cells, and the row-major index
//! of a cell.

use crate::engine::types::Coordinate;
use vstd::arithmetic::div_mod::lemma_fundamental_div_mod_converse;
use vstd::prelude::*;

verus! {

/// Whether the square of side `side` anchored at (`ax`, `ay`) covers the
/// cell (`x`, `y`).
pub open spec fn covers(ax: int, ay: int, side: int, x: int, y: int) -> bool {
    &&& ax <= x < ax + side
    &&& ay <= y < ay + side
}

/// The occupancy table after the square of side `side` anchored at
/// (`ax`, `ay`) was gone through on a grid `width` cells wide: a cell of the
/// square takes `value`, unless `only_held` asks to touch only the cells
/// that hold `actor_id` and it holds something else.
pub open spec fn square_filled(
    map: Seq<Option<usize>>,
    width: int,
    ax: int,
    ay: int,
    side: int,
    actor_id: usize,
    value: Option<usize>,
    only_held: bool,
) -> Seq<Option<usize>> {
    Seq::new(
        map.len(),
        |i: int|
            if covers(ax, ay, side, i % width, i / width) && (!only_held || map[i] == Some(
                actor_id,
            )) {
                value
            } else {
                map[i]
            },
    )
}

/// On a grid `width` cells wide, the cell (`x`, `y`) has index
/// `x + y * width`, and that index leads back to the cell.
pub proof fn lemma_cell_index(width: int, x: int, y: int)
    requires
        0 <= x < width,
        0 <= y,
    ensures
        (x + y * width) % width == x,
        (x + y * width) / width == y,
        0 <= x + y * width,
{
    assert(x + y * width == y * width + x);
    lemma_fundamental_div_mod_converse(x + y * width, width, y, x);
    assert(0 <= y * width) by (nonlinear_arith)
        requires
            0 <= y,
            0 < width,
    ;
}

/// A cell inside a grid of `width` by `height` cells has an index below
/// the number of cells.
pub proof fn lemma_cell_index_bound(width: int, height: int, x: int, y: int)
    requires
        0 <= x < width,
        0 <= y < height,
    ensures
        0 <= x + y * width < width * height,
{
    assert(x + y * width < width * height && 0 <= x + y * width) by (nonlinear_arith)
        requires
            0 <= x < width,
            0 <= y < height,
    ;
}

/// An index below the number of cells of a grid belongs to a cell inside it.
pub proof fn lemma_index_cell(width: int, height: int, i: int)
    requires
        0 <= i < width * height,
        0 < width,
    ensures
        0 <= i % width < width,
        0 <= i / width < height,
        i == i % width + (i / width) * width,
{
    vstd::arithmetic::div_mod::lemma_fundamental_div_mod(i, width);
    vstd::arithmetic::div_mod::lemma_mod_bound(i, width);
    let q = i / width;
    let r = i % width;
    assert(i == width * q + r);
    assert(q >= 0 && q < height) by (nonlinear_arith)
        requires
            i == width * q + r,
            0 <= r < width,
            0 <= i < width * height,
    ;
    assert(width * q == q * width) by (nonlinear_arith);
}

/// The address of the cell (`x`, `y`).
pub open spec fn cell_at(x: int, y: int) -> Coordinate {
    Coordinate { x: x as isize, y: y as isize }
}

} // verus!
