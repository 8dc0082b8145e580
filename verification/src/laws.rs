//! What holds of every tick, whatever the grid and whichever way blocked
//! grains slide.

use vstd::prelude::*;
use crate::grid::{
    Cell,
    empty_at,
    filled_at,
    grain_count,
    in_grid,
    lemma_count_with_cell,
    rectangular,
    with_cell,
};
use crate::rule::{
    Direction,
    collides,
    collision_free,
    destination,
    falls,
    grid_during,
    lemma_scan_cell,
    lemma_scan_column_end,
    lemma_scan_end,
    lemma_scan_start,
    moves,
    scanned,
    slides,
    stepped,
};

verus! {

/// Whether every grain rests: it lies in the bottom row, or on another grain
/// with no empty cell diagonally below it on either side.
pub open spec fn settled(g: Seq<Seq<Cell>>) -> bool {
    forall|x: int, y: int|
        #[trigger] filled_at(g, x, y) && y > 0 ==> filled_at(g, x, y - 1) && !empty_at(
            g,
            x - 1,
            y - 1,
        ) && !empty_at(g, x + 1, y - 1)
}

/// Whether no grain moves when blocked grains slide towards `dir`.
pub open spec fn at_rest(g: Seq<Seq<Cell>>, dir: Direction) -> bool {
    forall|x: int, y: int| !#[trigger] moves(g, dir, x, y)
}

/// A tick keeps the shape of the grid.
pub proof fn lemma_step_keeps_shape(g: Seq<Seq<Cell>>, dir: Direction, rows: nat, cols: nat)
    requires
        rectangular(g, rows, cols),
    ensures
        rectangular(stepped(g, dir), rows, cols),
{
}

/// The bottom row is the floor: a grain in row `y == 0` does not move, and
/// after the tick it is still there.
pub proof fn lemma_bottom_row_stays(g: Seq<Seq<Cell>>, dir: Direction, x: int)
    requires
        filled_at(g, x, 0),
    ensures
        !moves(g, dir, x, 0),
        stepped(g, dir)[x][0] == g[x][0],
{
}

/// A grain that moves goes down by exactly one row and stays inside the
/// grid: nothing ever moves below row `y == 0`.
pub proof fn lemma_moves_stay_in_grid(g: Seq<Seq<Cell>>, dir: Direction, x: int, y: int)
    requires
        moves(g, dir, x, y),
    ensures
        y >= 1,
        destination(g, dir, x, y).1 == y - 1,
        in_grid(g, destination(g, dir, x, y).0, destination(g, dir, x, y).1),
        empty_at(g, destination(g, dir, x, y).0, destination(g, dir, x, y).1),
{
}

/// A grid in which every grain rests is a fixed point of the tick.
pub proof fn lemma_settled_is_fixed_point(g: Seq<Seq<Cell>>, dir: Direction)
    requires
        settled(g),
    ensures
        at_rest(g, dir),
        stepped(g, dir) == g,
{
    assert forall|x: int, y: int| !#[trigger] moves(g, dir, x, y) by {
        if filled_at(g, x, y) && y > 0 {
            assert(filled_at(g, x, y - 1));
        }
    }
    lemma_fixed_point_iff_at_rest(g, dir);
}

/// The fixed points of the tick are exactly the grids in which no grain
/// moves.
pub proof fn lemma_fixed_point_iff_at_rest(g: Seq<Seq<Cell>>, dir: Direction)
    ensures
        stepped(g, dir) == g <==> at_rest(g, dir),
{
    if at_rest(g, dir) {
        assert forall|x: int, y: int| in_grid(g, x, y) implies #[trigger] stepped(g, dir)[x][y]
            == g[x][y] by {
            assert(!moves(g, dir, x, y));
            assert(!moves(g, dir, x, y + 1));
            assert(!moves(g, dir, x - dir.offset(), y + 1));
        }
        assert(stepped(g, dir) =~~= g);
    }
    if stepped(g, dir) == g {
        assert forall|x: int, y: int| !#[trigger] moves(g, dir, x, y) by {
            if moves(g, dir, x, y) {
                assert(stepped(g, dir)[x][y] == Cell::Empty);
            }
        }
    }
}

/// Falling comes first. A grain with an empty cell below it leaves its cell
/// and heads straight down, never diagonally, whatever lies to either side.
/// The cell below it holds a grain after the tick: this one, unless blocked
/// grains slide left and one slides in from the right, which is scanned later
/// and takes the cell.
pub proof fn lemma_fall_has_priority(g: Seq<Seq<Cell>>, dir: Direction, x: int, y: int)
    requires
        filled_at(g, x, y),
        empty_at(g, x, y - 1),
    ensures
        falls(g, x, y),
        !slides(g, dir, x, y),
        destination(g, dir, x, y) == (x, y - 1),
        stepped(g, dir)[x][y] == Cell::Empty,
        stepped(g, dir)[x][y - 1] is Filled,
        dir == Direction::Right || !collides(g, dir, x, y - 1) ==> stepped(g, dir)[x][y - 1]
            == g[x][y],
        dir == Direction::Left && collides(g, dir, x, y - 1) ==> stepped(g, dir)[x][y - 1] == g[x
            + 1][y],
{
}

/// The later of the two sources of a collision in the cell `(x, y)`: the one
/// with the greater `x`, which takes the cell.
spec fn later_source(dir: Direction, x: int, y: int) -> (int, int) {
    match dir {
        Direction::Right => (x, y + 1),
        Direction::Left => (x + 1, y + 1),
    }
}

/// Where the scan stands, the count has not grown; it is what it was as long
/// as no two grains head for the same cell; and it has shrunk once the scan
/// has passed the later source of a collision in `(cx, cy)`.
proof fn lemma_count_during_scan(
    g: Seq<Seq<Cell>>,
    dir: Direction,
    at_x: int,
    at_y: int,
    cx: int,
    cy: int,
)
    requires
        0 <= at_x <= g.len(),
        at_x < g.len() ==> 0 <= at_y <= g[at_x].len(),
        at_x == g.len() ==> at_y == 0,
    ensures
        grain_count(grid_during(g, dir, at_x, at_y)) <= grain_count(g),
        collision_free(g, dir) ==> grain_count(grid_during(g, dir, at_x, at_y)) == grain_count(g),
        collides(g, dir, cx, cy) && scanned(
            later_source(dir, cx, cy).0,
            later_source(dir, cx, cy).1,
            at_x,
            at_y,
        ) ==> grain_count(grid_during(g, dir, at_x, at_y)) < grain_count(g),
    decreases at_x, at_y,
{
    if at_y > 0 {
        let y = at_y - 1;
        lemma_count_during_scan(g, dir, at_x, y, cx, cy);
        lemma_scan_cell(g, dir, at_x, y);
        if moves(g, dir, at_x, y) {
            let before = grid_during(g, dir, at_x, y);
            let (tx, ty) = destination(g, dir, at_x, y);
            assert(before[at_x][y] == g[at_x][y]);
            lemma_count_with_cell(before, tx, ty, g[at_x][y]);
            let landed = with_cell(before, tx, ty, g[at_x][y]);
            assert(landed[at_x][y] == g[at_x][y]);
            lemma_count_with_cell(landed, at_x, y, Cell::Empty);
            if collision_free(g, dir) {
                assert(!collides(g, dir, tx, ty));
                assert(before[tx][ty] is Empty);
            }
            if collides(g, dir, cx, cy) && later_source(dir, cx, cy) == (at_x, y) {
                assert((tx, ty) == (cx, cy));
                assert(before[tx][ty] is Filled);
            }
        }
    } else if at_x > 0 {
        lemma_count_during_scan(g, dir, at_x - 1, g[at_x - 1].len() as int, cx, cy);
        lemma_scan_column_end(g, dir, at_x - 1);
    } else {
        lemma_scan_start(g, dir);
    }
}

/// Mass is conserved: as long as no two grains head for the same cell, the
/// grid holds as many grains after the tick as before.
pub proof fn lemma_mass_conserved(g: Seq<Seq<Cell>>, dir: Direction)
    requires
        collision_free(g, dir),
    ensures
        grain_count(stepped(g, dir)) == grain_count(g),
{
    lemma_count_during_scan(g, dir, g.len() as int, 0, 0, 0);
    lemma_scan_end(g, dir);
}

/// A tick never makes a grain.
pub proof fn lemma_mass_never_grows(g: Seq<Seq<Cell>>, dir: Direction)
    ensures
        grain_count(stepped(g, dir)) <= grain_count(g),
{
    lemma_count_during_scan(g, dir, g.len() as int, 0, 0, 0);
    lemma_scan_end(g, dir);
}

/// Where two grains head for the same cell, one of them is lost: the grid
/// holds fewer grains after the tick than before.
pub proof fn lemma_collision_loses_a_grain(g: Seq<Seq<Cell>>, dir: Direction, x: int, y: int)
    requires
        collides(g, dir, x, y),
    ensures
        grain_count(stepped(g, dir)) < grain_count(g),
{
    lemma_count_during_scan(g, dir, g.len() as int, 0, x, y);
    lemma_scan_end(g, dir);
}

} // verus!
