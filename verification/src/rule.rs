//! The rule of one tick: which grains move, where they go, and the grid that
//! results.
//!
//! A grain with an empty cell below it falls. A grain that is blocked below
//! slides down to one side, the side drawn for this tick, if the cell there
//! is empty. Every decision is taken on the grid as it stood before the tick.
//! Grains are moved in scan order, `x` ascending and within a column `y`
//! ascending, so where two grains head for the same cell the one scanned
//! later takes it and the other is lost.

use vstd::prelude::*;
use crate::grid::{Cell, Grid, empty_at, filled_at, in_grid, rectangular, with_cell};

verus! {

/// The side to which blocked grains slide during one tick.
#[derive(Clone, Copy, Debug, PartialEq, Eq, Structural)]
pub enum Direction {
    Left,
    Right,
}

impl Direction {
    /// The change in `x` of a grain that slides this way.
    pub open spec fn offset(self) -> int {
        match self {
            Direction::Left => -1,
            Direction::Right => 1,
        }
    }

    /// The direction that a coin stands for: heads is right, tails is left.
    pub open spec fn of_coin(heads: bool) -> Direction {
        if heads {
            Direction::Right
        } else {
            Direction::Left
        }
    }

    /// Turns a coin into a direction: heads is right, tails is left.
    pub fn from_coin(heads: bool) -> (dir: Direction)
        ensures
            dir == Direction::of_coin(heads),
    {
        if heads {
            Direction::Right
        } else {
            Direction::Left
        }
    }
}

/// Whether the grain at `(x, y)` falls straight down: the cell below it is
/// empty.
pub open spec fn falls(g: Seq<Seq<Cell>>, x: int, y: int) -> bool {
    filled_at(g, x, y) && empty_at(g, x, y - 1)
}

/// Whether the grain at `(x, y)` slides down to the side `dir`: it is blocked
/// below, and the cell diagonally below it on that side is empty.
pub open spec fn slides(g: Seq<Seq<Cell>>, dir: Direction, x: int, y: int) -> bool {
    filled_at(g, x, y) && filled_at(g, x, y - 1) && empty_at(g, x + dir.offset(), y - 1)
}

/// Whether the grain at `(x, y)` moves at all.
pub open spec fn moves(g: Seq<Seq<Cell>>, dir: Direction, x: int, y: int) -> bool {
    falls(g, x, y) || slides(g, dir, x, y)
}

/// The cell that the grain at `(x, y)` heads for: straight below if it falls,
/// diagonally below if it slides, its own cell if it stays.
pub open spec fn destination(g: Seq<Seq<Cell>>, dir: Direction, x: int, y: int) -> (int, int) {
    if falls(g, x, y) {
        (x, y - 1)
    } else if slides(g, dir, x, y) {
        (x + dir.offset(), y - 1)
    } else {
        (x, y)
    }
}

/// Whether two grains head for the empty cell `(x, y)`: one falling from
/// above and one sliding in from the side.
pub open spec fn collides(g: Seq<Seq<Cell>>, dir: Direction, x: int, y: int) -> bool {
    falls(g, x, y + 1) && slides(g, dir, x - dir.offset(), y + 1)
}

/// Whether no two grains head for the same cell.
pub open spec fn collision_free(g: Seq<Seq<Cell>>, dir: Direction) -> bool {
    forall|x: int, y: int| !#[trigger] collides(g, dir, x, y)
}

/// The cell from which a grain arrives in the empty cell `(x, y)`, if any.
/// Of a grain falling from above and one sliding in from the side, the one
/// with the greater `x` is scanned later and stays.
pub open spec fn arrival(g: Seq<Seq<Cell>>, dir: Direction, x: int, y: int) -> Option<(int, int)> {
    let above = falls(g, x, y + 1);
    let aside = slides(g, dir, x - dir.offset(), y + 1);
    match dir {
        Direction::Right => if above {
            Some((x, y + 1))
        } else if aside {
            Some((x - 1, y + 1))
        } else {
            None
        },
        Direction::Left => if aside {
            Some((x + 1, y + 1))
        } else if above {
            Some((x, y + 1))
        } else {
            None
        },
    }
}

/// What the cell `(x, y)` holds after one tick.
pub open spec fn next_cell(g: Seq<Seq<Cell>>, dir: Direction, x: int, y: int) -> Cell {
    if g[x][y] is Filled {
        if moves(g, dir, x, y) {
            Cell::Empty
        } else {
            g[x][y]
        }
    } else {
        match arrival(g, dir, x, y) {
            Some((sx, sy)) => g[sx][sy],
            None => Cell::Empty,
        }
    }
}

/// The grid after one tick in which blocked grains slide towards `dir`.
pub open spec fn stepped(g: Seq<Seq<Cell>>, dir: Direction) -> Seq<Seq<Cell>> {
    Seq::new(g.len(), |x: int| Seq::new(g[x].len(), |y: int| next_cell(g, dir, x, y)))
}

/// Whether the scan has passed the cell `(x, y)` when it stands at
/// `(at_x, at_y)`.
pub open spec fn scanned(x: int, y: int, at_x: int, at_y: int) -> bool {
    x < at_x || (x == at_x && y < at_y)
}

/// What the cell `(x, y)` of the next grid holds while the scan stands at
/// `(at_x, at_y)`: the grains already scanned have moved, the others have
/// not.
pub open spec fn cell_during(
    g: Seq<Seq<Cell>>,
    dir: Direction,
    at_x: int,
    at_y: int,
    x: int,
    y: int,
) -> Cell {
    if g[x][y] is Filled {
        if moves(g, dir, x, y) && scanned(x, y, at_x, at_y) {
            Cell::Empty
        } else {
            g[x][y]
        }
    } else {
        let above = falls(g, x, y + 1) && scanned(x, y + 1, at_x, at_y);
        let aside = slides(g, dir, x - dir.offset(), y + 1) && scanned(
            x - dir.offset(),
            y + 1,
            at_x,
            at_y,
        );
        match dir {
            Direction::Right => if above {
                g[x][y + 1]
            } else if aside {
                g[x - 1][y + 1]
            } else {
                Cell::Empty
            },
            Direction::Left => if aside {
                g[x + 1][y + 1]
            } else if above {
                g[x][y + 1]
            } else {
                Cell::Empty
            },
        }
    }
}

/// The next grid while the scan stands at `(at_x, at_y)`.
pub open spec fn grid_during(g: Seq<Seq<Cell>>, dir: Direction, at_x: int, at_y: int) -> Seq<
    Seq<Cell>,
> {
    Seq::new(
        g.len(),
        |x: int| Seq::new(g[x].len(), |y: int| cell_during(g, dir, at_x, at_y, x, y)),
    )
}

/// Before the scan starts the next grid is a copy of the grid.
pub proof fn lemma_scan_start(g: Seq<Seq<Cell>>, dir: Direction)
    ensures
        grid_during(g, dir, 0, 0) == g,
{
    assert(grid_during(g, dir, 0, 0) =~~= g);
}

/// Scanning one cell moves the grain in it, if it moves, and touches nothing
/// else.
pub proof fn lemma_scan_cell(g: Seq<Seq<Cell>>, dir: Direction, x: int, y: int)
    requires
        in_grid(g, x, y),
    ensures
        grid_during(g, dir, x, y + 1) == if moves(g, dir, x, y) {
            let (tx, ty) = destination(g, dir, x, y);
            with_cell(with_cell(grid_during(g, dir, x, y), tx, ty, g[x][y]), x, y, Cell::Empty)
        } else {
            grid_during(g, dir, x, y)
        },
{
    let before = grid_during(g, dir, x, y);
    let after = grid_during(g, dir, x, y + 1);
    if moves(g, dir, x, y) {
        let (tx, ty) = destination(g, dir, x, y);
        let moved = with_cell(with_cell(before, tx, ty, g[x][y]), x, y, Cell::Empty);
        assert(after =~~= moved);
    } else {
        assert(after =~~= before);
    }
}

/// Past the end of a column the scan stands at the start of the next.
pub proof fn lemma_scan_column_end(g: Seq<Seq<Cell>>, dir: Direction, x: int)
    requires
        0 <= x < g.len(),
    ensures
        grid_during(g, dir, x, g[x].len() as int) == grid_during(g, dir, x + 1, 0),
{
    assert(grid_during(g, dir, x, g[x].len() as int) =~~= grid_during(g, dir, x + 1, 0));
}

/// When the scan has passed every column the next grid is the grid after the
/// tick.
pub proof fn lemma_scan_end(g: Seq<Seq<Cell>>, dir: Direction)
    ensures
        grid_during(g, dir, g.len() as int, 0) == stepped(g, dir),
{
    assert(grid_during(g, dir, g.len() as int, 0) =~~= stepped(g, dir));
}

impl Grid {
    /// The grid after one tick in which blocked grains slide towards `dir`.
    ///
    /// The next grid starts as a copy. Every cell above the bottom row is
    /// then scanned: it is read in this grid and its grain, if it moves, is
    /// written in the copy.
    pub fn step(&self, dir: Direction) -> (next: Grid)
        ensures
            next.spec_rows() == self.spec_rows(),
            next.spec_cols() == self.spec_cols(),
            next@ == stepped(self@, dir),
    {
        let ghost g = self@;
        let rows: usize = self.rows();
        let cols: usize = self.cols();
        let mut next: Grid = self.clone();
        proof {
            lemma_scan_start(g, dir);
        }
        let mut x: usize = 0;
        while x < rows
            invariant
                x <= rows,
                self@ == g,
                rectangular(g, rows as nat, cols as nat),
                next.spec_rows() == rows,
                next.spec_cols() == cols,
                next@ == grid_during(g, dir, x as int, 0),
            decreases rows - x,
        {
            let mut y: usize = 0;
            while y < cols
                invariant
                    x < rows,
                    y <= cols,
                    self@ == g,
                    rectangular(g, rows as nat, cols as nat),
                    next.spec_rows() == rows,
                    next.spec_cols() == cols,
                    next@ == grid_during(g, dir, x as int, y as int),
                decreases cols - y,
            {
                proof {
                    lemma_scan_cell(g, dir, x as int, y as int);
                }
                if y > 0 {
                    if let Some(Cell::Filled(hue)) = self.get(x, y) {
                        match self.get(x, y - 1) {
                            Some(Cell::Empty) => {
                                next.set(x, y - 1, Cell::Filled(hue));
                                next.set(x, y, Cell::Empty);
                            },
                            _ => {
                                let target: Option<usize> = match dir {
                                    Direction::Left => x.checked_sub(1),
                                    Direction::Right => Some(x + 1),
                                };
                                if let Some(tx) = target {
                                    if let Some(Cell::Empty) = self.get(tx, y - 1) {
                                        next.set(tx, y - 1, Cell::Filled(hue));
                                        next.set(x, y, Cell::Empty);
                                    }
                                }
                            },
                        }
                    }
                }
                y = y + 1;
            }
            proof {
                lemma_scan_column_end(g, dir, x as int);
            }
            x = x + 1;
        }
        proof {
            lemma_scan_end(g, dir);
        }
        next
    }
}

} // verus!
