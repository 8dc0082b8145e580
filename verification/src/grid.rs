//! The grid of cells: a fixed rectangle stored as one flat buffer, seen in
//! contracts as a sequence of columns.
//!
//! A grid of `rows` by `cols` cells is indexed by `x` in `[0, rows)` and `y`
//! in `[0, cols)`. Its view is a `Seq<Seq<Cell>>` whose element `[x][y]` is
//! the cell at `(x, y)`; gravity pulls towards `y == 0`.

use vstd::prelude::*;

verus! {

/// One cell of the grid: nothing, or a grain with its hue.
#[derive(Clone, Copy, Debug, PartialEq, Eq, Structural)]
pub enum Cell {
    Empty,
    Filled(u32),
}

impl Cell {
    /// Whether the cell holds a grain.
    pub fn is_filled(&self) -> (filled: bool)
        ensures
            filled == (*self is Filled),
    {
        match self {
            Cell::Empty => false,
            Cell::Filled(_) => true,
        }
    }

    /// The hue of the grain in the cell, if there is one.
    pub fn hue(&self) -> (hue: Option<u32>)
        ensures
            hue == match *self {
                Cell::Empty => None::<u32>,
                Cell::Filled(h) => Some(h),
            },
    {
        match self {
            Cell::Empty => None,
            Cell::Filled(h) => Some(*h),
        }
    }
}

/// Whether `(x, y)` names a cell of `g`.
pub open spec fn in_grid(g: Seq<Seq<Cell>>, x: int, y: int) -> bool {
    0 <= x < g.len() && 0 <= y < g[x].len()
}

/// Whether `(x, y)` is a cell of `g` that holds a grain.
pub open spec fn filled_at(g: Seq<Seq<Cell>>, x: int, y: int) -> bool {
    in_grid(g, x, y) && g[x][y] is Filled
}

/// Whether `(x, y)` is a cell of `g` that holds nothing.
pub open spec fn empty_at(g: Seq<Seq<Cell>>, x: int, y: int) -> bool {
    in_grid(g, x, y) && g[x][y] is Empty
}

/// Whether `g` is a rectangle of `rows` columns of `cols` cells each.
pub open spec fn rectangular(g: Seq<Seq<Cell>>, rows: nat, cols: nat) -> bool {
    &&& g.len() == rows
    &&& forall|x: int| 0 <= x < rows ==> (#[trigger] g[x]).len() == cols
}

/// The grid of `rows` by `cols` cells that holds no grain.
pub open spec fn blank(rows: nat, cols: nat) -> Seq<Seq<Cell>> {
    Seq::new(rows, |x: int| Seq::new(cols, |y: int| Cell::Empty))
}

/// `g` with the cell at `(x, y)` replaced by `cell`.
pub open spec fn with_cell(g: Seq<Seq<Cell>>, x: int, y: int, cell: Cell) -> Seq<Seq<Cell>> {
    g.update(x, g[x].update(y, cell))
}

/// What a cell adds to the number of grains: one if it holds a grain.
pub open spec fn weight(cell: Cell) -> nat {
    if cell is Filled {
        1
    } else {
        0
    }
}

/// The number of grains in one column.
pub open spec fn column_count(col: Seq<Cell>) -> nat
    decreases col.len(),
{
    if col.len() == 0 {
        0
    } else {
        column_count(col.drop_last()) + weight(col.last())
    }
}

/// The number of grains in a grid.
pub open spec fn grain_count(g: Seq<Seq<Cell>>) -> nat
    decreases g.len(),
{
    if g.len() == 0 {
        0
    } else {
        grain_count(g.drop_last()) + column_count(g.last())
    }
}

/// Replacing one cell of a column changes its count by the difference of
/// the two cells' weights.
pub proof fn lemma_column_count_update(col: Seq<Cell>, y: int, cell: Cell)
    requires
        0 <= y < col.len(),
    ensures
        column_count(col.update(y, cell)) + weight(col[y]) == column_count(col) + weight(cell),
    decreases col.len(),
{
    if y == col.len() - 1 {
        assert(col.update(y, cell).drop_last() =~= col.drop_last());
    } else {
        lemma_column_count_update(col.drop_last(), y, cell);
        assert(col.update(y, cell).drop_last() =~= col.drop_last().update(y, cell));
    }
}

/// Replacing one column of a grid changes its count by the difference of the
/// two columns' counts.
pub proof fn lemma_grain_count_update(g: Seq<Seq<Cell>>, x: int, col: Seq<Cell>)
    requires
        0 <= x < g.len(),
    ensures
        grain_count(g.update(x, col)) + column_count(g[x]) == grain_count(g) + column_count(col),
    decreases g.len(),
{
    if x == g.len() - 1 {
        assert(g.update(x, col).drop_last() =~= g.drop_last());
    } else {
        lemma_grain_count_update(g.drop_last(), x, col);
        assert(g.update(x, col).drop_last() =~= g.drop_last().update(x, col));
    }
}

/// Replacing one cell of a grid changes its count by the difference of the
/// two cells' weights.
pub proof fn lemma_count_with_cell(g: Seq<Seq<Cell>>, x: int, y: int, cell: Cell)
    requires
        in_grid(g, x, y),
    ensures
        grain_count(with_cell(g, x, y, cell)) + weight(g[x][y]) == grain_count(g) + weight(cell),
{
    lemma_column_count_update(g[x], y, cell);
    lemma_grain_count_update(g, x, g[x].update(y, cell));
}

/// A grid without grains counts none.
pub proof fn lemma_blank_counts_none(rows: nat, cols: nat)
    ensures
        grain_count(blank(rows, cols)) == 0,
    decreases rows,
{
    if rows > 0 {
        lemma_blank_counts_none((rows - 1) as nat, cols);
        assert(blank(rows, cols).drop_last() =~~= blank((rows - 1) as nat, cols));
        lemma_blank_column_counts_none(cols);
        assert(blank(rows, cols).last() =~= Seq::new(cols, |y: int| Cell::Empty));
    }
}

/// A column without grains counts none.
proof fn lemma_blank_column_counts_none(cols: nat)
    ensures
        column_count(Seq::new(cols, |y: int| Cell::Empty)) == 0,
    decreases cols,
{
    if cols > 0 {
        lemma_blank_column_counts_none((cols - 1) as nat);
        assert(Seq::new(cols, |y: int| Cell::Empty).drop_last() =~= Seq::new(
            (cols - 1) as nat,
            |y: int| Cell::Empty,
        ));
    }
}

/// A rectangle of cells of fixed size.
pub struct Grid {
    rows: usize,
    cols: usize,
    cells: Vec<Cell>,
}

impl View for Grid {
    type V = Seq<Seq<Cell>>;

    closed spec fn view(&self) -> Seq<Seq<Cell>> {
        Seq::new(
            self.rows as nat,
            |x: int| Seq::new(self.cols as nat, |y: int| self.cells@[x * self.cols + y]),
        )
    }
}

/// The flat index of `(x, y)` stays inside a buffer of `rows * cols` cells.
proof fn lemma_index_in_buffer(x: int, y: int, rows: int, cols: int)
    by (nonlinear_arith)
    requires
        0 <= x < rows,
        0 <= y < cols,
    ensures
        0 <= x * cols <= x * cols + y < rows * cols,
{
}

/// Two cells with the same flat index are the same cell.
proof fn lemma_index_injective(x1: int, y1: int, x2: int, y2: int, cols: int)
    by (nonlinear_arith)
    requires
        0 <= y1 < cols,
        0 <= y2 < cols,
        x1 * cols + y1 == x2 * cols + y2,
    ensures
        x1 == x2,
        y1 == y2,
{
}

impl Grid {
    #[verifier::type_invariant]
    spec fn well_formed(&self) -> bool {
        self.cells@.len() == self.rows * self.cols <= usize::MAX
    }

    /// The number of columns: the extent of `x`.
    pub closed spec fn spec_rows(&self) -> usize {
        self.rows
    }

    /// The number of cells in each column: the extent of `y`.
    pub closed spec fn spec_cols(&self) -> usize {
        self.cols
    }

    /// The view of a grid is a rectangle of its own extent.
    pub proof fn lemma_rectangular(&self)
        ensures
            rectangular(self@, self.spec_rows() as nat, self.spec_cols() as nat),
    {
    }

    /// Makes a grid of `rows` by `cols` empty cells, or nothing if that many
    /// cells cannot be addressed.
    pub fn new(rows: usize, cols: usize) -> (made: Option<Grid>)
        ensures
            made is Some <==> rows * cols <= usize::MAX,
            made matches Some(grid) ==> {
                &&& grid.spec_rows() == rows
                &&& grid.spec_cols() == cols
                &&& grid@ == blank(rows as nat, cols as nat)
            },
    {
        match rows.checked_mul(cols) {
            None => None,
            Some(total) => {
                let mut cells: Vec<Cell> = Vec::new();
                let mut i: usize = 0;
                while i < total
                    invariant
                        i <= total,
                        cells@.len() == i,
                        forall|k: int| 0 <= k < i ==> cells@[k] == Cell::Empty,
                    decreases total - i,
                {
                    cells.push(Cell::Empty);
                    i = i + 1;
                }
                let grid = Grid { rows, cols, cells };
                proof {
                    assert forall|x: int, y: int| 0 <= x < rows && 0 <= y < cols implies (
                    #[trigger] grid@[x][y]) == Cell::Empty by {
                        lemma_index_in_buffer(x, y, rows as int, cols as int);
                    }
                    assert(grid@ =~~= blank(rows as nat, cols as nat));
                }
                Some(grid)
            },
        }
    }

    /// The number of columns: the extent of `x`.
    #[verifier::when_used_as_spec(spec_rows)]
    pub fn rows(&self) -> (rows: usize)
        ensures
            rows == self.spec_rows(),
            rows == self@.len(),
    {
        self.rows
    }

    /// The number of cells in each column: the extent of `y`.
    #[verifier::when_used_as_spec(spec_cols)]
    pub fn cols(&self) -> (cols: usize)
        ensures
            cols == self.spec_cols(),
            rectangular(self@, self.spec_rows() as nat, cols as nat),
    {
        self.cols
    }

    /// The cell at `(x, y)`, or nothing if `(x, y)` lies outside the grid.
    pub fn get(&self, x: usize, y: usize) -> (cell: Option<Cell>)
        ensures
            cell == if in_grid(self@, x as int, y as int) {
                Some(self@[x as int][y as int])
            } else {
                None
            },
    {
        if x < self.rows && y < self.cols {
            proof {
                use_type_invariant(self);
                lemma_index_in_buffer(x as int, y as int, self.rows as int, self.cols as int);
            }
            Some(self.cells[x * self.cols + y])
        } else {
            None
        }
    }

    /// Puts `cell` at `(x, y)` and says whether it did: outside the grid
    /// nothing is written.
    pub fn set(&mut self, x: usize, y: usize, cell: Cell) -> (written: bool)
        ensures
            written == in_grid(old(self)@, x as int, y as int),
            final(self).spec_rows() == old(self).spec_rows(),
            final(self).spec_cols() == old(self).spec_cols(),
            final(self)@ == if written {
                with_cell(old(self)@, x as int, y as int, cell)
            } else {
                old(self)@
            },
        no_unwind
    {
        if x < self.rows && y < self.cols {
            proof {
                use_type_invariant(&*self);
                lemma_index_in_buffer(x as int, y as int, self.rows as int, self.cols as int);
            }
            let index: usize = x * self.cols + y;
            self.cells[index] = cell;
            proof {
                let cols = self.cols as int;
                assert forall|i: int, j: int|
                    0 <= i < self.rows && 0 <= j < cols implies #[trigger] self@[i][j]
                    == with_cell(old(self)@, x as int, y as int, cell)[i][j] by {
                    lemma_index_in_buffer(i, j, self.rows as int, cols);
                    if i * cols + j == index {
                        lemma_index_injective(i, j, x as int, y as int, cols);
                    }
                }
                assert(self@ =~~= with_cell(old(self)@, x as int, y as int, cell));
            }
            true
        } else {
            false
        }
    }

    /// Empties every cell.
    pub fn clear(&mut self)
        ensures
            final(self).spec_rows() == old(self).spec_rows(),
            final(self).spec_cols() == old(self).spec_cols(),
            final(self)@ == blank(old(self).spec_rows() as nat, old(self).spec_cols() as nat),
        no_unwind
    {
        proof {
            use_type_invariant(&*self);
        }
        let total: usize = self.cells.len();
        let mut i: usize = 0;
        while i < total
            invariant
                i <= total,
                self.cells@.len() == total,
                self.rows == old(self).rows,
                self.cols == old(self).cols,
                total == self.rows * self.cols,
                forall|k: int| 0 <= k < i ==> self.cells@[k] == Cell::Empty,
            decreases total - i,
        {
            self.cells[i] = Cell::Empty;
            i = i + 1;
        }
        proof {
            assert forall|x: int, y: int| 0 <= x < self.rows && 0 <= y < self.cols implies (
            #[trigger] self@[x][y]) == Cell::Empty by {
                lemma_index_in_buffer(x, y, self.rows as int, self.cols as int);
            }
            assert(self@ =~~= blank(self.rows as nat, self.cols as nat));
        }
    }

    /// The number of grains in the grid.
    pub fn count_filled(&self) -> (count: usize)
        ensures
            count == grain_count(self@),
    {
        proof {
            use_type_invariant(self);
        }
        let mut count: usize = 0;
        let mut x: usize = 0;
        while x < self.rows
            invariant
                x <= self.rows,
                self.cells@.len() == self.rows * self.cols <= usize::MAX,
                count == grain_count(self@.take(x as int)),
                count <= x * self.cols,
            decreases self.rows - x,
        {
            let ghost column = self@[x as int];
            let mut y: usize = 0;
            let mut here: usize = 0;
            while y < self.cols
                invariant
                    x < self.rows,
                    y <= self.cols,
                    self.cells@.len() == self.rows * self.cols <= usize::MAX,
                    column == self@[x as int],
                    here == column_count(column.take(y as int)),
                    here <= y,
                decreases self.cols - y,
            {
                proof {
                    lemma_index_in_buffer(x as int, y as int, self.rows as int, self.cols as int);
                    assert(column.take(y + 1).drop_last() =~= column.take(y as int));
                }
                if self.cells[x * self.cols + y].is_filled() {
                    here = here + 1;
                }
                y = y + 1;
            }
            proof {
                assert(column.take(self.cols as int) =~= column);
                assert(self@.take(x + 1).drop_last() =~= self@.take(x as int));
                assert(x * self.cols + self.cols == (x + 1) * self.cols <= self.rows * self.cols)
                    by (nonlinear_arith)
                    requires
                        x < self.rows,
                ;
            }
            count = count + here;
            x = x + 1;
        }
        proof {
            assert(self@.take(self.rows as int) =~= self@);
        }
        count
    }
}

impl Clone for Grid {
    /// A grid of the same extent that holds the same cells.
    fn clone(&self) -> (copy: Grid)
        ensures
            copy.spec_rows() == self.spec_rows(),
            copy.spec_cols() == self.spec_cols(),
            copy@ == self@,
    {
        proof {
            use_type_invariant(self);
        }
        let total: usize = self.cells.len();
        let mut cells: Vec<Cell> = Vec::new();
        let mut i: usize = 0;
        while i < total
            invariant
                i <= total,
                total == self.cells@.len(),
                cells@.len() == i,
                forall|k: int| 0 <= k < i ==> cells@[k] == self.cells@[k],
            decreases total - i,
        {
            cells.push(self.cells[i]);
            i = i + 1;
        }
        proof {
            assert(cells@ =~= self.cells@);
        }
        Grid { rows: self.rows, cols: self.cols, cells }
    }
}

} // verus!
