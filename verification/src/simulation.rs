//! The simulation engine: a grid, a brush, and the commands that drive them.
//!
//! The engine is a plain state container. A driver feeds it pointer positions
//! and button events, calls [`Simulation::tick`] on its own cadence, and asks
//! for the grid or for the squares to draw whenever it renders.

use vstd::prelude::*;
use crate::color::{
    Color,
    HUE_RANGE,
    advance_hue,
    hue_after,
    hue_color,
    hue_to_color,
    lemma_hue_after_closed_form,
    lemma_hue_returns,
    next_hue,
};
use crate::grid::{Cell, Grid, blank, in_grid, rectangular, with_cell};
use crate::random::toss_coin;
use crate::rule::{Direction, stepped};

verus! {

/// What is fixed when a simulation is made.
#[derive(Clone, Copy, Debug, PartialEq, Eq, Structural)]
pub struct Config {
    /// Width of the viewport in pixels.
    pub viewport_width: u32,
    /// Height of the viewport in pixels.
    pub viewport_height: u32,
    /// Side of one cell in pixels.
    pub cell_size: u32,
    /// How far the brush turns the colour wheel with each stroke, in hue
    /// units.
    pub hue_step: u32,
    /// The hue of the first grain, taken modulo a full turn.
    pub initial_hue: u32,
}

impl Config {
    /// The extent of `x`: as many cells as fit in the viewport's width.
    pub open spec fn rows(&self) -> int {
        self.viewport_width as int / self.cell_size as int
    }

    /// The extent of `y`: as many cells as fit in the viewport's height.
    pub open spec fn cols(&self) -> int {
        self.viewport_height as int / self.cell_size as int
    }

    /// Whether a grid can be made for this configuration: cells have a size,
    /// and the grid's cells can be addressed.
    pub open spec fn valid(&self) -> bool {
        self.cell_size > 0 && self.rows() * self.cols() <= usize::MAX
    }
}

impl Default for Config {
    /// A viewport of 1920 by 1080 pixels, cells of 10 pixels, and a brush
    /// that starts a hundredth of a degree past red and turns by 85
    /// thousandths of a degree with each stroke.
    fn default() -> (config: Config)
        ensures
            config == (Config {
                viewport_width: 1920,
                viewport_height: 1080,
                cell_size: 10,
                hue_step: 85,
                initial_hue: 10,
            }),
    {
        Config {
            viewport_width: 1920,
            viewport_height: 1080,
            cell_size: 10,
            hue_step: 85,
            initial_hue: 10,
        }
    }
}

/// Whether a button went down or came up.
#[derive(Clone, Copy, Debug, PartialEq, Eq, Structural)]
pub enum EventKind {
    Press,
    Release,
}

/// The button that an event is about.
#[derive(Clone, Copy, Debug, PartialEq, Eq, Structural)]
pub enum Source {
    /// The button that holds the brush down.
    LeftMouseButton,
    /// The key that clears the grid.
    ResetKey,
    /// Any other button or key.
    Other,
}

/// A button or key event.
#[derive(Clone, Copy, Debug, PartialEq, Eq, Structural)]
pub struct ButtonEvent {
    pub kind: EventKind,
    pub source: Source,
}

/// The state of a simulation as contracts see it.
#[verifier::ext_equal]
pub struct State {
    /// The grid, column by column.
    pub grid: Seq<Seq<Cell>>,
    /// Whether the brush is down.
    pub dragging: bool,
    /// The hue of the next grain.
    pub hue: u32,
}

/// The cell index of a pointer coordinate along one axis: the coordinate
/// divided by the cell size, rounded towards zero.
pub open spec fn pointer_cell(pointer: int, cell_size: int) -> int {
    if pointer >= 0 {
        pointer / cell_size
    } else {
        -((-pointer) / cell_size)
    }
}

/// The state after the brush has passed over the pointer position
/// `(pointer_x, pointer_y)`. A brush that is up does nothing. A brush that is
/// down leaves a grain of the current hue in the cell under the pointer, if
/// there is one, and turns the colour wheel in any case.
pub open spec fn painted(
    state: State,
    config: Config,
    pointer_x: int,
    pointer_y: int,
) -> State {
    if state.dragging {
        let x = pointer_cell(pointer_x, config.cell_size as int);
        let y = pointer_cell(pointer_y, config.cell_size as int);
        State {
            grid: if in_grid(state.grid, x, y) {
                with_cell(state.grid, x, y, Cell::Filled(state.hue))
            } else {
                state.grid
            },
            dragging: true,
            hue: next_hue(state.hue as int, config.hue_step as int) as u32,
        }
    } else {
        state
    }
}

/// The state with every cell emptied. The brush is left as it is.
pub open spec fn cleared(state: State, config: Config) -> State {
    State { grid: blank(config.rows() as nat, config.cols() as nat), ..state }
}

/// The state after a button event: the left mouse button puts the brush down
/// and lifts it, pressing the reset key clears the grid, and nothing else has
/// any effect.
pub open spec fn after_event(state: State, config: Config, event: ButtonEvent) -> State {
    match (event.kind, event.source) {
        (EventKind::Press, Source::LeftMouseButton) => State { dragging: true, ..state },
        (EventKind::Release, Source::LeftMouseButton) => State { dragging: false, ..state },
        (EventKind::Press, Source::ResetKey) => cleared(state, config),
        _ => state,
    }
}

/// The state after one tick in which blocked grains slide towards `dir`.
pub open spec fn ticked(state: State, dir: Direction) -> State {
    State { grid: stepped(state.grid, dir), ..state }
}

/// The state after the brush has passed over each of `strokes` in turn.
pub open spec fn painted_all(state: State, config: Config, strokes: Seq<(int, int)>) -> State
    decreases strokes.len(),
{
    if strokes.len() == 0 {
        state
    } else {
        let before = painted_all(state, config, strokes.drop_last());
        painted(before, config, strokes.last().0, strokes.last().1)
    }
}

/// A brush that is up paints nothing and keeps its hue.
pub proof fn lemma_brush_up_paints_nothing(
    state: State,
    config: Config,
    pointer_x: int,
    pointer_y: int,
)
    requires
        !state.dragging,
    ensures
        painted(state, config, pointer_x, pointer_y) == state,
{
}

/// A stroke outside the grid leaves every cell as it was, and still turns the
/// colour wheel by one step.
pub proof fn lemma_paint_outside_grid(
    state: State,
    config: Config,
    pointer_x: int,
    pointer_y: int,
)
    requires
        state.dragging,
        !in_grid(
            state.grid,
            pointer_cell(pointer_x, config.cell_size as int),
            pointer_cell(pointer_y, config.cell_size as int),
        ),
    ensures
        painted(state, config, pointer_x, pointer_y).grid == state.grid,
        painted(state, config, pointer_x, pointer_y).dragging,
        painted(state, config, pointer_x, pointer_y).hue == next_hue(
            state.hue as int,
            config.hue_step as int,
        ),
{
}

/// A stroke inside the grid replaces the cell under the pointer, whatever it
/// held, by a grain of the brush's hue, touches no other cell, and turns the
/// colour wheel by one step.
pub proof fn lemma_paint_inside_grid(
    state: State,
    config: Config,
    pointer_x: int,
    pointer_y: int,
)
    requires
        state.dragging,
        in_grid(
            state.grid,
            pointer_cell(pointer_x, config.cell_size as int),
            pointer_cell(pointer_y, config.cell_size as int),
        ),
    ensures
        ({
            let x = pointer_cell(pointer_x, config.cell_size as int);
            let y = pointer_cell(pointer_y, config.cell_size as int);
            let after = painted(state, config, pointer_x, pointer_y);
            &&& after.grid[x][y] == Cell::Filled(state.hue)
            &&& forall|i: int, j: int|
                in_grid(state.grid, i, j) && (i, j) != (x, y) ==> #[trigger] after.grid[i][j]
                    == state.grid[i][j]
            &&& after.hue == next_hue(state.hue as int, config.hue_step as int)
        }),
{
}

/// Every stroke of a brush that is down turns the colour wheel by one step,
/// wherever the pointer is: after `n` strokes the hue is `n` steps further
/// on, modulo a full turn.
pub proof fn lemma_strokes_turn_wheel(state: State, config: Config, strokes: Seq<(int, int)>)
    requires
        state.dragging,
        state.hue < HUE_RANGE,
    ensures
        painted_all(state, config, strokes).dragging,
        painted_all(state, config, strokes).hue == hue_after(
            state.hue as int,
            config.hue_step as int,
            strokes.len(),
        ),
        painted_all(state, config, strokes).hue == (state.hue + strokes.len() * config.hue_step)
            % (HUE_RANGE as int),
    decreases strokes.len(),
{
    lemma_hue_after_closed_form(state.hue as int, config.hue_step as int, strokes.len());
    if strokes.len() > 0 {
        lemma_strokes_turn_wheel(state, config, strokes.drop_last());
        lemma_hue_after_closed_form(
            state.hue as int,
            config.hue_step as int,
            strokes.drop_last().len(),
        );
    }
}

/// The hue wraps around: after as many strokes as the wheel has hues the
/// brush is back at the hue it started from.
pub proof fn lemma_hue_wraps_around(state: State, config: Config, strokes: Seq<(int, int)>)
    requires
        state.dragging,
        state.hue < HUE_RANGE,
        strokes.len() == HUE_RANGE,
    ensures
        painted_all(state, config, strokes).hue == state.hue,
{
    lemma_strokes_turn_wheel(state, config, strokes);
    lemma_hue_returns(state.hue as int, config.hue_step as int);
}

/// A filled square for a renderer to draw, in pixels.
#[derive(Clone, Copy, Debug, PartialEq, Eq, Structural)]
pub struct Square {
    /// Left edge.
    pub x: u32,
    /// Top edge.
    pub y: u32,
    /// Length of each side.
    pub size: u32,
    /// Fill colour.
    pub color: Color,
}

/// The square that shows a grain of hue `hue` in the cell `(x, y)`.
pub open spec fn grain_square(x: int, y: int, hue: u32, cell_size: int) -> Square {
    Square {
        x: (x * cell_size) as u32,
        y: (y * cell_size) as u32,
        size: cell_size as u32,
        color: hue_color(hue as int),
    }
}

/// The squares that show the grains of column `x`, from `y == 0` upwards.
pub open spec fn column_squares(col: Seq<Cell>, x: int, cell_size: int) -> Seq<Square>
    decreases col.len(),
{
    if col.len() == 0 {
        Seq::empty()
    } else {
        let below = column_squares(col.drop_last(), x, cell_size);
        match col.last() {
            Cell::Filled(hue) => below.push(grain_square(x, col.len() - 1, hue, cell_size)),
            Cell::Empty => below,
        }
    }
}

/// The squares that show the grains of a grid, column after column.
pub open spec fn grid_squares(g: Seq<Seq<Cell>>, cell_size: int) -> Seq<Square>
    decreases g.len(),
{
    if g.len() == 0 {
        Seq::empty()
    } else {
        grid_squares(g.drop_last(), cell_size) + column_squares(g.last(), g.len() - 1, cell_size)
    }
}

/// A falling-sand simulation: the grid and the brush.
pub struct Simulation {
    config: Config,
    grid: Grid,
    dragging: bool,
    hue: u32,
}

impl View for Simulation {
    type V = State;

    closed spec fn view(&self) -> State {
        State { grid: self.grid@, dragging: self.dragging, hue: self.hue }
    }
}

/// The cell index of a pointer coordinate along one axis, or nothing where
/// the index is negative.
fn cell_index(pointer: i32, cell_size: u32) -> (index: Option<usize>)
    requires
        cell_size > 0,
    ensures
        index == if pointer_cell(pointer as int, cell_size as int) >= 0 {
            Some(pointer_cell(pointer as int, cell_size as int) as usize)
        } else {
            None
        },
{
    let ghost c = cell_size as int;
    if pointer >= 0 {
        proof {
            let p = pointer as int;
            assert(0 <= p / c <= p) by (nonlinear_arith)
                requires
                    p >= 0,
                    c > 0,
            ;
        }
        Some((pointer as u32 / cell_size) as usize)
    } else if -(pointer as i64) < cell_size as i64 {
        proof {
            let p = -(pointer as int);
            assert(p / c == 0) by (nonlinear_arith)
                requires
                    0 <= p < c,
            ;
        }
        Some(0)
    } else {
        proof {
            let p = -(pointer as int);
            assert(p / c >= 1) by (nonlinear_arith)
                requires
                    p >= c,
                    c > 0,
            ;
        }
        None
    }
}

/// The pixel at which a cell starts lies inside the viewport.
proof fn lemma_pixel_in_viewport(index: int, extent: int, cell_size: int)
    by (nonlinear_arith)
    requires
        cell_size > 0,
        0 <= extent,
        0 <= index < extent / cell_size,
    ensures
        0 <= index * cell_size < extent,
{
    assert(extent == cell_size * (extent / cell_size) + extent % cell_size) by {
        vstd::arithmetic::div_mod::lemma_fundamental_div_mod(extent, cell_size);
    }
    assert(0 <= extent % cell_size);
    assert((index + 1) * cell_size <= (extent / cell_size) * cell_size);
}

impl Simulation {
    #[verifier::type_invariant]
    spec fn well_formed(&self) -> bool {
        &&& self.config.valid()
        &&& self.grid.spec_rows() == self.config.rows()
        &&& self.grid.spec_cols() == self.config.cols()
        &&& self.hue < HUE_RANGE
    }

    /// The configuration that the simulation was made with.
    pub closed spec fn spec_config(&self) -> Config {
        self.config
    }

    /// Makes a simulation with an empty grid and the brush up, or nothing if
    /// the configuration is not valid.
    pub fn new(config: Config) -> (made: Option<Simulation>)
        ensures
            made is Some <==> config.valid(),
            made matches Some(sim) ==> {
                &&& sim.spec_config() == config
                &&& sim@ == (State {
                    grid: blank(config.rows() as nat, config.cols() as nat),
                    dragging: false,
                    hue: (config.initial_hue % HUE_RANGE),
                })
            },
    {
        if config.cell_size == 0 {
            return None;
        }
        let rows: usize = (config.viewport_width / config.cell_size) as usize;
        let cols: usize = (config.viewport_height / config.cell_size) as usize;
        match Grid::new(rows, cols) {
            None => None,
            Some(grid) => Some(
                Simulation { config, grid, dragging: false, hue: config.initial_hue % HUE_RANGE },
            ),
        }
    }
    /// The configuration that the simulation was made with.
    #[verifier::when_used_as_spec(spec_config)]
    pub fn config(&self) -> (config: Config)
        ensures
            config == self.spec_config(),
            config.valid(),
    {
        proof {
            use_type_invariant(self);
        }
        self.config
    }

    /// Whether the brush is down.
    pub fn is_dragging(&self) -> (dragging: bool)
        ensures
            dragging == self@.dragging,
    {
        self.dragging
    }

    /// The hue that the next grain will have.
    pub fn current_hue(&self) -> (hue: u32)
        ensures
            hue == self@.hue,
            hue < HUE_RANGE,
    {
        proof {
            use_type_invariant(self);
        }
        self.hue
    }

    /// The grid as it stands, for reading.
    pub fn snapshot(&self) -> (grid: &Grid)
        ensures
            grid@ == self@.grid,
            grid.spec_rows() == self.spec_config().rows(),
            grid.spec_cols() == self.spec_config().cols(),
    {
        proof {
            use_type_invariant(self);
        }
        &self.grid
    }

    /// Puts the brush down or lifts it.
    pub fn set_dragging(&mut self, active: bool)
        ensures
            final(self).spec_config() == old(self).spec_config(),
            final(self)@ == (State { dragging: active, ..old(self)@ }),
    {
        proof {
            use_type_invariant(&*self);
        }
        self.dragging = active;
    }

    /// Empties every cell. The brush keeps its hue and stays up or down.
    pub fn reset(&mut self)
        ensures
            final(self).spec_config() == old(self).spec_config(),
            final(self)@ == cleared(old(self)@, old(self).spec_config()),
            forall|x: int, y: int|
                in_grid(final(self)@.grid, x, y) ==> (#[trigger] final(self)@.grid[x][y])
                    == Cell::Empty,
    {
        proof {
            use_type_invariant(&*self);
        }
        self.grid.clear();
    }

    /// Passes the brush over the pointer position `(pointer_x, pointer_y)`,
    /// given in pixels.
    pub fn paint(&mut self, pointer_x: i32, pointer_y: i32)
        ensures
            final(self).spec_config() == old(self).spec_config(),
            final(self)@ == painted(
                old(self)@,
                old(self).spec_config(),
                pointer_x as int,
                pointer_y as int,
            ),
    {
        proof {
            use_type_invariant(&*self);
        }
        if !self.dragging {
            return ;
        }
        let x: Option<usize> = cell_index(pointer_x, self.config.cell_size);
        let y: Option<usize> = cell_index(pointer_y, self.config.cell_size);
        proof {
            self.grid.lemma_rectangular();
        }
        match (x, y) {
            (Some(x), Some(y)) => {
                self.grid.set(x, y, Cell::Filled(self.hue));
            },
            _ => {},
        }
        self.hue = advance_hue(self.hue, self.config.hue_step);
    }

    /// Handles a button or key event.
    pub fn process_input(&mut self, event: ButtonEvent)
        ensures
            final(self).spec_config() == old(self).spec_config(),
            final(self)@ == after_event(old(self)@, old(self).spec_config(), event),
    {
        match event.kind {
            EventKind::Press => match event.source {
                Source::LeftMouseButton => self.set_dragging(true),
                Source::ResetKey => self.reset(),
                Source::Other => {},
            },
            EventKind::Release => match event.source {
                Source::LeftMouseButton => self.set_dragging(false),
                _ => {},
            },
        }
    }

    /// Applies one tick in which blocked grains slide towards `dir`.
    pub fn tick_toward(&mut self, dir: Direction)
        ensures
            final(self).spec_config() == old(self).spec_config(),
            final(self)@ == ticked(old(self)@, dir),
    {
        proof {
            use_type_invariant(&*self);
        }
        let next: Grid = self.grid.step(dir);
        self.grid = next;
    }

    /// Applies one tick. Blocked grains slide to one side, the same for the
    /// whole grid, drawn anew by the toss of a coin.
    pub fn tick(&mut self)
        ensures
            final(self).spec_config() == old(self).spec_config(),
            final(self)@ == ticked(old(self)@, Direction::Left) || final(self)@ == ticked(
                old(self)@,
                Direction::Right,
            ),
    {
        let dir = Direction::from_coin(toss_coin());
        self.tick_toward(dir);
    }
    /// The squares to draw for the grid as it stands: one for each grain, of
    /// the size of a cell, at the cell's place in the viewport and in the
    /// colour of the grain's hue. Empty cells are not drawn.
    pub fn render(&self) -> (squares: Vec<Square>)
        ensures
            squares@ == grid_squares(self@.grid, self.spec_config().cell_size as int),
    {
        proof {
            use_type_invariant(self);
        }
        let ghost g = self.grid@;
        let size: u32 = self.config.cell_size;
        let rows: usize = self.grid.rows();
        let cols: usize = self.grid.cols();
        let mut squares: Vec<Square> = Vec::new();
        let mut x: usize = 0;
        while x < rows
            invariant
                x <= rows,
                g == self.grid@,
                size == self.config.cell_size,
                size > 0,
                rows == self.config.rows(),
                cols == self.config.cols(),
                rectangular(g, rows as nat, cols as nat),
                squares@ == grid_squares(g.take(x as int), size as int),
            decreases rows - x,
        {
            let ghost done = squares@;
            let ghost column = g[x as int];
            let mut y: usize = 0;
            while y < cols
                invariant
                    x < rows,
                    y <= cols,
                    g == self.grid@,
                    column == g[x as int],
                    size == self.config.cell_size,
                    size > 0,
                    rows == self.config.rows(),
                    cols == self.config.cols(),
                    rectangular(g, rows as nat, cols as nat),
                    squares@ == done + column_squares(column.take(y as int), x as int, size as int),
                decreases cols - y,
            {
                proof {
                    assert(column.take(y + 1).drop_last() =~= column.take(y as int));
                    lemma_pixel_in_viewport(
                        x as int,
                        self.config.viewport_width as int,
                        size as int,
                    );
                    lemma_pixel_in_viewport(
                        y as int,
                        self.config.viewport_height as int,
                        size as int,
                    );
                }
                if let Some(Cell::Filled(hue)) = self.grid.get(x, y) {
                    let square = Square {
                        x: x as u32 * size,
                        y: y as u32 * size,
                        size,
                        color: hue_to_color(hue),
                    };
                    squares.push(square);
                    proof {
                        let below = column_squares(column.take(y as int), x as int, size as int);
                        assert(squares@ =~= done + below.push(square));
                    }
                }
                y = y + 1;
            }
            proof {
                assert(column.take(cols as int) =~= column);
                assert(g.take(x + 1).drop_last() =~= g.take(x as int));
            }
            x = x + 1;
        }
        proof {
            assert(g.take(rows as int) =~= g);
        }
        squares
    }
}

} // verus!
