use falling_sand::grid::Cell;
use falling_sand::rule::Direction;
use falling_sand::simulation::{Config, Simulation};

fn three_by_three(hue: u32) -> Simulation {
    let config = Config {
        viewport_width: 30,
        viewport_height: 30,
        cell_size: 10,
        hue_step: 85,
        initial_hue: hue,
    };
    Simulation::new(config).expect("a valid configuration")
}

fn filled_cells(sim: &Simulation) -> Vec<(usize, usize, u32)> {
    let grid = sim.snapshot();
    let mut found = Vec::new();
    for x in 0..grid.rows() {
        for y in 0..grid.cols() {
            if let Some(Cell::Filled(hue)) = grid.get(x, y) {
                found.push((x, y, hue));
            }
        }
    }
    found
}

#[test]
fn a_painted_grain_falls_to_the_bottom_and_rests() {
    let mut sim = three_by_three(120_000);
    assert_eq!(filled_cells(&sim), vec![]);
    sim.set_dragging(true);
    sim.paint(15, 25);
    assert_eq!(filled_cells(&sim), vec![(1, 2, 120_000)]);

    sim.tick_toward(Direction::Right);
    assert_eq!(filled_cells(&sim), vec![(1, 1, 120_000)]);
    sim.tick_toward(Direction::Right);
    assert_eq!(filled_cells(&sim), vec![(1, 0, 120_000)]);
    sim.tick_toward(Direction::Right);
    assert_eq!(filled_cells(&sim), vec![(1, 0, 120_000)]);
}
