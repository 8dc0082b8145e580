use falling_sand::color::{hue_to_color, Color};
use falling_sand::grid::Cell;
use falling_sand::rule::Direction;
use falling_sand::simulation::{ButtonEvent, Config, EventKind, Simulation, Source, Square};

fn small(rows: u32, cols: u32, hue: u32) -> Simulation {
    let config = Config {
        viewport_width: rows * 10,
        viewport_height: cols * 10,
        cell_size: 10,
        hue_step: 85,
        initial_hue: hue,
    };
    Simulation::new(config).expect("a valid configuration")
}

fn grains(sim: &Simulation) -> Vec<(usize, usize, u32)> {
    let grid = sim.snapshot();
    let mut found = Vec::new();
    for x in 0..grid.rows() {
        for y in 0..grid.cols() {
            if let Some(Cell::Filled(hue)) = grid.get(x, y) {
                found.push((x, y, hue));
            }
        }
    }
    found
}

fn event(kind: EventKind, source: Source) -> ButtonEvent {
    ButtonEvent { kind, source }
}

#[test]
fn the_usual_configuration() {
    let config = Config::default();
    assert_eq!(
        config,
        Config {
            viewport_width: 1920,
            viewport_height: 1080,
            cell_size: 10,
            hue_step: 85,
            initial_hue: 10,
        }
    );
    let sim = Simulation::new(config).expect("a valid configuration");
    assert_eq!(sim.config(), config);
    assert_eq!(sim.snapshot().rows(), 192);
    assert_eq!(sim.snapshot().cols(), 108);
    assert_eq!(sim.snapshot().count_filled(), 0);
    assert!(!sim.is_dragging());
    assert_eq!(sim.current_hue(), 10);
}

#[test]
fn the_grid_has_as_many_cells_as_fit_in_the_viewport() {
    let config = Config {
        viewport_width: 37,
        viewport_height: 19,
        cell_size: 4,
        hue_step: 1,
        initial_hue: 0,
    };
    let sim = Simulation::new(config).expect("a valid configuration");
    assert_eq!(sim.snapshot().rows(), 9);
    assert_eq!(sim.snapshot().cols(), 4);

    let tiny = Config { viewport_width: 3, viewport_height: 100, ..config };
    let sim = Simulation::new(tiny).expect("a valid configuration");
    assert_eq!(sim.snapshot().rows(), 0);
    assert_eq!(sim.snapshot().cols(), 25);
}

#[test]
fn cells_without_a_size_make_no_simulation() {
    let config = Config { cell_size: 0, ..Config::default() };
    assert!(Simulation::new(config).is_none());
}

#[test]
fn the_first_hue_is_taken_modulo_a_full_turn() {
    assert_eq!(small(3, 3, 359_999).current_hue(), 359_999);
    assert_eq!(small(3, 3, 360_000).current_hue(), 0);
    assert_eq!(small(3, 3, 360_010).current_hue(), 10);
    // 4_294_967_295 = 11_930 * 360_000 + 167_295
    assert_eq!(small(3, 3, u32::MAX).current_hue(), 167_295);
}

#[test]
fn a_brush_that_is_up_paints_nothing() {
    let mut sim = small(3, 3, 120_000);
    sim.paint(15, 25);
    sim.paint(0, 0);
    sim.paint(-100, 400);
    assert_eq!(grains(&sim), vec![]);
    assert_eq!(sim.current_hue(), 120_000);
    assert!(!sim.is_dragging());
}

#[test]
fn a_brush_that_is_down_leaves_a_grain_and_turns_the_wheel() {
    let mut sim = small(3, 3, 120_000);
    sim.set_dragging(true);
    sim.paint(15, 25);
    assert_eq!(grains(&sim), vec![(1, 2, 120_000)]);
    assert_eq!(sim.current_hue(), 120_085);
    assert!(sim.is_dragging());
    sim.paint(0, 0);
    assert_eq!(grains(&sim), vec![(0, 0, 120_085), (1, 2, 120_000)]);
    assert_eq!(sim.current_hue(), 120_170);
}

#[test]
fn the_pointer_is_mapped_to_the_cell_under_it() {
    for &(px, py, x, y) in [
        (0, 0, 0usize, 0usize),
        (9, 9, 0, 0),
        (10, 9, 1, 0),
        (9, 10, 0, 1),
        (19, 20, 1, 2),
        (29, 29, 2, 2),
        (20, 0, 2, 0),
    ]
    .iter()
    {
        let mut sim = small(3, 3, 5);
        sim.set_dragging(true);
        sim.paint(px, py);
        assert_eq!(grains(&sim), vec![(x, y, 5)]);
    }
}

#[test]
fn a_pointer_less_than_a_cell_before_the_origin_rounds_into_the_first_cell() {
    for &(px, py, x, y) in
        [(-1, 0, 0usize, 0usize), (-9, -9, 0, 0), (0, -5, 0, 0), (-9, 25, 0, 2), (15, -1, 1, 0)]
            .iter()
    {
        let mut sim = small(3, 3, 5);
        sim.set_dragging(true);
        sim.paint(px, py);
        assert_eq!(grains(&sim), vec![(x, y, 5)]);
    }
}

#[test]
fn a_stroke_outside_the_grid_paints_nothing_and_still_turns_the_wheel() {
    let mut sim = small(3, 3, 10);
    sim.set_dragging(true);
    sim.paint(15, 15);
    let before = grains(&sim);
    assert_eq!(before, vec![(1, 1, 10)]);
    let outside = [
        (30, 0),
        (0, 30),
        (30, 30),
        (-10, 0),
        (0, -10),
        (-11, 15),
        (15, -250),
        (i32::MAX, 0),
        (0, i32::MAX),
        (i32::MIN, 0),
        (0, i32::MIN),
        (i32::MIN, i32::MAX),
    ];
    let mut hue = 95;
    for &(px, py) in outside.iter() {
        assert_eq!(sim.current_hue(), hue);
        sim.paint(px, py);
        hue += 85;
        assert_eq!(grains(&sim), before);
        assert_eq!(sim.current_hue(), hue);
    }
}

#[test]
fn painting_over_a_grain_replaces_it() {
    let mut sim = small(3, 3, 1000);
    sim.set_dragging(true);
    sim.paint(25, 5);
    assert_eq!(grains(&sim), vec![(2, 0, 1000)]);
    sim.paint(25, 5);
    assert_eq!(grains(&sim), vec![(2, 0, 1085)]);
    sim.paint(20, 9);
    assert_eq!(grains(&sim), vec![(2, 0, 1170)]);
    assert_eq!(sim.snapshot().count_filled(), 1);
}

#[test]
fn the_brush_hue_wraps_around_the_wheel() {
    let mut sim = small(1, 1, 359_990);
    sim.set_dragging(true);
    sim.paint(100, 100);
    assert_eq!(sim.current_hue(), 75);
    sim.paint(0, 0);
    assert_eq!(grains(&sim), vec![(0, 0, 75)]);
    assert_eq!(sim.current_hue(), 160);
}

#[test]
fn the_brush_is_back_at_its_hue_after_a_full_round_of_strokes() {
    let mut sim = small(2, 2, 10);
    sim.set_dragging(true);
    let mut last = 10;
    for stroke in 0..360_000u32 {
        sim.paint(if stroke % 2 == 0 { 5 } else { 500 }, 5);
        let hue = sim.current_hue();
        assert!(hue < 360_000);
        assert!(hue == last + 85 || hue + 360_000 == last + 85);
        last = hue;
    }
    assert_eq!(sim.current_hue(), 10);
}

#[test]
fn a_step_of_any_size_is_taken_modulo_a_full_turn() {
    let config = Config {
        viewport_width: 10,
        viewport_height: 10,
        cell_size: 10,
        hue_step: 360_000 + 7,
        initial_hue: 359_999,
    };
    let mut sim = Simulation::new(config).expect("a valid configuration");
    sim.set_dragging(true);
    sim.paint(0, 0);
    assert_eq!(sim.current_hue(), 6);
    let config = Config { hue_step: u32::MAX, ..config };
    let mut sim = Simulation::new(config).expect("a valid configuration");
    sim.set_dragging(true);
    sim.paint(0, 0);
    // 359_999 + 4_294_967_295 = 11_931 * 360_000 + 167_294
    assert_eq!(sim.current_hue(), 167_294);
}

#[test]
fn dragging_is_set_and_cleared() {
    let mut sim = small(2, 2, 0);
    assert!(!sim.is_dragging());
    sim.set_dragging(true);
    assert!(sim.is_dragging());
    sim.set_dragging(true);
    assert!(sim.is_dragging());
    sim.set_dragging(false);
    assert!(!sim.is_dragging());
    assert_eq!(sim.current_hue(), 0);
    assert_eq!(grains(&sim), vec![]);
}

#[test]
fn reset_empties_the_grid_and_leaves_the_brush() {
    let mut sim = small(3, 3, 0);
    sim.set_dragging(true);
    sim.paint(5, 5);
    sim.paint(15, 15);
    sim.paint(25, 25);
    assert_eq!(sim.snapshot().count_filled(), 3);
    sim.reset();
    assert_eq!(grains(&sim), vec![]);
    assert_eq!(sim.snapshot().rows(), 3);
    assert_eq!(sim.snapshot().cols(), 3);
    for x in 0..3 {
        for y in 0..3 {
            assert_eq!(sim.snapshot().get(x, y), Some(Cell::Empty));
        }
    }
    assert!(sim.is_dragging());
    assert_eq!(sim.current_hue(), 255);
    sim.reset();
    assert_eq!(grains(&sim), vec![]);
}

#[test]
fn the_left_mouse_button_holds_the_brush_down() {
    let mut sim = small(2, 2, 0);
    sim.process_input(event(EventKind::Press, Source::LeftMouseButton));
    assert!(sim.is_dragging());
    sim.paint(5, 5);
    assert_eq!(grains(&sim), vec![(0, 0, 0)]);
    sim.process_input(event(EventKind::Release, Source::LeftMouseButton));
    assert!(!sim.is_dragging());
    sim.paint(15, 15);
    assert_eq!(grains(&sim), vec![(0, 0, 0)]);
    assert_eq!(sim.current_hue(), 85);
}

#[test]
fn pressing_the_reset_key_clears_the_grid() {
    let mut sim = small(2, 2, 0);
    sim.set_dragging(true);
    sim.paint(5, 5);
    sim.process_input(event(EventKind::Release, Source::ResetKey));
    assert_eq!(grains(&sim), vec![(0, 0, 0)]);
    sim.process_input(event(EventKind::Press, Source::ResetKey));
    assert_eq!(grains(&sim), vec![]);
    assert!(sim.is_dragging());
    assert_eq!(sim.current_hue(), 85);
}

#[test]
fn other_buttons_do_nothing() {
    let mut sim = small(2, 2, 0);
    sim.set_dragging(true);
    sim.paint(5, 5);
    sim.process_input(event(EventKind::Press, Source::Other));
    sim.process_input(event(EventKind::Release, Source::Other));
    assert_eq!(grains(&sim), vec![(0, 0, 0)]);
    assert!(sim.is_dragging());
    assert_eq!(sim.current_hue(), 85);
    sim.set_dragging(false);
    sim.process_input(event(EventKind::Press, Source::Other));
    sim.process_input(event(EventKind::Release, Source::Other));
    assert!(!sim.is_dragging());
}

#[test]
fn a_tick_moves_the_sand_and_leaves_the_brush() {
    let mut sim = small(3, 3, 7);
    sim.set_dragging(true);
    sim.paint(15, 5);
    sim.paint(15, 15);
    assert_eq!(grains(&sim), vec![(1, 0, 7), (1, 1, 92)]);
    sim.tick_toward(Direction::Left);
    assert_eq!(grains(&sim), vec![(0, 0, 92), (1, 0, 7)]);
    assert!(sim.is_dragging());
    assert_eq!(sim.current_hue(), 177);
    assert_eq!(sim.config().cell_size, 10);

    let mut sim = small(3, 3, 7);
    sim.set_dragging(true);
    sim.paint(15, 5);
    sim.paint(15, 15);
    sim.tick_toward(Direction::Right);
    assert_eq!(grains(&sim), vec![(1, 0, 7), (2, 0, 92)]);
}

#[test]
fn a_tick_with_a_coin_slides_one_way_or_the_other() {
    let mut left = 0;
    let mut right = 0;
    for _ in 0..200 {
        let mut sim = small(3, 3, 7);
        sim.set_dragging(true);
        sim.paint(15, 5);
        sim.paint(15, 15);
        sim.set_dragging(false);
        sim.tick();
        let now = grains(&sim);
        if now == vec![(0, 0, 92), (1, 0, 7)] {
            left += 1;
        } else if now == vec![(1, 0, 7), (2, 0, 92)] {
            right += 1;
        } else {
            panic!("neither left nor right: {:?}", now);
        }
        assert!(!sim.is_dragging());
        assert_eq!(sim.current_hue(), 177);
    }
    assert_eq!(left + right, 200);
}

#[test]
fn a_falling_grain_needs_no_coin() {
    let mut sim = small(3, 3, 120_000);
    sim.set_dragging(true);
    sim.paint(15, 25);
    sim.tick();
    assert_eq!(grains(&sim), vec![(1, 1, 120_000)]);
    sim.tick();
    assert_eq!(grains(&sim), vec![(1, 0, 120_000)]);
    sim.tick();
    assert_eq!(grains(&sim), vec![(1, 0, 120_000)]);
}

#[test]
fn an_empty_grid_renders_no_square() {
    assert_eq!(small(3, 3, 0).render(), vec![]);
    assert_eq!(small(0, 0, 0).render(), vec![]);
}

#[test]
fn every_grain_renders_as_a_square_of_its_colour() {
    let config = Config {
        viewport_width: 21,
        viewport_height: 30,
        cell_size: 7,
        hue_step: 30_000,
        initial_hue: 0,
    };
    let mut sim = Simulation::new(config).expect("a valid configuration");
    sim.set_dragging(true);
    sim.paint(20, 27);
    sim.paint(0, 0);
    sim.paint(7, 14);
    sim.paint(7, 6);
    let full = 60_000;
    assert_eq!(
        sim.render(),
        vec![
            Square { x: 0, y: 0, size: 7, color: Color { r: full, g: 30_000, b: 0, a: full } },
            Square { x: 7, y: 0, size: 7, color: Color { r: 30_000, g: full, b: 0, a: full } },
            Square { x: 7, y: 14, size: 7, color: Color { r: full, g: full, b: 0, a: full } },
            Square { x: 14, y: 21, size: 7, color: Color { r: full, g: 0, b: 0, a: full } },
        ]
    );
    for square in sim.render() {
        let x = (square.x / 7) as usize;
        let y = (square.y / 7) as usize;
        match sim.snapshot().get(x, y) {
            Some(Cell::Filled(hue)) => assert_eq!(square.color, hue_to_color(hue)),
            other => panic!("a square without a grain: {:?}", other),
        }
    }
}

#[test]
fn rendering_changes_nothing() {
    let mut sim = small(3, 3, 0);
    sim.set_dragging(true);
    sim.paint(5, 5);
    let before = grains(&sim);
    let first = sim.render();
    let second = sim.render();
    assert_eq!(first, second);
    assert_eq!(first.len(), 1);
    assert_eq!(grains(&sim), before);
    assert_eq!(sim.current_hue(), 85);
}
