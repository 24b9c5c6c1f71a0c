use game_of_life::{next_cell_state, StartState, Universe};

fn alive(u: &Universe, row: u32, col: u32) -> bool {
    u.get_cells().contains((row * u.width() + col) as usize)
}

fn grids_equal(a: &Universe, b: &Universe) -> bool {
    if a.width() != b.width() || a.height() != b.height() {
        return false;
    }
    for row in 0..a.height() {
        for col in 0..a.width() {
            if alive(a, row, col) != alive(b, row, col) {
                return false;
            }
        }
    }
    true
}

#[test]
fn base_pattern_matches_formula() {
    let u = Universe::new(StartState::Base);
    assert_eq!(u.width(), 64);
    assert_eq!(u.height(), 64);
    for i in 0..(64 * 64) {
        assert_eq!(u.get_cells().contains(i), i % 2 == 0 || i % 7 == 0);
    }
}

#[test]
fn base_pattern_deterministic() {
    let a = Universe::new(StartState::Base);
    let b = Universe::new(StartState::Base);
    assert!(grids_equal(&a, &b));
}

#[test]
fn spaceship_seed_exact() {
    let u = Universe::new(StartState::Spaceship);
    let expected = [70, 73, 106, 134, 138, 167, 168, 169, 170];
    for i in 0..(64 * 64) {
        assert_eq!(u.get_cells().contains(i), expected.contains(&i));
    }
}

#[test]
fn empty_seed_all_dead() {
    let u = Universe::new(StartState::Empty);
    for i in 0..(64 * 64) {
        assert!(!u.get_cells().contains(i));
    }
}

#[test]
fn new_with_size_dimensions() {
    let u = Universe::new_with_size(StartState::Empty, 10, 7);
    assert_eq!(u.width(), 10);
    assert_eq!(u.height(), 7);
    assert_eq!(u.get_cells().len(), 70);
}

#[test]
fn rule_table_exact() {
    for count in 0u8..=8 {
        let live_next = next_cell_state(true, count);
        let dead_next = next_cell_state(false, count);
        assert_eq!(live_next, count == 2 || count == 3, "live cell, {} neighbors", count);
        assert_eq!(dead_next, count == 3, "dead cell, {} neighbors", count);
    }
}

#[test]
fn glider_translation() {
    let mut u = Universe::new(StartState::Empty);
    u.insert_glider(0, 0);
    let start = [(1, 0), (2, 1), (0, 2), (1, 2), (2, 2)];
    for row in 0..64 {
        for col in 0..64 {
            assert_eq!(alive(&u, row, col), start.contains(&(row, col)));
        }
    }
    for _ in 0..4 {
        u.tick();
    }
    for row in 0..64 {
        for col in 0..64 {
            let shifted_back = ((row + 64 - 1) % 64, (col + 64 - 1) % 64);
            assert_eq!(
                alive(&u, row, col),
                start.contains(&shifted_back),
                "cell ({}, {})",
                row,
                col
            );
        }
    }
}

#[test]
fn block_is_stable() {
    let mut u = Universe::new(StartState::Empty);
    u.set_cells(&[(3, 3), (3, 4), (4, 3), (4, 4)]);
    let mut before = Universe::new(StartState::Empty);
    before.set_cells(&[(3, 3), (3, 4), (4, 3), (4, 4)]);
    for _ in 0..10 {
        u.tick();
        assert!(grids_equal(&u, &before));
    }
}

#[test]
fn blinker_wraps_around_edge() {
    let mut u = Universe::new(StartState::Empty);
    u.set_cells(&[(5, 63), (5, 0), (5, 1)]);
    u.tick();
    for row in 0..64 {
        for col in 0..64 {
            assert_eq!(
                alive(&u, row, col),
                [(4, 0), (5, 0), (6, 0)].contains(&(row, col)),
                "cell ({}, {})",
                row,
                col
            );
        }
    }
    u.tick();
    for row in 0..64 {
        for col in 0..64 {
            assert_eq!(alive(&u, row, col), [(5, 63), (5, 0), (5, 1)].contains(&(row, col)));
        }
    }
}

#[test]
fn set_width_clears_state() {
    let mut u = Universe::new(StartState::Base);
    u.set_width(32);
    assert_eq!(u.width(), 32);
    assert_eq!(u.height(), 64);
    assert_eq!(u.get_cells().len(), 32 * 64);
    for i in 0..(32 * 64) {
        assert!(!u.get_cells().contains(i));
    }
}

#[test]
fn set_height_clears_state() {
    let mut u = Universe::new(StartState::Base);
    u.set_height(16);
    assert_eq!(u.width(), 64);
    assert_eq!(u.height(), 16);
    assert_eq!(u.get_cells().len(), 64 * 16);
    for i in 0..(64 * 16) {
        assert!(!u.get_cells().contains(i));
    }
}

#[test]
fn toggle_twice_restores() {
    let mut u = Universe::new(StartState::Base);
    let before = Universe::new(StartState::Base);
    let was_alive = alive(&u, 5, 6);
    u.toggle_cell(5, 6);
    assert_eq!(alive(&u, 5, 6), !was_alive);
    for row in 0..64 {
        for col in 0..64 {
            if (row, col) != (5, 6) {
                assert_eq!(alive(&u, row, col), alive(&before, row, col));
            }
        }
    }
    u.toggle_cell(5, 6);
    assert!(grids_equal(&u, &before));
}

#[test]
fn set_cells_is_additive() {
    let mut u = Universe::new_with_size(StartState::Empty, 8, 8);
    u.toggle_cell(0, 0);
    u.set_cells(&[(2, 3), (7, 7)]);
    for row in 0..8 {
        for col in 0..8 {
            assert_eq!(
                alive(&u, row, col),
                [(0, 0), (2, 3), (7, 7)].contains(&(row, col))
            );
        }
    }
}

#[test]
fn insert_pattern_transposes_stencil() {
    let mut u = Universe::new_with_size(StartState::Empty, 8, 8);
    let values = vec![vec![false, true], vec![false, false]];
    u.insert_pattern(0, 0, values);
    // The stencil value at [j][i] = [0][1] lands on grid cell (row + 1, col + 0).
    for row in 0..8 {
        for col in 0..8 {
            assert_eq!(alive(&u, row, col), (row, col) == (1, 0));
        }
    }
}

#[test]
fn pulsar_matches_stencil() {
    let mut u = Universe::new(StartState::Empty);
    u.insert_pulsar(5, 5);
    let bar = |x: u32| x == 0 || x == 5 || x == 7 || x == 12;
    let segment = |x: u32| (2..=4).contains(&x) || (8..=10).contains(&x);
    for row in 0..64 {
        for col in 0..64 {
            let expected = if (5..18).contains(&row) && (5..18).contains(&col) {
                let i = row - 5;
                let j = col - 5;
                (bar(j) && segment(i)) || (segment(j) && bar(i))
            } else {
                false
            };
            assert_eq!(alive(&u, row, col), expected, "cell ({}, {})", row, col);
        }
    }
}

#[test]
fn pulsar_has_period_three() {
    let mut u = Universe::new(StartState::Empty);
    u.insert_pulsar(20, 20);
    let mut start = Universe::new(StartState::Empty);
    start.insert_pulsar(20, 20);
    u.tick();
    assert!(!grids_equal(&u, &start));
    u.tick();
    u.tick();
    assert!(grids_equal(&u, &start));
}

#[test]
fn reset_empty_clears() {
    let mut u = Universe::new(StartState::Base);
    u.reset(StartState::Empty);
    for i in 0..(64 * 64) {
        assert!(!u.get_cells().contains(i));
    }
    assert_eq!(u.width(), 64);
    assert_eq!(u.height(), 64);
}

#[test]
fn reset_ignores_base_and_spaceship() {
    let mut u = Universe::new(StartState::Spaceship);
    let before = Universe::new(StartState::Spaceship);
    u.reset(StartState::Base);
    assert!(grids_equal(&u, &before));
    u.reset(StartState::Spaceship);
    assert!(grids_equal(&u, &before));
}

#[test]
fn tick_keeps_empty_grid_empty() {
    let mut u = Universe::new_with_size(StartState::Empty, 9, 5);
    u.tick();
    for i in 0..(9 * 5) {
        assert!(!u.get_cells().contains(i));
    }
}
