use game_of_life::Universe;

/// Reads one cell of the packed grid.
fn alive(u: &Universe, row: u32, col: u32) -> bool {
    u.get_cells().contains((row * u.width() + col) as usize)
}

/// A universe of the given size with every cell Dead.
fn empty_universe(width: u32, height: u32) -> Universe {
    let mut u = Universe::new();
    u.set_width(width);
    u.set_height(height);
    u.kill_all();
    u
}

#[test]
fn new_has_default_dimensions() {
    let u = Universe::new();
    assert_eq!(u.width(), 64);
    assert_eq!(u.height(), 64);
}

#[test]
fn new_holds_seed_pattern() {
    let u = Universe::new();
    assert_eq!(u.get_cells().len(), 64 * 64);
    for i in 0..64 * 64usize {
        assert_eq!(u.get_cells().contains(i), i % 2 == 0 || i % 7 == 0);
    }
}

#[test]
fn construction_and_stepping_are_deterministic() {
    let mut u1 = Universe::new();
    let mut u2 = Universe::new();
    assert_eq!(u1.get_cells(), u2.get_cells());
    for _ in 0..3 {
        u1.tick();
        u2.tick();
        assert_eq!(u1.get_cells(), u2.get_cells());
    }
}

#[test]
fn toroidal_wrap_makes_corners_adjacent() {
    let mut u = empty_universe(3, 3);
    u.set_cells(&[(0, 0)]);
    assert_eq!(u.live_neighbor_count(2, 2), 1);
}

#[test]
fn neighbor_count_reaches_eight() {
    let mut u = empty_universe(5, 5);
    u.set_cells(&[
        (0, 0),
        (0, 1),
        (0, 2),
        (1, 0),
        (1, 2),
        (2, 0),
        (2, 1),
        (2, 2),
    ]);
    assert_eq!(u.live_neighbor_count(1, 1), 8);
}

#[test]
fn blinker_oscillates_with_period_two() {
    let mut u = empty_universe(5, 5);
    u.set_cells(&[(2, 1), (2, 2), (2, 3)]);

    u.tick();
    for row in 0..5 {
        for col in 0..5 {
            let expected = col == 2 && (1..=3).contains(&row);
            assert_eq!(alive(&u, row, col), expected);
        }
    }

    u.tick();
    for row in 0..5 {
        for col in 0..5 {
            let expected = row == 2 && (1..=3).contains(&col);
            assert_eq!(alive(&u, row, col), expected);
        }
    }
}

#[test]
fn block_is_a_still_life() {
    let mut u = empty_universe(6, 6);
    u.set_cells(&[(2, 2), (2, 3), (3, 2), (3, 3)]);
    for _ in 0..5 {
        u.tick();
        for row in 0..6 {
            for col in 0..6 {
                let expected = (2..=3).contains(&row) && (2..=3).contains(&col);
                assert_eq!(alive(&u, row, col), expected);
            }
        }
    }
}

#[test]
fn kill_all_is_idempotent() {
    let mut u = Universe::new();
    u.kill_all();
    let once = u.get_cells().clone();
    u.kill_all();
    assert_eq!(&once, u.get_cells());
    assert_eq!(u.get_cells().len(), 64 * 64);
    for i in 0..64 * 64usize {
        assert!(!u.get_cells().contains(i));
    }
}

#[test]
fn set_cells_is_additive() {
    let mut u = empty_universe(64, 64);
    u.set_cells(&[(0, 0), (1, 1)]);
    for row in 0..64 {
        for col in 0..64 {
            let expected = (row, col) == (0, 0) || (row, col) == (1, 1);
            assert_eq!(alive(&u, row, col), expected);
        }
    }
    u.set_cells(&[(2, 2)]);
    assert!(alive(&u, 0, 0));
    assert!(alive(&u, 1, 1));
    assert!(alive(&u, 2, 2));
}

#[test]
fn resizing_reseeds_the_grid() {
    let mut u = Universe::new();
    u.set_width(10);
    assert_eq!(u.width(), 10);
    assert_eq!(u.height(), 64);
    assert_eq!(u.get_cells().len(), 640);
    for i in 0..640usize {
        assert_eq!(u.get_cells().contains(i), i % 2 == 0 || i % 7 == 0);
    }
    u.set_height(3);
    assert_eq!(u.width(), 10);
    assert_eq!(u.height(), 3);
    assert_eq!(u.get_cells().len(), 30);
    for i in 0..30usize {
        assert_eq!(u.get_cells().contains(i), i % 2 == 0 || i % 7 == 0);
    }
}

#[test]
fn cells_exposes_the_packed_bit_layout() {
    let u = Universe::new();
    let blocks = u.cells();
    assert!(32 * blocks.len() >= 64 * 64);
    for i in 0..64 * 64usize {
        let bit = (blocks[i / 32] >> (i % 32)) & 1 == 1;
        assert_eq!(bit, u.get_cells().contains(i));
    }
}
