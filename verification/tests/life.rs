use game_of_life::cell::{apply_rule, Cell};
use game_of_life::grid::Grid;

#[test]
fn new_grid_is_all_dead() {
    let g = Grid::new(4, 3);
    for r in 0..3usize {
        for c in 0..4usize {
            assert_eq!(g.get_cell(r, c), Some(Cell::Dead));
        }
    }
    assert_eq!(g.count_alive(), 0);
}

#[test]
fn get_index_in_and_out_of_range() {
    let g = Grid::new(5, 4);
    assert_eq!(g.get_index(0, 0), Some(0));
    assert_eq!(g.get_index(2, 3), Some(2 * 5 + 3));
    assert_eq!(g.get_index(3, 4), Some(3 * 5 + 4));
    assert_eq!(g.get_index(4, 0), None);
    assert_eq!(g.get_index(0, 5), None);
    assert_eq!(g.get_index(4, 5), None);
}

#[test]
fn set_then_get_round_trip() {
    let mut g = Grid::new(3, 3);
    assert_eq!(g.set_cell(1, 2, Cell::Alive), Some(()));
    assert_eq!(g.get_cell(1, 2), Some(Cell::Alive));
    assert_eq!(g.set_cell(1, 2, Cell::Dead), Some(()));
    assert_eq!(g.get_cell(1, 2), Some(Cell::Dead));
}

#[test]
fn out_of_range_set_is_a_no_op() {
    let mut g = Grid::new(2, 2);
    assert_eq!(g.set_cell(0, 0, Cell::Alive), Some(()));
    assert_eq!(g.set_cell(2, 0, Cell::Alive), None);
    assert_eq!(g.set_cell(0, 2, Cell::Alive), None);
    assert_eq!(g.get_cell(0, 0), Some(Cell::Alive));
    assert_eq!(g.get_cell(0, 1), Some(Cell::Dead));
    assert_eq!(g.get_cell(1, 0), Some(Cell::Dead));
    assert_eq!(g.get_cell(1, 1), Some(Cell::Dead));
    assert_eq!(g.get_cell(2, 0), None);
}

#[test]
fn count_neighbors_full_ring_is_eight() {
    let mut g = Grid::new(3, 3);
    for r in 0..3usize {
        for c in 0..3usize {
            if !(r == 1 && c == 1) {
                assert_eq!(g.set_cell(r, c, Cell::Alive), Some(()));
            }
        }
    }
    assert_eq!(g.count_neighbors(1, 1), 8);
}

#[test]
fn corner_count_is_at_most_three() {
    let mut g = Grid::new(4, 4);
    for r in 0..4usize {
        for c in 0..4usize {
            assert_eq!(g.set_cell(r, c, Cell::Alive), Some(()));
        }
    }
    assert_eq!(g.count_neighbors(0, 0), 3);
    assert_eq!(g.count_neighbors(0, 3), 3);
    assert_eq!(g.count_neighbors(3, 0), 3);
    assert_eq!(g.count_neighbors(3, 3), 3);
}

#[test]
fn rule_table_is_exhaustive() {
    for count in 0..=8usize {
        let next_alive = apply_rule(Cell::Alive, count);
        if count == 2 || count == 3 {
            assert_eq!(next_alive, Cell::Alive);
        } else {
            assert_eq!(next_alive, Cell::Dead);
        }
        let next_dead = apply_rule(Cell::Dead, count);
        if count == 3 {
            assert_eq!(next_dead, Cell::Alive);
        } else {
            assert_eq!(next_dead, Cell::Dead);
        }
    }
}

#[test]
fn blinker_flips_from_a_single_snapshot() {
    let mut g = Grid::new(3, 3);
    assert_eq!(g.set_cell(0, 1, Cell::Alive), Some(()));
    assert_eq!(g.set_cell(1, 1, Cell::Alive), Some(()));
    assert_eq!(g.set_cell(2, 1, Cell::Alive), Some(()));
    g.tick();
    assert_eq!(g.get_cell(0, 0), Some(Cell::Dead));
    assert_eq!(g.get_cell(0, 1), Some(Cell::Dead));
    assert_eq!(g.get_cell(0, 2), Some(Cell::Dead));
    assert_eq!(g.get_cell(1, 0), Some(Cell::Alive));
    assert_eq!(g.get_cell(1, 1), Some(Cell::Alive));
    assert_eq!(g.get_cell(1, 2), Some(Cell::Alive));
    assert_eq!(g.get_cell(2, 0), Some(Cell::Dead));
    assert_eq!(g.get_cell(2, 1), Some(Cell::Dead));
    assert_eq!(g.get_cell(2, 2), Some(Cell::Dead));
}

#[test]
fn block_is_a_still_life() {
    let mut g = Grid::new(4, 4);
    assert_eq!(g.set_cell(1, 1, Cell::Alive), Some(()));
    assert_eq!(g.set_cell(1, 2, Cell::Alive), Some(()));
    assert_eq!(g.set_cell(2, 1, Cell::Alive), Some(()));
    assert_eq!(g.set_cell(2, 2, Cell::Alive), Some(()));
    g.tick();
    for r in 0..4usize {
        for c in 0..4usize {
            let expected = if (r == 1 || r == 2) && (c == 1 || c == 2) {
                Cell::Alive
            } else {
                Cell::Dead
            };
            assert_eq!(g.get_cell(r, c), Some(expected));
        }
    }
    assert_eq!(g.count_alive(), 4);
}

#[test]
fn empty_grid_stays_empty() {
    let mut g = Grid::new(5, 5);
    for _ in 0..10usize {
        g.tick();
        assert_eq!(g.count_alive(), 0);
    }
}

#[test]
fn lone_center_cell_dies() {
    let mut g = Grid::new(3, 3);
    assert_eq!(g.set_cell(1, 1, Cell::Alive), Some(()));
    g.tick();
    for r in 0..3usize {
        for c in 0..3usize {
            assert_eq!(g.get_cell(r, c), Some(Cell::Dead));
        }
    }
    assert_eq!(g.count_alive(), 0);
}

#[test]
fn full_three_by_three_leaves_the_corners() {
    let mut g = Grid::new(3, 3);
    for r in 0..3usize {
        for c in 0..3usize {
            assert_eq!(g.set_cell(r, c, Cell::Alive), Some(()));
        }
    }
    g.tick();
    for r in 0..3usize {
        for c in 0..3usize {
            let expected = if (r == 0 || r == 2) && (c == 0 || c == 2) {
                Cell::Alive
            } else {
                Cell::Dead
            };
            assert_eq!(g.get_cell(r, c), Some(expected));
        }
    }
    assert_eq!(g.count_alive(), 4);
}

#[test]
fn render_draws_glyphs_and_newlines() {
    let mut g = Grid::new(2, 2);
    assert_eq!(g.set_cell(0, 0, Cell::Alive), Some(()));
    assert_eq!(g.set_cell(1, 1, Cell::Alive), Some(()));
    assert_eq!(g.render(), "█ \n █\n");
}

#[test]
fn cell_symbols() {
    assert_eq!(Cell::Alive.symbol(), '█');
    assert_eq!(Cell::Dead.symbol(), ' ');
}

#[test]
fn count_alive_counts_every_live_cell() {
    let mut g = Grid::new(3, 2);
    assert_eq!(g.count_alive(), 0);
    assert_eq!(g.set_cell(0, 0, Cell::Alive), Some(()));
    assert_eq!(g.set_cell(1, 2, Cell::Alive), Some(()));
    assert_eq!(g.count_alive(), 2);
}

#[test]
fn randomize_keeps_the_shape() {
    let mut g = Grid::new(6, 5);
    g.randomize();
    assert!(g.count_alive() <= 30);
    assert_eq!(g.render().chars().count(), 5 * 7);
    assert_eq!(g.get_index(4, 5), Some(4 * 6 + 5));
    assert_eq!(g.get_index(5, 0), None);
}
