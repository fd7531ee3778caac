use game_of_life::universe::Universe;
use game_of_life::CoordinateError;

const GLIDER: [(u32, u32); 5] = [(0, 1), (1, 2), (2, 0), (2, 1), (2, 2)];

fn empty(width: u32, height: u32) -> Universe {
    let mut universe = Universe::new(&vec![false; 64 * 64]);
    universe.set_width(width);
    universe.set_height(height);
    universe
}

fn with_cells(width: u32, height: u32, cells: &[(u32, u32)]) -> Universe {
    let mut universe = empty(width, height);
    assert_eq!(universe.set_cells(cells), Ok(()));
    universe
}

fn live_cells(universe: &Universe) -> Vec<(u32, u32)> {
    let mut live = Vec::new();
    for row in 0..universe.height() {
        for col in 0..universe.width() {
            let idx = (row * universe.width() + col) as usize;
            if universe.get_cells()[idx] {
                live.push((row, col));
            }
        }
    }
    live
}

fn shifted(cells: &[(u32, u32)], by: (u32, u32), width: u32, height: u32) -> Vec<(u32, u32)> {
    let mut moved: Vec<(u32, u32)> =
        cells.iter().map(|&(row, col)| ((row + by.0) % height, (col + by.1) % width)).collect();
    moved.sort();
    moved
}

/// A simple generator, so that the seeds below are fixed but not regular.
fn draws(count: usize, mut state: u32) -> Vec<bool> {
    let mut out = Vec::with_capacity(count);
    for _ in 0..count {
        state = state.wrapping_mul(1664525).wrapping_add(1013904223);
        out.push((state >> 16) % 5 == 0);
    }
    out
}

#[test]
fn new_universe_has_default_dimensions() {
    let universe = Universe::new(&vec![false; 64 * 64]);
    assert_eq!(universe.width(), 64);
    assert_eq!(universe.height(), 64);
    assert_eq!(universe.get_cells().len(), 4096);
}

#[test]
fn new_universe_holds_the_draws() {
    let seed = draws(64 * 64, 7);
    let universe = Universe::new(&seed);
    for (i, &alive) in seed.iter().enumerate() {
        assert_eq!(universe.get_cells()[i], alive, "cell {}", i);
    }
    assert!(seed.iter().any(|&alive| alive));
    assert!(seed.iter().any(|&alive| !alive));
}

#[test]
fn glider_moves_one_cell_diagonally_in_four_generations() {
    let mut universe = with_cells(8, 8, &shifted(&GLIDER, (1, 1), 8, 8));
    for _ in 0..4 {
        universe.tick();
    }
    assert_eq!(live_cells(&universe), vec![(2, 3), (3, 4), (4, 2), (4, 3), (4, 4)]);
}

#[test]
fn glider_first_generation_is_exact() {
    let mut universe = with_cells(6, 6, &GLIDER);
    universe.tick();
    assert_eq!(live_cells(&universe), vec![(1, 0), (1, 2), (2, 1), (2, 2), (3, 1)]);
}

#[test]
fn glider_wraps_around_the_edges() {
    for &(width, height) in &[(5u32, 5u32), (8, 8), (9, 6), (64, 64)] {
        for &start in &[(0u32, 0u32), (height - 2, width - 2), (height - 1, width - 1)] {
            let mut universe = with_cells(width, height, &shifted(&GLIDER, start, width, height));
            for _ in 0..4 {
                universe.tick();
            }
            let expected = shifted(&GLIDER, (start.0 + 1, start.1 + 1), width, height);
            assert_eq!(live_cells(&universe), expected, "{}x{} from {:?}", width, height, start);
        }
    }
}

#[test]
fn glider_returns_home_after_a_lap_of_the_torus() {
    let start = shifted(&GLIDER, (0, 0), 6, 6);
    let mut universe = with_cells(6, 6, &start);
    for _ in 0..(4 * 6) {
        universe.tick();
    }
    assert_eq!(live_cells(&universe), start);
}

#[test]
fn block_is_a_still_life() {
    let block = [(1, 1), (1, 2), (2, 1), (2, 2)];
    let mut universe = with_cells(4, 4, &block);
    for generation in 0..10 {
        universe.tick();
        assert_eq!(live_cells(&universe), block.to_vec(), "generation {}", generation + 1);
    }
}

#[test]
fn block_across_the_corner_is_a_still_life() {
    let block = vec![(0, 0), (0, 5), (4, 0), (4, 5)];
    let mut universe = with_cells(6, 5, &block);
    for _ in 0..7 {
        universe.tick();
    }
    assert_eq!(live_cells(&universe), block);
}

#[test]
fn blinker_oscillates() {
    let mut universe = with_cells(5, 5, &[(2, 1), (2, 2), (2, 3)]);
    assert_eq!(universe.render(), "◻◻◻◻◻\n◻◻◻◻◻\n◻◼◼◼◻\n◻◻◻◻◻\n◻◻◻◻◻\n");
    universe.tick();
    assert_eq!(universe.render(), "◻◻◻◻◻\n◻◻◼◻◻\n◻◻◼◻◻\n◻◻◼◻◻\n◻◻◻◻◻\n");
    universe.tick();
    assert_eq!(universe.render(), "◻◻◻◻◻\n◻◻◻◻◻\n◻◼◼◼◻\n◻◻◻◻◻\n◻◻◻◻◻\n");
}

#[test]
fn lonely_cell_dies() {
    let mut universe = with_cells(5, 5, &[(2, 2)]);
    universe.tick();
    assert_eq!(live_cells(&universe), vec![]);
}

#[test]
fn same_draws_give_same_cells_and_same_history() {
    let seed = draws(64 * 64, 2024);
    let mut first = Universe::new(&seed);
    let mut second = Universe::new(&seed);
    assert_eq!(first.get_cells(), second.get_cells());
    for generation in 0..12 {
        first.tick();
        second.tick();
        assert_eq!(first.get_cells(), second.get_cells(), "generation {}", generation + 1);
        assert_eq!(first.render(), second.render());
    }
}

#[test]
fn different_draws_give_different_cells() {
    let first = Universe::new(&draws(64 * 64, 1));
    let second = Universe::new(&draws(64 * 64, 2));
    assert_ne!(first.get_cells(), second.get_cells());
}

#[test]
fn corner_cell_counts_the_opposite_corner_as_neighbour() {
    let universe = with_cells(7, 5, &[(0, 0), (4, 6)]);
    assert_eq!(universe.live_neighbour_count(0, 0), 1);
    assert_eq!(universe.live_neighbour_count(4, 6), 1);
}

#[test]
fn neighbours_wrap_along_each_edge() {
    let universe = with_cells(6, 4, &[(3, 2), (1, 5), (3, 5)]);
    // (0, 2) sees (3, 2) across the top edge.
    assert_eq!(universe.live_neighbour_count(0, 2), 1);
    // (1, 0) sees (1, 5) across the left edge.
    assert_eq!(universe.live_neighbour_count(1, 0), 1);
    // (0, 0) sees (3, 5) across the corner and (1, 5) across the left edge.
    assert_eq!(universe.live_neighbour_count(0, 0), 2);
    // (2, 2) sees (3, 2) without any wrapping.
    assert_eq!(universe.live_neighbour_count(2, 2), 1);
    assert_eq!(universe.live_neighbour_count(2, 3), 1);
    assert_eq!(universe.live_neighbour_count(1, 2), 0);
}

#[test]
fn a_cell_is_not_its_own_neighbour() {
    let universe = with_cells(5, 5, &[(2, 2)]);
    assert_eq!(universe.live_neighbour_count(2, 2), 0);
    assert_eq!(universe.live_neighbour_count(1, 1), 1);
}

#[test]
fn full_grid_has_eight_live_neighbours_everywhere() {
    let mut universe = Universe::new(&vec![true; 64 * 64]);
    assert_eq!(universe.live_neighbour_count(0, 0), 8);
    assert_eq!(universe.live_neighbour_count(63, 63), 8);
    assert_eq!(universe.live_neighbour_count(31, 17), 8);
    universe.tick();
    assert_eq!(live_cells(&universe), vec![]);
}

#[test]
fn single_row_counts_each_direction_once() {
    let mut universe = with_cells(3, 1, &[(0, 0)]);
    assert_eq!(universe.live_neighbour_count(0, 0), 2);
    assert_eq!(universe.live_neighbour_count(0, 1), 3);
    assert_eq!(universe.live_neighbour_count(0, 2), 3);
    universe.tick();
    assert_eq!(universe.render(), "◼◼◼\n");
    universe.tick();
    assert_eq!(universe.render(), "◻◻◻\n");
}

#[test]
fn clear_twice_is_clear_once() {
    let mut once = Universe::new(&draws(64 * 64, 3));
    let mut twice = Universe::new(&draws(64 * 64, 3));
    once.clear();
    twice.clear();
    twice.clear();
    assert_eq!(once.get_cells(), twice.get_cells());
    assert_eq!(once.get_cells().count_ones(..), 0);
    assert_eq!(once.width(), 64);
    assert_eq!(once.height(), 64);
    assert_eq!(once.get_cells().len(), 4096);
}

#[test]
fn cleared_two_by_two_renders_as_dead_glyphs() {
    let mut universe = with_cells(2, 2, &[(0, 1), (1, 0)]);
    universe.clear();
    assert_eq!(universe.render(), "◻◻\n◻◻\n");
}

#[test]
fn render_shows_each_cell_with_its_glyph() {
    let universe = with_cells(3, 2, &[(0, 0), (1, 2)]);
    assert_eq!(universe.render(), "◼◻◻\n◻◻◼\n");
}

#[test]
fn draw_toggles_the_named_cells() {
    let mut universe = with_cells(4, 3, &[(1, 1)]);
    assert_eq!(universe.draw(&[vec![1, 1], vec![2, 3], vec![0, 0]]), Ok(()));
    assert_eq!(live_cells(&universe), vec![(0, 0), (2, 3)]);
}

#[test]
fn draw_twice_on_a_cell_restores_it() {
    let mut universe = with_cells(4, 4, &[(1, 2)]);
    assert_eq!(universe.draw(&[vec![3, 3], vec![3, 3]]), Ok(()));
    assert_eq!(live_cells(&universe), vec![(1, 2)]);
    assert_eq!(universe.draw(&[vec![1, 2]]), Ok(()));
    assert_eq!(universe.draw(&[vec![1, 2]]), Ok(()));
    assert_eq!(live_cells(&universe), vec![(1, 2)]);
}

#[test]
fn draw_leaves_a_cell_flipped_when_named_an_odd_number_of_times() {
    let mut universe = empty(4, 4);
    let batch = vec![vec![0, 1], vec![2, 2], vec![0, 1], vec![0, 1], vec![2, 2]];
    assert_eq!(universe.draw(&batch), Ok(()));
    assert_eq!(live_cells(&universe), vec![(0, 1)]);
}

#[test]
fn draw_of_nothing_changes_nothing() {
    let mut universe = with_cells(4, 4, &[(1, 2)]);
    assert_eq!(universe.draw(&[]), Ok(()));
    assert_eq!(live_cells(&universe), vec![(1, 2)]);
}

#[test]
fn draw_refuses_an_entry_that_is_not_a_pair() {
    let mut universe = with_cells(4, 4, &[(1, 2)]);
    let batch = vec![vec![0, 0], vec![1, 1, 1], vec![9, 9]];
    assert_eq!(universe.draw(&batch), Err(CoordinateError::WrongArity { index: 1 }));
    assert_eq!(live_cells(&universe), vec![(1, 2)]);
    assert_eq!(universe.draw(&[vec![]]), Err(CoordinateError::WrongArity { index: 0 }));
    assert_eq!(universe.draw(&[vec![2]]), Err(CoordinateError::WrongArity { index: 0 }));
    assert_eq!(live_cells(&universe), vec![(1, 2)]);
}

#[test]
fn draw_refuses_a_cell_outside_the_grid() {
    let mut universe = with_cells(4, 3, &[(1, 2)]);
    let batch = vec![vec![0, 0], vec![2, 3], vec![3, 0]];
    assert_eq!(universe.draw(&batch), Err(CoordinateError::OutOfRange { index: 2 }));
    assert_eq!(live_cells(&universe), vec![(1, 2)]);
    assert_eq!(universe.draw(&[vec![0, 4]]), Err(CoordinateError::OutOfRange { index: 0 }));
    assert_eq!(live_cells(&universe), vec![(1, 2)]);
}

#[test]
fn draw_reports_the_first_fault_only() {
    let mut universe = empty(4, 4);
    let batch = vec![vec![7, 7], vec![1]];
    assert_eq!(universe.draw(&batch), Err(CoordinateError::OutOfRange { index: 0 }));
    let batch = vec![vec![1], vec![7, 7]];
    assert_eq!(universe.draw(&batch), Err(CoordinateError::WrongArity { index: 0 }));
}

#[test]
fn set_cells_only_adds() {
    let mut universe = with_cells(4, 4, &[(1, 2)]);
    assert_eq!(universe.set_cells(&[(0, 0), (1, 2), (3, 3), (0, 0)]), Ok(()));
    assert_eq!(live_cells(&universe), vec![(0, 0), (1, 2), (3, 3)]);
}

#[test]
fn set_cells_refuses_a_cell_outside_the_grid() {
    let mut universe = with_cells(4, 3, &[(1, 2)]);
    assert_eq!(
        universe.set_cells(&[(0, 0), (3, 1)]),
        Err(CoordinateError::OutOfRange { index: 1 })
    );
    assert_eq!(universe.set_cells(&[(0, 4)]), Err(CoordinateError::OutOfRange { index: 0 }));
    assert_eq!(live_cells(&universe), vec![(1, 2)]);
}

#[test]
fn set_width_gives_a_dead_grid_of_the_new_size() {
    let mut universe = Universe::new(&vec![true; 64 * 64]);
    universe.set_width(10);
    assert_eq!(universe.width(), 10);
    assert_eq!(universe.height(), 64);
    assert_eq!(universe.get_cells().len(), 640);
    assert_eq!(universe.get_cells().count_ones(..), 0);
}

#[test]
fn set_height_gives_a_dead_grid_of_the_new_size() {
    let mut universe = Universe::new(&vec![true; 64 * 64]);
    universe.set_height(3);
    assert_eq!(universe.width(), 64);
    assert_eq!(universe.height(), 3);
    assert_eq!(universe.get_cells().len(), 192);
    assert_eq!(universe.get_cells().count_ones(..), 0);
}

#[test]
fn set_width_to_the_same_value_still_clears() {
    let mut universe = with_cells(4, 4, &[(1, 2)]);
    universe.set_width(4);
    assert_eq!(live_cells(&universe), vec![]);
    universe.set_width(4);
    assert_eq!(universe.width(), 4);
    assert_eq!(universe.get_cells().len(), 16);
    assert_eq!(live_cells(&universe), vec![]);
}

#[test]
fn clear_after_resize_covers_the_new_size() {
    let mut universe = empty(100, 70);
    assert_eq!(universe.set_cells(&[(69, 99)]), Ok(()));
    universe.clear();
    assert_eq!(universe.get_cells().len(), 7000);
    assert_eq!(universe.get_cells().count_ones(..), 0);
}

#[test]
fn empty_grid_ticks_and_renders_as_nothing() {
    let mut no_columns = empty(0, 5);
    no_columns.tick();
    assert_eq!(no_columns.render(), "");
    assert_eq!(no_columns.get_cells().len(), 0);
    let mut no_rows = empty(5, 0);
    no_rows.tick();
    assert_eq!(no_rows.render(), "");
    assert_eq!(no_rows.get_cells().len(), 0);
    assert_eq!(no_rows.draw(&[vec![0, 0]]), Err(CoordinateError::OutOfRange { index: 0 }));
}

#[test]
fn reset_reseeds_every_cell() {
    let mut universe = with_cells(3, 2, &[(0, 0)]);
    universe.reset(&[false, true, false, true, true, false]);
    assert_eq!(universe.width(), 3);
    assert_eq!(universe.height(), 2);
    assert_eq!(live_cells(&universe), vec![(0, 1), (1, 0), (1, 1)]);
}

#[test]
fn cells_exposes_the_packed_words() {
    let bits = usize::BITS as usize;
    let mut universe = empty(64, 64);
    assert_eq!(universe.cells().len(), 4096 / bits);
    assert!(universe.cells().iter().all(|&word| word == 0));
    assert_eq!(universe.set_cells(&[(0, 0), (0, 5), (2, 3)]), Ok(()));
    let words = universe.cells();
    assert_eq!(words[0], 1 | (1 << 5));
    let idx = 2 * 64 + 3;
    assert_eq!(words[idx / bits], 1 << (idx % bits));
}

#[test]
fn cells_rounds_the_word_count_up() {
    let bits = usize::BITS as usize;
    let universe = empty(5, 3);
    assert_eq!(universe.cells().len(), (15 + bits - 1) / bits);
    let universe = empty(0, 3);
    assert_eq!(universe.cells().len(), 0);
}

#[test]
fn get_cells_is_row_major() {
    let universe = with_cells(5, 3, &[(1, 2), (2, 4)]);
    let cells = universe.get_cells();
    assert_eq!(cells.ones().collect::<Vec<usize>>(), vec![7, 14]);
}
