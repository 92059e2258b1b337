use game_of_life::Universe;

fn dead(width: u32, height: u32) -> Universe {
    let seed = vec![false; (width * height) as usize];
    Universe::new(width, height, &seed)
}

fn with_cells(width: u32, height: u32, cells: &[(u32, u32)]) -> Universe {
    let mut universe = dead(width, height);
    let rows: Vec<u32> = cells.iter().map(|cell| cell.0).collect();
    let cols: Vec<u32> = cells.iter().map(|cell| cell.1).collect();
    universe.set_cells(&rows, &cols);
    universe
}

fn alive(universe: &Universe, row: u32, col: u32) -> bool {
    let idx = universe.get_index(row, col);
    universe.cells()[idx / 32] & (1 << (idx % 32)) != 0
}

fn live_cells(universe: &Universe) -> Vec<(u32, u32)> {
    let mut found = Vec::new();
    for row in 0..universe.height() {
        for col in 0..universe.width() {
            if alive(universe, row, col) {
                found.push((row, col));
            }
        }
    }
    found
}

#[test]
fn new_keeps_dimensions() {
    let universe = Universe::new(3, 2, &[false; 6]);
    assert_eq!(universe.width(), 3);
    assert_eq!(universe.height(), 2);
}

#[test]
fn new_lays_the_seed_out_row_by_row() {
    let seed = [true, false, false, false, true, true];
    let universe = Universe::new(3, 2, &seed);
    assert_eq!(live_cells(&universe), vec![(0, 0), (1, 1), (1, 2)]);
    assert_eq!(universe.cells().to_vec(), vec![0b110001u32]);
    assert_eq!(universe.render(), "◼◻◻\n◻◼◼\n");
}

#[test]
fn get_index_is_row_major() {
    let universe = dead(5, 4);
    assert_eq!(universe.get_index(0, 0), 0);
    assert_eq!(universe.get_index(0, 4), 4);
    assert_eq!(universe.get_index(1, 0), 5);
    assert_eq!(universe.get_index(2, 3), 13);
    assert_eq!(universe.get_index(3, 4), 19);
}

#[test]
fn cells_pack_thirty_two_to_a_block() {
    let mut universe = dead(8, 5);
    assert_eq!(universe.cells().to_vec(), vec![0u32, 0]);
    universe.toggle_cell(4, 1);
    assert_eq!(universe.get_index(4, 1), 33);
    assert_eq!(universe.cells().to_vec(), vec![0u32, 2]);
    universe.toggle_cell(3, 7);
    assert_eq!(universe.cells().to_vec(), vec![0x8000_0000u32, 2]);
    universe.toggle_cell(0, 0);
    assert_eq!(universe.cells().to_vec(), vec![0x8000_0001u32, 2]);
}

#[test]
fn cells_hold_whole_blocks_only() {
    assert_eq!(dead(8, 4).cells().len(), 1);
    assert_eq!(dead(11, 3).cells().len(), 2);
    assert_eq!(dead(8, 8).cells().len(), 2);
    assert_eq!(dead(1, 1).cells().len(), 1);
}

#[test]
fn toggle_cell_flips_one_cell() {
    let mut universe = dead(4, 3);
    universe.toggle_cell(2, 1);
    assert_eq!(live_cells(&universe), vec![(2, 1)]);
    universe.toggle_cell(0, 3);
    assert_eq!(live_cells(&universe), vec![(0, 3), (2, 1)]);
    universe.toggle_cell(2, 1);
    assert_eq!(live_cells(&universe), vec![(0, 3)]);
}

#[test]
fn set_cells_brings_the_named_cells_to_life() {
    let mut universe = dead(4, 4);
    universe.set_cells(&[1, 2, 3], &[2, 0, 3]);
    assert_eq!(live_cells(&universe), vec![(1, 2), (2, 0), (3, 3)]);
}

#[test]
fn set_cells_clears_nothing() {
    let mut universe = with_cells(4, 4, &[(0, 0), (1, 1)]);
    universe.set_cells(&[1, 2], &[1, 2]);
    assert_eq!(live_cells(&universe), vec![(0, 0), (1, 1), (2, 2)]);
}

#[test]
fn set_cells_with_no_coordinates_changes_nothing() {
    let mut universe = with_cells(3, 3, &[(1, 1)]);
    universe.set_cells(&[], &[]);
    assert_eq!(live_cells(&universe), vec![(1, 1)]);
}

#[test]
fn set_cells_twice_is_set_cells_once() {
    let rows = [0, 2, 2, 4];
    let cols = [1, 3, 3, 0];
    let mut once = with_cells(5, 5, &[(1, 1)]);
    once.set_cells(&rows, &cols);
    let mut twice = with_cells(5, 5, &[(1, 1)]);
    twice.set_cells(&rows, &cols);
    twice.set_cells(&rows, &cols);
    assert_eq!(once.cells().to_vec(), twice.cells().to_vec());
    assert_eq!(live_cells(&twice), vec![(0, 1), (1, 1), (2, 3), (4, 0)]);
}

#[test]
fn set_width_makes_a_grid_of_the_new_size() {
    let mut universe = with_cells(4, 3, &[(0, 0), (2, 3)]);
    let seed = [false, true, false, false, false, true];
    universe.set_width(2, &seed);
    assert_eq!(universe.width(), 2);
    assert_eq!(universe.height(), 3);
    assert_eq!(live_cells(&universe), vec![(0, 1), (2, 1)]);
    assert_eq!(universe.render(), "◻◼\n◻◻\n◻◼\n");
}

#[test]
fn set_height_makes_a_grid_of_the_new_size() {
    let mut universe = with_cells(4, 3, &[(0, 0), (2, 3)]);
    let seed = [false; 40];
    universe.set_height(10, &seed);
    assert_eq!(universe.width(), 4);
    assert_eq!(universe.height(), 10);
    assert_eq!(universe.cells().to_vec(), vec![0u32, 0]);
    assert_eq!(universe.render().chars().count(), 50);
}

#[test]
fn render_shows_one_glyph_for_each_cell() {
    let universe = with_cells(3, 2, &[(0, 1), (1, 2)]);
    assert_eq!(universe.render(), "◻◼◻\n◻◻◼\n");
}

#[test]
fn render_shows_what_was_just_written() {
    let mut universe = dead(3, 3);
    assert_eq!(universe.render(), "◻◻◻\n◻◻◻\n◻◻◻\n");
    universe.toggle_cell(1, 2);
    assert_eq!(universe.render(), "◻◻◻\n◻◻◼\n◻◻◻\n");
    assert!(alive(&universe, 1, 2));
    universe.set_cells(&[2, 0], &[0, 0]);
    assert_eq!(universe.render(), "◼◻◻\n◻◻◼\n◼◻◻\n");
    assert!(alive(&universe, 2, 0));
    assert!(alive(&universe, 0, 0));
    universe.toggle_cell(1, 2);
    assert_eq!(universe.render(), "◼◻◻\n◻◻◻\n◼◻◻\n");
    assert!(!alive(&universe, 1, 2));
}

#[test]
fn live_neighbor_count_in_the_middle() {
    let universe = with_cells(5, 5, &[(1, 1), (1, 2), (2, 3), (3, 3), (2, 2)]);
    assert_eq!(universe.live_neighbor_count(2, 2), 4);
    assert_eq!(universe.live_neighbor_count(0, 0), 1);
    assert_eq!(universe.live_neighbor_count(4, 4), 1);
    assert_eq!(universe.live_neighbor_count(4, 0), 0);
}

#[test]
fn live_neighbor_count_wraps_around_every_edge() {
    let universe = with_cells(4, 4, &[(3, 3), (3, 0), (0, 3), (1, 0), (0, 1), (3, 1), (1, 3), (1, 1)]);
    assert_eq!(universe.live_neighbor_count(0, 0), 8);
    let universe = with_cells(5, 4, &[(0, 0)]);
    assert_eq!(universe.live_neighbor_count(3, 4), 1);
    assert_eq!(universe.live_neighbor_count(3, 0), 1);
    assert_eq!(universe.live_neighbor_count(0, 4), 1);
    assert_eq!(universe.live_neighbor_count(1, 4), 1);
    assert_eq!(universe.live_neighbor_count(0, 0), 0);
    assert_eq!(universe.live_neighbor_count(2, 2), 0);
}

#[test]
fn four_corners_of_a_small_torus() {
    let universe = with_cells(3, 3, &[(0, 0), (2, 2), (0, 2), (2, 0)]);
    for (row, col) in [(0, 0), (0, 2), (2, 0), (2, 2)] {
        assert_eq!(universe.live_neighbor_count(row, col), 3);
    }
    for (row, col) in [(0, 1), (1, 0), (1, 1), (1, 2), (2, 1)] {
        assert_eq!(universe.live_neighbor_count(row, col), 4);
    }
}

#[test]
fn small_torus_counts_all_eight_others() {
    for row in 0..3 {
        for col in 0..3 {
            let mut universe = Universe::new(3, 3, &[true; 9]);
            assert_eq!(universe.live_neighbor_count(row, col), 8);
            universe.toggle_cell(row, col);
            assert_eq!(universe.live_neighbor_count(row, col), 8);
        }
    }
}

#[test]
fn single_cell_is_its_own_neighbor() {
    let mut universe = Universe::new(1, 1, &[true]);
    assert_eq!(universe.live_neighbor_count(0, 0), 8);
    universe.tick();
    assert_eq!(live_cells(&universe), vec![]);
    assert_eq!(universe.live_neighbor_count(0, 0), 0);
    universe.tick();
    assert_eq!(live_cells(&universe), vec![]);
}

#[test]
fn empty_grids_tick_without_effect() {
    let mut universe = Universe::new(0, 5, &[]);
    universe.tick();
    assert_eq!(universe.width(), 0);
    assert_eq!(universe.height(), 5);
    assert_eq!(universe.cells().len(), 0);
    assert_eq!(universe.render(), "\n\n\n\n\n");

    let mut universe = Universe::new(7, 0, &[]);
    universe.tick();
    assert_eq!(universe.width(), 7);
    assert_eq!(universe.height(), 0);
    assert_eq!(universe.cells().len(), 0);
    assert_eq!(universe.render(), "");

    let mut universe = Universe::new(0, 0, &[]);
    universe.tick();
    universe.set_cells(&[], &[]);
    assert_eq!(universe.render(), "");
}

#[test]
fn live_cell_with_fewer_than_two_neighbors_dies() {
    let mut universe = with_cells(5, 5, &[(2, 2)]);
    universe.tick();
    assert!(!alive(&universe, 2, 2));
    let mut universe = with_cells(5, 5, &[(2, 2), (2, 3)]);
    universe.tick();
    assert_eq!(live_cells(&universe), vec![]);
}

#[test]
fn live_cell_with_two_or_three_neighbors_lives_on() {
    let mut universe = with_cells(6, 6, &[(1, 1), (2, 2), (3, 3)]);
    assert_eq!(universe.live_neighbor_count(2, 2), 2);
    universe.tick();
    assert!(alive(&universe, 2, 2));
    let mut universe = with_cells(6, 6, &[(1, 1), (2, 2), (3, 3), (1, 3)]);
    assert_eq!(universe.live_neighbor_count(2, 2), 3);
    universe.tick();
    assert!(alive(&universe, 2, 2));
}

#[test]
fn live_cell_with_more_than_three_neighbors_dies() {
    let mut universe = with_cells(6, 6, &[(1, 1), (2, 2), (3, 3), (1, 3), (3, 1)]);
    assert_eq!(universe.live_neighbor_count(2, 2), 4);
    universe.tick();
    assert!(!alive(&universe, 2, 2));
    let mut universe = Universe::new(4, 4, &[true; 16]);
    universe.tick();
    assert_eq!(live_cells(&universe), vec![]);
}

#[test]
fn dead_cell_with_exactly_three_neighbors_is_born() {
    let mut universe = with_cells(6, 6, &[(1, 1), (3, 3), (1, 3)]);
    assert_eq!(universe.live_neighbor_count(2, 2), 3);
    universe.tick();
    assert!(alive(&universe, 2, 2));
}

#[test]
fn dead_cell_with_two_or_four_neighbors_stays_dead() {
    let mut universe = with_cells(6, 6, &[(1, 1), (3, 3)]);
    universe.tick();
    assert!(!alive(&universe, 2, 2));
    let mut universe = with_cells(6, 6, &[(1, 1), (3, 3), (1, 3), (3, 1)]);
    universe.tick();
    assert!(!alive(&universe, 2, 2));
}

#[test]
fn tick_computes_every_cell_from_the_old_generation() {
    let mut universe = with_cells(5, 5, &[(1, 2), (2, 2), (3, 2), (2, 3)]);
    universe.tick();
    assert_eq!(
        live_cells(&universe),
        vec![(1, 2), (1, 3), (2, 1), (2, 2), (2, 3), (3, 2), (3, 3)]
    );
    assert_eq!(universe.render(), "◻◻◻◻◻\n◻◻◼◼◻\n◻◼◼◼◻\n◻◻◼◼◻\n◻◻◻◻◻\n");
}

#[test]
fn block_is_a_still_life() {
    let block = [(1, 1), (1, 2), (2, 1), (2, 2)];
    let mut universe = with_cells(4, 4, &block);
    for _ in 0..3 {
        universe.tick();
        assert_eq!(live_cells(&universe), block.to_vec());
    }
    let mut universe = with_cells(7, 5, &[(2, 4), (2, 5), (3, 4), (3, 5)]);
    universe.tick();
    assert_eq!(live_cells(&universe), vec![(2, 4), (2, 5), (3, 4), (3, 5)]);
}

#[test]
fn block_across_the_edges_is_a_still_life() {
    let mut universe = with_cells(4, 4, &[(3, 3), (3, 0), (0, 3), (0, 0)]);
    let before = universe.cells().to_vec();
    universe.tick();
    assert_eq!(universe.cells().to_vec(), before);
    assert_eq!(live_cells(&universe), vec![(0, 0), (0, 3), (3, 0), (3, 3)]);
}

#[test]
fn blinker_has_period_two() {
    let horizontal = vec![(2, 1), (2, 2), (2, 3)];
    let vertical = vec![(1, 2), (2, 2), (3, 2)];
    let mut universe = with_cells(5, 5, &horizontal);
    for _ in 0..3 {
        universe.tick();
        assert_eq!(live_cells(&universe), vertical);
        universe.tick();
        assert_eq!(live_cells(&universe), horizontal);
    }
}

#[test]
fn blinker_across_an_edge_has_period_two() {
    let mut universe = with_cells(6, 5, &[(0, 5), (0, 0), (0, 1)]);
    universe.tick();
    assert_eq!(live_cells(&universe), vec![(0, 0), (1, 0), (4, 0)]);
    universe.tick();
    assert_eq!(live_cells(&universe), vec![(0, 0), (0, 1), (0, 5)]);
}

#[test]
fn glider_moves_one_cell_diagonally_in_four_ticks() {
    let mut universe = with_cells(6, 6, &[(0, 1), (1, 2), (2, 0), (2, 1), (2, 2)]);
    for _ in 0..4 {
        universe.tick();
    }
    assert_eq!(live_cells(&universe), vec![(1, 2), (2, 3), (3, 1), (3, 2), (3, 3)]);
}

#[test]
fn same_start_gives_the_same_generations() {
    let seed: Vec<bool> = (0..63u32).map(|i| i % 3 == 0 || i % 7 == 2).collect();
    let mut first = Universe::new(9, 7, &seed);
    let mut second = Universe::new(9, 7, &seed);
    for _ in 0..12 {
        first.tick();
        second.tick();
        assert_eq!(first.cells().to_vec(), second.cells().to_vec());
        assert_eq!(first.render(), second.render());
    }
}

#[test]
fn tick_keeps_the_size() {
    let seed: Vec<bool> = (0..35u32).map(|i| i % 2 == 0).collect();
    let mut universe = Universe::new(7, 5, &seed);
    universe.tick();
    assert_eq!(universe.width(), 7);
    assert_eq!(universe.height(), 5);
    assert_eq!(universe.cells().len(), 2);
    assert_eq!(universe.render().chars().count(), 40);
}
