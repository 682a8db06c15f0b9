use life_engine::board::Board;
use life_engine::cell::{CellState, GridError};
use life_engine::life::{
    apply_pattern, number_of_live_cells, read_cell, rust_get_alive_neighbohrs, rust_get_cell,
    rust_init, rust_reset, rust_set_cell, rust_tick, set_pattern_1, set_pattern_2,
    set_pattern_3, set_pattern_4, set_pattern_all_dead, write_cell, Life,
};

fn created(width: usize, height: usize) -> Life {
    let mut life = Life::new();
    rust_init(&mut life, width, height).unwrap();
    life
}

fn alive_cells(life: &Life) -> Vec<(usize, usize)> {
    let board = Board::instance(life).unwrap();
    let mut out = Vec::new();
    for x in 0..board.width() {
        for y in 0..board.height() {
            if board.get(x, y) == CellState::Alive {
                out.push((x, y));
            }
        }
    }
    out
}

#[test]
#[should_panic(expected = "Board already initialized")]
fn cannot_reinitialize() {
    let mut life = Life::new();
    rust_init(&mut life, 10, 10).expect("Board already initialized");
    rust_init(&mut life, 10, 10).expect("Board already initialized");
}

#[test]
fn can_tell_alive_neighbohrs() {
    let mut life = created(10, 10);
    for (x, y) in [(0, 0), (0, 1), (1, 0), (1, 1), (9, 0), (9, 1), (0, 9), (1, 9), (9, 9)] {
        rust_set_cell(&mut life, x, y, CellState::Alive).unwrap();
    }
    assert_eq!(rust_get_alive_neighbohrs(&life, 0, 0), Ok(8));
    assert_eq!(rust_get_alive_neighbohrs(&life, 0, 1), Ok(5));
    assert_eq!(rust_get_alive_neighbohrs(&life, 1, 0), Ok(5));
    assert_eq!(rust_get_alive_neighbohrs(&life, 1, 1), Ok(3));
}

#[test]
fn alive_cell_will_live_on_with_2_neighbohrs() {
    let mut life = created(10, 10);
    rust_set_cell(&mut life, 0, 0, CellState::Alive).unwrap();
    rust_set_cell(&mut life, 0, 1, CellState::Alive).unwrap();
    rust_set_cell(&mut life, 1, 0, CellState::Alive).unwrap();

    assert_eq!(rust_get_alive_neighbohrs(&life, 0, 0), Ok(2));
    rust_tick(&mut life).unwrap();
    assert_eq!(rust_get_cell(&life, 0, 0), Ok(CellState::Alive));
    assert_eq!(rust_get_cell(&life, 1, 0), Ok(CellState::Alive));
    assert_eq!(rust_get_cell(&life, 0, 1), Ok(CellState::Alive));
}

#[test]
fn stable_quad() {
    let mut life = created(10, 10);
    rust_set_cell(&mut life, 1, 0, CellState::Alive).unwrap();
    rust_set_cell(&mut life, 0, 1, CellState::Alive).unwrap();
    rust_set_cell(&mut life, 2, 1, CellState::Alive).unwrap();
    rust_set_cell(&mut life, 1, 2, CellState::Alive).unwrap();

    assert_eq!(rust_get_alive_neighbohrs(&life, 1, 0), Ok(2));
    assert_eq!(rust_get_alive_neighbohrs(&life, 0, 1), Ok(2));
    assert_eq!(rust_get_alive_neighbohrs(&life, 2, 1), Ok(2));
    assert_eq!(rust_get_alive_neighbohrs(&life, 1, 2), Ok(2));
    rust_tick(&mut life).unwrap();

    assert_eq!(rust_get_cell(&life, 1, 0), Ok(CellState::Alive));
    assert_eq!(rust_get_cell(&life, 0, 1), Ok(CellState::Alive));
    assert_eq!(rust_get_cell(&life, 2, 1), Ok(CellState::Alive));
    assert_eq!(rust_get_cell(&life, 1, 2), Ok(CellState::Alive));
}

#[test]
fn stable_quad_brings_no_other_cell_to_life() {
    let mut life = created(10, 10);
    for (x, y) in [(1, 0), (0, 1), (2, 1), (1, 2)] {
        write_cell(&mut life, x, y, true).unwrap();
    }
    rust_tick(&mut life).unwrap();
    assert_eq!(alive_cells(&life), vec![(0, 1), (1, 0), (1, 2), (2, 1)]);
}

#[test]
fn created_grid_reads_dead_everywhere() {
    for (w, h) in [(10, 10), (7, 3), (1, 1), (36, 11)] {
        let life = created(w, h);
        for x in 0..w {
            for y in 0..h {
                assert_eq!(read_cell(&life, x, y), Ok(false));
            }
        }
        assert_eq!(number_of_live_cells(&life), Ok(0));
    }
}

#[test]
fn empty_grid_has_no_cells() {
    let life = created(0, 0);
    assert_eq!(read_cell(&life, 0, 0), Err(GridError::OutOfBounds));
    assert_eq!(number_of_live_cells(&life), Ok(0));
}

#[test]
fn second_create_fails_and_keeps_the_grid() {
    let mut life = created(4, 5);
    write_cell(&mut life, 3, 4, true).unwrap();
    assert_eq!(rust_init(&mut life, 10, 10), Err(GridError::AlreadyInitialized));
    let board = Board::instance(&life).unwrap();
    assert_eq!((board.width(), board.height()), (4, 5));
    assert_eq!(read_cell(&life, 3, 4), Ok(true));
}

#[test]
fn use_before_create_is_refused() {
    let mut life = Life::new();
    assert!(matches!(Board::instance(&life), Err(GridError::NotInitialized)));
    assert_eq!(read_cell(&life, 0, 0), Err(GridError::NotInitialized));
    assert_eq!(write_cell(&mut life, 0, 0, true), Err(GridError::NotInitialized));
    assert_eq!(rust_get_alive_neighbohrs(&life, 0, 0), Err(GridError::NotInitialized));
    assert_eq!(rust_tick(&mut life), Err(GridError::NotInitialized));
    assert_eq!(rust_reset(&mut life, 1), Err(GridError::NotInitialized));
    assert_eq!(number_of_live_cells(&life), Err(GridError::NotInitialized));
}

#[test]
fn out_of_range_coordinates_are_refused() {
    let mut life = created(10, 6);
    assert_eq!(rust_get_cell(&life, 10, 0), Err(GridError::OutOfBounds));
    assert_eq!(rust_get_cell(&life, 0, 6), Err(GridError::OutOfBounds));
    assert_eq!(rust_set_cell(&mut life, 10, 0, CellState::Alive), Err(GridError::OutOfBounds));
    assert_eq!(write_cell(&mut life, 3, 6, true), Err(GridError::OutOfBounds));
    assert_eq!(rust_get_alive_neighbohrs(&life, 11, 2), Err(GridError::OutOfBounds));
    assert_eq!(read_cell(&life, 9, 5), Ok(false));
    assert_eq!(number_of_live_cells(&life), Ok(0));
}

#[test]
fn transient_cell_counts_as_its_steady_state() {
    let mut life = created(10, 10);
    rust_set_cell(&mut life, 4, 4, CellState::AliveCalculating(7)).unwrap();
    rust_set_cell(&mut life, 4, 5, CellState::DeadCalculating(3)).unwrap();
    rust_set_cell(&mut life, 5, 5, CellState::Alive).unwrap();
    assert_eq!(rust_get_alive_neighbohrs(&life, 5, 4), Ok(2));
    assert_eq!(read_cell(&life, 4, 4), Ok(false));
}

#[test]
fn tick_over_a_transient_cell_corrupts_the_grid() {
    let mut life = created(10, 10);
    rust_set_cell(&mut life, 3, 3, CellState::DeadCalculating(0)).unwrap();
    assert_eq!(rust_tick(&mut life), Err(GridError::ConcurrentAdvance));
    assert_eq!(read_cell(&life, 0, 0), Err(GridError::StateCorrupted));
    assert_eq!(rust_tick(&mut life), Err(GridError::StateCorrupted));
    assert_eq!(rust_reset(&mut life, 0), Err(GridError::StateCorrupted));
    assert_eq!(rust_init(&mut life, 3, 3), Err(GridError::AlreadyInitialized));
}

#[test]
fn blinker_oscillates() {
    let mut life = created(5, 5);
    for y in 1..4 {
        write_cell(&mut life, 2, y, true).unwrap();
    }
    rust_tick(&mut life).unwrap();
    assert_eq!(alive_cells(&life), vec![(1, 2), (2, 2), (3, 2)]);
    rust_tick(&mut life).unwrap();
    assert_eq!(alive_cells(&life), vec![(2, 1), (2, 2), (2, 3)]);
}

#[test]
fn crowded_and_lonely_cells_die() {
    let mut life = created(6, 6);
    write_cell(&mut life, 0, 0, true).unwrap();
    for (x, y) in [(3, 3), (2, 3), (4, 3), (3, 2), (3, 4)] {
        write_cell(&mut life, x, y, true).unwrap();
    }
    assert_eq!(rust_get_alive_neighbohrs(&life, 3, 3), Ok(4));
    rust_tick(&mut life).unwrap();
    assert_eq!(read_cell(&life, 0, 0), Ok(false));
    assert_eq!(read_cell(&life, 3, 3), Ok(false));
    assert_eq!(read_cell(&life, 2, 2), Ok(true));
}

#[test]
fn neighbours_wrap_on_a_single_cell_grid() {
    let mut life = created(1, 1);
    write_cell(&mut life, 0, 0, true).unwrap();
    assert_eq!(rust_get_alive_neighbohrs(&life, 0, 0), Ok(8));
    rust_tick(&mut life).unwrap();
    assert_eq!(read_cell(&life, 0, 0), Ok(false));
}

#[test]
fn glider_is_centred_and_keeps_cells_outside() {
    let mut life = created(36, 11);
    write_cell(&mut life, 0, 0, true).unwrap();
    write_cell(&mut life, 16, 3, true).unwrap();
    rust_reset(&mut life, 1).unwrap();
    // offsets (36 - 3) / 2 = 16 and (11 - 3) / 2 = 4
    assert_eq!(alive_cells(&life), vec![(0, 0), (16, 3), (16, 6), (17, 4), (17, 6), (18, 5), (18, 6)]);
}

#[test]
fn seeding_overwrites_live_cells_in_the_footprint() {
    let mut life = created(5, 5);
    for x in 0..5 {
        for y in 0..5 {
            write_cell(&mut life, x, y, true).unwrap();
        }
    }
    apply_pattern(&mut life, &vec![vec![0, 0], vec![1, 0], vec![0, 0]]).unwrap();
    // offsets (5 - 2) / 2 = 1 and (5 - 3) / 2 = 1
    assert_eq!(read_cell(&life, 1, 1), Ok(false));
    assert_eq!(read_cell(&life, 2, 1), Ok(false));
    assert_eq!(read_cell(&life, 1, 2), Ok(true));
    assert_eq!(read_cell(&life, 2, 2), Ok(false));
    assert_eq!(read_cell(&life, 1, 3), Ok(false));
    assert_eq!(read_cell(&life, 2, 3), Ok(false));
    assert_eq!(read_cell(&life, 3, 3), Ok(true));
    assert_eq!(number_of_live_cells(&life), Ok(20));
}

#[test]
fn pattern_entries_other_than_zero_are_alive() {
    let mut life = created(3, 1);
    apply_pattern(&mut life, &vec![vec![0, 7, -2]]).unwrap();
    assert_eq!(alive_cells(&life), vec![(1, 0), (2, 0)]);
    assert_eq!(CellState::from(0), CellState::Dead);
    assert_eq!(CellState::from(1), CellState::Alive);
    assert_eq!(CellState::from(-5), CellState::Alive);
}

#[test]
fn empty_pattern_changes_nothing() {
    let mut life = created(4, 4);
    write_cell(&mut life, 2, 2, true).unwrap();
    apply_pattern(&mut life, &Vec::new()).unwrap();
    assert_eq!(alive_cells(&life), vec![(2, 2)]);
}

#[test]
fn unknown_pattern_clears_the_grid() {
    for id in [0usize, 5, 99] {
        let mut life = created(12, 7);
        for (x, y) in [(0, 0), (11, 6), (5, 3)] {
            write_cell(&mut life, x, y, true).unwrap();
        }
        rust_reset(&mut life, id).unwrap();
        assert_eq!(alive_cells(&life), vec![]);
    }
}

#[test]
fn all_dead_pattern_clears_the_grid() {
    let mut life = created(3, 8);
    write_cell(&mut life, 2, 7, true).unwrap();
    set_pattern_all_dead(&mut life).unwrap();
    assert_eq!(number_of_live_cells(&life), Ok(0));
}

#[test]
fn catalog_patterns_have_their_live_cells() {
    let mut life = created(36, 11);
    set_pattern_2(&mut life).unwrap();
    assert_eq!(number_of_live_cells(&life), Ok(36));
    assert_eq!(read_cell(&life, 0, 5), Ok(true));
    assert_eq!(read_cell(&life, 35, 3), Ok(true));

    let mut life = created(10, 10);
    set_pattern_1(&mut life).unwrap();
    assert_eq!(number_of_live_cells(&life), Ok(5));
    set_pattern_3(&mut life).unwrap();
    assert_eq!(number_of_live_cells(&life), Ok(8));
    set_pattern_4(&mut life).unwrap();
    assert_eq!(number_of_live_cells(&life), Ok(38));
    // pattern four is 6 wide and 10 tall: offset (2, 0); its first row is 0 0 1 1 0 0
    assert_eq!(read_cell(&life, 4, 0), Ok(true));
    assert_eq!(read_cell(&life, 2, 0), Ok(false));
}

#[test]
fn advance_is_deterministic() {
    let mut a = created(12, 12);
    let mut b = created(12, 12);
    rust_reset(&mut a, 3).unwrap();
    rust_reset(&mut b, 3).unwrap();
    for _ in 0..5 {
        rust_tick(&mut a).unwrap();
        rust_tick(&mut b).unwrap();
        assert_eq!(alive_cells(&a), alive_cells(&b));
    }
}

#[test]
fn board_operations_work_directly() {
    let mut board = Board::initialize(4, 3);
    assert_eq!((board.width(), board.height()), (4, 3));
    board.set(1, 0, CellState::Alive);
    board.set(1, 1, CellState::Alive);
    board.set(1, 2, CellState::Alive);
    assert_eq!(board.live_cells(), 3);
    assert_eq!(board.alive_neighbors(0, 1), 3);
    assert_eq!(board.advance(), Ok(()));
    assert_eq!(board.get(1, 1), CellState::Alive);
    board.apply_pattern(&vec![vec![1, 1, 1, 1]]);
    assert_eq!(board.get(0, 1), CellState::Alive);
    assert_eq!(board.get(3, 1), CellState::Alive);
}

#[test]
fn catalog_fits_checks_pattern_sizes() {
    let small = created(10, 10);
    assert!(life_engine::life::catalog_fits(&small, 1));
    assert!(!life_engine::life::catalog_fits(&small, 2));
    assert!(life_engine::life::catalog_fits(&small, 3));
    assert!(life_engine::life::catalog_fits(&small, 4));
    assert!(life_engine::life::catalog_fits(&small, 9));
    let short = created(36, 9);
    assert!(!life_engine::life::catalog_fits(&short, 4));
    assert!(life_engine::life::catalog_fits(&Life::new(), 2));
}
