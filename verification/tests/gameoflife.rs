use sim_core::gameoflife::Cell;
use sim_core::gameoflife::CellState;
use sim_core::gameoflife::GameOfLife;
use sim_core::gameoflife::GameState;
use sim_core::gameoflife::GAME_FIELD_CELLS;
use sim_core::gameoflife::GAME_FIELD_HEIGHT;
use sim_core::gameoflife::GAME_FIELD_WIDTH;

fn alive_at(game: &GameOfLife) -> Vec<(i32, i32)> {
    let mut found = Vec::new();
    for y in 0..GAME_FIELD_HEIGHT as i32 {
        for x in 0..GAME_FIELD_WIDTH as i32 {
            if game.get(x, y).unwrap().state == CellState::Alive {
                found.push((x, y));
            }
        }
    }
    found
}

fn game_with(cells: &[(i32, i32)]) -> GameOfLife {
    let mut game = GameOfLife::new();
    for &(x, y) in cells {
        game.get_mut(x, y).unwrap().toggle_state();
    }
    game.toggle_state();
    game
}

#[test]
fn the_field_has_a_cell_for_every_position() {
    assert_eq!(GAME_FIELD_CELLS, (GAME_FIELD_WIDTH * GAME_FIELD_HEIGHT) as usize);
    assert_eq!(GameOfLife::new().cells().len(), GAME_FIELD_CELLS);
}

#[test]
fn a_new_game_is_paused_and_all_dead() {
    let game = GameOfLife::new();
    assert_eq!(game.state, GameState::Paused);
    assert_eq!(alive_at(&game), Vec::new());
}

#[test]
fn a_new_cell_is_labelled_with_its_row_and_column() {
    let game = GameOfLife::new();
    assert_eq!(game.get(0, 0), Some(Cell::new(0, 0, CellState::Dead)));
    assert_eq!(game.get(1, 0), Some(Cell::new(0, 1, CellState::Dead)));
    assert_eq!(game.get(0, 1), Some(Cell::new(1, 0, CellState::Dead)));
    assert_eq!(game.get(48, 39), Some(Cell::new(39, 48, CellState::Dead)));
    let cells = game.cells();
    assert_eq!(cells[49], Cell::new(1, 0, CellState::Dead));
    assert_eq!(cells[1959], Cell::new(39, 48, CellState::Dead));
}

#[test]
fn there_is_no_cell_off_the_field() {
    let mut game = GameOfLife::new();
    assert_eq!(game.get(-1, 0), None);
    assert_eq!(game.get(0, -1), None);
    assert_eq!(game.get(49, 0), None);
    assert_eq!(game.get(0, 40), None);
    assert_eq!(game.get(i32::MAX, i32::MIN), None);
    assert!(game.get_mut(49, 39).is_none());
    assert!(game.get_mut(-1, -1).is_none());
    assert!(game.get_mut(48, 39).is_some());
}

#[test]
fn get_mut_changes_one_cell() {
    let mut game = GameOfLife::new();
    game.get_mut(3, 2).unwrap().toggle_state();
    assert_eq!(game.get(3, 2), Some(Cell::new(2, 3, CellState::Alive)));
    assert_eq!(alive_at(&game), vec![(3, 2)]);
    *game.get_mut(3, 2).unwrap() = Cell::new(7, 7, CellState::Dead);
    assert_eq!(game.get(3, 2), Some(Cell::new(7, 7, CellState::Dead)));
    assert_eq!(game.cells()[2 * 49 + 3], Cell::new(7, 7, CellState::Dead));
}

#[test]
fn toggling_switches_between_the_two_states() {
    let mut game = GameOfLife::new();
    game.toggle_state();
    assert_eq!(game.state, GameState::Playing);
    game.toggle_state();
    assert_eq!(game.state, GameState::Paused);
    let mut cell = Cell::new(1, 2, CellState::Dead);
    cell.toggle_state();
    assert_eq!(cell, Cell::new(1, 2, CellState::Alive));
    cell.toggle_state();
    assert_eq!(cell, Cell::new(1, 2, CellState::Dead));
}

#[test]
fn a_paused_game_does_not_change() {
    let mut game = game_with(&[(1, 0), (1, 1), (1, 2)]);
    game.toggle_state();
    game.update();
    assert_eq!(alive_at(&game), vec![(1, 0), (1, 1), (1, 2)]);
    assert_eq!(game.state, GameState::Paused);
}

#[test]
fn a_blinker_turns() {
    let mut game = game_with(&[(1, 0), (1, 1), (1, 2)]);
    game.update();
    assert_eq!(alive_at(&game), vec![(0, 1), (1, 1), (2, 1)]);
    game.update();
    assert_eq!(alive_at(&game), vec![(1, 0), (1, 1), (1, 2)]);
    assert_eq!(game.state, GameState::Playing);
}

#[test]
fn a_block_stays() {
    let mut game = game_with(&[(10, 10), (11, 10), (10, 11), (11, 11)]);
    game.update();
    assert_eq!(alive_at(&game), vec![(10, 10), (11, 10), (10, 11), (11, 11)]);
}

#[test]
fn a_lonely_cell_dies_and_a_crowded_cell_dies() {
    let mut lonely = game_with(&[(5, 5)]);
    lonely.update();
    assert_eq!(alive_at(&lonely), Vec::new());
    let mut crowded = game_with(&[(5, 5), (4, 4), (6, 4), (4, 6), (6, 6)]);
    crowded.update();
    assert_eq!(alive_at(&crowded), vec![(5, 4), (4, 5), (6, 5), (5, 6)]);
}

#[test]
fn the_rim_of_the_field_has_dead_surroundings() {
    let mut game = game_with(&[(0, 0), (1, 0), (0, 1)]);
    game.update();
    assert_eq!(alive_at(&game), vec![(0, 0), (1, 0), (0, 1), (1, 1)]);
    let mut corner = game_with(&[(48, 39), (47, 39), (48, 38)]);
    corner.update();
    assert_eq!(alive_at(&corner), vec![(47, 38), (48, 38), (47, 39), (48, 39)]);
}

#[test]
fn update_keeps_the_labels() {
    let mut game = game_with(&[(1, 0), (1, 1), (1, 2)]);
    game.update();
    assert_eq!(game.get(0, 1), Some(Cell::new(1, 0, CellState::Alive)));
    assert_eq!(game.get(1, 0), Some(Cell::new(0, 1, CellState::Dead)));
}

#[test]
fn a_neighbour_that_equals_the_cell_in_all_fields_is_not_counted() {
    let mut game = game_with(&[(5, 5), (4, 5), (6, 5)]);
    let middle = game.get(5, 5).unwrap();
    *game.get_mut(4, 5).unwrap() = middle;
    *game.get_mut(6, 5).unwrap() = middle;
    game.update();
    assert_eq!(game.get(5, 5).unwrap().state, CellState::Dead);
    assert_eq!(game.get(5, 4).unwrap().state, CellState::Alive);
}
