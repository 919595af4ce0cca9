use minesweeper::cell::{Cell, CellType};
use minesweeper::error::GameError;
use minesweeper::game::MineSweeper;
use minesweeper::grid::Grid;

fn mine_count(game: &MineSweeper) -> usize {
    let grid = game.grid();
    let mut n = 0;
    for r in 0..grid.rows() {
        for c in 0..grid.cols() {
            if grid.get_cell(r, c).unwrap().cell_type().is_mine() {
                n += 1;
            }
        }
    }
    n
}

fn find_mine(game: &MineSweeper) -> (u8, u8) {
    let grid = game.grid();
    for r in 0..grid.rows() {
        for c in 0..grid.cols() {
            if grid.get_cell(r, c).unwrap().cell_type().is_mine() {
                return (r, c);
            }
        }
    }
    panic!("no mine on the grid");
}

#[test]
fn new_cell_is_empty_and_hidden() {
    let cell = Cell::new(3, 4);
    assert_eq!(cell.row(), 3);
    assert_eq!(cell.col(), 4);
    let t = cell.cell_type();
    assert!(t.is_empty());
    assert!(!t.is_mine());
    assert!(!t.is_revealed());
    assert!(!t.is_flagged());
}

#[test]
fn cell_setters_touch_one_field() {
    let mut cell = Cell::new(0, 0);
    cell.set_row(5);
    cell.set_col(6);
    assert_eq!((cell.row(), cell.col()), (5, 6));
    let mut t = *cell.cell_type();
    t.set_is_mine(true);
    t.set_is_emtpy(false);
    cell.set_cell_type(t);
    assert!(cell.cell_type().is_mine());
    assert!(!cell.cell_type().is_empty());
    assert!(!cell.cell_type().is_revealed());
    let mut u = CellType { is_empty: true, is_mine: false, is_revealed: false, is_flagged: false };
    u.set_is_revealed(true);
    u.set_is_flagged(true);
    assert!(u.is_revealed() && u.is_flagged() && u.is_empty() && !u.is_mine());
}

#[test]
fn grid_cells_carry_their_coordinates() {
    let grid = Grid::new(3, 5).unwrap();
    assert_eq!(grid.rows(), 3);
    assert_eq!(grid.cols(), 5);
    assert_eq!(grid.grid().len(), 3);
    for r in 0..3u8 {
        assert_eq!(grid.grid()[r as usize].len(), 5);
        for c in 0..5u8 {
            let cell = grid.get_cell(r, c).unwrap();
            assert_eq!((cell.row(), cell.col()), (r, c));
            assert!(cell.cell_type().is_empty());
        }
    }
}

#[test]
fn grid_rejects_zero_dimension() {
    assert_eq!(Grid::new(0, 4).err(), Some(GameError::ZeroDimension));
    assert_eq!(Grid::new(4, 0).err(), Some(GameError::ZeroDimension));
}

#[test]
fn grid_access_out_of_bounds() {
    let mut grid = Grid::new(2, 3).unwrap();
    assert_eq!(grid.get_cell(2, 0).err(), Some(GameError::OutOfBounds));
    assert_eq!(grid.get_cell(0, 3).err(), Some(GameError::OutOfBounds));
    assert_eq!(grid.get_cell_mut(5, 5).err(), Some(GameError::OutOfBounds));
    assert_eq!(grid.set_cell(2, 2, Cell::new(2, 2)), Err(GameError::OutOfBounds));
}

#[test]
fn grid_set_cell_keeps_positions() {
    let mut grid = Grid::new(2, 3).unwrap();
    assert_eq!(grid.set_cell(1, 2, Cell::new(0, 0)), Err(GameError::MisplacedCell));
    let mut cell = Cell::new(1, 2);
    cell.cell_type.set_is_flagged(true);
    assert_eq!(grid.set_cell(1, 2, cell), Ok(()));
    assert!(grid.get_cell(1, 2).unwrap().cell_type().is_flagged());
    assert!(!grid.get_cell(1, 1).unwrap().cell_type().is_flagged());
    grid.get_cell_mut(0, 1).unwrap().cell_type.set_is_mine(true);
    assert!(grid.get_cell(0, 1).unwrap().cell_type().is_mine());
}

#[test]
fn construction_rejects_bad_sizes() {
    assert_eq!(MineSweeper::new(0, 5, 1).err(), Some(GameError::ZeroDimension));
    assert_eq!(MineSweeper::new(5, 0, 1).err(), Some(GameError::ZeroDimension));
    assert_eq!(MineSweeper::new(0, 0, 0).err(), Some(GameError::ZeroDimension));
    assert_eq!(MineSweeper::new(3, 3, 9).err(), Some(GameError::TooManyMines));
    assert_eq!(MineSweeper::new(3, 3, 200).err(), Some(GameError::TooManyMines));
    assert!(MineSweeper::new(3, 3, 8).is_ok());
}

#[test]
fn new_game_has_no_mines_and_is_running() {
    let game = MineSweeper::new(7, 7, 16).unwrap();
    assert_eq!(mine_count(&game), 0);
    assert_eq!(game.num_mines(), 16);
    assert!(!game.is_game_over());
}

#[test]
fn shuffle_places_exactly_the_mines() {
    for &(rows, cols, n) in &[(7u8, 7u8, 16u8), (1, 2, 1), (3, 3, 8), (10, 20, 0), (255, 255, 255)] {
        let mut game = MineSweeper::new(rows, cols, n).unwrap();
        game.shuffle();
        assert_eq!(mine_count(&game), n as usize);
        assert!(!game.is_game_over());
    }
}

#[test]
fn shuffle_keeps_mines_already_set() {
    let mut game = MineSweeper::new(4, 4, 3).unwrap();
    game.set_mine(0, 0).unwrap();
    game.set_mine(3, 3).unwrap();
    game.shuffle();
    assert_eq!(mine_count(&game), 3);
    assert!(game.grid().get_cell(0, 0).unwrap().cell_type().is_mine());
    assert!(game.grid().get_cell(3, 3).unwrap().cell_type().is_mine());

    let mut crowded = MineSweeper::new(2, 2, 1).unwrap();
    crowded.set_mine(0, 0).unwrap();
    crowded.set_mine(1, 1).unwrap();
    crowded.shuffle();
    assert_eq!(mine_count(&crowded), 2);
}

#[test]
fn neighbour_numbers_by_position() {
    let game = MineSweeper::new(4, 5, 0).unwrap();
    assert_eq!(game.get_neighbours(0, 0).len(), 3);
    assert_eq!(game.get_neighbours(3, 4).len(), 3);
    assert_eq!(game.get_neighbours(0, 4).len(), 3);
    assert_eq!(game.get_neighbours(0, 2).len(), 5);
    assert_eq!(game.get_neighbours(2, 0).len(), 5);
    assert_eq!(game.get_neighbours(1, 1).len(), 8);
    assert_eq!(game.get_neighbours(2, 3).len(), 8);
}

#[test]
fn neighbours_come_in_compass_order() {
    let game = MineSweeper::new(3, 3, 0).unwrap();
    let got: Vec<(u8, u8)> = game.get_neighbours(1, 1).iter().map(|c| (c.row(), c.col())).collect();
    assert_eq!(got, vec![(0, 0), (1, 0), (2, 0), (0, 1), (2, 1), (0, 2), (1, 2), (2, 2)]);
    let corner: Vec<(u8, u8)> = game.get_neighbours(0, 0).iter().map(|c| (c.row(), c.col())).collect();
    assert_eq!(corner, vec![(1, 0), (0, 1), (1, 1)]);
}

#[test]
fn neighbours_of_single_cell_grid() {
    let game = MineSweeper::new(1, 1, 0).unwrap();
    assert!(game.get_neighbours(0, 0).is_empty());
    assert_eq!(game.count_mine_neighbours(0, 0), 0);
}

#[test]
fn count_mine_neighbours_counts_adjacent_mines() {
    let mut game = MineSweeper::new(4, 4, 0).unwrap();
    game.set_mine(0, 0).unwrap();
    game.set_mine(0, 1).unwrap();
    game.set_mine(2, 2).unwrap();
    game.set_mine(3, 3).unwrap();
    assert_eq!(game.count_mine_neighbours(1, 1), 3);
    assert_eq!(game.count_mine_neighbours(0, 0), 1);
    assert_eq!(game.count_mine_neighbours(3, 3), 1);
    assert_eq!(game.count_mine_neighbours(3, 0), 0);
    assert_eq!(game.count_mine_neighbours(2, 3), 2);
}

#[test]
fn count_mine_neighbours_surrounded() {
    let mut game = MineSweeper::new(3, 3, 8).unwrap();
    game.shuffle();
    let (r, c) = (0..3u8)
        .flat_map(|r| (0..3u8).map(move |c| (r, c)))
        .find(|&(r, c)| !game.grid().get_cell(r, c).unwrap().cell_type().is_mine())
        .unwrap();
    let expected = game.get_neighbours(r, c).len() as u8;
    assert_eq!(game.count_mine_neighbours(r, c), expected);
}

#[test]
fn reveal_twice_is_idempotent() {
    let mut game = MineSweeper::new(3, 3, 1).unwrap();
    assert_eq!(game.set_reveal(1, 2), Ok(()));
    assert!(game.grid().get_cell(1, 2).unwrap().cell_type().is_revealed());
    assert_eq!(game.set_reveal(1, 2), Ok(()));
    assert!(game.grid().get_cell(1, 2).unwrap().cell_type().is_revealed());
    assert!(!game.grid().get_cell(2, 1).unwrap().cell_type().is_revealed());
    assert_eq!(game.set_reveal(3, 0), Err(GameError::OutOfBounds));
}

#[test]
fn flag_twice_is_idempotent() {
    let mut game = MineSweeper::new(3, 3, 1).unwrap();
    assert_eq!(game.set_flag(0, 2), Ok(()));
    assert_eq!(game.set_flag(0, 2), Ok(()));
    assert!(game.grid().get_cell(0, 2).unwrap().cell_type().is_flagged());
    assert!(!game.grid().get_cell(0, 2).unwrap().cell_type().is_revealed());
    assert!(!game.grid().get_cell(2, 0).unwrap().cell_type().is_flagged());
    assert_eq!(game.set_flag(0, 3), Err(GameError::OutOfBounds));
}

#[test]
fn dig_mine_ends_game_without_reveal() {
    let mut game = MineSweeper::new(3, 3, 0).unwrap();
    game.set_mine(2, 1).unwrap();
    assert_eq!(game.dig(2, 1), Ok(false));
    assert!(game.is_game_over());
    assert!(!game.grid().get_cell(2, 1).unwrap().cell_type().is_revealed());
}

#[test]
fn dig_safe_reveals_that_cell_only() {
    let mut game = MineSweeper::new(3, 4, 0).unwrap();
    assert_eq!(game.dig(0, 3), Ok(true));
    assert!(!game.is_game_over());
    for r in 0..3u8 {
        for c in 0..4u8 {
            let shown = game.grid().get_cell(r, c).unwrap().cell_type().is_revealed();
            assert_eq!(shown, (r, c) == (0, 3));
        }
    }
}

#[test]
fn dig_out_of_bounds() {
    let mut game = MineSweeper::new(3, 3, 0).unwrap();
    assert_eq!(game.dig(3, 0), Err(GameError::OutOfBounds));
    assert_eq!(game.dig(0, 200), Err(GameError::OutOfBounds));
    assert!(!game.is_game_over());
}

#[test]
fn four_by_four_one_mine() {
    let mut game = MineSweeper::new(4, 4, 1).unwrap();
    game.shuffle();
    assert_eq!(mine_count(&game), 1);
    let (mr, mc) = find_mine(&game);

    let mut safe = MineSweeper::new(4, 4, 1).unwrap();
    safe.set_mine(mr, mc).unwrap();
    let (sr, sc) = if (mr, mc) == (0, 0) { (3, 3) } else { (0, 0) };
    assert_eq!(safe.dig(sr, sc), Ok(true));
    assert!(safe.grid().get_cell(sr, sc).unwrap().cell_type().is_revealed());
    assert!(!safe.is_game_over());

    assert_eq!(game.dig(mr, mc), Ok(false));
    assert!(game.is_game_over());
}
