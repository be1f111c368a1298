use game_of_life::grid::{Grid, GridImpl, Position};

#[test]
fn grid_has_correct_width() {
    let grid = GridImpl::new(10, 5);
    assert_eq!(10, grid.width());
}

#[test]
fn grid_has_correct_height() {
    let grid = GridImpl::new(10, 5);
    assert_eq!(5, grid.height());
}

#[test]
fn grid_inits_dead() {
    let grid = GridImpl::new(10, 10);
    for cell_is_alive in grid.iter() {
        assert_eq!(false, *cell_is_alive)
    }
}

#[test]
fn grid_sets_alive() {
    let mut grid = GridImpl::new(10, 10);
    let position = Position { x: 2, y: 3 };
    grid.set_alive_at(position);
    assert_eq!(true, grid.is_alive_at(position));
}

#[test]
fn grid_sets_dead() {
    let mut grid = GridImpl::new(10, 10);
    let position = Position { x: 2, y: 3 };
    grid.set_alive_at(position);
    grid.set_dead_at(position);
    assert_eq!(false, grid.is_alive_at(position));
}

#[test]
fn grid_grid_has_correct_width() {
    let grid = GridImpl::new(10, 5);
    assert_eq!(10, grid.width());
}

#[test]
fn grid_grid_has_correct_height() {
    let grid = GridImpl::new(10, 5);
    assert_eq!(5, grid.height());
}

#[test]
fn grid_grid_inits_dead() {
    let grid = GridImpl::new(10, 10);
    for x in 0..grid.width() {
        for y in 0..grid.height() {
            assert_eq!(false, grid.is_alive_at(Position { x, y }))
        }
    }
}

#[test]
fn grid_grid_sets_alive() {
    let mut grid = GridImpl::new(10, 10);
    grid.set_alive_at(Position { x: 2, y: 3 });
    assert_eq!(true, grid.is_alive_at(Position { x: 2, y: 3 }));
}

#[test]
fn grid_grid_sets_dead() {
    let mut grid = GridImpl::new(10, 10);
    grid.set_alive_at(Position { x: 2, y: 3 });
    grid.set_dead_at(Position { x: 2, y: 3 });
    assert_eq!(false, grid.is_alive_at(Position { x: 2, y: 3 }));
}

#[test]
fn grid_has_as_many_cells_as_width_times_height() {
    let grid = GridImpl::new(10, 5);
    assert_eq!(50, grid.len());
    let empty = GridImpl::new(0, 7);
    assert_eq!(0, empty.len());
    assert_eq!(0, empty.width());
    assert_eq!(7, empty.height());
}

#[test]
fn setting_a_cell_touches_no_other_cell() {
    let mut grid = GridImpl::new(4, 3);
    grid.set_alive_at(Position { x: 3, y: 1 });
    for y in 0..3 {
        for x in 0..4 {
            assert_eq!(x == 3 && y == 1, grid.is_alive_at(Position { x, y }));
        }
    }
    grid.set_alive_at(Position { x: 0, y: 2 });
    grid.set_dead_at(Position { x: 3, y: 1 });
    for y in 0..3 {
        for x in 0..4 {
            assert_eq!(x == 0 && y == 2, grid.is_alive_at(Position { x, y }));
        }
    }
}

#[test]
fn cells_are_stored_row_by_row() {
    let mut grid = GridImpl::new(4, 3);
    grid.set_alive_at(Position { x: 1, y: 2 });
    let cells: Vec<bool> = grid.iter().copied().collect();
    let mut expected = vec![false; 12];
    expected[2 * 4 + 1] = true;
    assert_eq!(expected, cells);
}

#[test]
fn corner_cells_are_cells_of_the_grid() {
    let mut grid = GridImpl::new(3, 2);
    grid.set_alive_at(Position { x: 0, y: 0 });
    grid.set_alive_at(Position { x: 2, y: 1 });
    assert!(grid.is_alive_at(Position { x: 0, y: 0 }));
    assert!(grid.is_alive_at(Position { x: 2, y: 1 }));
    assert!(!grid.is_alive_at(Position { x: 2, y: 0 }));
    assert!(!grid.is_alive_at(Position { x: 0, y: 1 }));
}

#[test]
fn clone_is_equal_and_independent() {
    let mut grid = GridImpl::new(3, 3);
    grid.set_alive_at(Position { x: 1, y: 1 });
    let copy = grid.clone();
    assert_eq!(grid, copy);
    grid.set_dead_at(Position { x: 1, y: 1 });
    assert!(copy.is_alive_at(Position { x: 1, y: 1 }));
    assert_ne!(grid, copy);
}
