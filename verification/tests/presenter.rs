use game_of_life::canvas::constant::{
    ALIVE_CELL_COLOUR, CANVAS_HEIGHT, CANVAS_WIDTH, DEAD_CELL_COLOUR, LINE_COLOUR,
};
use game_of_life::canvas::presenter::{
    board_view_model, changes_view_model, get_lines, get_squares, CanvasPresenter, CanvasView,
    CanvasViewModel, Line, Square,
};
use game_of_life::generation_calculator::Change;
use game_of_life::grid::Position;
use game_of_life::grid_info::GridInfo;
use game_of_life::interactive_game::Presenter;
use std::cell::RefCell;
use std::rc::Rc;

const WIDTH: u32 = 10;
const HEIGHT: u32 = 8;

const GRID_INFO: GridInfo = GridInfo {
    width: CANVAS_WIDTH,
    height: CANVAS_HEIGHT,
    rows: 8,
    columns: 10,
};

#[derive(Debug, PartialEq)]
enum Call {
    InitBoard(CanvasViewModel),
    DrawViewModel(CanvasViewModel),
}

struct RecordingView {
    calls: Rc<RefCell<Vec<Call>>>,
}

fn copy_of(view_model: &CanvasViewModel) -> CanvasViewModel {
    CanvasViewModel {
        lines: view_model
            .lines
            .iter()
            .map(|line| Line {
                from: line.from,
                to: line.to,
                colour: line.colour.clone(),
            })
            .collect(),
        squares: view_model
            .squares
            .iter()
            .map(|square| Square {
                width: square.width,
                height: square.height,
                origin: square.origin,
                colour: square.colour.clone(),
            })
            .collect(),
    }
}

impl CanvasView for RecordingView {
    fn init_board(&mut self, view_model: &CanvasViewModel) {
        self.calls
            .borrow_mut()
            .push(Call::InitBoard(copy_of(view_model)));
    }

    fn draw_view_model(&mut self, view_model: &CanvasViewModel) {
        self.calls
            .borrow_mut()
            .push(Call::DrawViewModel(copy_of(view_model)));
    }
}

fn create_view() -> (Rc<RefCell<Vec<Call>>>, RecordingView) {
    let calls = Rc::new(RefCell::new(Vec::new()));
    let view = RecordingView {
        calls: calls.clone(),
    };
    (calls, view)
}

fn empty_initialized_view_model() -> CanvasViewModel {
    let mut lines = Vec::new();
    for y in 1..HEIGHT {
        lines.push(Line {
            from: Position {
                x: 0,
                y: y * (CANVAS_HEIGHT / HEIGHT),
            },
            to: Position {
                x: CANVAS_WIDTH,
                y: y * (CANVAS_HEIGHT / HEIGHT),
            },
            colour: LINE_COLOUR.into(),
        })
    }
    for x in 1..WIDTH {
        lines.push(Line {
            from: Position {
                x: x * (CANVAS_WIDTH / WIDTH),
                y: 0,
            },
            to: Position {
                x: x * (CANVAS_WIDTH / WIDTH),
                y: CANVAS_HEIGHT,
            },
            colour: LINE_COLOUR.into(),
        })
    }
    CanvasViewModel {
        lines,
        squares: Vec::new(),
    }
}

#[test]
#[should_panic]
fn panics_when_presenting_changes_and_not_initialized() {
    let (_calls, view) = create_view();
    let mut presenter = CanvasPresenter::new(view, GRID_INFO.clone());
    presenter.present_changes(&Vec::new());
}

#[test]
fn inits_empty_board() {
    let (calls, view) = create_view();

    let mut presenter = CanvasPresenter::new(view, GRID_INFO.clone());
    presenter.init_board(&Vec::new());

    assert_eq!(
        vec![Call::InitBoard(empty_initialized_view_model())],
        *calls.borrow()
    );
}

#[test]
#[should_panic]
fn panics_initializing_multiple_times() {
    let (_calls, view) = create_view();

    let mut presenter = CanvasPresenter::new(view, GRID_INFO.clone());
    presenter.init_board(&Vec::new());
    presenter.init_board(&Vec::new());
}

#[test]
fn present_changes() {
    let (calls, view) = create_view();
    let expected_view_model = {
        let mut squares = Vec::new();
        for (x, y) in &[(2, 3), (3, 4), (1, 1)] {
            let cell_width = CANVAS_WIDTH / WIDTH - 2;
            let cell_height = CANVAS_HEIGHT / HEIGHT - 2;
            squares.push(Square {
                width: cell_width,
                height: cell_height,
                origin: Position {
                    x: cell_width / 2 + x,
                    y: cell_height / 2 + y,
                },
                colour: ALIVE_CELL_COLOUR.into(),
            });
        }

        CanvasViewModel {
            lines: Vec::new(), // We only send changes to the view, so this is empty
            squares,
        }
    };
    let mut presenter = CanvasPresenter::new(view, GRID_INFO.clone());
    presenter.init_board(&Vec::new());
    let changes = vec![
        Change {
            position: Position { x: 2, y: 3 },
            is_alive: true,
        },
        Change {
            position: Position { x: 3, y: 4 },
            is_alive: true,
        },
        Change {
            position: Position { x: 1, y: 1 },
            is_alive: true,
        },
    ];
    presenter.present_changes(&changes);

    assert_eq!(
        vec![
            Call::InitBoard(empty_initialized_view_model()),
            Call::DrawViewModel(expected_view_model)
        ],
        *calls.borrow()
    );
}

#[test]
fn inits_board_with_live_cells() {
    let (calls, view) = create_view();
    let mut presenter = CanvasPresenter::new(view, GRID_INFO);
    presenter.init_board(&[Position { x: 9, y: 0 }, Position { x: 0, y: 7 }]);

    let mut expected = empty_initialized_view_model();
    expected.squares = vec![
        Square {
            width: 98,
            height: 123,
            origin: Position { x: 58, y: 61 },
            colour: ALIVE_CELL_COLOUR.to_string(),
        },
        Square {
            width: 98,
            height: 123,
            origin: Position { x: 49, y: 68 },
            colour: ALIVE_CELL_COLOUR.to_string(),
        },
    ];
    assert_eq!(vec![Call::InitBoard(expected)], *calls.borrow());
}

#[test]
fn dead_cells_are_drawn_in_their_own_colour() {
    let (calls, view) = create_view();
    let mut presenter = CanvasPresenter::new(view, GRID_INFO);
    presenter.init_board(&[]);
    presenter.present_changes(&[
        Change {
            position: Position { x: 0, y: 0 },
            is_alive: false,
        },
        Change {
            position: Position { x: 5, y: 6 },
            is_alive: true,
        },
    ]);
    let expected = CanvasViewModel {
        lines: Vec::new(),
        squares: vec![
            Square {
                width: 98,
                height: 123,
                origin: Position { x: 49, y: 61 },
                colour: DEAD_CELL_COLOUR.to_string(),
            },
            Square {
                width: 98,
                height: 123,
                origin: Position { x: 54, y: 67 },
                colour: ALIVE_CELL_COLOUR.to_string(),
            },
        ],
    };
    assert_eq!(Some(&Call::DrawViewModel(expected)), calls.borrow().last());
    assert_ne!(ALIVE_CELL_COLOUR, DEAD_CELL_COLOUR);
}

#[test]
fn lines_part_rows_and_then_columns() {
    let grid_info = GridInfo {
        width: 9,
        height: 20,
        rows: 2,
        columns: 3,
    };
    let lines = get_lines(&grid_info);
    let expected = vec![
        Line {
            from: Position { x: 0, y: 10 },
            to: Position { x: 9, y: 10 },
            colour: LINE_COLOUR.to_string(),
        },
        Line {
            from: Position { x: 3, y: 0 },
            to: Position { x: 3, y: 20 },
            colour: LINE_COLOUR.to_string(),
        },
        Line {
            from: Position { x: 6, y: 0 },
            to: Position { x: 6, y: 20 },
            colour: LINE_COLOUR.to_string(),
        },
    ];
    assert_eq!(expected, lines);
}

#[test]
fn layout_without_rows_or_columns_has_no_lines() {
    let no_cells = GridInfo {
        width: 100,
        height: 100,
        rows: 0,
        columns: 0,
    };
    assert_eq!(Vec::<Line>::new(), get_lines(&no_cells));
    assert_eq!(Vec::<Line>::new(), get_lines(&GridInfo::default()));
    let one_cell = GridInfo {
        width: 100,
        height: 100,
        rows: 1,
        columns: 1,
    };
    assert_eq!(Vec::<Line>::new(), get_lines(&one_cell));
}

#[test]
fn squares_follow_the_changes() {
    let grid_info = GridInfo {
        width: 30,
        height: 40,
        rows: 4,
        columns: 5,
    };
    let changes = [
        Change {
            position: Position { x: 4, y: 3 },
            is_alive: true,
        },
        Change {
            position: Position { x: 0, y: 1 },
            is_alive: false,
        },
    ];
    let expected = vec![
        Square {
            width: 4,
            height: 8,
            origin: Position { x: 6, y: 7 },
            colour: ALIVE_CELL_COLOUR.to_string(),
        },
        Square {
            width: 4,
            height: 8,
            origin: Position { x: 2, y: 5 },
            colour: DEAD_CELL_COLOUR.to_string(),
        },
    ];
    assert_eq!(expected, get_squares(&grid_info, &changes));
    assert_eq!(Vec::<Square>::new(), get_squares(&grid_info, &[]));

    let drawn = changes_view_model(&grid_info, &changes);
    assert_eq!(Vec::<Line>::new(), drawn.lines);
    assert_eq!(expected, drawn.squares);
}

#[test]
fn board_view_model_has_lines_and_live_squares() {
    let grid_info = GridInfo {
        width: 30,
        height: 40,
        rows: 4,
        columns: 5,
    };
    let view_model = board_view_model(&grid_info, &[Position { x: 1, y: 2 }]);
    assert_eq!(get_lines(&grid_info), view_model.lines);
    assert_eq!(3 + 4, view_model.lines.len());
    assert_eq!(
        vec![Square {
            width: 4,
            height: 8,
            origin: Position { x: 3, y: 6 },
            colour: ALIVE_CELL_COLOUR.to_string(),
        }],
        view_model.squares
    );
}
