use kanban::controller::{handle_key, KeyInput, Mode, SelectionState, StepAction};
use kanban::db::{board_from_data, JsonData, Task};
use kanban::grid::{Grid, HEIGHT, WIDTH};
use kanban::render::repaint;

fn empty_board() -> kanban::db::Board {
    board_from_data(JsonData { todo: vec![], doing: vec![], done: vec![] })
}

#[test]
fn selection_cycles_left_with_wraparound() {
    let mut state = SelectionState::new();
    let mut board = empty_board();
    assert_eq!(state.selected_column, 0);
    assert_eq!(handle_key(&mut state, &mut board, KeyInput::Char('h')), StepAction::Repaint);
    assert_eq!(state.selected_column, 2);
    handle_key(&mut state, &mut board, KeyInput::Char('h'));
    assert_eq!(state.selected_column, 1);
    handle_key(&mut state, &mut board, KeyInput::Char('h'));
    assert_eq!(state.selected_column, 0);
}

#[test]
fn selection_cycles_right_with_wraparound() {
    let mut state = SelectionState::new();
    let mut board = empty_board();
    assert_eq!(handle_key(&mut state, &mut board, KeyInput::Char('l')), StepAction::Repaint);
    assert_eq!(state.selected_column, 1);
    handle_key(&mut state, &mut board, KeyInput::Char('l'));
    assert_eq!(state.selected_column, 2);
    handle_key(&mut state, &mut board, KeyInput::Char('l'));
    assert_eq!(state.selected_column, 0);
}

#[test]
fn quit_only_from_normal_mode() {
    let mut state = SelectionState::new();
    let mut board = empty_board();
    assert_eq!(handle_key(&mut state, &mut board, KeyInput::Char('Q')), StepAction::Quit);

    // in Add mode, Q is just a printable character
    let mut state = SelectionState {
        selected_column: 0,
        mode: Mode::Add,
        typed_text: String::new(),
    };
    assert_eq!(
        handle_key(&mut state, &mut board, KeyInput::Char('Q')),
        StepAction::UpdatePrompt
    );
    assert_eq!(state.mode, Mode::Add);
    assert_eq!(state.typed_text, "Q");
}

#[test]
fn unhandled_normal_keys_are_ignored() {
    let mut state = SelectionState::new();
    let mut board = empty_board();
    assert_eq!(handle_key(&mut state, &mut board, KeyInput::Char('z')), StepAction::Ignore);
    assert_eq!(handle_key(&mut state, &mut board, KeyInput::Esc), StepAction::Ignore);
    assert_eq!(handle_key(&mut state, &mut board, KeyInput::Backspace), StepAction::Ignore);
    assert_eq!(state.selected_column, 0);
    assert_eq!(state.mode, Mode::Normal);
    assert_eq!(board.columns[0].tasks.len(), 0);
}

#[test]
fn add_commit_appends_to_selected_lane() {
    // load {todo:["buy milk"], doing:[], done:[]}
    let data = JsonData {
        todo: vec![Task { text: String::from("buy milk"), position: 0 }],
        doing: vec![],
        done: vec![],
    };
    let mut board = board_from_data(data);
    let mut state = SelectionState::new();

    handle_key(&mut state, &mut board, KeyInput::Char('l'));
    handle_key(&mut state, &mut board, KeyInput::Char('l'));
    assert_eq!(state.selected_column, 2);

    assert_eq!(handle_key(&mut state, &mut board, KeyInput::Char('a')), StepAction::Repaint);
    assert_eq!(state.mode, Mode::Add);
    for ch in "ship it".chars() {
        assert_eq!(
            handle_key(&mut state, &mut board, KeyInput::Char(ch)),
            StepAction::UpdatePrompt
        );
    }
    assert_eq!(state.typed_text, "ship it");
    assert_eq!(handle_key(&mut state, &mut board, KeyInput::Char('\n')), StepAction::Repaint);

    assert_eq!(state.mode, Mode::Normal);
    assert_eq!(state.typed_text, "");
    assert_eq!(board.columns[2].tasks.len(), 1);
    assert_eq!(board.columns[2].tasks[0].text, "ship it");
    assert_eq!(board.columns[2].tasks[0].position, 0);
    // the other lanes are untouched
    assert_eq!(board.columns[0].tasks.len(), 1);
    assert_eq!(board.columns[0].tasks[0].text, "buy milk");
    assert_eq!(board.columns[1].tasks.len(), 0);
}

#[test]
fn backspace_trims_and_escape_keeps_typed_text() {
    let mut board = empty_board();
    let mut state = SelectionState {
        selected_column: 0,
        mode: Mode::Add,
        typed_text: String::from("abc"),
    };
    assert_eq!(handle_key(&mut state, &mut board, KeyInput::Backspace), StepAction::UpdatePrompt);
    assert_eq!(handle_key(&mut state, &mut board, KeyInput::Backspace), StepAction::UpdatePrompt);
    assert_eq!(state.typed_text, "a");
    assert_eq!(handle_key(&mut state, &mut board, KeyInput::Esc), StepAction::Repaint);
    assert_eq!(state.mode, Mode::Normal);
    // the typed text is kept, not cleared
    assert_eq!(state.typed_text, "a");
}

#[test]
fn backspace_on_empty_text_does_nothing() {
    let mut board = empty_board();
    let mut state = SelectionState {
        selected_column: 0,
        mode: Mode::Add,
        typed_text: String::new(),
    };
    assert_eq!(handle_key(&mut state, &mut board, KeyInput::Backspace), StepAction::UpdatePrompt);
    assert_eq!(state.typed_text, "");
}

#[test]
fn aborted_text_reappears_in_next_add_session() {
    let mut board = empty_board();
    let mut state = SelectionState::new();
    handle_key(&mut state, &mut board, KeyInput::Char('a'));
    handle_key(&mut state, &mut board, KeyInput::Char('x'));
    handle_key(&mut state, &mut board, KeyInput::Esc);
    assert_eq!(state.mode, Mode::Normal);
    handle_key(&mut state, &mut board, KeyInput::Char('a'));
    assert_eq!(state.mode, Mode::Add);
    // not auto-cleared on entry
    assert_eq!(state.typed_text, "x");
    handle_key(&mut state, &mut board, KeyInput::Char('\n'));
    assert_eq!(board.columns[0].tasks[0].text, "x");
}

#[test]
fn repaint_twice_yields_identical_grids() {
    let data = JsonData {
        todo: vec![Task { text: String::from("buy milk"), position: 0 }],
        doing: vec![Task { text: String::from("wrap text in a box"), position: 0 }],
        done: vec![],
    };
    let board = board_from_data(data);

    let mut first = Grid::new();
    assert!(repaint(&mut first, &board, 1).is_ok());
    // scribble over the second grid first: repaint must not depend on it
    let mut second = Grid::new();
    second.set_cell(40, 12, '#');
    assert!(repaint(&mut second, &board, 1).is_ok());

    for y in 0..HEIGHT {
        assert_eq!(first.row_chars(y), second.row_chars(y));
    }
}

#[test]
fn repaint_shows_tasks_and_highlight() {
    let data = JsonData {
        todo: vec![Task { text: String::from("buy milk"), position: 0 }],
        doing: vec![],
        done: vec![],
    };
    let board = board_from_data(data);
    let mut grid = Grid::new();
    assert!(repaint(&mut grid, &board, 0).is_ok());
    // highlight: lane 0 gets a double-line border over the partition
    assert_eq!(grid.get_cell(0, 0), '\u{2554}');
    assert_eq!(grid.get_cell(26, 0), '\u{2557}');
    // the frame right of the highlight stays single-line
    assert_eq!(grid.get_cell(WIDTH - 1, 0), '\u{2510}');
    // the task text and the title are visible
    assert_eq!(grid.get_cell(2, 3), 'b');
    assert_eq!(grid.get_cell(11, 1), 'T');

    // selecting lane 2 widens its highlight by one column to reach the frame
    let mut grid = Grid::new();
    assert!(repaint(&mut grid, &board, 2).is_ok());
    assert_eq!(grid.get_cell(52, 0), '\u{2554}');
    assert_eq!(grid.get_cell(79, 0), '\u{2557}');
}
