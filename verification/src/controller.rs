//! The Normal/Add interaction state machine: one keystroke in, a state and
//! board change and a redraw decision out.

use vstd::prelude::*;
use vstd::string::StringExecFns;

use crate::db::{Board, LANES};

verus! {

/// The two interaction modes.
#[derive(Clone, Copy, PartialEq, Eq, Structural, Debug)]
pub enum Mode {
    Normal,
    Add,
}

/// One keystroke as the state machine sees it: a printable character, or
/// one of the control keys it reacts to; anything else is `Other`.
#[derive(Clone, Copy, PartialEq, Eq, Structural, Debug)]
pub enum KeyInput {
    Char(char),
    Esc,
    Backspace,
    Other,
}

/// What the caller must do after a keystroke is applied.
#[derive(Clone, Copy, PartialEq, Eq, Structural, Debug)]
pub enum StepAction {
    /// Leave the interactive loop; the board is to be saved first and the
    /// terminal restored.
    Quit,
    /// Repaint the whole board.
    Repaint,
    /// Redraw only the prompt line, not the board.
    UpdatePrompt,
    /// Nothing to redraw.
    Ignore,
}

/// The interaction state: the selected lane, the mode, and the text typed
/// so far in Add mode. Leaving Add mode with Escape keeps the typed text,
/// so a later Add session starts from it again; only committing clears it.
pub struct SelectionState {
    pub selected_column: usize,
    pub mode: Mode,
    pub typed_text: String,
}

impl SelectionState {
    /// The selected lane is always one of the board's lanes.
    pub open spec fn wf(&self) -> bool {
        self.selected_column < LANES
    }

    /// The state a session starts in: lane 0, Normal mode, nothing typed.
    pub fn new() -> (s: SelectionState)
        ensures
            s.wf(),
            s.selected_column == 0,
            s.mode == Mode::Normal,
            s.typed_text@ == Seq::<char>::empty(),
    {
        SelectionState { selected_column: 0, mode: Mode::Normal, typed_text: String::new() }
    }
}

/// The lane selected after a keystroke: in Normal mode, `h` cycles left
/// with wraparound and `l` cycles right; nothing else moves the selection.
pub open spec fn sel_after(mode: Mode, sel: int, key: KeyInput) -> int {
    if mode == Mode::Normal && key == KeyInput::Char('h') {
        if sel == 0 {
            2
        } else {
            sel - 1
        }
    } else if mode == Mode::Normal && key == KeyInput::Char('l') {
        (sel + 1) % (LANES as int)
    } else {
        sel
    }
}

/// The mode after a keystroke: `a` enters Add mode; Escape or a committing
/// newline leaves it.
pub open spec fn mode_after(mode: Mode, key: KeyInput) -> Mode {
    match mode {
        Mode::Normal => if key == KeyInput::Char('a') {
            Mode::Add
        } else {
            Mode::Normal
        },
        Mode::Add => match key {
            KeyInput::Esc => Mode::Normal,
            KeyInput::Char(c) => if c == '\n' {
                Mode::Normal
            } else {
                Mode::Add
            },
            _ => Mode::Add,
        },
    }
}

/// The typed text after a keystroke: in Add mode printable characters
/// accumulate, Backspace removes the last character if there is one, a
/// committing newline clears the buffer, and Escape keeps it untouched.
pub open spec fn text_after(mode: Mode, text: Seq<char>, key: KeyInput) -> Seq<char> {
    if mode == Mode::Add {
        match key {
            KeyInput::Backspace => if text.len() == 0 {
                text
            } else {
                text.drop_last()
            },
            KeyInput::Char(c) => if c == '\n' {
                Seq::empty()
            } else {
                text.push(c)
            },
            _ => text,
        }
    } else {
        text
    }
}

/// Whether a keystroke commits the typed text as a new task in the
/// selected lane: only a newline in Add mode does.
pub open spec fn commits(mode: Mode, key: KeyInput) -> bool {
    mode == Mode::Add && key == KeyInput::Char('\n')
}

/// The redraw decision for a keystroke. Normal-mode transitions repaint the
/// whole board; Add-mode keystrokes besides mode leaving only redraw the
/// prompt line, a deliberate cheap-redraw path for text entry.
pub open spec fn action_after(mode: Mode, key: KeyInput) -> StepAction {
    match mode {
        Mode::Normal => match key {
            KeyInput::Char(c) => if c == 'Q' {
                StepAction::Quit
            } else if c == 'h' || c == 'l' || c == 'a' {
                StepAction::Repaint
            } else {
                StepAction::Ignore
            },
            _ => StepAction::Ignore,
        },
        Mode::Add => match key {
            KeyInput::Esc => StepAction::Repaint,
            KeyInput::Char(c) => if c == '\n' {
                StepAction::Repaint
            } else {
                StepAction::UpdatePrompt
            },
            _ => StepAction::UpdatePrompt,
        },
    }
}

/// Law: the interactive loop can be left only from Normal mode. No
/// keystroke applied in Add mode yields the quit action, so quitting from
/// Add mode takes Escape first.
pub proof fn lemma_quit_only_from_normal(key: KeyInput)
    ensures
        action_after(Mode::Add, key) != StepAction::Quit,
{
}

/// Relies on `String::push` of std: it appends the given character to the
/// end of the string.
#[verifier::external_body]
fn push_char(s: &mut String, ch: char)
    ensures
        final(s)@ == old(s)@.push(ch),
{
    s.push(ch);
}

/// Relies on `String::pop` of std: it removes and returns the last
/// character of the string, or returns `None` and leaves the string alone
/// when it is empty.
#[verifier::external_body]
fn pop_char(s: &mut String) -> (r: Option<char>)
    ensures
        old(s)@.len() == 0 ==> r is None && final(s)@ == old(s)@,
        old(s)@.len() > 0 ==> r == Some(old(s)@.last()) && final(s)@ == old(s)@.drop_last(),
{
    s.pop()
}

/// Applies one keystroke to the interaction state and the board, and says
/// what the caller must redraw. Only a committing newline in Add mode
/// touches the board: it appends one task, holding the typed text, to the
/// selected lane, and clears the buffer.
pub fn handle_key(state: &mut SelectionState, board: &mut Board, key: KeyInput) -> (action:
    StepAction)
    requires
        old(state).wf(),
        old(board).wf(),
    ensures
        final(state).wf(),
        final(board).wf(),
        action == action_after(old(state).mode, key),
        final(state).mode == mode_after(old(state).mode, key),
        final(state).selected_column as int == sel_after(
            old(state).mode,
            old(state).selected_column as int,
            key,
        ),
        final(state).typed_text@ == text_after(old(state).mode, old(state).typed_text@, key),
        !commits(old(state).mode, key) ==> *final(board) == *old(board),
        commits(old(state).mode, key) ==> {
            let sel = old(state).selected_column as int;
            &&& final(board).columns@.len() == old(board).columns@.len()
            &&& forall|i: int|
                0 <= i < old(board).columns@.len() && i != sel
                    ==> final(board).columns@[i] == old(board).columns@[i]
            &&& final(board).columns@[sel].title == old(board).columns@[sel].title
            &&& final(board).columns@[sel].tasks@.len() == old(board).columns@[sel].tasks@.len() + 1
            &&& forall|j: int|
                0 <= j < old(board).columns@[sel].tasks@.len()
                    ==> final(board).columns@[sel].tasks@[j] == old(board).columns@[sel].tasks@[j]
            &&& final(board).columns@[sel].tasks@.last().text@ == old(state).typed_text@
            &&& final(board).columns@[sel].tasks@.last().position == 0
        },
{
    match state.mode {
        Mode::Normal => match key {
            KeyInput::Char(c) => {
                if c == 'Q' {
                    StepAction::Quit
                } else if c == 'h' {
                    if state.selected_column == 0 {
                        state.selected_column = 2;
                    } else {
                        state.selected_column = state.selected_column - 1;
                    }
                    StepAction::Repaint
                } else if c == 'l' {
                    state.selected_column = (state.selected_column + 1) % LANES;
                    StepAction::Repaint
                } else if c == 'a' {
                    state.mode = Mode::Add;
                    StepAction::Repaint
                } else {
                    StepAction::Ignore
                }
            },
            _ => StepAction::Ignore,
        },
        Mode::Add => match key {
            KeyInput::Esc => {
                state.mode = Mode::Normal;
                StepAction::Repaint
            },
            KeyInput::Backspace => {
                pop_char(&mut state.typed_text);
                StepAction::UpdatePrompt
            },
            KeyInput::Char(c) => {
                if c == '\n' {
                    let text = String::from_str(state.typed_text.as_str());
                    let sel = state.selected_column;
                    let column = &mut board.columns[sel];
                    column.add_task(text);
                    state.typed_text = String::new();
                    state.mode = Mode::Normal;
                    StepAction::Repaint
                } else {
                    push_char(&mut state.typed_text, c);
                    StepAction::UpdatePrompt
                }
            },
            KeyInput::Other => StepAction::UpdatePrompt,
        },
    }
}

} // verus!
