//! Tasks, lanes, and the in-memory board.

use vstd::prelude::*;
use vstd::string::StringExecFns;

verus! {

/// One task: its text, and an insertion-order marker carried through from
/// the persisted form. The marker is opaque metadata, never interpreted
/// here; newly created tasks carry 0.
pub struct Task {
    pub text: String,
    pub position: usize,
}

/// One lane of the board: a title and the tasks it holds, in insertion
/// order.
pub struct Column {
    pub title: String,
    pub tasks: Vec<Task>,
}

impl Column {
    /// Appends a task with the given text. Insertion order is preserved and
    /// no existing task is touched.
    pub fn add_task(&mut self, text: String)
        ensures
            final(self).title == old(self).title,
            final(self).tasks@.len() == old(self).tasks@.len() + 1,
            forall|i: int| 0 <= i < old(self).tasks@.len()
                ==> final(self).tasks@[i] == old(self).tasks@[i],
            final(self).tasks@.last().text@ == text@,
            final(self).tasks@.last().position == 0,
    {
        let task = Task { text, position: 0 };
        self.tasks.push(task);
    }
}

/// The persisted shape of the board: three ordered arrays of task records,
/// one per lane.
pub struct JsonData {
    pub todo: Vec<Task>,
    pub doing: Vec<Task>,
    pub done: Vec<Task>,
}

/// The number of lanes on the board.
pub const LANES: usize = 3;

/// The board: exactly `LANES` lanes, with fixed identity and order
/// TODO / DOING / DONE.
pub struct Board {
    pub columns: Vec<Column>,
}

impl Board {
    /// A board always holds exactly `LANES` columns.
    pub open spec fn wf(&self) -> bool {
        self.columns@.len() == LANES as int
    }
}

/// Builds the in-memory board from loaded data: the lanes TODO, DOING and
/// DONE take the three task arrays, in array order.
pub fn board_from_data(data: JsonData) -> (board: Board)
    ensures
        board.wf(),
        board.columns@[0].title@ == "TODO"@,
        board.columns@[1].title@ == "DOING"@,
        board.columns@[2].title@ == "DONE"@,
        board.columns@[0].tasks == data.todo,
        board.columns@[1].tasks == data.doing,
        board.columns@[2].tasks == data.done,
{
    let mut columns: Vec<Column> = Vec::new();
    columns.push(Column { title: String::from_str("TODO"), tasks: data.todo });
    columns.push(Column { title: String::from_str("DOING"), tasks: data.doing });
    columns.push(Column { title: String::from_str("DONE"), tasks: data.done });
    Board { columns }
}

/// The display name of the lane at `index`, for the status line.
pub fn column_name(index: usize) -> (name: &'static str)
    ensures
        index == 0 ==> name@ == "TODO"@,
        index == 1 ==> name@ == "DOING"@,
        index == 2 ==> name@ == "DONE"@,
        index >= 3 ==> name@ == "Unknown column"@,
{
    match index {
        0 => "TODO",
        1 => "DOING",
        2 => "DONE",
        _ => "Unknown column",
    }
}

} // verus!
