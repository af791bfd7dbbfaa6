//! One lane rendered as a centered title above stacked task boxes, and the
//! whole-board repaint composed from the partition, the selected lane's
//! highlight, and the three lanes.

use vstd::prelude::*;
use vstd::string::StringExecFns;

use crate::db::{Board, Column, Task, LANES};
use crate::grid::{blank_grid, Grid, HEIGHT, WIDTH};
use crate::ui::{
    apply_box, apply_partition, apply_text, draw_double_box, draw_row, draw_text_object,
    text_fits, text_rows, BoundsError, BoxStyle, Position, TextObject,
};

verus! {

broadcast use crate::grid::lemma_grid_shape;

/// Width of one lane: the grid width split over the lanes, rounded down.
pub const COLUMN_WIDTH: usize = WIDTH / LANES;

/// Maximum text width inside a task box.
pub const TASK_TEXT_WIDTH: usize = WIDTH / 3 - 3;

/// The row a lane title stands on.
pub const TITLE_ROW: usize = 1;

/// The cursor row where a lane's first task box starts: just below the
/// title.
pub const FIRST_TASK_ROW: usize = 2;

/// The anchor column of a centered lane title of `len` characters.
pub open spec fn title_x(ci: int, len: int) -> int {
    ci * (COLUMN_WIDTH as int) + (COLUMN_WIDTH as int) / 2 - len / 2
}

/// Whether a lane title can be drawn at all: the centering arithmetic must
/// not run off the left edge (a title about half a lane wide or longer is
/// refused), and the centered text must stay inside the grid.
pub open spec fn title_fits(ci: int, len: int) -> bool {
    len / 2 <= ci * (COLUMN_WIDTH as int) + (COLUMN_WIDTH as int) / 2 && text_fits(
        len,
        title_x(ci, len),
        TITLE_ROW as int,
        COLUMN_WIDTH as int,
    )
}

/// The anchor column of task text in lane `ci`.
pub open spec fn task_text_x(ci: int) -> int {
    ci * (WIDTH as int) / 3 + 2
}

/// One task rendered at cursor row `cur`: its text wrapped one row below and
/// two columns in, inside a double-line box whose top border is on `cur` and
/// whose bottom border is one row below the last text row.
pub open spec fn apply_task(g: Seq<Seq<char>>, ci: int, t: Seq<char>, cur: int) -> Seq<Seq<char>> {
    let h = text_rows(t.len() as int, TASK_TEXT_WIDTH as int);
    apply_box(
        apply_text(g, t, task_text_x(ci), cur + 1, TASK_TEXT_WIDTH as int),
        ci * (COLUMN_WIDTH as int),
        cur,
        COLUMN_WIDTH as int,
        h + 1,
        BoxStyle::Double,
    )
}

/// The cursor row after one task: the row immediately below that task's
/// box, so consecutive task boxes never overlap.
pub open spec fn next_cursor(t: Seq<char>, cur: int) -> int {
    cur + text_rows(t.len() as int, TASK_TEXT_WIDTH as int) + 2
}

/// Whether every task of `ts`, stacked in lane `ci` from cursor row `cur`,
/// fits inside the grid.
pub open spec fn tasks_fit(ts: Seq<Seq<char>>, ci: int, cur: int) -> bool
    decreases ts.len(),
{
    ts.len() == 0 || {
        let t = ts[0];
        let h = text_rows(t.len() as int, TASK_TEXT_WIDTH as int);
        &&& text_fits(t.len() as int, task_text_x(ci), cur + 1, TASK_TEXT_WIDTH as int)
        &&& ci * (COLUMN_WIDTH as int) + (COLUMN_WIDTH as int) < WIDTH as int
        &&& cur + h + 1 < HEIGHT as int
        &&& tasks_fit(ts.skip(1), ci, next_cursor(t, cur))
    }
}

/// The grid after the tasks `ts` are stacked in lane `ci` from cursor row
/// `cur`, first task first.
pub open spec fn apply_tasks(g: Seq<Seq<char>>, ci: int, ts: Seq<Seq<char>>, cur: int) -> Seq<
    Seq<char>,
>
    decreases ts.len(),
{
    if ts.len() == 0 {
        g
    } else {
        apply_tasks(apply_task(g, ci, ts[0], cur), ci, ts.skip(1), next_cursor(ts[0], cur))
    }
}

/// Law: consecutive task boxes never overlap. A task's box occupies the
/// rows `cur ..= cur + rows + 1`; the next task's box starts strictly
/// below that, purely by the cursor advance.
pub proof fn lemma_task_boxes_disjoint(t: Seq<char>, cur: int)
    ensures
        next_cursor(t, cur) > cur + text_rows(t.len() as int, TASK_TEXT_WIDTH as int) + 1,
{
}

/// The texts of a lane's tasks, in order.
pub open spec fn task_texts(tasks: Seq<Task>) -> Seq<Seq<char>> {
    tasks.map_values(|t: Task| t.text@)
}

/// Whether a whole lane renders: its title and every one of its tasks fit.
pub open spec fn column_renders(ci: int, title: Seq<char>, ts: Seq<Seq<char>>) -> bool {
    title_fits(ci, title.len() as int) && tasks_fit(ts, ci, FIRST_TASK_ROW as int)
}

/// The grid after one whole lane is rendered: the centered title, then the
/// stacked task boxes.
pub open spec fn apply_lane(g: Seq<Seq<char>>, ci: int, title: Seq<char>, ts: Seq<Seq<char>>) -> Seq<
    Seq<char>,
> {
    apply_tasks(
        apply_text(g, title, title_x(ci, title.len() as int), TITLE_ROW as int, COLUMN_WIDTH as int),
        ci,
        ts,
        FIRST_TASK_ROW as int,
    )
}

/// Draws a lane title centered over its lane. Refused when the centering
/// arithmetic would run off the left edge or the text would not fit;
/// nothing is drawn then.
pub fn draw_column_title(grid: &mut Grid, column_index: usize, text: &String) -> (res: Result<
    (),
    BoundsError,
>)
    requires
        old(grid).wf(),
        column_index < LANES,
    ensures
        final(grid).wf(),
        res is Ok <==> title_fits(column_index as int, text@.len() as int),
        res is Ok ==> final(grid)@ == apply_text(
            old(grid)@,
            text@,
            title_x(column_index as int, text@.len() as int),
            TITLE_ROW as int,
            COLUMN_WIDTH as int,
        ),
        res is Err ==> final(grid)@ == old(grid)@,
{
    let len = text.as_str().unicode_len();
    proof {
        assert(COLUMN_WIDTH == 26);
    }
    let base = column_index * COLUMN_WIDTH + COLUMN_WIDTH / 2;
    let half = len / 2;
    if half > base {
        return Err(BoundsError);
    }
    let mut title_object = TextObject {
        text: String::from_str(text.as_str()),
        position: Position { x: base - half, y: TITLE_ROW },
        width: COLUMN_WIDTH,
        height: None,
    };
    match draw_text_object(grid, &mut title_object) {
        Ok(_) => Ok(()),
        Err(e) => Err(e),
    }
}

/// Wraps one task's text at the task text width and reports, in the
/// returned object's `height`, how many rows it occupied. Refused whole
/// when the text would not fit; nothing is drawn then.
pub fn draw_text_at_column(grid: &mut Grid, text: &String, position: Position) -> (res: Result<
    TextObject,
    BoundsError,
>)
    requires
        old(grid).wf(),
    ensures
        final(grid).wf(),
        res is Ok <==> text_fits(
            text@.len() as int,
            position.x as int,
            position.y as int,
            TASK_TEXT_WIDTH as int,
        ),
        res matches Ok(obj) ==> {
            &&& obj.text@ == text@
            &&& obj.position == position
            &&& obj.width == TASK_TEXT_WIDTH
            &&& obj.height == Some(text_rows(text@.len() as int, TASK_TEXT_WIDTH as int) as usize)
            &&& final(grid)@ == apply_text(
                old(grid)@,
                text@,
                position.x as int,
                position.y as int,
                TASK_TEXT_WIDTH as int,
            )
        },
        res is Err ==> final(grid)@ == old(grid)@,
{
    let mut text_object = TextObject {
        text: String::from_str(text.as_str()),
        position,
        width: TASK_TEXT_WIDTH,
        height: None,
    };
    proof {
        assert(TASK_TEXT_WIDTH == 23);
    }
    match draw_text_object(grid, &mut text_object) {
        Ok(_) => Ok(text_object),
        Err(e) => Err(e),
    }
}

/// Stacks the tasks numbered `idx ..` of a lane from cursor row `cursor`
/// down, each in its own double-line box. Fails with the first task that
/// does not fit.
fn draw_tasks(grid: &mut Grid, column_index: usize, tasks: &Vec<Task>, idx: usize, cursor: usize) -> (res: Result<
    (),
    BoundsError,
>)
    requires
        old(grid).wf(),
        column_index < LANES,
        idx <= tasks@.len(),
        cursor <= HEIGHT,
    ensures
        final(grid).wf(),
        res is Ok <==> tasks_fit(
            task_texts(tasks@.skip(idx as int)),
            column_index as int,
            cursor as int,
        ),
        res is Ok ==> final(grid)@ == apply_tasks(
            old(grid)@,
            column_index as int,
            task_texts(tasks@.skip(idx as int)),
            cursor as int,
        ),
    decreases tasks@.len() - idx,
{
    let ghost ts = task_texts(tasks@.skip(idx as int));
    if idx == tasks.len() {
        proof {
            assert(ts.len() == 0);
        }
        return Ok(());
    }
    proof {
        assert(COLUMN_WIDTH == 26 && TASK_TEXT_WIDTH == 23);
        assert(ts[0] == tasks@[idx as int].text@);
    }
    let task = &tasks[idx];
    let obj = match draw_text_at_column(
        grid,
        &task.text,
        Position { x: column_index * WIDTH / 3 + 2, y: cursor + 1 },
    ) {
        Ok(obj) => obj,
        Err(e) => {
            return Err(e);
        },
    };
    let h = obj.height.unwrap();
    match draw_double_box(
        grid,
        COLUMN_WIDTH,
        h + 1,
        Position { x: column_index * COLUMN_WIDTH, y: cursor },
    ) {
        Ok(_) => (),
        Err(e) => {
            return Err(e);
        },
    }
    let res = draw_tasks(grid, column_index, tasks, idx + 1, cursor + h + 2);
    proof {
        assert(task_texts(tasks@.skip(idx as int + 1)) =~~= ts.skip(1));
    }
    res
}

/// Renders one whole lane: the centered title, then each task in its own
/// double-line box, stacked top to bottom with no overlap.
pub fn draw_column(grid: &mut Grid, column_index: usize, column: &Column) -> (res: Result<
    (),
    BoundsError,
>)
    requires
        old(grid).wf(),
        column_index < LANES,
    ensures
        final(grid).wf(),
        res is Ok <==> column_renders(
            column_index as int,
            column.title@,
            task_texts(column.tasks@),
        ),
        res is Ok ==> final(grid)@ == apply_lane(
            old(grid)@,
            column_index as int,
            column.title@,
            task_texts(column.tasks@),
        ),
{
    match draw_column_title(grid, column_index, &column.title) {
        Ok(_) => (),
        Err(e) => {
            return Err(e);
        },
    }
    proof {
        assert(column.tasks@.skip(0) =~~= column.tasks@);
    }
    draw_tasks(grid, column_index, &column.tasks, 0, FIRST_TASK_ROW)
}

/// The width of the double-line highlight around the selected lane: the
/// right-most lane's highlight is one column wider, so it aligns with the
/// outer frame.
pub open spec fn highlight_width(sel: int) -> int {
    if sel == 2 {
        COLUMN_WIDTH as int + 1
    } else {
        COLUMN_WIDTH as int
    }
}

/// Whether the whole board view renders: every lane's title and tasks fit.
pub open spec fn board_renders(board: Board, sel: int) -> bool {
    &&& column_renders(0, board.columns@[0].title@, task_texts(board.columns@[0].tasks@))
    &&& column_renders(1, board.columns@[1].title@, task_texts(board.columns@[1].tasks@))
    &&& column_renders(2, board.columns@[2].title@, task_texts(board.columns@[2].tasks@))
}

/// The grid after the whole board view is drawn onto `g`: the partition,
/// then the selected lane's highlight, then the three lanes, in that order.
pub open spec fn apply_board(g: Seq<Seq<char>>, board: Board, sel: int) -> Seq<Seq<char>> {
    let g1 = apply_partition(g, LANES as int);
    let g2 = apply_box(
        g1,
        sel * (COLUMN_WIDTH as int),
        0,
        highlight_width(sel),
        HEIGHT as int - 1,
        BoxStyle::Double,
    );
    let g3 = apply_lane(g2, 0, board.columns@[0].title@, task_texts(board.columns@[0].tasks@));
    let g4 = apply_lane(g3, 1, board.columns@[1].title@, task_texts(board.columns@[1].tasks@));
    apply_lane(g4, 2, board.columns@[2].title@, task_texts(board.columns@[2].tasks@))
}

/// Draws the whole board view onto the grid as it stands: the partition
/// frame, the double-line highlight around the selected lane, then the
/// three lanes.
pub fn draw_board(grid: &mut Grid, board: &Board, selected_column: usize) -> (res: Result<
    (),
    BoundsError,
>)
    requires
        old(grid).wf(),
        board.wf(),
        selected_column < LANES,
    ensures
        final(grid).wf(),
        res is Ok <==> board_renders(*board, selected_column as int),
        res is Ok ==> final(grid)@ == apply_board(old(grid)@, *board, selected_column as int),
{
    proof {
        assert(COLUMN_WIDTH == 26);
    }
    let row_res = draw_row(grid, LANES);
    proof {
        assert(row_res is Ok);
    }
    let highlight_res = if selected_column == 2 {
        draw_double_box(
            grid,
            COLUMN_WIDTH + 1,
            HEIGHT - 1,
            Position { x: selected_column * COLUMN_WIDTH, y: 0 },
        )
    } else {
        draw_double_box(
            grid,
            COLUMN_WIDTH,
            HEIGHT - 1,
            Position { x: selected_column * COLUMN_WIDTH, y: 0 },
        )
    };
    proof {
        assert(highlight_res is Ok);
    }
    match draw_column(grid, 0, &board.columns[0]) {
        Ok(_) => (),
        Err(e) => {
            return Err(e);
        },
    }
    match draw_column(grid, 1, &board.columns[1]) {
        Ok(_) => (),
        Err(e) => {
            return Err(e);
        },
    }
    draw_column(grid, 2, &board.columns[2])
}

/// The one grid a board and a selection render to.
pub open spec fn rendered_board(board: Board, sel: int) -> Seq<Seq<char>> {
    apply_board(blank_grid(), board, sel)
}

/// Clears the grid, then repaints the whole board view from the board and
/// the selection. The result depends on those two alone, not on what the
/// grid held before.
pub fn repaint(grid: &mut Grid, board: &Board, selected_column: usize) -> (res: Result<
    (),
    BoundsError,
>)
    requires
        old(grid).wf(),
        board.wf(),
        selected_column < LANES,
    ensures
        final(grid).wf(),
        res is Ok <==> board_renders(*board, selected_column as int),
        res is Ok ==> final(grid)@ == rendered_board(*board, selected_column as int),
{
    grid.clear();
    draw_board(grid, board, selected_column)
}

/// Law: repainting is idempotent. Two repaints from an unchanged board and
/// selection, with no intervening keystroke, produce identical grids,
/// whatever either grid held before.
pub proof fn lemma_repaint_idempotent(
    board: Board,
    sel: int,
    g1: Seq<Seq<char>>,
    g2: Seq<Seq<char>>,
)
    requires
        g1 == rendered_board(board, sel),
        g2 == rendered_board(board, sel),
    ensures
        g1 == g2,
{
}

} // verus!
