//! The fixed-size character grid that every frame is rendered into.

use vstd::prelude::*;

verus! {

/// Number of character columns in the grid.
pub const WIDTH: usize = 80;

/// Number of character rows in the grid.
pub const HEIGHT: usize = 24;

/// The grid every row of which is `WIDTH` spaces.
pub open spec fn blank_grid() -> Seq<Seq<char>> {
    Seq::new(HEIGHT as nat, |r: int| Seq::new(WIDTH as nat, |c: int| ' '))
}

/// One rendered frame: a `WIDTH` x `HEIGHT` buffer of display characters,
/// stored row-major. Its view is the sequence of rows, each a sequence of
/// `WIDTH` characters.
pub struct Grid {
    cells: Vec<char>,
}

impl View for Grid {
    type V = Seq<Seq<char>>;

    closed spec fn view(&self) -> Seq<Seq<char>> {
        Seq::new(
            HEIGHT as nat,
            |r: int| Seq::new(WIDTH as nat, |c: int| self.cells@[r * (WIDTH as int) + c]),
        )
    }
}

/// A grid's view always has `HEIGHT` rows of `WIDTH` characters each.
pub broadcast proof fn lemma_grid_shape(g: Grid)
    ensures
        (#[trigger] g@).len() == HEIGHT as int,
        forall|r: int| 0 <= r < HEIGHT as int ==> (#[trigger] g@[r]).len() == WIDTH as int,
{
}

impl Grid {
    /// The backing storage holds exactly one character per cell.
    pub closed spec fn wf(&self) -> bool {
        self.cells@.len() == WIDTH * HEIGHT
    }

    /// A fresh grid, every cell a space.
    pub fn new() -> (g: Grid)
        ensures
            g.wf(),
            g@ == blank_grid(),
    {
        let g = Grid { cells: vec![' '; WIDTH * HEIGHT] };
        proof {
            assert(g@ =~~= blank_grid());
        }
        g
    }

    /// Resets every cell to a space.
    pub fn clear(&mut self)
        requires
            old(self).wf(),
        ensures
            final(self).wf(),
            final(self)@ == blank_grid(),
    {
        self.cells = vec![' '; WIDTH * HEIGHT];
        proof {
            assert(self@ =~~= blank_grid());
        }
    }

    /// Writes one character at column `x` of row `y`.
    pub fn set_cell(&mut self, x: usize, y: usize, ch: char)
        requires
            old(self).wf(),
            x < WIDTH,
            y < HEIGHT,
        ensures
            final(self).wf(),
            final(self)@ == old(self)@.update(
                y as int,
                old(self)@[y as int].update(x as int, ch),
            ),
    {
        self.cells[y * WIDTH + x] = ch;
        proof {
            let updated = old(self)@.update(y as int, old(self)@[y as int].update(x as int, ch));
            assert forall|r: int, c: int|
                0 <= r < HEIGHT as int && 0 <= c < WIDTH as int implies self@[r][c] == updated[r][c]
            by {
                assert(self@[r][c] == self.cells@[r * (WIDTH as int) + c]);
                if r == y as int && c == x as int {
                } else {
                    assert(r * (WIDTH as int) + c != (y as int) * (WIDTH as int) + x as int);
                }
            }
            assert(self@ =~~= updated);
        }
    }

    /// Reads the character at column `x` of row `y`.
    pub fn get_cell(&self, x: usize, y: usize) -> (ch: char)
        requires
            self.wf(),
            x < WIDTH,
            y < HEIGHT,
        ensures
            ch == self@[y as int][x as int],
    {
        self.cells[y * WIDTH + x]
    }

    /// Hands out one row as a vector of characters, for display code to turn
    /// into a line of output.
    pub fn row_chars(&self, y: usize) -> (row: Vec<char>)
        requires
            self.wf(),
            y < HEIGHT,
        ensures
            row@ == self@[y as int],
    {
        let mut row: Vec<char> = Vec::new();
        let mut x: usize = 0;
        while x < WIDTH
            invariant
                self.wf(),
                y < HEIGHT,
                x <= WIDTH,
                row@.len() == x as int,
                forall|c: int| 0 <= c < x as int ==> row@[c] == self@[y as int][c],
            decreases WIDTH - x,
        {
            row.push(self.get_cell(x, y));
            x += 1;
        }
        proof {
            assert(row@ =~= self@[y as int]);
        }
        row
    }
}

} // verus!
