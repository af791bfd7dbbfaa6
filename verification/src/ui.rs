//! Box and border drawing primitives and the character-wrapping text layout.

use vstd::prelude::*;

use crate::grid::{Grid, HEIGHT, WIDTH};

verus! {

broadcast use crate::grid::lemma_grid_shape;

pub const HORIZONTAL: char = '\u{2500}';

pub const VERTICAL: char = '\u{2502}';

pub const UPPER_LEFT: char = '\u{250C}';

pub const UPPER_RIGHT: char = '\u{2510}';

pub const LOWER_LEFT: char = '\u{2514}';

pub const LOWER_RIGHT: char = '\u{2518}';

pub const DOWN_HORIZONTAL: char = '\u{252C}';

pub const UP_HORIZONTAL: char = '\u{2534}';

pub const DOUBLE_HORIZONTAL: char = '\u{2550}';

pub const DOUBLE_VERTICAL: char = '\u{2551}';

pub const DOUBLE_UPPER_LEFT: char = '\u{2554}';

pub const DOUBLE_UPPER_RIGHT: char = '\u{2557}';

pub const DOUBLE_LOWER_LEFT: char = '\u{255A}';

pub const DOUBLE_LOWER_RIGHT: char = '\u{255D}';

/// A zero-based grid coordinate: `x` is the column, `y` the row.
pub struct Position {
    pub x: usize,
    pub y: usize,
}

/// A request is refused with this error whenever a box, partition or text
/// layout would not fit inside the grid; nothing is silently clipped.
#[derive(Clone, Copy, PartialEq, Eq, Debug)]
pub struct BoundsError;

/// Whether a border is drawn with single-line or double-line glyphs.
#[derive(Clone, Copy, PartialEq, Eq, Structural, Debug)]
pub enum BoxStyle {
    Single,
    Double,
}

pub open spec fn horizontal_glyph(style: BoxStyle) -> char {
    match style {
        BoxStyle::Single => HORIZONTAL,
        BoxStyle::Double => DOUBLE_HORIZONTAL,
    }
}

pub open spec fn vertical_glyph(style: BoxStyle) -> char {
    match style {
        BoxStyle::Single => VERTICAL,
        BoxStyle::Double => DOUBLE_VERTICAL,
    }
}

pub open spec fn upper_left_glyph(style: BoxStyle) -> char {
    match style {
        BoxStyle::Single => UPPER_LEFT,
        BoxStyle::Double => DOUBLE_UPPER_LEFT,
    }
}

pub open spec fn upper_right_glyph(style: BoxStyle) -> char {
    match style {
        BoxStyle::Single => UPPER_RIGHT,
        BoxStyle::Double => DOUBLE_UPPER_RIGHT,
    }
}

pub open spec fn lower_left_glyph(style: BoxStyle) -> char {
    match style {
        BoxStyle::Single => LOWER_LEFT,
        BoxStyle::Double => DOUBLE_LOWER_LEFT,
    }
}

pub open spec fn lower_right_glyph(style: BoxStyle) -> char {
    match style {
        BoxStyle::Single => LOWER_RIGHT,
        BoxStyle::Double => DOUBLE_LOWER_RIGHT,
    }
}

/// The glyph a box with top-left corner `(x, y)`, width `w` and height `h`
/// puts at cell `(r, c)`, or `None` where the box leaves the cell alone.
/// The box touches the rows `y` and `y + h` and the columns `x` and `x + w`.
pub open spec fn box_glyph_at(r: int, c: int, x: int, y: int, w: int, h: int, style: BoxStyle) -> Option<char> {
    if (r == y || r == y + h) && x + 1 <= c <= x + w - 1 {
        Some(horizontal_glyph(style))
    } else if (c == x || c == x + w) && y + 1 <= r <= y + h - 1 {
        Some(vertical_glyph(style))
    } else if r == y + h && c == x + w {
        Some(lower_right_glyph(style))
    } else if r == y + h && c == x {
        Some(lower_left_glyph(style))
    } else if r == y && c == x + w {
        Some(upper_right_glyph(style))
    } else if r == y && c == x {
        Some(upper_left_glyph(style))
    } else {
        None
    }
}

/// The grid after a box border is layered onto `g`.
pub open spec fn apply_box(g: Seq<Seq<char>>, x: int, y: int, w: int, h: int, style: BoxStyle) -> Seq<Seq<char>> {
    Seq::new(
        g.len(),
        |r: int| Seq::new(
            g[r].len(),
            |c: int| match box_glyph_at(r, c, x, y, w, h, style) {
                Some(ch) => ch,
                None => g[r][c],
            },
        ),
    )
}

/// Writes `ch` into row `y` at every column `c` with `x0 <= c < x1`.
fn fill_hline(grid: &mut Grid, y: usize, x0: usize, x1: usize, ch: char)
    requires
        old(grid).wf(),
        y < HEIGHT,
        x1 <= WIDTH,
    ensures
        final(grid).wf(),
        forall|r: int, c: int| 0 <= r < HEIGHT as int && 0 <= c < WIDTH as int
            ==> final(grid)@[r][c] == (if r == y as int && x0 as int <= c < x1 as int {
                ch
            } else {
                old(grid)@[r][c]
            }),
{
    let mut x: usize = x0;
    while x < x1
        invariant
            grid.wf(),
            y < HEIGHT,
            x1 <= WIDTH,
            x0 <= x <= x1 || x == x0,
            forall|r: int, c: int| 0 <= r < HEIGHT as int && 0 <= c < WIDTH as int
                ==> grid@[r][c] == (if r == y as int && x0 as int <= c < x as int {
                    ch
                } else {
                    old(grid)@[r][c]
                }),
        decreases x1 - x,
    {
        grid.set_cell(x, y, ch);
        x += 1;
    }
}

/// Writes `ch` into column `x` at every row `r` with `y0 <= r < y1`.
fn fill_vline(grid: &mut Grid, x: usize, y0: usize, y1: usize, ch: char)
    requires
        old(grid).wf(),
        x < WIDTH,
        y1 <= HEIGHT,
    ensures
        final(grid).wf(),
        forall|r: int, c: int| 0 <= r < HEIGHT as int && 0 <= c < WIDTH as int
            ==> final(grid)@[r][c] == (if c == x as int && y0 as int <= r < y1 as int {
                ch
            } else {
                old(grid)@[r][c]
            }),
{
    let mut y: usize = y0;
    while y < y1
        invariant
            grid.wf(),
            x < WIDTH,
            y1 <= HEIGHT,
            y0 <= y <= y1 || y == y0,
            forall|r: int, c: int| 0 <= r < HEIGHT as int && 0 <= c < WIDTH as int
                ==> grid@[r][c] == (if c == x as int && y0 as int <= r < y as int {
                    ch
                } else {
                    old(grid)@[r][c]
                }),
        decreases y1 - y,
    {
        grid.set_cell(x, y, ch);
        y += 1;
    }
}

/// Draws a rectangular border in the chosen style; shared body of `draw_box`
/// and `draw_double_box`.
fn draw_box_styled(grid: &mut Grid, width: usize, height: usize, position: Position, style: BoxStyle) -> (res: Result<
    (),
    BoundsError,
>)
    requires
        old(grid).wf(),
    ensures
        final(grid).wf(),
        res is Err <==> (position.x + width >= WIDTH || position.y + height >= HEIGHT),
        res is Err ==> final(grid)@ == old(grid)@,
        res is Ok ==> final(grid)@ == apply_box(
            old(grid)@,
            position.x as int,
            position.y as int,
            width as int,
            height as int,
            style,
        ),
{
    let x = position.x;
    let y = position.y;
    if x >= WIDTH || width >= WIDTH - x || y >= HEIGHT || height >= HEIGHT - y {
        return Err(BoundsError);
    }
    let (hg, vg, ulg, urg, llg, lrg) = match style {
        BoxStyle::Single => (HORIZONTAL, VERTICAL, UPPER_LEFT, UPPER_RIGHT, LOWER_LEFT, LOWER_RIGHT),
        BoxStyle::Double => (
            DOUBLE_HORIZONTAL,
            DOUBLE_VERTICAL,
            DOUBLE_UPPER_LEFT,
            DOUBLE_UPPER_RIGHT,
            DOUBLE_LOWER_LEFT,
            DOUBLE_LOWER_RIGHT,
        ),
    };
    grid.set_cell(x, y, ulg);
    grid.set_cell(x + width, y, urg);
    grid.set_cell(x, y + height, llg);
    grid.set_cell(x + width, y + height, lrg);
    fill_vline(grid, x, y + 1, y + height, vg);
    fill_vline(grid, x + width, y + 1, y + height, vg);
    fill_hline(grid, y, x + 1, x + width, hg);
    fill_hline(grid, y + height, x + 1, x + width, hg);
    proof {
        let target = apply_box(
            old(grid)@,
            position.x as int,
            position.y as int,
            width as int,
            height as int,
            style,
        );
        assert forall|r: int, c: int|
            0 <= r < HEIGHT as int && 0 <= c < WIDTH as int implies grid@[r][c] == target[r][c]
        by {
            assert(target[r].len() == WIDTH as int);
        }
        assert(grid@ =~~= target);
    }
    Ok(())
}

/// Draws a single-line box border. The border occupies the rows
/// `position.y ..= position.y + height` and the columns
/// `position.x ..= position.x + width`, so it fits only when
/// `position.x + width < WIDTH` and `position.y + height < HEIGHT`;
/// any other request is refused, never clipped.
pub fn draw_box(grid: &mut Grid, width: usize, height: usize, position: Position) -> (res: Result<(), BoundsError>)
    requires
        old(grid).wf(),
    ensures
        final(grid).wf(),
        res is Err <==> (position.x + width >= WIDTH || position.y + height >= HEIGHT),
        res is Err ==> final(grid)@ == old(grid)@,
        res is Ok ==> final(grid)@ == apply_box(
            old(grid)@,
            position.x as int,
            position.y as int,
            width as int,
            height as int,
            BoxStyle::Single,
        ),
{
    draw_box_styled(grid, width, height, position, BoxStyle::Single)
}

/// Draws a double-line box border; bounds behave exactly as in `draw_box`.
pub fn draw_double_box(grid: &mut Grid, width: usize, height: usize, position: Position) -> (res: Result<
    (),
    BoundsError,
>)
    requires
        old(grid).wf(),
    ensures
        final(grid).wf(),
        res is Err <==> (position.x + width >= WIDTH || position.y + height >= HEIGHT),
        res is Err ==> final(grid)@ == old(grid)@,
        res is Ok ==> final(grid)@ == apply_box(
            old(grid)@,
            position.x as int,
            position.y as int,
            width as int,
            height as int,
            BoxStyle::Double,
        ),
{
    draw_box_styled(grid, width, height, position, BoxStyle::Double)
}

/// Draws the single-line frame around the whole grid.
fn draw_borders(grid: &mut Grid)
    requires
        old(grid).wf(),
    ensures
        final(grid).wf(),
        final(grid)@ == apply_box(
            old(grid)@,
            0,
            0,
            WIDTH as int - 1,
            HEIGHT as int - 1,
            BoxStyle::Single,
        ),
{
    let res = draw_box(grid, WIDTH - 1, HEIGHT - 1, Position { x: 0, y: 0 });
    proof {
        assert(res is Ok);
    }
}

/// The column that the internal partition separator numbered `i` stands on
/// when the grid is split into `size` lanes.
pub open spec fn sep_col(i: int, size: int) -> int {
    i * (WIDTH as int / size)
}

/// Whether a separator numbered `1 <= i < upto` stands on column `c`.
pub open spec fn is_sep_col_upto(c: int, size: int, upto: int) -> bool {
    exists|i: int| 1 <= i < upto && c == sep_col(i, size)
}

/// Whether any internal separator of a `size`-lane partition stands on
/// column `c`.
pub open spec fn is_sep_col(c: int, size: int) -> bool {
    is_sep_col_upto(c, size, size)
}

/// The glyph a separator column puts at row `r`: a T-junction where it meets
/// the top or bottom border, a vertical bar everywhere between.
pub open spec fn sep_glyph(r: int) -> char {
    if r == 0 {
        DOWN_HORIZONTAL
    } else if r == HEIGHT as int - 1 {
        UP_HORIZONTAL
    } else {
        VERTICAL
    }
}

/// The grid after the outer single-line frame and the internal separators of
/// a `size`-lane partition are drawn onto `g`.
pub open spec fn apply_partition(g: Seq<Seq<char>>, size: int) -> Seq<Seq<char>> {
    let framed = apply_box(g, 0, 0, WIDTH as int - 1, HEIGHT as int - 1, BoxStyle::Single);
    Seq::new(
        g.len(),
        |r: int| Seq::new(
            g[r].len(),
            |c: int| if is_sep_col(c, size) {
                sep_glyph(r)
            } else {
                framed[r][c]
            },
        ),
    )
}

/// Draws the outer frame and an N-way vertical partition: `size - 1`
/// internal separators, evenly spaced at `WIDTH / size`, with T-junction
/// glyphs where they meet the top and bottom border. Refused when
/// `size == 0`.
pub fn draw_row(grid: &mut Grid, size: usize) -> (res: Result<(), BoundsError>)
    requires
        old(grid).wf(),
    ensures
        final(grid).wf(),
        res is Err <==> size == 0,
        res is Err ==> final(grid)@ == old(grid)@,
        res is Ok ==> final(grid)@ == apply_partition(old(grid)@, size as int),
{
    if size == 0 {
        return Err(BoundsError);
    }
    draw_borders(grid);
    let ghost framed = apply_box(old(grid)@, 0, 0, WIDTH as int - 1, HEIGHT as int - 1, BoxStyle::Single);
    let row_width = WIDTH / size;
    let mut i: usize = 1;
    while i < size
        invariant
            grid.wf(),
            1 <= i <= size,
            size > 0,
            row_width == WIDTH as int / size as int,
            forall|r: int, c: int| 0 <= r < HEIGHT as int && 0 <= c < WIDTH as int
                ==> grid@[r][c] == (if is_sep_col_upto(c, size as int, i as int) {
                    sep_glyph(r)
                } else {
                    framed[r][c]
                }),
        decreases size - i,
    {
        proof {
            let q = row_width as int;
            let s = size as int;
            vstd::arithmetic::div_mod::lemma_fundamental_div_mod(WIDTH as int, s);
            vstd::arithmetic::div_mod::lemma_mod_bound(WIDTH as int, s);
            assert(s * q <= WIDTH as int);
            vstd::arithmetic::mul::lemma_mul_inequality(i as int, s - 1, q);
            assert((s - 1) * q == s * q - q) by (nonlinear_arith);
            if q == 0 {
                assert((i as int) * q == 0) by (nonlinear_arith)
                    requires
                        q == 0,
                ;
            }
            assert((i as int) * q < WIDTH as int);
        }
        let line_position = i * row_width;
        let ghost lp = line_position as int;
        let ghost mid = grid@;
        grid.set_cell(line_position, 0, DOWN_HORIZONTAL);
        grid.set_cell(line_position, HEIGHT - 1, UP_HORIZONTAL);
        fill_vline(grid, line_position, 1, HEIGHT - 1, VERTICAL);
        proof {
            assert forall|r: int, c: int|
                0 <= r < HEIGHT as int && 0 <= c < WIDTH as int implies grid@[r][c] == (
            if is_sep_col_upto(c, size as int, i as int + 1) {
                sep_glyph(r)
            } else {
                framed[r][c]
            })
            by {
                if c == lp {
                    assert(sep_col(i as int, size as int) == lp);
                    assert(is_sep_col_upto(c, size as int, i as int + 1));
                } else {
                    assert(grid@[r][c] == mid[r][c]);
                    if is_sep_col_upto(c, size as int, i as int + 1) {
                        let j = choose|j: int|
                            1 <= j < i as int + 1 && c == sep_col(j, size as int);
                        assert(j != i as int);
                        assert(is_sep_col_upto(c, size as int, i as int));
                    }
                    if is_sep_col_upto(c, size as int, i as int) {
                        assert(is_sep_col_upto(c, size as int, i as int + 1));
                    }
                }
            }
        }
        i += 1;
    }
    proof {
        let target = apply_partition(old(grid)@, size as int);
        assert forall|r: int, c: int|
            0 <= r < HEIGHT as int && 0 <= c < WIDTH as int implies grid@[r][c] == target[r][c]
        by {
            assert(target[r].len() == WIDTH as int);
        }
        assert(grid@ =~~= target);
    }
    Ok(())
}

/// A string to be wrapped into the grid at an anchor position with a maximum
/// width. `height` is filled in by the layout: the number of rows the wrapped
/// text occupied.
pub struct TextObject {
    pub text: String,
    pub position: Position,
    pub width: usize,
    pub height: Option<usize>,
}

/// The number of rows a text of `len` characters occupies when wrapped at
/// width `w`: the least number of rows with room for `len` characters, and
/// one row for an empty text.
pub open spec fn text_rows(len: int, w: int) -> int {
    if len == 0 {
        1
    } else {
        1 + (len - 1) / w
    }
}

/// Whether a text of `len` characters, anchored at `(x, y)` and wrapped at
/// width `w`, stays inside the grid. An empty text writes nothing and always
/// fits.
pub open spec fn text_fits(len: int, x: int, y: int, w: int) -> bool {
    len == 0 || (x + (if len < w {
        len
    } else {
        w
    }) <= WIDTH as int && y + text_rows(len, w) <= HEIGHT as int)
}

/// The grid after the text `t` is wrapped onto `g` at anchor `(x, y)` with
/// maximum width `w`: character `k` of `t` lands in row `y + k / w` at
/// column `x + k % w`.
pub open spec fn apply_text(g: Seq<Seq<char>>, t: Seq<char>, x: int, y: int, w: int) -> Seq<Seq<char>> {
    Seq::new(
        g.len(),
        |r: int| Seq::new(
            g[r].len(),
            |c: int| if y <= r && x <= c < x + w && (r - y) * w + (c - x) < t.len() {
                t[(r - y) * w + (c - x)]
            } else {
                g[r][c]
            },
        ),
    )
}

/// Wraps the text into the grid character by character, with no regard for
/// word boundaries: each character goes into the current row at the next
/// column offset, and when the offset reaches the maximum width the cursor
/// moves to the next row, back at the anchor column. Fills in `height` with
/// the number of rows occupied. A text that would run outside the grid is
/// refused whole, never truncated.
pub fn draw_text_object(grid: &mut Grid, text_object: &mut TextObject) -> (res: Result<(), BoundsError>)
    requires
        old(grid).wf(),
        old(text_object).width >= 1,
    ensures
        final(grid).wf(),
        final(text_object).text == old(text_object).text,
        final(text_object).position == old(text_object).position,
        final(text_object).width == old(text_object).width,
        res is Err <==> !text_fits(
            old(text_object).text@.len() as int,
            old(text_object).position.x as int,
            old(text_object).position.y as int,
            old(text_object).width as int,
        ),
        res is Err ==> final(grid)@ == old(grid)@ && final(text_object).height == old(
            text_object,
        ).height,
        res is Ok ==> final(text_object).height == Some(
            text_rows(old(text_object).text@.len() as int, old(text_object).width as int) as usize,
        ),
        res is Ok ==> final(grid)@ == apply_text(
            old(grid)@,
            old(text_object).text@,
            old(text_object).position.x as int,
            old(text_object).position.y as int,
            old(text_object).width as int,
        ),
{
    let s: &str = text_object.text.as_str();
    let len: usize = s.unicode_len();
    let w = text_object.width;
    let x = text_object.position.x;
    let y = text_object.position.y;
    if len == 0 {
        text_object.height = Some(1);
        proof {
            assert(grid@ =~~= apply_text(old(grid)@, old(text_object).text@, x as int, y as int, w as int));
        }
        return Ok(());
    }
    let cap = if len < w {
        len
    } else {
        w
    };
    if x >= WIDTH || cap > WIDTH - x {
        return Err(BoundsError);
    }
    let rows = 1 + (len - 1) / w;
    if y >= HEIGHT || rows > HEIGHT - y {
        return Err(BoundsError);
    }
    let mut line: usize = y;
    let mut col: usize = 0;
    let mut k: usize = 0;
    while k < len
        invariant
            grid.wf(),
            1 <= w,
            len == s@.len(),
            len >= 1,
            x + cap <= WIDTH,
            y + rows <= HEIGHT,
            cap == (if (len as int) < w as int {
                len as int
            } else {
                w as int
            }),
            rows == text_rows(len as int, w as int),
            k <= len,
            col < w,
            col <= k,
            y <= line,
            k as int == (line as int - y as int) * (w as int) + col as int,
            forall|r: int, c: int| 0 <= r < HEIGHT as int && 0 <= c < WIDTH as int
                ==> grid@[r][c] == (if y as int <= r && x as int <= c < x as int + w as int && (r
                    - y as int) * (w as int) + (c - x as int) < k as int {
                    s@[(r - y as int) * (w as int) + (c - x as int)]
                } else {
                    old(grid)@[r][c]
                }),
        decreases len - k,
    {
        proof {
            let li = line as int;
            let yi = y as int;
            let wi = w as int;
            let ki = k as int;
            assert((li - yi) * wi >= 0) by (nonlinear_arith)
                requires
                    li >= yi,
                    wi >= 1,
            ;
            assert((li - yi) * wi <= ki);
            vstd::arithmetic::div_mod::lemma_div_by_multiple(li - yi, wi);
            vstd::arithmetic::div_mod::lemma_div_is_ordered((li - yi) * wi, len as int - 1, wi);
            assert(li - yi <= (len as int - 1) / wi);
            assert(line < HEIGHT);
            assert(x + col < WIDTH);
        }
        let ch = s.get_char(k);
        let ghost mid = grid@;
        grid.set_cell(x + col, line, ch);
        proof {
            let li = line as int;
            let yi = y as int;
            let wi = w as int;
            let xi = x as int;
            let ki = k as int;
            let ci = col as int;
            assert forall|r: int, c: int|
                0 <= r < HEIGHT as int && 0 <= c < WIDTH as int implies grid@[r][c] == (
            if yi <= r && xi <= c < xi + wi && (r - yi) * wi + (c - xi) < ki + 1 {
                s@[(r - yi) * wi + (c - xi)]
            } else {
                old(grid)@[r][c]
            })
            by {
                if yi <= r && xi <= c < xi + wi {
                    let idx = (r - yi) * wi + (c - xi);
                    if r == li && c == xi + ci {
                        assert(idx == ki);
                        assert(grid@[r][c] == ch);
                    } else {
                        assert(idx != ki) by (nonlinear_arith)
                            requires
                                yi <= r,
                                xi <= c < xi + wi,
                                yi <= li,
                                0 <= ci < wi,
                                idx == (r - yi) * wi + (c - xi),
                                ki == (li - yi) * wi + ci,
                                !(r == li && c == xi + ci),
                        ;
                        assert(grid@[r][c] == mid[r][c]);
                    }
                } else {
                    assert(grid@[r][c] == mid[r][c]);
                }
            }
        }
        k += 1;
        col += 1;
        if col >= w {
            proof {
                assert((line as int + 1 - y as int) * (w as int) == (line as int - y as int) * (
                w as int) + w as int) by (nonlinear_arith);
            }
            line += 1;
            col = 0;
        }
    }
    text_object.height = Some(rows);
    proof {
        let target = apply_text(old(grid)@, old(text_object).text@, x as int, y as int, w as int);
        assert forall|r: int, c: int|
            0 <= r < HEIGHT as int && 0 <= c < WIDTH as int implies grid@[r][c] == target[r][c]
        by {
            assert(target[r].len() == WIDTH as int);
        }
        assert(grid@ =~~= target);
    }
    Ok(())
}

/// Law: character-count wrapping is lossless. Character `k` of the text
/// lands in row `y + k / w` at column `x + k % w`, so reading the written
/// cells back in row-major order reproduces the text exactly; and the layout
/// occupies exactly the ceiling of `len / w` rows.
pub proof fn lemma_layout_roundtrip(g: Seq<Seq<char>>, t: Seq<char>, x: int, y: int, w: int)
    requires
        1 <= w,
        0 <= x,
        0 <= y,
        text_fits(t.len() as int, x, y, w),
        g.len() == HEIGHT as int,
        forall|r: int| 0 <= r < HEIGHT as int ==> (#[trigger] g[r]).len() == WIDTH as int,
    ensures
        forall|k: int| 0 <= k < t.len()
            ==> #[trigger] apply_text(g, t, x, y, w)[y + k / w][x + k % w] == t[k],
        t.len() >= 1 ==> text_rows(t.len() as int, w) == (t.len() + w - 1) / w,
{
    let len = t.len() as int;
    assert forall|k: int| 0 <= k < len implies #[trigger] apply_text(g, t, x, y, w)[y + k / w][x + k
        % w] == t[k] by {
        vstd::arithmetic::div_mod::lemma_fundamental_div_mod(k, w);
        vstd::arithmetic::div_mod::lemma_mod_bound(k, w);
        vstd::arithmetic::div_mod::lemma_div_pos_is_pos(k, w);
        vstd::arithmetic::div_mod::lemma_div_is_ordered(k, len - 1, w);
        let r = y + k / w;
        let c = x + k % w;
        assert(r < HEIGHT as int);
        if len < w {
            vstd::arithmetic::div_mod::lemma_small_mod(k as nat, w as nat);
        }
        assert(c < WIDTH as int);
        assert((k / w) * w == w * (k / w)) by (nonlinear_arith);
        assert((r - y) * w + (c - x) == k);
    }
    if len >= 1 {
        vstd::arithmetic::div_mod::lemma_div_plus_one(len - 1, w);
    }
}

/// Law: a box whose border fits inside the grid sets four distinct corner
/// glyphs, runs of horizontal edge glyphs along its top and bottom rows,
/// runs of vertical edge glyphs along its side columns, and leaves every
/// other cell of the grid unchanged.
pub proof fn lemma_box_glyphs(g: Seq<Seq<char>>, x: int, y: int, w: int, h: int, style: BoxStyle)
    requires
        0 <= x,
        0 <= y,
        1 <= w,
        1 <= h,
        x + w < WIDTH as int,
        y + h < HEIGHT as int,
        g.len() == HEIGHT as int,
        forall|r: int| 0 <= r < HEIGHT as int ==> (#[trigger] g[r]).len() == WIDTH as int,
    ensures
        apply_box(g, x, y, w, h, style)[y][x] == upper_left_glyph(style),
        apply_box(g, x, y, w, h, style)[y][x + w] == upper_right_glyph(style),
        apply_box(g, x, y, w, h, style)[y + h][x] == lower_left_glyph(style),
        apply_box(g, x, y, w, h, style)[y + h][x + w] == lower_right_glyph(style),
        upper_left_glyph(style) != upper_right_glyph(style),
        upper_left_glyph(style) != lower_left_glyph(style),
        upper_left_glyph(style) != lower_right_glyph(style),
        upper_right_glyph(style) != lower_left_glyph(style),
        upper_right_glyph(style) != lower_right_glyph(style),
        lower_left_glyph(style) != lower_right_glyph(style),
        forall|r: int, c: int|
            (r == y || r == y + h) && x + 1 <= c <= x + w - 1
                ==> #[trigger] apply_box(g, x, y, w, h, style)[r][c] == horizontal_glyph(style),
        forall|r: int, c: int|
            (c == x || c == x + w) && y + 1 <= r <= y + h - 1
                ==> #[trigger] apply_box(g, x, y, w, h, style)[r][c] == vertical_glyph(style),
        forall|r: int, c: int|
            0 <= r < HEIGHT as int && 0 <= c < WIDTH as int
                && box_glyph_at(r, c, x, y, w, h, style) is None
                ==> apply_box(g, x, y, w, h, style)[r][c] == g[r][c],
{
}

} // verus!
