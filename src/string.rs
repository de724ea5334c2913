//! Strings written to a grid: formatting options and layout.
use vstd::prelude::*;

use crate::color::Color;
use crate::tile::Tile;

verus! {

/// A string together with how it is to be written.
#[derive(Clone, Copy, Debug)]
pub struct FormattedString<'a> {
    pub string: &'a str,
    pub fg_color: Option<Color>,
    pub bg_color: Option<Color>,
    /// Break lines between words at the grid's right edge.
    pub wrapped: bool,
    /// Spaces move the cursor without overwriting the tile under them.
    pub ignore_spaces: bool,
}

impl<'a> FormattedString<'a> {
    /// A word-wrapped string with no colours of its own.
    pub fn new(string: &'a str) -> (f: FormattedString<'a>)
        ensures
            f.string == string,
            f.fg_color == None::<Color>,
            f.bg_color == None::<Color>,
            f.wrapped,
            !f.ignore_spaces,
    {
        FormattedString { string, fg_color: None, bg_color: None, wrapped: true, ignore_spaces: false }
    }

    /// Write every character in this foreground colour.
    pub fn fg(self, color: Color) -> (f: FormattedString<'a>)
        ensures
            f == (FormattedString { fg_color: Some(color), ..self }),
    {
        FormattedString { fg_color: Some(color), ..self }
    }

    /// Write every character over this background colour.
    pub fn bg(self, color: Color) -> (f: FormattedString<'a>)
        ensures
            f == (FormattedString { bg_color: Some(color), ..self }),
    {
        FormattedString { bg_color: Some(color), ..self }
    }

    /// Do not break lines between words.
    pub fn no_word_wrap(self) -> (f: FormattedString<'a>)
        ensures
            f == (FormattedString { wrapped: false, ..self }),
    {
        FormattedString { wrapped: false, ..self }
    }

    /// Leave the tiles under spaces as they are.
    pub fn ignore_spaces(self) -> (f: FormattedString<'a>)
        ensures
            f == (FormattedString { ignore_spaces: true, ..self }),
    {
        FormattedString { ignore_spaces: true, ..self }
    }
}

/// A character placed on a cell of the grid.
#[derive(Clone, Copy, Debug, PartialEq, Eq, Structural)]
pub struct Placed {
    pub x: usize,
    pub y: usize,
    pub glyph: char,
}

/// A character that separates words.
pub open spec fn is_break(c: char) -> bool {
    c == ' ' || c == '\n'
}

/// The length of the run of word characters that starts at `i`.
pub open spec fn word_len(s: Seq<char>, i: int) -> nat
    decreases s.len() - i,
{
    if i < 0 || i >= s.len() || is_break(s[i]) {
        0
    } else {
        1 + word_len(s, i + 1)
    }
}

/// Position `i` holds the first character of a word.
pub open spec fn starts_word(s: Seq<char>, i: int) -> bool {
    &&& 0 <= i < s.len()
    &&& !is_break(s[i])
    &&& (i == 0 || is_break(s[i - 1]))
}

/// The cell at column `col` and row `row` of a layout whose first line
/// starts at `(x0, y0)`, rows going down, if it lies on a `w` by `h` grid.
pub open spec fn cell_at(x0: int, y0: int, col: int, row: int, c: char, w: int, h: int) -> Seq<Placed> {
    let x = x0 + col;
    let y = y0 - row;
    if 0 <= x < w && 0 <= y < h {
        seq![Placed { x: x as usize, y: y as usize, glyph: c }]
    } else {
        Seq::empty()
    }
}

/// Under word wrap, the word starting at `i` moves to the next line: it is
/// not at the start of a line and would pass the right edge.
pub open spec fn wraps_before(s: Seq<char>, i: int, x0: int, col: int, w: int) -> bool {
    starts_word(s, i) && col > 0 && x0 + col + word_len(s, i) > w
}

/// The cells that the characters of `s` from `i` on are placed at, the
/// cursor standing at column `col` of row `row`. Characters off the grid are
/// left out; a newline starts the next row down at the first column; under
/// word wrap, a word that would pass the right edge and does not start its
/// row starts the next row instead; once the rows pass the bottom edge
/// nothing more is placed.
#[verifier::opaque]
pub open spec fn layout_from(
    s: Seq<char>,
    i: int,
    x0: int,
    y0: int,
    col: int,
    row: int,
    w: int,
    h: int,
    wrapped: bool,
) -> Seq<Placed>
    decreases s.len() - i,
{
    if i < 0 || i >= s.len() || y0 - row < 0 {
        Seq::empty()
    } else if s[i] == '\n' {
        layout_from(s, i + 1, x0, y0, 0, row + 1, w, h, wrapped)
    } else if wrapped && wraps_before(s, i, x0, col, w) {
        cell_at(x0, y0, 0, row + 1, s[i], w, h) + layout_from(s, i + 1, x0, y0, 1, row + 1, w, h, wrapped)
    } else {
        cell_at(x0, y0, col, row, s[i], w, h) + layout_from(s, i + 1, x0, y0, col + 1, row, w, h, wrapped)
    }
}

/// One character, not a newline, placed while the rows are still on the grid.
proof fn lemma_layout_step(
    s: Seq<char>,
    i: int,
    x0: int,
    y0: int,
    col: int,
    row: int,
    w: int,
    h: int,
    wrapped: bool,
)
    requires
        0 <= i < s.len(),
        y0 - row >= 0,
        s[i] != '\n',
    ensures
        ({
            let wrap = wrapped && wraps_before(s, i, x0, col, w);
            let c2 = if wrap { 0 } else { col };
            let r2 = if wrap { row + 1 } else { row };
            layout_from(s, i, x0, y0, col, row, w, h, wrapped) == cell_at(x0, y0, c2, r2, s[i], w, h)
                + layout_from(s, i + 1, x0, y0, c2 + 1, r2, w, h, wrapped)
        }),
{
    reveal(layout_from);
}

/// Word wrap is greedy and never breaks a word. While the rows are on the
/// grid, a character inside a word (or a space) goes to the next column of
/// the same row. The first character of a word goes to column 0 of the next
/// row exactly when it is not at the start of its row and the whole word
/// would pass the right edge; otherwise it stays on the row.
pub proof fn lemma_greedy_wrap(s: Seq<char>, i: int, x0: int, y0: int, col: int, row: int, w: int, h: int)
    requires
        0 <= i < s.len(),
        y0 - row >= 0,
        s[i] != '\n',
    ensures
        !starts_word(s, i) ==> layout_from(s, i, x0, y0, col, row, w, h, true) == cell_at(
            x0, y0, col, row, s[i], w, h,
        ) + layout_from(s, i + 1, x0, y0, col + 1, row, w, h, true),
        starts_word(s, i) && col > 0 && x0 + col + word_len(s, i) > w ==> layout_from(
            s, i, x0, y0, col, row, w, h, true,
        ) == cell_at(x0, y0, 0, row + 1, s[i], w, h) + layout_from(s, i + 1, x0, y0, 1, row + 1, w, h, true),
        starts_word(s, i) && !(col > 0 && x0 + col + word_len(s, i) > w) ==> layout_from(
            s, i, x0, y0, col, row, w, h, true,
        ) == cell_at(x0, y0, col, row, s[i], w, h) + layout_from(s, i + 1, x0, y0, col + 1, row, w, h, true),
{
    lemma_layout_step(s, i, x0, y0, col, row, w, h, true);
}

/// The layout of all of `s` from the origin `(x0, y0)`.
pub open spec fn layout(s: Seq<char>, x0: int, y0: int, w: int, h: int, wrapped: bool) -> Seq<Placed> {
    layout_from(s, 0, x0, y0, 0, 0, w, h, wrapped)
}

/// A tile after a character is written to it with optional colours: the
/// glyph is replaced, each colour only where one is given.
pub open spec fn write_char(t: Tile, c: char, fg: Option<Color>, bg: Option<Color>) -> Tile {
    Tile {
        glyph: c,
        fg_color: match fg {
            Some(f) => f,
            None => t.fg_color,
        },
        bg_color: match bg {
            Some(b) => b,
            None => t.bg_color,
        },
    }
}

/// The tiles after the placed characters `ps` are written in order, each to
/// the tile `slot(p)`; with `ignore_spaces` spaces write nothing. A slot
/// outside `tiles` writes nothing either.
pub open spec fn write_placed(
    tiles: Seq<Tile>,
    ps: Seq<Placed>,
    slot: spec_fn(Placed) -> int,
    fg: Option<Color>,
    bg: Option<Color>,
    ignore_spaces: bool,
) -> Seq<Tile>
    decreases ps.len(),
{
    if ps.len() == 0 {
        tiles
    } else {
        let prev = write_placed(tiles, ps.drop_last(), slot, fg, bg, ignore_spaces);
        let p = ps.last();
        if (ignore_spaces && p.glyph == ' ') || !(0 <= slot(p) < prev.len()) {
            prev
        } else {
            prev.update(slot(p), write_char(prev[slot(p)], p.glyph, fg, bg))
        }
    }
}

/// Every cell of a layout lies on the grid.
pub proof fn lemma_layout_in_bounds(
    s: Seq<char>,
    i: int,
    x0: int,
    y0: int,
    col: int,
    row: int,
    w: int,
    h: int,
    wrapped: bool,
)
    ensures
        forall|k: int|
            0 <= k < layout_from(s, i, x0, y0, col, row, w, h, wrapped).len() ==> {
                let p = #[trigger] layout_from(s, i, x0, y0, col, row, w, h, wrapped)[k];
                p.x < w && p.y < h
            },
    decreases s.len() - i,
{
    reveal(layout_from);
    if 0 <= i < s.len() && y0 - row >= 0 && s[i] != '\n' {
        let wrap = wrapped && wraps_before(s, i, x0, col, w);
        let c2 = if wrap { 0 } else { col };
        let r2 = if wrap { row + 1 } else { row };
        let head = cell_at(x0, y0, c2, r2, s[i], w, h);
        let tail = layout_from(s, i + 1, x0, y0, c2 + 1, r2, w, h, wrapped);
        lemma_layout_in_bounds(s, i + 1, x0, y0, c2 + 1, r2, w, h, wrapped);
        lemma_cell_in_bounds(x0, y0, c2, r2, s[i], w, h);
        assert(layout_from(s, i, x0, y0, col, row, w, h, wrapped) == head + tail);
        assert forall|k: int| 0 <= k < (head + tail).len() implies (head + tail)[k].x < w && (head
            + tail)[k].y < h by {
            if k >= head.len() {
                assert((head + tail)[k] == tail[k - head.len()]);
            }
        }
    } else if 0 <= i < s.len() && y0 - row >= 0 {
        lemma_layout_in_bounds(s, i + 1, x0, y0, 0, row + 1, w, h, wrapped);
        assert(layout_from(s, i, x0, y0, col, row, w, h, wrapped) == layout_from(
            s, i + 1, x0, y0, 0, row + 1, w, h, wrapped));
    } else {
        assert(layout_from(s, i, x0, y0, col, row, w, h, wrapped).len() == 0);
    }
}

proof fn lemma_cell_in_bounds(x0: int, y0: int, col: int, row: int, c: char, w: int, h: int)
    ensures
        forall|k: int|
            0 <= k < cell_at(x0, y0, col, row, c, w, h).len() ==> {
                let p = #[trigger] cell_at(x0, y0, col, row, c, w, h)[k];
                p.x < w && p.y < h
            },
{
}

/// The characters of a string slice.
pub fn chars_of(s: &str) -> (r: Vec<char>)
    ensures
        r@ == s@,
{
    let mut r: Vec<char> = Vec::new();
    for c in it: s.chars()
        invariant
            r@ == it.seq().take(it.index() as int),
            it.seq() == s@,
    {
        r.push(c);
    }
    r
}

/// Append the cell at column `col` of row `row`, if it lies on the grid.
fn push_cell(out: &mut Vec<Placed>, x0: i32, y0: i32, col: usize, row: usize, c: char, w: usize, h: usize)
    ensures
        final(out)@ == old(out)@ + cell_at(x0 as int, y0 as int, col as int, row as int, c, w as int, h as int),
{
    let x = (x0 as i128) + (col as i128);
    let y = (y0 as i128) - (row as i128);
    if 0 <= x && x < w as i128 && 0 <= y && y < h as i128 {
        out.push(Placed { x: x as usize, y: y as usize, glyph: c });
        assert(out@ =~= old(out)@ + cell_at(x0 as int, y0 as int, col as int, row as int, c, w as int, h as int));
    } else {
        assert(out@ =~= old(out)@ + cell_at(x0 as int, y0 as int, col as int, row as int, c, w as int, h as int));
    }
}

/// The length of the word starting at `i`.
fn word_len_at(s: &Vec<char>, i: usize) -> (n: usize)
    requires
        i <= s.len(),
    ensures
        n == word_len(s@, i as int),
{
    let mut j = i;
    while j < s.len() && s[j] != ' ' && s[j] != '\n'
        invariant
            i <= j <= s.len(),
            word_len(s@, i as int) == (j - i) + word_len(s@, j as int),
        decreases s.len() - j,
    {
        j = j + 1;
    }
    j - i
}

/// Place the characters of `s` on a `w` by `h` grid, the first line
/// starting at `(x0, y0)`: left to right, newlines and wrapped words going
/// one row down, back to column `x0`.
pub fn layout_chars(s: &Vec<char>, x0: i32, y0: i32, w: usize, h: usize, wrapped: bool) -> (r: Vec<Placed>)
    ensures
        r@ == layout(s@, x0 as int, y0 as int, w as int, h as int, wrapped),
{
    let mut out: Vec<Placed> = Vec::new();
    let mut i: usize = 0;
    let mut col: usize = 0;
    let mut row: usize = 0;
    while i < s.len()
        invariant
            i <= s.len(),
            col <= i,
            row <= i,
            layout(s@, x0 as int, y0 as int, w as int, h as int, wrapped) == out@ + layout_from(
                s@, i as int, x0 as int, y0 as int, col as int, row as int, w as int, h as int, wrapped,
            ),
        decreases s.len() - i,
    {
        let ghost before = out@;
        let ghost rest = layout_from(s@, i as int, x0 as int, y0 as int, col as int, row as int,
            w as int, h as int, wrapped);
        let c = s[i];
        if (y0 as i128) - (row as i128) < 0 {
            proof {
                reveal(layout_from);
            }
            assert(out@ + rest =~= out@);
            return out;
        }
        if c == '\n' {
            proof {
                reveal(layout_from);
            }
            col = 0;
            row = row + 1;
        } else {
            let word_start = c != ' ' && (i == 0 || s[i - 1] == ' ' || s[i - 1] == '\n');
            let mut wrap = false;
            if wrapped && word_start && col > 0 {
                let n = word_len_at(s, i);
                wrap = (x0 as i128) + (col as i128) + (n as i128) > (w as i128);
            }
            assert(wrap == (wrapped && wraps_before(s@, i as int, x0 as int, col as int, w as int)));
            proof {
                lemma_layout_step(s@, i as int, x0 as int, y0 as int, col as int, row as int, w as int,
                    h as int, wrapped);
            }
            if wrap {
                col = 0;
                row = row + 1;
            }
            let ghost p = cell_at(x0 as int, y0 as int, col as int, row as int, c, w as int, h as int);
            push_cell(&mut out, x0, y0, col, row, c, w, h);
            col = col + 1;
            assert(before + (p + layout_from(s@, i + 1, x0 as int, y0 as int, col as int, row as int,
                w as int, h as int, wrapped)) =~= out@ + layout_from(s@, i + 1, x0 as int, y0 as int,
                col as int, row as int, w as int, h as int, wrapped));
        }
        i = i + 1;
    }
    proof {
        reveal(layout_from);
    }
    assert(out@ + Seq::<Placed>::empty() =~= out@);
    out
}

} // verus!
