//! The terminal: a grid of tiles with an optional border.
use vstd::prelude::*;

use crate::color::Color;
use crate::border::{edge_tiles, ring_len, Border, BorderView};
use sark_grids::Pivot;

use crate::grid::{GridRect, PivotedPoint, MAX_SIDE};
use crate::string::{
    chars_of, layout, layout_chars, lemma_layout_in_bounds, write_char, write_placed, FormattedString,
    Placed,
};
use crate::tile::{default_tile, Tile};

verus! {

/// The abstract state of a terminal. Tile `(x, y)` is `tiles[y * width + x]`,
/// the origin at the bottom left and `y` growing upwards.
pub struct TerminalView {
    pub width: nat,
    pub height: nat,
    pub tiles: Seq<Tile>,
    pub border: Option<BorderView>,
    pub clear_tile: Tile,
    pub changed: bool,
}

/// A side of at least one cell: smaller requests are raised to one.
pub open spec fn clamp_side(n: int) -> int {
    if n < 1 {
        1
    } else {
        n
    }
}

/// `n` copies of `t`.
pub open spec fn filled(n: int, t: Tile) -> Seq<Tile> {
    Seq::new(n as nat, |i: int| t)
}

/// The tile slot of a placed character on a grid `w` cells wide.
pub open spec fn grid_slot(w: int) -> spec_fn(Placed) -> int {
    |p: Placed| p.y * w + p.x
}

/// The cell at which a string written at `xy` starts: the point resolved
/// in its own pivot's space, or the top-left pivot's when it has none.
pub open spec fn string_origin(xy: PivotedPoint, w: int, h: int) -> (int, int) {
    xy.with_default_pivot_spec(Pivot::TopLeft).resolved(w, h)
}

/// A border as it stands once built for a `w` by `h` grid with clear tile
/// `clear`.
pub open spec fn built_border(b: BorderView, clear: Tile, w: nat, h: nat) -> BorderView {
    BorderView {
        width: w,
        height: h,
        tiles: edge_tiles(b.glyphs, clear, w as int, h as int),
        clear_tile: clear,
        changed: true,
        ..b
    }
}

/// The tile indices of a rectangle of a grid `w` cells wide, row by row
/// from the bottom, each row left to right.
pub open spec fn rect_index_seq(w: int, rect: GridRect) -> Seq<int> {
    Seq::new(
        (rect.width * rect.height) as nat,
        |k: int| (rect.y + k / (rect.width as int)) * w + rect.x + k % (rect.width as int),
    )
}

/// The terminal after `clear`: every tile is the clear tile.
pub open spec fn cleared(v: TerminalView) -> TerminalView {
    TerminalView { tiles: filled(v.tiles.len() as int, v.clear_tile), changed: true, ..v }
}

/// Clearing twice leaves the same tiles as clearing once.
pub proof fn clear_is_idempotent(v: TerminalView)
    ensures
        cleared(cleared(v)) == cleared(v),
{
    assert(cleared(cleared(v)).tiles =~= cleared(v).tiles);
}

/// A grid within `MAX_SIDE` on each side has no more cells than a 32-bit
/// `usize` can count.
pub proof fn lemma_cell_count_fits(w: int, h: int)
    requires
        0 <= w <= MAX_SIDE,
        0 <= h <= MAX_SIDE,
    ensures
        w * h <= MAX_SIDE * MAX_SIDE,
        w * h <= usize::MAX,
{
    assert(w * h <= MAX_SIDE * MAX_SIDE) by (nonlinear_arith)
        requires
            0 <= w <= MAX_SIDE,
            0 <= h <= MAX_SIDE,
    ;
}

pub proof fn lemma_index_in_bounds(x: int, y: int, w: int, h: int)
    requires
        0 <= x < w,
        0 <= y < h,
    ensures
        0 <= y * w + x < w * h,
{
    assert(0 <= y * w + x < w * h) by (nonlinear_arith)
        requires
            0 <= x < w,
            0 <= y < h,
    ;
}

/// A grid of tiles, with an optional border, a clear tile and a flag that
/// every change sets and the consumer of the changes resets.
#[derive(Clone, Debug)]
pub struct Terminal {
    tiles: Vec<Tile>,
    width: usize,
    height: usize,
    border: Option<Border>,
    clear_tile: Tile,
    changed: bool,
}

impl View for Terminal {
    type V = TerminalView;

    closed spec fn view(&self) -> TerminalView {
        TerminalView {
            width: self.width as nat,
            height: self.height as nat,
            tiles: self.tiles@,
            border: match self.border {
                Some(b) => Some(b@),
                None => None,
            },
            clear_tile: self.clear_tile,
            changed: self.changed,
        }
    }
}

/// `n` copies of `t`, as a vector.
fn filled_vec(n: usize, t: Tile) -> (v: Vec<Tile>)
    ensures
        v@ == filled(n as int, t),
{
    let mut v: Vec<Tile> = Vec::new();
    let mut i: usize = 0;
    while i < n
        invariant
            i <= n,
            v@ == filled(i as int, t),
        decreases n - i,
    {
        v.push(t);
        i = i + 1;
        assert(v@ =~= filled(i as int, t));
    }
    v
}

impl Terminal {
    /// Sides within bounds, one tile per cell, and a border built for the
    /// grid's size.
    pub open spec fn wf(&self) -> bool {
        let v = self@;
        &&& 1 <= v.width <= MAX_SIDE
        &&& 1 <= v.height <= MAX_SIDE
        &&& v.tiles.len() == v.width * v.height
        &&& match v.border {
            Some(b) => {
                &&& b.glyphs.len() == 6
                &&& b.width == v.width
                &&& b.height == v.height
                &&& b.tiles.len() == ring_len(v.width as int, v.height as int)
            },
            None => true,
        }
    }

    /// The index in `tiles` of the cell that `xy` resolves to.
    pub open spec fn index_of(&self, xy: PivotedPoint) -> int {
        let p = xy.resolved(self@.width as int, self@.height as int);
        p.1 * self@.width + p.0
    }

    /// A terminal of `size` cells, each side raised to at least one, filled
    /// with the default tile.
    pub fn new(size: [usize; 2]) -> (t: Terminal)
        requires
            size[0] <= MAX_SIDE,
            size[1] <= MAX_SIDE,
        ensures
            t.wf(),
            t@.width == clamp_side(size[0] as int),
            t@.height == clamp_side(size[1] as int),
            t@.tiles == filled((t@.width * t@.height) as int, default_tile()),
            t@.border == None::<BorderView>,
            t@.clear_tile == default_tile(),
            t@.changed,
    {
        let w = if size[0] < 1 { 1 } else { size[0] };
        let h = if size[1] < 1 { 1 } else { size[1] };
        proof {
            lemma_cell_count_fits(w as int, h as int);
        }
        let tile = Tile::default();
        Terminal {
            tiles: filled_vec(w * h, tile),
            width: w,
            height: h,
            border: None,
            clear_tile: tile,
            changed: true,
        }
    }

    /// Reallocate for `size` cells, each side raised to at least one, every
    /// tile the clear tile; a border is rebuilt for the new size.
    pub fn resize(&mut self, size: [usize; 2])
        requires
            old(self).wf(),
            size[0] <= MAX_SIDE,
            size[1] <= MAX_SIDE,
        ensures
            final(self).wf(),
            final(self)@ == (TerminalView {
                width: clamp_side(size[0] as int) as nat,
                height: clamp_side(size[1] as int) as nat,
                tiles: filled(clamp_side(size[0] as int) * clamp_side(size[1] as int), old(self)@.clear_tile),
                border: match old(self)@.border {
                    Some(b) => Some(built_border(b, old(self)@.clear_tile, clamp_side(size[0] as int) as nat,
                        clamp_side(size[1] as int) as nat)),
                    None => None,
                },
                changed: true,
                ..old(self)@
            }),
            final(self)@.tiles.len() == clamp_side(size[0] as int) * clamp_side(size[1] as int),
            forall|i: int| 0 <= i < final(self)@.tiles.len() ==> #[trigger] final(self)@.tiles[i] == final(self)@.clear_tile,
    {
        let w = if size[0] < 1 { 1 } else { size[0] };
        let h = if size[1] < 1 { 1 } else { size[1] };
        proof {
            lemma_cell_count_fits(w as int, h as int);
        }
        self.tiles = filled_vec(w * h, self.clear_tile);
        self.width = w;
        self.height = h;
        self.changed = true;
        let clear = self.clear_tile;
        match &mut self.border {
            Some(b) => b.build_edge_tiles([w, h], clear),
            None => {},
        }
    }

    /// The width and height in cells.
    pub fn size(&self) -> (s: [usize; 2])
        ensures
            s[0] == self@.width,
            s[1] == self@.height,
    {
        [self.width, self.height]
    }

    pub fn width(&self) -> (w: usize)
        ensures
            w == self@.width,
    {
        self.width
    }

    pub fn height(&self) -> (h: usize)
        ensures
            h == self@.height,
    {
        self.height
    }

    /// The number of tiles.
    pub fn tile_count(&self) -> (n: usize)
        ensures
            n == self@.tiles.len(),
    {
        self.tiles.len()
    }

    /// Whether the terminal changed since the flag was last reset.
    pub fn changed(&self) -> (c: bool)
        ensures
            c == self@.changed,
    {
        self.changed
    }

    /// Mark the terminal changed, so that its consumers rewrite it.
    pub fn set_changed(&mut self)
        ensures
            final(self)@ == (TerminalView { changed: true, ..old(self)@ }),
    {
        self.changed = true;
    }

    /// Mark the border's changes as consumed, if there is a border; the
    /// terminal's own flag stays as it is.
    pub fn reset_border_changed_state(&mut self)
        ensures
            final(self)@ == (TerminalView {
                border: match old(self)@.border {
                    Some(b) => Some(BorderView { changed: false, ..b }),
                    None => None,
                },
                ..old(self)@
            }),
    {
        match self.border.as_mut() {
            Some(b) => b.reset_changed_state(),
            None => {},
        }
    }

    /// Mark the terminal's changes as consumed.
    pub fn reset_changed_state(&mut self)
        ensures
            final(self)@ == (TerminalView { changed: false, ..old(self)@ }),
    {
        self.changed = false;
    }

    /// The index of the cell `xy` resolves to.
    fn resolve_index(&self, xy: PivotedPoint) -> (i: usize)
        requires
            self.wf(),
            xy.in_bounds(self@.width as int, self@.height as int),
        ensures
            i == self.index_of(xy),
            i < self@.tiles.len(),
    {
        proof {
            xy.lemma_in_bounds_resolvable(self.width as int, self.height as int);
        }
        let (x, y) = xy.calculate([self.width, self.height]);
        proof {
            lemma_index_in_bounds(x as int, y as int, self.width as int, self.height as int);
            assert(self.tiles@.len() == self.width * self.height);
        }
        let n = self.tiles.len();
        let xu = x as usize;
        let yu = y as usize;
        assert(yu * self.width + xu < n);
        yu * self.width + xu
    }

    /// The tile at `xy`, which must resolve to a cell of the grid.
    pub fn tile(&self, xy: PivotedPoint) -> (t: &Tile)
        requires
            self.wf(),
            xy.in_bounds(self@.width as int, self@.height as int),
        ensures
            *t == self@.tiles[self.index_of(xy)],
    {
        let i = self.resolve_index(xy);
        &self.tiles[i]
    }

    /// The tile at `xy` for writing; `xy` must resolve to a cell of the grid.
    pub fn tile_mut(&mut self, xy: PivotedPoint) -> (t: &mut Tile)
        requires
            old(self).wf(),
            xy.in_bounds(old(self)@.width as int, old(self)@.height as int),
        ensures
            final(self).wf(),
            *t == old(self)@.tiles[old(self).index_of(xy)],
            final(self)@ == (TerminalView {
                tiles: old(self)@.tiles.update(old(self).index_of(xy), *final(t)),
                changed: true,
                ..old(self)@
            }),
    {
        let i = self.resolve_index(xy);
        self.changed = true;
        &mut self.tiles[i]
    }

    /// Set the glyph of the tile at `xy`, keeping its colours.
    pub fn put_char(&mut self, xy: PivotedPoint, ch: char) -> (t: &mut Tile)
        requires
            old(self).wf(),
            xy.in_bounds(old(self)@.width as int, old(self)@.height as int),
        ensures
            final(self).wf(),
            *t == (Tile { glyph: ch, ..old(self)@.tiles[old(self).index_of(xy)] }),
            final(self)@ == (TerminalView {
                tiles: old(self)@.tiles.update(old(self).index_of(xy), *final(t)),
                changed: true,
                ..old(self)@
            }),
    {
        self.tile_mut(xy).glyph(ch)
    }

    /// Set the foreground colour of the tile at `xy`, keeping the rest.
    pub fn put_fg_color(&mut self, xy: PivotedPoint, color: Color) -> (t: &mut Tile)
        requires
            old(self).wf(),
            xy.in_bounds(old(self)@.width as int, old(self)@.height as int),
        ensures
            final(self).wf(),
            *t == (Tile { fg_color: color, ..old(self)@.tiles[old(self).index_of(xy)] }),
            final(self)@ == (TerminalView {
                tiles: old(self)@.tiles.update(old(self).index_of(xy), *final(t)),
                changed: true,
                ..old(self)@
            }),
    {
        self.tile_mut(xy).fg(color)
    }

    /// Set the background colour of the tile at `xy`, keeping the rest.
    pub fn put_bg_color(&mut self, xy: PivotedPoint, color: Color) -> (t: &mut Tile)
        requires
            old(self).wf(),
            xy.in_bounds(old(self)@.width as int, old(self)@.height as int),
        ensures
            final(self).wf(),
            *t == (Tile { bg_color: color, ..old(self)@.tiles[old(self).index_of(xy)] }),
            final(self)@ == (TerminalView {
                tiles: old(self)@.tiles.update(old(self).index_of(xy), *final(t)),
                changed: true,
                ..old(self)@
            }),
    {
        self.tile_mut(xy).bg(color)
    }

    /// Write a string starting at `xy` (top-left pivot unless `xy` has one),
    /// laid out as `layout` says: each character replaces the glyph of its
    /// tile and sets the string's colours where it has them; with
    /// `ignore_spaces`, spaces leave their tiles alone.
    pub fn put_string(&mut self, xy: PivotedPoint, string: FormattedString)
        requires
            old(self).wf(),
            xy.with_default_pivot_spec(Pivot::TopLeft).resolvable(old(self)@.width as int, old(self)@.height as int),
        ensures
            final(self).wf(),
            final(self)@ == (TerminalView {
                tiles: write_placed(
                    old(self)@.tiles,
                    layout(
                        string.string@,
                        string_origin(xy, old(self)@.width as int, old(self)@.height as int).0,
                        string_origin(xy, old(self)@.width as int, old(self)@.height as int).1,
                        old(self)@.width as int,
                        old(self)@.height as int,
                        string.wrapped,
                    ),
                    grid_slot(old(self)@.width as int),
                    string.fg_color,
                    string.bg_color,
                    string.ignore_spaces,
                ),
                changed: true,
                ..old(self)@
            }),
    {
        let w = self.width;
        let h = self.height;
        let origin = xy.with_default_pivot(Pivot::TopLeft);
        let (x0, y0) = origin.calculate([w, h]);
        let chars = chars_of(string.string);
        let ps = layout_chars(&chars, x0, y0, w, h, string.wrapped);
        proof {
            lemma_layout_in_bounds(chars@, 0, x0 as int, y0 as int, 0, 0, w as int, h as int, string.wrapped);
        }
        let ghost slot = grid_slot(w as int);
        let ghost old_tiles = self.tiles@;
        self.changed = true;
        let n = self.tiles.len();
        let mut k: usize = 0;
        while k < ps.len()
            invariant
                k <= ps@.len(),
                1 <= w <= MAX_SIDE,
                1 <= h <= MAX_SIDE,
                self.width == w,
                self.height == h,
                self.border == old(self).border,
                self.clear_tile == old(self).clear_tile,
                self.changed,
                n == self.tiles@.len(),
                n == w * h,
                forall|j: int| 0 <= j < ps@.len() ==> (#[trigger] ps@[j]).x < w && ps@[j].y < h,
                slot == grid_slot(w as int),
                self.tiles@ == write_placed(old_tiles, ps@.take(k as int), slot, string.fg_color,
                    string.bg_color, string.ignore_spaces),
            decreases ps@.len() - k,
        {
            let p = ps[k];
            assert(ps@.take(k + 1).drop_last() == ps@.take(k as int));
            assert(ps@.take(k + 1).last() == p);
            if !(string.ignore_spaces && p.glyph == ' ') {
                proof {
                    lemma_index_in_bounds(p.x as int, p.y as int, w as int, h as int);
                }
                let idx = p.y * w + p.x;
                assert(idx == slot(p));
                let old_tile = self.tiles[idx];
                let mut t = old_tile;
                t.glyph = p.glyph;
                match string.fg_color {
                    Some(c) => t.fg_color = c,
                    None => {},
                }
                match string.bg_color {
                    Some(c) => t.bg_color = c,
                    None => {},
                }
                assert(t == write_char(old_tile, p.glyph, string.fg_color, string.bg_color));
                self.tiles.set(idx, t);
            }
            k = k + 1;
        }
        assert(ps@.take(ps@.len() as int) == ps@);
    }

    /// Fill every tile with the clear tile.
    pub fn clear(&mut self)
        requires
            old(self).wf(),
        ensures
            final(self).wf(),
            final(self)@ == cleared(old(self)@),
    {
        let n = self.tiles.len();
        let t = self.clear_tile;
        let ghost old_tiles = self.tiles@;
        let mut i: usize = 0;
        while i < n
            invariant
                i <= n,
                n == self.tiles@.len(),
                self.width == old(self).width,
                self.height == old(self).height,
                self.border == old(self).border,
                self.clear_tile == t,
                forall|j: int| 0 <= j < n ==> #[trigger] self.tiles@[j] == if j < i { t } else { old_tiles[j] },
            decreases n - i,
        {
            self.tiles.set(i, t);
            i = i + 1;
        }
        self.changed = true;
        assert(self.tiles@ =~= filled(n as int, t));
    }

    /// Change the tile that `clear` fills with; the tiles stay as they are.
    pub fn set_clear_tile(&mut self, clear_tile: Tile)
        ensures
            final(self)@ == (TerminalView { clear_tile, changed: true, ..old(self)@ }),
    {
        self.clear_tile = clear_tile;
        self.changed = true;
    }

    /// The tile that `clear` fills with.
    pub fn clear_tile(&self) -> (t: Tile)
        ensures
            t == self@.clear_tile,
    {
        self.clear_tile
    }

    /// All tiles, row by row from the bottom.
    pub fn tiles(&self) -> (t: &[Tile])
        ensures
            t@ == self@.tiles,
    {
        self.tiles.as_slice()
    }

    /// All tiles, row by row from the bottom, for writing.
    pub fn tiles_mut(&mut self) -> (t: &mut [Tile])
        ensures
            t@ == old(self)@.tiles,
            final(self)@ == (TerminalView { tiles: final(t)@, changed: true, ..old(self)@ }),
    {
        self.changed = true;
        self.tiles.as_mut_slice()
    }

    /// The tiles of row `row`, left to right.
    pub fn iter_row(&self, row: usize) -> (t: &[Tile])
        requires
            self.wf(),
            row < self@.height,
        ensures
            t@ == self@.tiles.subrange(row * self@.width, row * self@.width + self@.width),
    {
        proof {
            lemma_index_in_bounds(0, row as int, self.width as int, self.height as int);
            lemma_index_in_bounds(self.width - 1, row as int, self.width as int, self.height as int);
        }
        let n = self.tiles.len();
        let start = row * self.width;
        let s = self.tiles.as_slice();
        &s[start..start + self.width]
    }

    /// The tiles of column `column`, bottom to top.
    pub fn iter_column(&self, column: usize) -> (t: Vec<Tile>)
        requires
            self.wf(),
            column < self@.width,
        ensures
            t@ == Seq::new(self@.height, |y: int| self@.tiles[y * self@.width + column]),
    {
        let n = self.tiles.len();
        let mut t: Vec<Tile> = Vec::new();
        let mut y: usize = 0;
        while y < self.height
            invariant
                self.wf(),
                n == self@.tiles.len(),
                column < self@.width,
                y <= self@.height,
                t@ == Seq::new(y as nat, |j: int| self@.tiles[j * self@.width + column]),
            decreases self.height - y,
        {
            proof {
                lemma_index_in_bounds(column as int, y as int, self.width as int, self.height as int);
            }
            assert(y * self.width + column < n);
            t.push(self.tiles[y * self.width + column]);
            y = y + 1;
            assert(t@ =~= Seq::new(y as nat, |j: int| self@.tiles[j * self@.width + column]));
        }
        t
    }

    /// The rectangle lies on the grid.
    pub open spec fn contains_rect(&self, rect: GridRect) -> bool {
        &&& 0 <= rect.x
        &&& 0 <= rect.y
        &&& rect.x + rect.width <= self@.width
        &&& rect.y + rect.height <= self@.height
    }

    /// The tile indices of `rect`, row by row from the bottom, each row
    /// left to right. Writing through these indices into `tiles_mut` visits
    /// the rectangle in the same order as `iter_rect`.
    pub fn rect_indices(&self, rect: GridRect) -> (r: Vec<usize>)
        requires
            self.wf(),
            self.contains_rect(rect),
        ensures
            r@.len() == rect.width * rect.height,
            forall|k: int| 0 <= k < r@.len() ==> r@[k] == #[trigger] rect_index_seq(self@.width as int, rect)[k],
            forall|k: int| 0 <= k < r@.len() ==> r@[k] < self@.tiles.len(),
    {
        let w = self.width;
        let n = self.tiles.len();
        let rw = rect.width as usize;
        let rh = rect.height as usize;
        let x0 = rect.x as usize;
        let y0 = rect.y as usize;
        let mut r: Vec<usize> = Vec::new();
        let mut row: usize = 0;
        while row < rh
            invariant
                self.wf(),
                self.contains_rect(rect),
                w == self@.width,
                rw == rect.width,
                rh == rect.height,
                x0 == rect.x,
                y0 == rect.y,
                row <= rh,
                n == self@.tiles.len(),
                r@.len() == row * rw,
                forall|k: int| 0 <= k < r@.len() ==> r@[k] == #[trigger] rect_index_seq(w as int, rect)[k],
                forall|k: int| 0 <= k < r@.len() ==> r@[k] < self@.tiles.len(),
            decreases rh - row,
        {
            let mut col: usize = 0;
            while col < rw
                invariant
                    self.wf(),
                    self.contains_rect(rect),
                    w == self@.width,
                    rw == rect.width,
                    rh == rect.height,
                    x0 == rect.x,
                    y0 == rect.y,
                    row < rh,
                    col <= rw,
                    n == self@.tiles.len(),
                    r@.len() == row * rw + col,
                    forall|k: int| 0 <= k < r@.len() ==> r@[k] == #[trigger] rect_index_seq(w as int, rect)[k],
                    forall|k: int| 0 <= k < r@.len() ==> r@[k] < self@.tiles.len(),
                decreases rw - col,
            {
                proof {
                    lemma_index_in_bounds(x0 + col, y0 + row, w as int, self.height as int);
                    lemma_rect_step(row as int, col as int, rw as int, rh as int);
                    assert(rw * rh <= (self.width as int) * (self.height as int)) by (nonlinear_arith)
                        requires
                            rw <= self.width,
                            rh <= self.height,
                    ;
                }
                assert((y0 + row) * w + x0 + col < n);
                r.push((y0 + row) * w + x0 + col);
                col = col + 1;
            }
            proof {
                assert((row + 1) * rw == row * rw + rw) by (nonlinear_arith);
            }
            row = row + 1;
        }
        proof {
            assert(rh * rw == rw * rh) by (nonlinear_arith);
        }
        r
    }

    /// The tiles of `rect`, row by row from the bottom, each row left to
    /// right.
    pub fn iter_rect(&self, rect: GridRect) -> (t: Vec<Tile>)
        requires
            self.wf(),
            self.contains_rect(rect),
        ensures
            t@.len() == rect.width * rect.height,
            forall|k: int| 0 <= k < t@.len() ==> t@[k] == #[trigger] self@.tiles[rect_index_seq(self@.width as int, rect)[k]],
    {
        let idx = self.rect_indices(rect);
        let mut t: Vec<Tile> = Vec::new();
        let mut k: usize = 0;
        while k < idx.len()
            invariant
                self.wf(),
                k <= idx@.len(),
                t@.len() == k,
                forall|j: int| 0 <= j < idx@.len() ==> idx@[j] < self@.tiles.len(),
                forall|j: int| 0 <= j < k ==> t@[j] == self@.tiles[idx@[j] as int],
            decreases idx@.len() - k,
        {
            t.push(self.tiles[idx[k]]);
            k = k + 1;
        }
        t
    }

    /// Every tile with its cell `(x, y)`, in index order.
    pub fn iter_xy(&self) -> (r: Vec<(usize, usize, Tile)>)
        requires
            self.wf(),
        ensures
            r@.len() == self@.tiles.len(),
            forall|i: int| 0 <= i < r@.len() ==> #[trigger] r@[i] == (
                (i % self@.width as int) as usize,
                (i / self@.width as int) as usize,
                self@.tiles[i],
            ),
    {
        let mut r: Vec<(usize, usize, Tile)> = Vec::new();
        let mut i: usize = 0;
        while i < self.tiles.len()
            invariant
                self.wf(),
                i <= self@.tiles.len(),
                r@.len() == i,
                forall|j: int| 0 <= j < i ==> #[trigger] r@[j] == (
                    (j % self@.width as int) as usize,
                    (j / self@.width as int) as usize,
                    self@.tiles[j],
                ),
            decreases self@.tiles.len() - i,
        {
            r.push((i % self.width, i / self.width, self.tiles[i]));
            i = i + 1;
        }
        r
    }

    /// The index of cell `xy`, which must lie on the grid.
    pub fn xy_to_index(&self, xy: [i32; 2]) -> (i: usize)
        requires
            self.wf(),
            0 <= xy[0] < self@.width,
            0 <= xy[1] < self@.height,
        ensures
            i == xy[1] * self@.width + xy[0],
    {
        let p = PivotedPoint::from(xy);
        self.resolve_index(p)
    }

    /// The cell of tile index `i`.
    pub fn index_to_xy(&self, i: usize) -> (xy: [i32; 2])
        requires
            self.wf(),
            i < self@.tiles.len(),
        ensures
            xy[0] == (i as int) % (self@.width as int),
            xy[1] == (i as int) / (self@.width as int),
    {
        proof {
            assert(i / self.width < self.height) by (nonlinear_arith)
                requires
                    i < self.width * self.height,
                    1 <= self.width,
            ;
        }
        [(i % self.width) as i32, (i / self.width) as i32]
    }

    /// The rectangle of the whole grid.
    pub fn bounds(&self) -> (r: GridRect)
        requires
            self.wf(),
        ensures
            r == (GridRect { x: 0, y: 0, width: self@.width as u32, height: self@.height as u32 }),
    {
        GridRect::new([0, 0], [self.width as u32, self.height as u32])
    }

    /// Set or remove the border. A new border is built for the grid's size
    /// in the clear tile's colours.
    pub fn set_border(&mut self, border: Option<Border>)
        requires
            old(self).wf(),
            match border {
                Some(b) => b.wf(),
                None => true,
            },
        ensures
            final(self).wf(),
            final(self)@ == (TerminalView {
                border: match border {
                    Some(b) => Some(built_border(b@, old(self)@.clear_tile, old(self)@.width, old(self)@.height)),
                    None => None,
                },
                changed: true,
                ..old(self)@
            }),
    {
        self.changed = true;
        match border {
            Some(mut b) => {
                b.build_edge_tiles([self.width, self.height], self.clear_tile);
                self.border = Some(b);
            },
            None => {
                self.border = None;
            },
        }
    }

    /// Set the border, built for the grid's size, and hand it out for
    /// further changes such as a title.
    pub fn put_border(&mut self, border: Border) -> (r: &mut Border)
        requires
            old(self).wf(),
            border.wf(),
        ensures
            r@ == built_border(border@, old(self)@.clear_tile, old(self)@.width, old(self)@.height),
            final(self)@ == (TerminalView { border: Some(final(r)@), changed: true, ..old(self)@ }),
    {
        self.changed = true;
        let mut b = border;
        b.build_edge_tiles([self.width, self.height], self.clear_tile);
        self.border.insert(b)
    }

    /// The border; the terminal must have one.
    pub fn border(&self) -> (b: &Border)
        requires
            self@.border is Some,
        ensures
            Some(b@) == self@.border,
    {
        match &self.border {
            Some(b) => b,
            None => vstd::pervasive::unreached(),
        }
    }

    /// The border, if there is one.
    pub fn get_border(&self) -> (b: Option<&Border>)
        ensures
            match b {
                Some(x) => self@.border == Some(x@),
                None => self@.border is None,
            },
    {
        self.border.as_ref()
    }

    /// The border for writing; the terminal must have one.
    pub fn border_mut(&mut self) -> (b: &mut Border)
        requires
            old(self)@.border is Some,
        ensures
            Some(b@) == old(self)@.border,
            final(self)@ == (TerminalView { border: Some(final(b)@), changed: true, ..old(self)@ }),
    {
        self.changed = true;
        match self.border.as_mut() {
            Some(b) => b,
            None => vstd::pervasive::unreached(),
        }
    }

    /// The border for writing, if there is one.
    pub fn get_border_mut(&mut self) -> (b: Option<&mut Border>)
        ensures
            match b {
                Some(x) => old(self)@.border == Some(x@)
                    && final(self)@ == (TerminalView { border: Some(final(x)@), changed: true, ..old(self)@ }),
                None => old(self)@.border is None && final(self)@ == (TerminalView { changed: true, ..old(self)@ }),
            },
    {
        self.changed = true;
        self.border.as_mut()
    }

} // impl Terminal

proof fn lemma_rect_step(row: int, col: int, rw: int, rh: int)
    requires
        0 <= row < rh,
        0 <= col < rw,
    ensures
        (row * rw + col) / rw == row,
        (row * rw + col) % rw == col,
        row * rw + col < rw * rh,
{
    assert((row * rw + col) / rw == row && (row * rw + col) % rw == col) by (nonlinear_arith)
        requires
            0 <= row,
            0 <= col < rw,
    ;
    assert(row * rw + col < rw * rh) by (nonlinear_arith)
        requires
            0 <= row < rh,
            0 <= col < rw,
    ;
}

} // verus!
