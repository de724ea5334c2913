//! A ring of tiles drawn over the outermost cells of the grid.
//!
//! The ring is stored in perimeter order: from the bottom-left cell along
//! the bottom edge to the right, up the right edge, back along the top edge
//! to the left and down the left edge. A grid one cell wide or high has no
//! inside; its ring is then every cell, in row-major order.
use vstd::prelude::*;

use crate::grid::MAX_SIDE;
use crate::string::{layout, layout_chars, lemma_layout_in_bounds, write_char, write_placed,
    FormattedString, Placed, chars_of};
use crate::tile::{default_tile, Tile};

verus! {

/// The number of ring cells of a `w` by `h` grid.
pub open spec fn ring_len(w: int, h: int) -> int {
    if w >= 2 && h >= 2 {
        2 * w + 2 * h - 4
    } else {
        w * h
    }
}

/// The cell of the `i`th ring tile.
pub open spec fn ring_pos(i: int, w: int, h: int) -> (int, int) {
    if !(w >= 2 && h >= 2) {
        (i % w, i / w)
    } else if i < w {
        (i, 0)
    } else if i < w + h - 1 {
        (w - 1, i - w + 1)
    } else if i < 2 * w + h - 2 {
        (2 * w + h - 3 - i, h - 1)
    } else {
        (0, 2 * w + 2 * h - 4 - i)
    }
}

/// The ring index of the top-edge cell in column `x`, for `0 < x < w - 1`.
pub open spec fn top_ring_index(x: int, w: int, h: int) -> int {
    2 * w + h - 3 - x
}

/// The glyph of the ring cell `(x, y)`. `g` holds the top-left, top-right,
/// bottom-left and bottom-right corners, then the horizontal and the
/// vertical edge.
pub open spec fn edge_glyph(g: Seq<char>, x: int, y: int, w: int, h: int) -> char {
    if y == h - 1 && x == 0 {
        g[0]
    } else if y == h - 1 && x == w - 1 {
        g[1]
    } else if y == 0 && x == 0 {
        g[2]
    } else if y == 0 && x == w - 1 {
        g[3]
    } else if y == 0 || y == h - 1 {
        g[4]
    } else {
        g[5]
    }
}

/// The plain `i`th ring tile: its edge glyph in the clear tile's colours.
pub open spec fn edge_tile(g: Seq<char>, clear: Tile, i: int, w: int, h: int) -> Tile {
    Tile {
        glyph: edge_glyph(g, ring_pos(i, w, h).0, ring_pos(i, w, h).1, w, h),
        ..clear
    }
}

/// The plain ring of a `w` by `h` grid.
pub open spec fn edge_tiles(g: Seq<char>, clear: Tile, w: int, h: int) -> Seq<Tile> {
    Seq::new(ring_len(w, h) as nat, |i: int| edge_tile(g, clear, i, w, h))
}

/// The abstract state of a border.
pub struct BorderView {
    pub glyphs: Seq<char>,
    pub width: nat,
    pub height: nat,
    pub tiles: Seq<Tile>,
    pub clear_tile: Tile,
    pub changed: bool,
}

/// A border of six glyphs and the tiles of its ring, with a flag that is
/// set by every change and cleared by whoever consumed the change.
#[derive(Clone, Debug)]
pub struct Border {
    glyphs: [char; 6],
    width: usize,
    height: usize,
    tiles: Vec<Tile>,
    clear_tile: Tile,
    changed: bool,
}

impl View for Border {
    type V = BorderView;

    closed spec fn view(&self) -> BorderView {
        BorderView {
            glyphs: self.glyphs@,
            width: self.width as nat,
            height: self.height as nat,
            tiles: self.tiles@,
            clear_tile: self.clear_tile,
            changed: self.changed,
        }
    }
}

/// Where a title stands on the top edge.
#[derive(Clone, Copy, Debug, PartialEq, Eq)]
pub enum TitleAlign {
    /// From the left end of the edge, this many cells in.
    Left(usize),
    /// In the middle of the edge.
    Center,
}

/// The column, counted inside the corners, at which a title of `len`
/// characters starts on an edge with `inner` cells between the corners.
pub open spec fn title_start(align: TitleAlign, len: int, inner: int) -> int {
    match align {
        TitleAlign::Left(k) => if k <= inner { k as int } else { inner },
        TitleAlign::Center => if len < inner { (inner - len) / 2 } else { 0 },
    }
}

/// The ring index `i` is a top-edge cell between the corners.
pub open spec fn is_top_inner(i: int, w: int, h: int) -> bool {
    w >= 2 && h >= 2 && w + h - 1 <= i < 2 * w + h - 3
}

/// The slot of a placed title character in the ring of a `w` by `h` grid.
pub open spec fn title_slot(w: int, h: int) -> spec_fn(Placed) -> int {
    |p: Placed| top_ring_index(p.x + 1, w, h)
}

/// The ring tiles of `b` after a title is written on its top edge.
pub open spec fn titled(
    b: BorderView,
    s: Seq<char>,
    align: TitleAlign,
    fg: Option<crate::color::Color>,
    bg: Option<crate::color::Color>,
    ignore_spaces: bool,
) -> Seq<Tile> {
    let w = b.width as int;
    let h = b.height as int;
    if w >= 2 && h >= 2 {
        let inner = w - 2;
        let start = title_start(align, s.len() as int, inner);
        write_placed(b.tiles, layout(s, start, 0, inner, 1, false), title_slot(w, h), fg, bg, ignore_spaces)
    } else {
        b.tiles
    }
}

impl Border {
    /// The ring holds one tile per ring cell of its size.
    pub open spec fn wf(&self) -> bool {
        &&& self@.glyphs.len() == 6
        &&& self@.width <= MAX_SIDE
        &&& self@.height <= MAX_SIDE
        &&& self@.tiles.len() == ring_len(self@.width as int, self@.height as int)
    }

    /// A border with the given corner and edge glyphs: top-left, top-right,
    /// bottom-left, bottom-right, horizontal, vertical. It has no tiles until
    /// it is built for a grid.
    pub fn from_glyphs(glyphs: [char; 6]) -> (b: Border)
        ensures
            b.wf(),
            b@.glyphs == glyphs@,
            b@.width == 0,
            b@.height == 0,
            b@.tiles.len() == 0,
            b@.clear_tile == default_tile(),
            b@.changed,
    {
        Border {
            glyphs,
            width: 0,
            height: 0,
            tiles: Vec::new(),
            clear_tile: Tile::default(),
            changed: true,
        }
    }

    /// A border drawn with single lines.
    pub fn single_line() -> (b: Border)
        ensures
            b.wf(),
            b@.glyphs == seq!['\u{250C}', '\u{2510}', '\u{2514}', '\u{2518}', '\u{2500}', '\u{2502}'],
            b@.width == 0,
            b@.height == 0,
            b@.changed,
    {
        let b = Border::from_glyphs(['\u{250C}', '\u{2510}', '\u{2514}', '\u{2518}', '\u{2500}', '\u{2502}']);
        assert(b@.glyphs =~= seq!['\u{250C}', '\u{2510}', '\u{2514}', '\u{2518}', '\u{2500}', '\u{2502}']);
        b
    }

    /// A border drawn with double lines.
    pub fn double_line() -> (b: Border)
        ensures
            b.wf(),
            b@.glyphs == seq!['\u{2554}', '\u{2557}', '\u{255A}', '\u{255D}', '\u{2550}', '\u{2551}'],
            b@.width == 0,
            b@.height == 0,
            b@.changed,
    {
        let b = Border::from_glyphs(['\u{2554}', '\u{2557}', '\u{255A}', '\u{255D}', '\u{2550}', '\u{2551}']);
        assert(b@.glyphs =~= seq!['\u{2554}', '\u{2557}', '\u{255A}', '\u{255D}', '\u{2550}', '\u{2551}']);
        b
    }

    /// The six glyphs.
    pub fn glyphs(&self) -> (g: [char; 6])
        ensures
            g@ == self@.glyphs,
    {
        self.glyphs
    }

    /// The size of the grid the ring was built for.
    pub fn size(&self) -> (s: [usize; 2])
        ensures
            s[0] == self@.width,
            s[1] == self@.height,
    {
        [self.width, self.height]
    }

    /// The number of ring tiles.
    pub fn tile_count(&self) -> (n: usize)
        ensures
            n == self@.tiles.len(),
    {
        self.tiles.len()
    }

    /// The ring tiles in perimeter order.
    pub fn tiles(&self) -> (t: &[Tile])
        ensures
            t@ == self@.tiles,
    {
        self.tiles.as_slice()
    }

    /// Whether the border changed since the flag was last reset.
    pub fn changed(&self) -> (c: bool)
        ensures
            c == self@.changed,
    {
        self.changed
    }

    /// Mark the border's changes as consumed.
    pub fn reset_changed_state(&mut self)
        ensures
            final(self)@ == (BorderView { changed: false, ..old(self)@ }),
    {
        self.changed = false;
    }

    /// Build the plain ring for a grid of `size`, in the colours of
    /// `clear_tile`. Any title is gone afterwards.
    pub fn build_edge_tiles(&mut self, size: [usize; 2], clear_tile: Tile)
        requires
            old(self).wf(),
            1 <= size[0] <= MAX_SIDE,
            1 <= size[1] <= MAX_SIDE,
        ensures
            final(self).wf(),
            size[0] >= 2 && size[1] >= 2 ==> final(self)@.tiles.len() == 2 * size[0] + 2 * size[1] - 4,
            final(self)@ == (BorderView {
                width: size[0] as nat,
                height: size[1] as nat,
                tiles: edge_tiles(old(self)@.glyphs, clear_tile, size[0] as int, size[1] as int),
                clear_tile,
                changed: true,
                ..old(self)@
            }),
    {
        let w = size[0];
        let h = size[1];
        let n = ring_len_of(w, h);
        let mut tiles: Vec<Tile> = Vec::new();
        let mut i: usize = 0;
        while i < n
            invariant
                i <= n,
                n == ring_len(w as int, h as int),
                1 <= w <= MAX_SIDE,
                1 <= h <= MAX_SIDE,
                tiles@.len() == i,
                forall|j: int| 0 <= j < i ==> tiles@[j] == edge_tile(self.glyphs@, clear_tile, j, w as int, h as int),
            decreases n - i,
        {
            let (x, y) = ring_position_of(i, w, h);
            let g = edge_glyph_at(&self.glyphs, x, y, w, h);
            tiles.push(Tile { glyph: g, ..clear_tile });
            i = i + 1;
        }
        assert(tiles@ =~= edge_tiles(self.glyphs@, clear_tile, w as int, h as int));
        self.width = w;
        self.height = h;
        self.tiles = tiles;
        self.clear_tile = clear_tile;
        self.changed = true;
    }

    /// Write a title at the left end of the top edge, just inside the
    /// corner.
    pub fn put_title(&mut self, string: FormattedString)
        requires
            old(self).wf(),
        ensures
            final(self).wf(),
            final(self)@ == (BorderView {
                tiles: titled(old(self)@, string.string@, TitleAlign::Left(0), string.fg_color,
                    string.bg_color, string.ignore_spaces),
                changed: true,
                ..old(self)@
            }),
    {
        self.put_aligned_title(string, TitleAlign::Left(0))
    }

    /// Write a title on the top edge between the corners, aligned as
    /// `align` says and cut at the corner. It is laid out on one line,
    /// without word wrap; a newline ends it.
    pub fn put_aligned_title(&mut self, string: FormattedString, align: TitleAlign)
        requires
            old(self).wf(),
        ensures
            final(self).wf(),
            final(self)@ == (BorderView {
                tiles: titled(old(self)@, string.string@, align, string.fg_color, string.bg_color,
                    string.ignore_spaces),
                changed: true,
                ..old(self)@
            }),
    {
        self.changed = true;
        let w = self.width;
        let h = self.height;
        if !(w >= 2 && h >= 2) {
            return;
        }
        let chars = chars_of(string.string);
        let inner = w - 2;
        let start: usize = match align {
            TitleAlign::Left(k) => if k <= inner { k } else { inner },
            TitleAlign::Center => if chars.len() < inner { (inner - chars.len()) / 2 } else { 0 },
        };
        assert(start == title_start(align, string.string@.len() as int, inner as int));
        let ps = layout_chars(&chars, start as i32, 0, inner, 1, false);
        let ghost slot = title_slot(w as int, h as int);
        proof {
            lemma_layout_in_bounds(chars@, 0, start as int, 0, 0, 0, inner as int, 1, false);
        }
        let ghost old_tiles = self.tiles@;
        let mut k: usize = 0;
        while k < ps.len()
            invariant
                k <= ps@.len(),
                2 <= w <= MAX_SIDE,
                2 <= h <= MAX_SIDE,
                inner == w - 2,
                self.width == w,
                self.height == h,
                self.glyphs == old(self).glyphs,
                self.clear_tile == old(self).clear_tile,
                self.changed,
                self.tiles@.len() == ring_len(w as int, h as int),
                forall|j: int| 0 <= j < ps@.len() ==> (#[trigger] ps@[j]).x < inner,
                slot == title_slot(w as int, h as int),
                self.tiles@ == write_placed(old_tiles, ps@.take(k as int), slot, string.fg_color,
                    string.bg_color, string.ignore_spaces),
            decreases ps@.len() - k,
        {
            let p = ps[k];
            assert(ps@.take(k + 1).drop_last() == ps@.take(k as int));
            assert(ps@.take(k + 1).last() == p);
            if !(string.ignore_spaces && p.glyph == ' ') {
                let idx = 2 * w + h - 3 - (p.x + 1);
                assert(idx == slot(p));
                let old_tile = self.tiles[idx];
                let mut t = old_tile;
                t.glyph = p.glyph;
                match string.fg_color {
                    Some(c) => t.fg_color = c,
                    None => {},
                }
                match string.bg_color {
                    Some(c) => t.bg_color = c,
                    None => {},
                }
                assert(t == write_char(old_tile, p.glyph, string.fg_color, string.bg_color));
                self.tiles.set(idx, t);
            }
            k = k + 1;
        }
        assert(ps@.take(ps@.len() as int) == ps@);
    }

    /// Put the plain edge glyph back on the top edge between the corners,
    /// removing any title; the other tiles stay as they are.
    pub fn clear_strings(&mut self)
        requires
            old(self).wf(),
        ensures
            final(self).wf(),
            final(self)@ == (BorderView {
                tiles: Seq::new(old(self)@.tiles.len(), |i: int|
                    if is_top_inner(i, old(self)@.width as int, old(self)@.height as int) {
                        edge_tile(old(self)@.glyphs, old(self)@.clear_tile, i, old(self)@.width as int,
                            old(self)@.height as int)
                    } else {
                        old(self)@.tiles[i]
                    }),
                changed: true,
                ..old(self)@
            }),
    {
        self.changed = true;
        let w = self.width;
        let h = self.height;
        let ghost old_tiles = self.tiles@;
        if w >= 2 && h >= 2 {
            let mut i: usize = w + h - 1;
            while i < 2 * w + h - 3
                invariant
                    2 <= w <= MAX_SIDE,
                    2 <= h <= MAX_SIDE,
                    self.width == w,
                    self.height == h,
                    self.glyphs == old(self).glyphs,
                    self.clear_tile == old(self).clear_tile,
                    self.changed,
                    w + h - 1 <= i <= 2 * w + h - 3,
                    self.tiles@.len() == old_tiles.len(),
                    old_tiles.len() == ring_len(w as int, h as int),
                    forall|j: int| 0 <= j < old_tiles.len() ==> #[trigger] self.tiles@[j] == if w + h - 1 <= j < i {
                        edge_tile(self.glyphs@, self.clear_tile, j, w as int, h as int)
                    } else {
                        old_tiles[j]
                    },
                decreases 2 * w + h - 3 - i,
            {
                let (x, y) = ring_position_of(i, w, h);
                let g = edge_glyph_at(&self.glyphs, x, y, w, h);
                self.tiles.set(i, Tile { glyph: g, ..self.clear_tile });
                i = i + 1;
            }
        }
        assert(self.tiles@ =~= Seq::new(old_tiles.len(), |i: int|
            if is_top_inner(i, w as int, h as int) {
                edge_tile(self.glyphs@, self.clear_tile, i, w as int, h as int)
            } else {
                old_tiles[i]
            }));
    }

    /// Each ring tile with its cell, in perimeter order.
    pub fn iter(&self) -> (r: Vec<(usize, usize, Tile)>)
        requires
            self.wf(),
        ensures
            r@.len() == self@.tiles.len(),
            forall|i: int| 0 <= i < r@.len() ==> #[trigger] r@[i] == (
                ring_pos(i, self@.width as int, self@.height as int).0 as usize,
                ring_pos(i, self@.width as int, self@.height as int).1 as usize,
                self@.tiles[i],
            ),
    {
        let mut r: Vec<(usize, usize, Tile)> = Vec::new();
        let mut i: usize = 0;
        while i < self.tiles.len()
            invariant
                self.wf(),
                i <= self@.tiles.len(),
                r@.len() == i,
                forall|j: int| 0 <= j < i ==> #[trigger] r@[j] == (
                    ring_pos(j, self@.width as int, self@.height as int).0 as usize,
                    ring_pos(j, self@.width as int, self@.height as int).1 as usize,
                    self@.tiles[j],
                ),
            decreases self@.tiles.len() - i,
        {
            let (x, y) = self.ring_position(i);
            r.push((x, y, self.tiles[i]));
            i = i + 1;
        }
        r
    }

    /// The cell of the `i`th ring tile.
    pub fn ring_position(&self, i: usize) -> (p: (usize, usize))
        requires
            self.wf(),
            i < self@.tiles.len(),
        ensures
            p.0 == ring_pos(i as int, self@.width as int, self@.height as int).0,
            p.1 == ring_pos(i as int, self@.width as int, self@.height as int).1,
            p.0 < self@.width,
            p.1 < self@.height,
    {
        ring_position_of(i, self.width, self.height)
    }
}

/// The glyph of ring cell `(x, y)`, as `edge_glyph` gives it.
fn edge_glyph_at(g: &[char; 6], x: usize, y: usize, w: usize, h: usize) -> (c: char)
    requires
        1 <= h,
        1 <= w,
    ensures
        c == edge_glyph(g@, x as int, y as int, w as int, h as int),
{
    if y == h - 1 && x == 0 {
        g[0]
    } else if y == h - 1 && x == w - 1 {
        g[1]
    } else if y == 0 && x == 0 {
        g[2]
    } else if y == 0 && x == w - 1 {
        g[3]
    } else if y == 0 || y == h - 1 {
        g[4]
    } else {
        g[5]
    }
}

/// The number of ring cells of a `w` by `h` grid.
pub fn ring_len_of(w: usize, h: usize) -> (n: usize)
    requires
        1 <= w <= MAX_SIDE,
        1 <= h <= MAX_SIDE,
    ensures
        n == ring_len(w as int, h as int),
{
    if w >= 2 && h >= 2 {
        2 * w + 2 * h - 4
    } else {
        assert(w * h <= MAX_SIDE) by (nonlinear_arith)
            requires
                w == 1 || h == 1,
                w <= MAX_SIDE,
                h <= MAX_SIDE,
                1 <= w,
                1 <= h,
        ;
        w * h
    }
}

/// The cell of the `i`th ring tile of a `w` by `h` grid.
pub fn ring_position_of(i: usize, w: usize, h: usize) -> (p: (usize, usize))
    requires
        1 <= w <= MAX_SIDE,
        1 <= h <= MAX_SIDE,
        i < ring_len(w as int, h as int),
    ensures
        p.0 == ring_pos(i as int, w as int, h as int).0,
        p.1 == ring_pos(i as int, w as int, h as int).1,
        p.0 < w,
        p.1 < h,
{
    if !(w >= 2 && h >= 2) {
        assert(i / w < h) by (nonlinear_arith)
            requires
                i < w * h,
                1 <= w,
        ;
        (i % w, i / w)
    } else if i < w {
        (i, 0)
    } else if i < w + h - 1 {
        (w - 1, i - w + 1)
    } else if i < 2 * w + h - 2 {
        (2 * w + h - 3 - i, h - 1)
    } else {
        (0, 2 * w + 2 * h - 4 - i)
    }
}

} // verus!
