//! Partial tile updates: a short list of modifications applied in order.
use vstd::prelude::*;

use arrayvec::ArrayVec;

use crate::color::Color;
use crate::grid::PivotedPoint;
use crate::terminal::{Terminal, TerminalView};
use crate::tile::{default_tile, Tile};

verus! {

/// `arrayvec::ArrayVec`, a vector of fixed capacity, held opaquely: what it
/// contains is told by `modification_list`.
#[verifier::external_type_specification]
#[verifier::external_body]
#[verifier::reject_recursive_types(T)]
pub struct ExArrayVec<T, const CAP: usize>(ArrayVec<T, CAP>);

/// What an `ArrayVec` of modifications holds, first pushed first.
pub uninterp spec fn modification_list(v: ArrayVec<TileModification, 3>) -> Seq<TileModification>;

/// Relies on `ArrayVec::new`: a new vector is empty.
#[verifier::external_body]
fn new_modification_list() -> (r: ArrayVec<TileModification, 3>)
    ensures
        modification_list(r) == Seq::<TileModification>::empty(),
{
    ArrayVec::new()
}

/// Relies on `ArrayVec::push`: appends at the end; it panics only when full.
#[verifier::external_body]
fn push_modification(v: &mut ArrayVec<TileModification, 3>, m: TileModification)
    requires
        modification_list(*old(v)).len() < 3,
    ensures
        modification_list(*final(v)) == modification_list(*old(v)).push(m),
{
    v.push(m)
}

/// Relies on `ArrayVec::as_slice`: the elements in order, no more than the
/// capacity.
#[verifier::external_body]
fn modification_slice(v: &ArrayVec<TileModification, 3>) -> (r: &[TileModification])
    ensures
        r@ == modification_list(*v),
        r@.len() <= 3,
{
    v.as_slice()
}

/// One change to a tile.
#[derive(Clone, Copy, Debug, PartialEq, Eq, Structural)]
pub enum TileModification {
    /// Change the glyph of a tile.
    Glyph(char),
    /// Change the foreground colour of a tile.
    FGColor(Color),
    /// Change the background colour of a tile.
    BGColor(Color),
}

/// The tile after one modification.
pub open spec fn modify(t: Tile, m: TileModification) -> Tile {
    match m {
        TileModification::Glyph(g) => Tile { glyph: g, ..t },
        TileModification::FGColor(c) => Tile { fg_color: c, ..t },
        TileModification::BGColor(c) => Tile { bg_color: c, ..t },
    }
}

/// The tile after every modification of `ms`, first to last: for each field
/// the last modification naming it wins.
pub open spec fn apply_all(t: Tile, ms: Seq<TileModification>) -> Tile
    decreases ms.len(),
{
    if ms.len() == 0 {
        t
    } else {
        modify(apply_all(t, ms.drop_last()), ms.last())
    }
}

/// The modifications that rebuild `t` whole.
pub open spec fn full_format(t: Tile) -> Seq<TileModification> {
    seq![
        TileModification::Glyph(t.glyph),
        TileModification::FGColor(t.fg_color),
        TileModification::BGColor(t.bg_color),
    ]
}

/// Formatting that can be applied to a tile without replacing it whole.
#[derive(Debug)]
pub struct TileFormat {
    modifications: ArrayVec<TileModification, 3>,
}

impl View for TileFormat {
    type V = Seq<TileModification>;

    closed spec fn view(&self) -> Seq<TileModification> {
        modification_list(self.modifications)
    }
}

impl TileFormat {
    /// A format with no modifications.
    pub fn new() -> (f: TileFormat)
        ensures
            f@ == Seq::<TileModification>::empty(),
    {
        TileFormat { modifications: new_modification_list() }
    }

    /// The number of modifications held.
    pub fn len(&self) -> (n: usize)
        ensures
            n == self@.len(),
    {
        modification_slice(&self.modifications).len()
    }

    /// Apply the modifications to an existing tile, in order.
    pub fn apply(&self, tile: &mut Tile)
        ensures
            *final(tile) == apply_all(*old(tile), self@),
    {
        let ms = modification_slice(&self.modifications);
        let mut i: usize = 0;
        while i < ms.len()
            invariant
                0 <= i <= ms@.len(),
                ms@ == self@,
                *tile == apply_all(*old(tile), ms@.take(i as int)),
            decreases ms@.len() - i,
        {
            assert(ms@.take(i + 1).drop_last() == ms@.take(i as int));
            match ms[i] {
                TileModification::Glyph(g) => tile.glyph = g,
                TileModification::FGColor(c) => tile.fg_color = c,
                TileModification::BGColor(c) => tile.bg_color = c,
            }
            i = i + 1;
        }
        assert(ms@.take(i as int) == ms@);
    }

    /// A format that resets a tile to the default tile.
    pub fn clear() -> (f: TileFormat)
        ensures
            f@ == full_format(default_tile()),
    {
        TileFormat::from_tile(Tile::default())
    }

    /// The modifications, in the order they are applied.
    pub fn iter(&self) -> (r: &[TileModification])
        ensures
            r@ == self@,
    {
        modification_slice(&self.modifications)
    }

    /// Add a glyph change.
    pub fn glyph(self, glyph: char) -> (f: TileFormat)
        requires
            self@.len() < 3,
        ensures
            f@ == self@.push(TileModification::Glyph(glyph)),
    {
        let mut f = self;
        push_modification(&mut f.modifications, TileModification::Glyph(glyph));
        f
    }

    /// Add a foreground colour change.
    pub fn fg(self, color: Color) -> (f: TileFormat)
        requires
            self@.len() < 3,
        ensures
            f@ == self@.push(TileModification::FGColor(color)),
    {
        let mut f = self;
        push_modification(&mut f.modifications, TileModification::FGColor(color));
        f
    }

    /// Add a background colour change.
    pub fn bg(self, color: Color) -> (f: TileFormat)
        requires
            self@.len() < 3,
        ensures
            f@ == self@.push(TileModification::BGColor(color)),
    {
        let mut f = self;
        push_modification(&mut f.modifications, TileModification::BGColor(color));
        f
    }

    /// This format, for use where a format is expected.
    pub fn format(self) -> (f: TileFormat)
        ensures
            f@ == self@,
    {
        self
    }

    /// The format that sets all three fields of `tile`.
    pub fn from_tile(tile: Tile) -> (f: TileFormat)
        ensures
            f@ == full_format(tile),
    {
        let f = TileFormat::new().glyph(tile.glyph).fg(tile.fg_color).bg(tile.bg_color);
        assert(f@ =~= full_format(tile));
        f
    }

    /// Apply the format to the tile at `xy`, which must resolve to a cell of
    /// the terminal.
    pub fn draw(&self, xy: PivotedPoint, term: &mut Terminal)
        requires
            old(term).wf(),
            xy.in_bounds(old(term)@.width as int, old(term)@.height as int),
        ensures
            final(term).wf(),
            final(term)@ == (TerminalView {
                tiles: old(term)@.tiles.update(
                    old(term).index_of(xy),
                    apply_all(old(term)@.tiles[old(term).index_of(xy)], self@),
                ),
                changed: true,
                ..old(term)@
            }),
    {
        let t = term.tile_mut(xy);
        self.apply(t);
    }

    /// The default tile with this format applied.
    pub fn to_tile(&self) -> (t: Tile)
        ensures
            t == apply_all(default_tile(), self@),
    {
        let mut t = Tile::default();
        self.apply(&mut t);
        t
    }
}

impl Clone for TileFormat {
    /// A format with the same modifications.
    fn clone(&self) -> (f: TileFormat)
        ensures
            f@ == self@,
    {
        let ms = modification_slice(&self.modifications);
        let mut f = TileFormat::new();
        let mut i: usize = 0;
        while i < ms.len()
            invariant
                i <= ms@.len(),
                ms@ == self@,
                ms@.len() <= 3,
                f@ == ms@.take(i as int),
            decreases ms@.len() - i,
        {
            push_modification(&mut f.modifications, ms[i]);
            i = i + 1;
            assert(f@ =~= ms@.take(i as int));
        }
        assert(ms@.take(i as int) =~= ms@);
        f
    }
}

/// The format of a bare character: it sets the glyph only.
pub fn char_format(ch: char) -> (f: TileFormat)
    ensures
        f@ == seq![TileModification::Glyph(ch)],
{
    let f = TileFormat::new().glyph(ch);
    assert(f@ =~= seq![TileModification::Glyph(ch)]);
    f
}

impl From<TileFormat> for Tile {
    fn from(fmt: TileFormat) -> (t: Tile) {
        fmt.to_tile()
    }
}

impl vstd::std_specs::convert::FromSpecImpl<TileFormat> for Tile {
    open spec fn obeys_from_spec() -> bool {
        true
    }

    open spec fn from_spec(fmt: TileFormat) -> Tile {
        apply_all(default_tile(), fmt@)
    }
}

impl From<Tile> for TileFormat {
    /// The format that sets all three fields of `tile`: glyph, foreground,
    /// background, in that order.
    fn from(tile: Tile) -> (f: TileFormat)
        ensures
            f@ == full_format(tile),
    {
        TileFormat::from_tile(tile)
    }
}

/// The modifications of the result are stated on `from` itself, as
/// `full_format(tile)`. Two formats with the same modifications need not be
/// the same value, so no single value is named here.
impl vstd::std_specs::convert::FromSpecImpl<Tile> for TileFormat {
    open spec fn obeys_from_spec() -> bool {
        false
    }

    open spec fn from_spec(tile: Tile) -> TileFormat {
        vstd::pervasive::arbitrary()
    }
}

/// Turning a tile into its full format and back gives the tile again.
pub proof fn tile_format_round_trip(tile: Tile)
    ensures
        apply_all(default_tile(), full_format(tile)) == tile,
{
    let ms = full_format(tile);
    let d = default_tile();
    let s1 = ms.drop_last().drop_last();
    let s2 = ms.drop_last();
    assert(s1.drop_last() =~= Seq::<TileModification>::empty());
    assert(s1 =~= seq![TileModification::Glyph(tile.glyph)]);
    assert(s2 =~= seq![
        TileModification::Glyph(tile.glyph),
        TileModification::FGColor(tile.fg_color),
    ]);
    assert(apply_all(d, s1.drop_last()) == d);
    assert(apply_all(d, s1) == Tile { glyph: tile.glyph, ..d });
    assert(apply_all(d, s2) == Tile { glyph: tile.glyph, fg_color: tile.fg_color, ..d });
}

} // verus!
