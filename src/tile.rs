//! A single cell of the terminal.
use vstd::prelude::*;

use crate::color::Color;

verus! {

/// The visual state of one cell: a glyph and two colours.
#[derive(Clone, Copy, Debug, PartialEq, Eq, Structural)]
pub struct Tile {
    pub glyph: char,
    pub fg_color: Color,
    pub bg_color: Color,
}

/// The tile a fresh terminal is filled with: a space, white on black.
pub open spec fn default_tile() -> Tile {
    Tile {
        glyph: ' ',
        fg_color: Color { r: 255, g: 255, b: 255, a: 255 },
        bg_color: Color { r: 0, g: 0, b: 0, a: 255 },
    }
}

impl Tile {
    pub fn new(glyph: char, fg_color: Color, bg_color: Color) -> (t: Tile)
        ensures
            t == (Tile { glyph, fg_color, bg_color }),
    {
        Tile { glyph, fg_color, bg_color }
    }

    /// Replace the glyph, keeping the colours.
    pub fn glyph(&mut self, glyph: char) -> (r: &mut Tile)
        ensures
            *r == (Tile { glyph, ..*old(self) }),
            *final(self) == *final(r),
    {
        self.glyph = glyph;
        self
    }

    /// Replace the foreground colour, keeping the rest.
    pub fn fg(&mut self, color: Color) -> (r: &mut Tile)
        ensures
            *r == (Tile { fg_color: color, ..*old(self) }),
            *final(self) == *final(r),
    {
        self.fg_color = color;
        self
    }

    /// Replace the background colour, keeping the rest.
    pub fn bg(&mut self, color: Color) -> (r: &mut Tile)
        ensures
            *r == (Tile { bg_color: color, ..*old(self) }),
            *final(self) == *final(r),
    {
        self.bg_color = color;
        self
    }
}

impl Default for Tile {
    fn default() -> (t: Tile)
        ensures
            t == default_tile(),
    {
        Tile { glyph: ' ', fg_color: Color::white(), bg_color: Color::black() }
    }
}

} // verus!
