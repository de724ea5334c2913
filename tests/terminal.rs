use ascii_terminal::border::{Border, TitleAlign};
use ascii_terminal::color::Color;
use ascii_terminal::formatting::{char_format, TileFormat, TileModification};
use ascii_terminal::grid::{GridRect, PivotedPoint};
use ascii_terminal::string::{chars_of, layout_chars, FormattedString, Placed};
use ascii_terminal::terminal::Terminal;
use ascii_terminal::tile::Tile;
use sark_grids::Pivot;

fn row_text(term: &Terminal, y: usize) -> String {
    let w = term.width();
    term.iter_row(y).iter().take(w).map(|t| t.glyph).collect()
}

#[test]
fn resize_gives_clear_tiles() {
    let mut term = Terminal::new([3, 3]);
    let clear = Tile::new('.', Color::red(), Color::green());
    term.set_clear_tile(clear);
    for (w, h) in [(1usize, 1usize), (7, 2), (2, 9), (16, 16)] {
        term.resize([w, h]);
        assert_eq!(term.tile_count(), w * h);
        assert!(term.tiles().iter().all(|t| *t == clear));
    }
}

#[test]
fn zero_size_is_raised_to_one() {
    let term = Terminal::new([0, 4]);
    assert_eq!(term.size(), [1, 4]);
    assert_eq!(term.tile_count(), 4);
}

#[test]
fn word_wrap_moves_word_to_next_row() {
    let mut term = Terminal::new([5, 3]);
    term.put_string(PivotedPoint::new([0, 0], Pivot::TopLeft), FormattedString::new("abcde fg"));
    assert_eq!(row_text(&term, 2), "abcde");
    assert_eq!(row_text(&term, 1), "fg   ");
    assert_eq!(row_text(&term, 0), "     ");
}

#[test]
fn word_wrap_keeps_fitting_words_on_one_row() {
    let mut term = Terminal::new([5, 2]);
    term.put_string(PivotedPoint::new([0, 0], Pivot::TopLeft), FormattedString::new("ab cd"));
    assert_eq!(row_text(&term, 1), "ab cd");
    assert_eq!(row_text(&term, 0), "     ");
}

#[test]
fn no_word_wrap_skips_cells_past_the_edge() {
    let mut term = Terminal::new([5, 2]);
    term.put_string(
        PivotedPoint::new([0, 0], Pivot::TopLeft),
        FormattedString::new("abcde fg").no_word_wrap(),
    );
    assert_eq!(row_text(&term, 1), "abcde");
    assert_eq!(row_text(&term, 0), "     ");
}

#[test]
fn newline_starts_next_row_at_origin_column() {
    let mut term = Terminal::new([6, 3]);
    term.put_string(PivotedPoint::new([1, 0], Pivot::TopLeft), FormattedString::new("ab\ncd"));
    assert_eq!(row_text(&term, 2), " ab   ");
    assert_eq!(row_text(&term, 1), " cd   ");
}

#[test]
fn rows_below_the_grid_are_dropped() {
    let mut term = Terminal::new([3, 2]);
    term.put_string(PivotedPoint::new([0, 0], Pivot::TopLeft), FormattedString::new("a\nb\nc\nd"));
    assert_eq!(row_text(&term, 1), "a  ");
    assert_eq!(row_text(&term, 0), "b  ");
    let ps = layout_chars(&chars_of("a\nb\nc"), 0, 1, 3, 2, true);
    assert_eq!(
        ps,
        vec![Placed { x: 0, y: 1, glyph: 'a' }, Placed { x: 0, y: 0, glyph: 'b' }]
    );
}

#[test]
fn long_word_is_not_broken() {
    let ps = layout_chars(&chars_of("ab abcdefg"), 0, 1, 4, 2, true);
    let text: String = ps.iter().map(|p| p.glyph).collect();
    assert_eq!(text, "ab abcd");
    assert_eq!(ps[3], Placed { x: 0, y: 0, glyph: 'a' });
}

#[test]
fn ignore_spaces_keeps_tiles_under_spaces() {
    let mut term = Terminal::new([5, 1]);
    term.put_string([0, 0].into(), FormattedString::new("xxxxx"));
    term.put_string([0, 0].into(), FormattedString::new("a b c").ignore_spaces());
    assert_eq!(row_text(&term, 0), "axbxc");
}

#[test]
fn string_colours_are_applied_only_when_given() {
    let mut term = Terminal::new([4, 1]);
    let before = *term.tile([1, 0].into());
    term.put_string([0, 0].into(), FormattedString::new("ab").fg(Color::blue()));
    let t = *term.tile([1, 0].into());
    assert_eq!(t.glyph, 'b');
    assert_eq!(t.fg_color, Color::blue());
    assert_eq!(t.bg_color, before.bg_color);
    assert_eq!(*term.tile([2, 0].into()), before);
}

#[test]
fn pivots_resolve_against_the_size() {
    let mut term = Terminal::new([5, 5]);
    term.put_char(PivotedPoint::new([1, 1], Pivot::TopLeft), 'a');
    term.put_char(PivotedPoint::new([1, 1], Pivot::TopRight), 'b');
    term.put_char(PivotedPoint::new([0, 0], Pivot::BottomRight), 'd');
    term.put_char(PivotedPoint::new([-1, 0], Pivot::Center), 'c');
    assert_eq!(term.tile([1, 3].into()).glyph, 'a');
    assert_eq!(term.tile([3, 3].into()).glyph, 'b');
    assert_eq!(term.tile([4, 0].into()).glyph, 'd');
    assert_eq!(term.tile([1, 2].into()).glyph, 'c');
    let t6 = Terminal::new([6, 6]);
    assert_eq!(t6.xy_to_index([4, 4]), 28);
    let mut t = Terminal::new([6, 6]);
    t.put_char(PivotedPoint::new([1, 1], Pivot::Center), 'e');
    assert_eq!(t.tile([4, 4].into()).glyph, 'e');
}

#[test]
fn colours_and_glyph_writes() {
    let mut term = Terminal::new([2, 2]);
    term.put_fg_color([1, 1].into(), Color::red());
    term.put_bg_color([1, 1].into(), Color::green());
    term.put_char([1, 1].into(), 'z');
    assert_eq!(*term.tile([1, 1].into()), Tile::new('z', Color::red(), Color::green()));
    assert!(term.changed());
    term.reset_changed_state();
    assert!(!term.changed());
}

#[test]
fn clear_twice_equals_clear_once() {
    let mut term = Terminal::new([4, 3]);
    term.put_string([0, 0].into(), FormattedString::new("hello"));
    term.set_clear_tile(Tile::new('#', Color::white(), Color::none()));
    term.clear();
    let once: Vec<Tile> = term.tiles().to_vec();
    term.clear();
    assert_eq!(term.tiles().to_vec(), once);
    assert!(once.iter().all(|t| t.glyph == '#'));
}

#[test]
fn rows_columns_and_rects() {
    let mut term = Terminal::new([3, 2]);
    term.put_string(PivotedPoint::new([0, 0], Pivot::BottomLeft), FormattedString::new("abc"));
    term.put_string(PivotedPoint::new([0, 0], Pivot::TopLeft), FormattedString::new("def"));
    assert_eq!(row_text(&term, 0), "abc");
    let col: String = term.iter_column(1).iter().map(|t| t.glyph).collect();
    assert_eq!(col, "be");
    let rect: String = term.iter_rect(GridRect::new([1, 0], [2, 2])).iter().map(|t| t.glyph).collect();
    assert_eq!(rect, "bcef");
    let rev: String = term.iter_row(1).iter().rev().map(|t| t.glyph).collect();
    assert_eq!(rev, "fed");
    let xy = term.iter_xy();
    assert_eq!((xy[4].0, xy[4].1, xy[4].2.glyph), (1, 1, 'e'));
    assert_eq!(term.index_to_xy(5), [2, 1]);
    assert_eq!(term.bounds(), GridRect::new([0, 0], [3, 2]));
}

#[test]
fn tile_format_round_trip() {
    let tile = Tile::new('q', Color::rgba(1, 2, 3, 4), Color::rgba(5, 6, 7, 8));
    assert_eq!(Tile::from(TileFormat::from(tile)), tile);
    let tile = Tile::default();
    assert_eq!(Tile::from(TileFormat::from(tile)), tile);
}

#[test]
fn tile_format_later_modifications_win() {
    let fmt = TileFormat::new().fg(Color::red()).glyph('x').fg(Color::blue());
    assert_eq!(fmt.len(), 3);
    assert_eq!(fmt.iter()[1], TileModification::Glyph('x'));
    let mut tile = Tile::new('a', Color::white(), Color::black());
    fmt.apply(&mut tile);
    assert_eq!(tile, Tile::new('x', Color::blue(), Color::black()));
    let c = char_format('k').bg(Color::red());
    assert_eq!(Tile::from(c), Tile::new('k', Color::white(), Color::red()));
    assert_eq!(Tile::from(TileFormat::clear()), Tile::default());
    let copy = fmt.clone();
    assert_eq!(copy.iter(), fmt.iter());
}

#[test]
fn border_ring_sizes() {
    for (w, h, n) in [(5usize, 5usize, 16usize), (10, 10, 36), (2, 2, 4), (3, 7, 16), (1, 5, 5), (4, 1, 4)] {
        let mut b = Border::single_line();
        b.build_edge_tiles([w, h], Tile::default());
        assert_eq!(b.tile_count(), n);
    }
}

#[test]
fn border_glyphs_and_order() {
    let mut term = Terminal::new([4, 3]);
    term.set_border(Some(Border::from_glyphs(['1', '2', '3', '4', '-', '|'])));
    let ring: Vec<(usize, usize, char)> = term.border().iter().iter().map(|(x, y, t)| (*x, *y, t.glyph)).collect();
    assert_eq!(
        ring,
        vec![
            (0, 0, '3'), (1, 0, '-'), (2, 0, '-'), (3, 0, '4'),
            (3, 1, '|'), (3, 2, '2'), (2, 2, '-'), (1, 2, '-'),
            (0, 2, '1'), (0, 1, '|'),
        ]
    );
    assert!(term.border().tiles().iter().all(|t| t.fg_color == Tile::default().fg_color));
}

#[test]
fn border_title_left_centre_and_cut() {
    let mut term = Terminal::new([8, 3]);
    let b = term.put_border(Border::from_glyphs(['+', '+', '+', '+', '-', '|']));
    b.put_title(FormattedString::new("Hi").fg(Color::blue()));
    let top: String = (0..8).map(|x| b.tiles()[top_index(x, 8, 3)].glyph).collect();
    assert_eq!(top, "+Hi----+");
    assert_eq!(b.tiles()[top_index(1, 8, 3)].fg_color, Color::blue());
    b.clear_strings();
    let top: String = (0..8).map(|x| b.tiles()[top_index(x, 8, 3)].glyph).collect();
    assert_eq!(top, "+------+");
    b.put_aligned_title(FormattedString::new("ab"), TitleAlign::Center);
    let top: String = (0..8).map(|x| b.tiles()[top_index(x, 8, 3)].glyph).collect();
    assert_eq!(top, "+--ab--+");
    b.clear_strings();
    b.put_aligned_title(FormattedString::new("abcdefghij"), TitleAlign::Left(1));
    let top: String = (0..8).map(|x| b.tiles()[top_index(x, 8, 3)].glyph).collect();
    assert_eq!(top, "+-abcde+");
    assert!(b.changed());
    b.reset_changed_state();
    assert!(!b.changed());
}

fn top_index(x: usize, w: usize, h: usize) -> usize {
    if x == w - 1 {
        w + h - 2
    } else {
        2 * w + h - 3 - x
    }
}

#[test]
fn border_follows_resize_and_removal() {
    let mut term = Terminal::new([4, 4]);
    term.set_border(Some(Border::double_line()));
    assert_eq!(term.border().tile_count(), 12);
    term.resize([6, 5]);
    assert_eq!(term.border().size(), [6, 5]);
    assert_eq!(term.border().tile_count(), 18);
    term.set_border(None);
    assert!(term.get_border().is_none());
}

#[test]
fn format_draws_on_one_tile() {
    let mut term = Terminal::new([3, 3]);
    let fmt = TileFormat::new().glyph('@').bg(Color::red());
    fmt.draw(PivotedPoint::new([0, 0], Pivot::Center), &mut term);
    let t = *term.tile([1, 1].into());
    assert_eq!(t, Tile::new('@', Tile::default().fg_color, Color::red()));
    assert_eq!(*term.tile([0, 0].into()), Tile::default());
}

#[test]
fn tile_to_format_names_all_three_fields() {
    let tile = Tile::new('@', Color::blue(), Color::red());
    let fmt = TileFormat::from(tile);
    assert_eq!(
        fmt.iter(),
        &[
            TileModification::Glyph('@'),
            TileModification::FGColor(Color::blue()),
            TileModification::BGColor(Color::red()),
        ]
    );
    assert_eq!(Tile::from(fmt), tile);
}
