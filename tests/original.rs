use ascii_terminal::border::Border;
use ascii_terminal::color::Color;
use ascii_terminal::grid::{GridRect, PivotedPoint};
use ascii_terminal::mesh::TerminalMesh;
use ascii_terminal::string::FormattedString;
use ascii_terminal::terminal::Terminal;
use ascii_terminal::tile::Tile;
use ascii_terminal::uv_mapping::UvMapping;
use sark_grids::Pivot;

#[test]
fn resize_test() {
    let mut tiles: Vec<Tile> = vec![Tile::default(); 50];

    for tile in tiles.iter_mut() {
        *tile = Tile {
            fg_color: Color::blue(),
            ..Default::default()
        }
    }

    let mut mesh = TerminalMesh::new();
    mesh.build_grid_verts(25, 25);
    mesh.update_from_tiles(&tiles, 0, &UvMapping::code_page_437());

    assert_eq!([0, 0, 255, 255], mesh.fg_colors()[0]);
}

#[test]
fn iter_rect_mut() {
    let mut term = Terminal::new([10, 10]);
    let rect = GridRect::from_points([7, 7], [9, 9]);
    let chars = ['a', 'b', 'c', 'd', 'e', 'f', 'g', 'h', 'i'];
    let indices = term.rect_indices(rect);
    for (ch, i) in chars.iter().zip(indices) {
        term.tiles_mut()[i].glyph = *ch;
    }

    assert_eq!('a', term.tile([7, 7].into()).glyph);
    assert_eq!('i', term.tile([9, 9].into()).glyph);
}

#[test]
fn string() {
    let mut term = Terminal::new([15, 15]);
    let string = FormattedString::new("Hello").no_word_wrap().fg(Color::blue());
    term.put_string(PivotedPoint::new([1, 1], Pivot::TopLeft), string);

    term.put_string(
        PivotedPoint::new([1, 1], Pivot::TopLeft),
        FormattedString::new("hi").no_word_wrap().fg(Color::red()),
    );

    term.put_string([1, 1].into(), FormattedString::new("Hello"));
}

#[test]
fn border() {
    let mut term = Terminal::new([15, 15]);
    term.put_border(Border::single_line())
        .put_title(FormattedString::new("Hello").fg(Color::blue()));
    for (_, _, t) in term.border().iter() {
        println!("{}", t.glyph);
    }
}
