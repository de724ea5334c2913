use ascii_terminal::border::Border;
use ascii_terminal::color::Color;
use ascii_terminal::grid::PivotedPoint;
use ascii_terminal::mesh::TerminalMesh;
use ascii_terminal::string::FormattedString;
use ascii_terminal::systems::{TerminalMeshPivot, TerminalMeshSystems, TileScaling};
use ascii_terminal::terminal::Terminal;
use ascii_terminal::tile::Tile;
use ascii_terminal::uv_mapping::{glyph_uvs, UvMapping};
use sark_grids::Pivot;

#[test]
fn glyph_rows_are_one_cell_apart() {
    let a = glyph_uvs(0);
    let b = glyph_uvs(16);
    for k in 0..4 {
        assert_eq!(a[k].0, b[k].0);
        assert_eq!(a[k].1 + 1, b[k].1);
    }
    assert_eq!(glyph_uvs(0), [(0, 1), (0, 0), (1, 1), (1, 0)]);
    assert_eq!(glyph_uvs(255), [(15, 16), (15, 15), (16, 16), (16, 15)]);
}

#[test]
fn code_page_lookup() {
    let cp = UvMapping::code_page_437();
    assert_eq!(cp.glyph_code('A'), 65);
    assert_eq!(cp.glyph_code(' '), 32);
    assert_eq!(cp.glyph_code('\u{2500}'), 196);
    assert_eq!(cp.glyph_code('\u{250C}'), 218);
    assert_eq!(cp.glyph_code('\u{20AC}'), 0);
    assert!(UvMapping::new(vec!['a'; 10]).is_none());
    let custom = UvMapping::new((0..256u32).map(|i| char::from_u32(0x100 + i).unwrap()).collect()).unwrap();
    assert_eq!(custom.glyph_code('\u{0105}'), 5);
}

#[test]
fn quad_winding_and_slots() {
    let mut mesh = TerminalMesh::new();
    mesh.resize_mesh_data(2);
    mesh.set_tile_verts(3, 4, 1);
    assert_eq!(&mesh.verts()[4..8], &[(3, 4), (3, 5), (4, 4), (4, 5)]);
    assert_eq!(&mesh.indices()[6..12], &[4, 6, 5, 7, 5, 6]);
    assert_eq!(&mesh.verts()[0..4], &[(0, 0); 4]);
    mesh.set_tile_data(17, Color::red(), Color::blue(), 0);
    assert_eq!(&mesh.uvs()[0..4], &[(1, 2), (1, 1), (2, 2), (2, 1)]);
    assert_eq!(mesh.fg_colors()[3], [255, 0, 0, 255]);
    assert_eq!(mesh.bg_colors()[2], [0, 0, 255, 255]);
    mesh.add_tile(0, 0, 1, Color::white(), Color::black());
    assert_eq!(mesh.slot_count(), 3);
    assert_eq!(mesh.indices()[12], 8);
    assert_eq!(mesh.mesh_vertex_count(), 12);
}

#[test]
fn colour_channels() {
    assert_eq!(Color::rgba(1, 2, 3, 4).to_mesh_color(), [1, 2, 3, 4]);
}

#[test]
fn adding_a_border_appends_slots() {
    let cp = UvMapping::code_page_437();
    let mut term = Terminal::new([10, 10]);
    let mut mesh = TerminalMesh::new();
    TerminalMeshSystems::update(&mut term, &mut mesh, &cp, true, false);
    assert_eq!(mesh.slot_count(), 100);
    let before: Vec<(i32, i32)> = mesh.verts().to_vec();
    term.set_border(Some(Border::single_line()));
    TerminalMeshSystems::update(&mut term, &mut mesh, &cp, true, false);
    assert_eq!(mesh.slot_count(), 100 + 36);
    assert_eq!(&mesh.verts()[0..400], &before[..]);
    assert_eq!(&mesh.verts()[400..404], &[(0, 0), (0, 1), (1, 0), (1, 1)]);
    assert_eq!(mesh.uvs()[400], (0, 13));
    assert!(!term.changed());
    assert!(!term.border().changed());
    term.set_border(None);
    TerminalMeshSystems::update(&mut term, &mut mesh, &cp, true, false);
    assert_eq!(mesh.slot_count(), 100);
}

#[test]
fn content_changes_rewrite_tile_data() {
    let cp = UvMapping::code_page_437();
    let mut term = Terminal::new([4, 2]);
    let mut mesh = TerminalMesh::new();
    TerminalMeshSystems::update(&mut term, &mut mesh, &cp, true, false);
    term.put_string(PivotedPoint::new([0, 0], Pivot::BottomLeft), FormattedString::new("A").fg(Color::red()));
    TerminalMeshSystems::update(&mut term, &mut mesh, &cp, true, false);
    assert_eq!(mesh.uvs()[1], (1, 4));
    assert_eq!(mesh.fg_colors()[0], [255, 0, 0, 255]);
    assert_eq!(mesh.fg_colors()[4], [255, 255, 255, 255]);
}

#[test]
fn resize_rebuilds_geometry() {
    let cp = UvMapping::code_page_437();
    let mut term = Terminal::new([2, 2]);
    let mut mesh = TerminalMesh::new();
    TerminalMeshSystems::update(&mut term, &mut mesh, &cp, true, false);
    term.resize([3, 1]);
    TerminalMeshSystems::update(&mut term, &mut mesh, &cp, true, false);
    assert_eq!(mesh.slot_count(), 3);
    assert_eq!(mesh.grid(), (3, 1));
    assert_eq!(mesh.verts()[8], (2, 0));
}

#[test]
fn missing_texture_empties_mesh() {
    let cp = UvMapping::code_page_437();
    let mut term = Terminal::new([2, 2]);
    let mut mesh = TerminalMesh::new();
    TerminalMeshSystems::update(&mut term, &mut mesh, &cp, true, false);
    TerminalMeshSystems::update(&mut term, &mut mesh, &cp, false, false);
    assert_eq!(mesh.slot_count(), 0);
    TerminalMeshSystems::update(&mut term, &mut mesh, &cp, true, false);
    assert_eq!(mesh.slot_count(), 4);
}

#[test]
fn mesh_pivot_and_scaling() {
    assert_eq!(TerminalMeshPivot::default().origin_half_tiles([5, 4]), (-5, -4));
    assert_eq!(TerminalMeshPivot::from(Pivot::TopRight).origin_half_tiles([5, 4]), (-10, -8));
    assert_eq!(TerminalMeshPivot::from(Pivot::BottomLeft).origin_half_tiles([5, 4]), (0, 0));
    assert_eq!(TileScaling::default().tile_size([8, 12]), [1, 1]);
    assert_eq!(TileScaling::Pixels.tile_size([8, 12]), [8, 12]);
    let _ = Tile::default();
}

#[test]
fn growing_the_mesh_zeroes_new_slots() {
    let mut mesh = TerminalMesh::new();
    mesh.add_tile(2, 3, 65, Color::red(), Color::blue());
    mesh.resize_mesh_data(3);
    assert_eq!(mesh.slot_count(), 3);
    assert_eq!(mesh.verts()[0], (2, 3));
    assert_eq!(mesh.fg_colors()[0], [255, 0, 0, 255]);
    assert!(mesh.verts()[4..].iter().all(|v| *v == (0, 0)));
    assert!(mesh.indices()[6..].iter().all(|i| *i == 0));
    assert!(mesh.uvs()[4..].iter().all(|u| *u == (0, 0)));
    assert!(mesh.fg_colors()[4..].iter().all(|c| *c == [0; 4]));
    assert!(mesh.bg_colors()[4..].iter().all(|c| *c == [0; 4]));
    mesh.resize_mesh_data(1);
    assert_eq!(mesh.mesh_vertex_count(), 4);
    assert_eq!(mesh.indices().len(), 6);
}

#[test]
fn tiles_sixteen_codes_apart_are_one_row_apart() {
    let table: Vec<char> = (0..256u32).map(|i| char::from_u32(i).unwrap()).collect();
    let mapping = UvMapping::new(table).unwrap();
    assert_eq!(mapping.len(), 256);
    assert_eq!(UvMapping::code_page_437().len(), 256);
    let tiles = vec![
        Tile::new('\u{0}', Color::white(), Color::black()),
        Tile::new('\u{10}', Color::white(), Color::black()),
    ];
    let mut mesh = TerminalMesh::new();
    mesh.resize_mesh_data(2);
    mesh.update_from_tiles(&tiles, 0, &mapping);
    for k in 0..4 {
        assert_eq!(mesh.uvs()[4 + k].0, mesh.uvs()[k].0);
        assert_eq!(mesh.uvs()[4 + k].1, mesh.uvs()[k].1 + 1);
    }
}
