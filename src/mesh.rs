//! Mesh buffers built from tiles.
//!
//! Each tile owns one slot: four vertices, six triangle indices, four
//! texture corners and four copies of each of its two colours. Slot `s`
//! holds vertices `4 * s .. 4 * s + 4` and indices `6 * s .. 6 * s + 6`.
//! Vertex positions are grid corners in tile units; texture corners are in
//! sixteenths of the atlas. Scaling both to world and texture space is left
//! to the renderer.
use vstd::prelude::*;

use crate::border::{ring_len, ring_pos, ring_position_of};
use crate::color::Color;
use crate::grid::MAX_SIDE;
use crate::tile::Tile;
use crate::uv_mapping::{code_of, glyph_uv, glyph_uvs, UvMapping};

verus! {

/// The most slots a mesh holds, so that vertex indices fit in `u32`.
pub const MAX_SLOTS: usize = 268435456;

/// The `k`th vertex of the quad over cell `(x, y)`: bottom-left, top-left,
/// bottom-right, top-right.
pub open spec fn quad_vertex(x: int, y: int, k: int) -> (int, int) {
    (x + k / 2, y + k % 2)
}

/// The vertex, within its slot, of the `j`th triangle index: the triangles
/// bottom-left, bottom-right, top-left and top-right, top-left,
/// bottom-right, both counter-clockwise and sharing one diagonal.
pub open spec fn quad_index(j: int) -> int {
    if j == 0 {
        0
    } else if j == 1 {
        2
    } else if j == 2 {
        1
    } else if j == 3 {
        3
    } else if j == 4 {
        1
    } else {
        2
    }
}

/// The four colour channels of `c`.
pub open spec fn mesh_color(c: Color) -> Seq<u8> {
    seq![c.r, c.g, c.b, c.a]
}

/// The abstract state of a mesh.
pub struct MeshView {
    pub verts: Seq<(i32, i32)>,
    pub indices: Seq<u32>,
    pub uvs: Seq<(u8, u8)>,
    pub fg_colors: Seq<[u8; 4]>,
    pub bg_colors: Seq<[u8; 4]>,
    /// The grid size the geometry was last built for, `(0, 0)` if never.
    pub grid: (nat, nat),
}

impl MeshView {
    /// The number of slots.
    pub open spec fn slots(self) -> int {
        self.verts.len() as int / 4
    }

    /// Every buffer holds the same number of slots.
    pub open spec fn wf(self) -> bool {
        &&& self.slots() <= MAX_SLOTS
        &&& self.verts.len() == 4 * self.slots()
        &&& self.indices.len() == 6 * self.slots()
        &&& self.uvs.len() == 4 * self.slots()
        &&& self.fg_colors.len() == 4 * self.slots()
        &&& self.bg_colors.len() == 4 * self.slots()
    }

    /// Slot `s` holds the quad over cell `(x, y)`.
    pub open spec fn has_quad(self, s: int, x: int, y: int) -> bool {
        &&& forall|k: int| 0 <= k < 4 ==> #[trigger] self.verts[4 * s + k] == (
            quad_vertex(x, y, k).0 as i32,
            quad_vertex(x, y, k).1 as i32,
        )
        &&& forall|j: int| 0 <= j < 6 ==> #[trigger] self.indices[6 * s + j] == 4 * s + quad_index(j)
    }

    /// Slot `s` holds the texture corners of glyph `code` and the colours
    /// `fg` and `bg`.
    pub open spec fn has_tile_data(self, s: int, code: int, fg: Color, bg: Color) -> bool {
        forall|k: int| 0 <= k < 4 ==> {
            &&& #[trigger] self.uvs[4 * s + k] == (glyph_uv(code, k).0 as u8, glyph_uv(code, k).1 as u8)
            &&& self.fg_colors[4 * s + k]@ == mesh_color(fg)
            &&& self.bg_colors[4 * s + k]@ == mesh_color(bg)
        }
    }

    /// The geometry of slots outside `lo .. hi` is as in `other`.
    pub open spec fn same_geometry_outside(self, other: MeshView, lo: int, hi: int) -> bool {
        &&& self.verts.len() == other.verts.len()
        &&& self.indices.len() == other.indices.len()
        &&& forall|i: int| 0 <= i < self.verts.len() && !(4 * lo <= i < 4 * hi) ==> #[trigger] self.verts[i] == other.verts[i]
        &&& forall|i: int| 0 <= i < self.indices.len() && !(6 * lo <= i < 6 * hi) ==> #[trigger] self.indices[i] == other.indices[i]
    }

    /// The tile data of slots outside `lo .. hi` is as in `other`.
    pub open spec fn same_tile_data_outside(self, other: MeshView, lo: int, hi: int) -> bool {
        &&& self.uvs.len() == other.uvs.len()
        &&& self.fg_colors.len() == other.fg_colors.len()
        &&& self.bg_colors.len() == other.bg_colors.len()
        &&& forall|i: int| 0 <= i < self.uvs.len() && !(4 * lo <= i < 4 * hi) ==> #[trigger] self.uvs[i] == other.uvs[i]
        &&& forall|i: int| 0 <= i < self.fg_colors.len() && !(4 * lo <= i < 4 * hi) ==> #[trigger] self.fg_colors[i] == other.fg_colors[i]
        &&& forall|i: int| 0 <= i < self.bg_colors.len() && !(4 * lo <= i < 4 * hi) ==> #[trigger] self.bg_colors[i] == other.bg_colors[i]
    }
}

/// The first `n` slots hold the quads of a grid `w` cells wide, slot `s`
/// over cell `(s % w, s / w)`.
pub open spec fn grid_geometry(m: MeshView, w: int, n: int) -> bool {
    forall|s: int| 0 <= s < n ==> #[trigger] m.has_quad(s, s % w, s / w)
}

/// The slots from `first` on hold the tile data of `tiles`, glyphs mapped
/// through the code page `table`.
pub open spec fn tile_data_of(m: MeshView, first: int, tiles: Seq<Tile>, table: Seq<char>) -> bool {
    forall|i: int|
        0 <= i < tiles.len() ==> #[trigger] m.has_tile_data(
            first + i,
            code_of(table, tiles[i].glyph, 0),
            tiles[i].fg_color,
            tiles[i].bg_color,
        )
}

/// The `n` slots from `first` on hold the quads of the ring of a `w` by `h`
/// grid, in perimeter order.
pub open spec fn border_geometry(m: MeshView, first: int, w: int, h: int, n: int) -> bool {
    forall|i: int| 0 <= i < n ==> #[trigger] m.has_quad(first + i, ring_pos(i, w, h).0, ring_pos(i, w, h).1)
}

/// The first `n` slots of `b` are those of `a`.
pub open spec fn prefix_kept(a: MeshView, b: MeshView, n: int) -> bool {
    &&& forall|i: int| 0 <= i < 4 * n ==> #[trigger] b.verts[i] == a.verts[i]
    &&& forall|i: int| 0 <= i < 6 * n ==> #[trigger] b.indices[i] == a.indices[i]
    &&& forall|i: int| 0 <= i < 4 * n ==> #[trigger] b.uvs[i] == a.uvs[i]
    &&& forall|i: int| 0 <= i < 4 * n ==> #[trigger] b.fg_colors[i] == a.fg_colors[i]
    &&& forall|i: int| 0 <= i < 4 * n ==> #[trigger] b.bg_colors[i] == a.bg_colors[i]
}

/// Slots that `prefix_kept` covers keep their quads and tile data.
pub proof fn lemma_prefix_keeps(a: MeshView, b: MeshView, w: int, tiles: Seq<Tile>, table: Seq<char>)
    requires
        prefix_kept(a, b, tiles.len() as int),
    ensures
        grid_geometry(a, w, tiles.len() as int) ==> grid_geometry(b, w, tiles.len() as int),
        tile_data_of(a, 0, tiles, table) ==> tile_data_of(b, 0, tiles, table),
{
    let n = tiles.len() as int;
    if grid_geometry(a, w, n) {
        assert forall|s: int| 0 <= s < n implies #[trigger] b.has_quad(s, s % w, s / w) by {
            assert(a.has_quad(s, s % w, s / w));
            assert forall|k: int| 0 <= k < 4 implies #[trigger] b.verts[4 * s + k] == a.verts[4 * s + k] by {
                assert(4 * s + k < 4 * n);
            }
            assert forall|j: int| 0 <= j < 6 implies #[trigger] b.indices[6 * s + j] == a.indices[6 * s + j] by {
                assert(6 * s + j < 6 * n);
            }
        }
    }
    if tile_data_of(a, 0, tiles, table) {
        assert forall|i: int| 0 <= i < n implies #[trigger] b.has_tile_data(
            0 + i,
            code_of(table, tiles[i].glyph, 0),
            tiles[i].fg_color,
            tiles[i].bg_color,
        ) by {
            assert(a.has_tile_data(0 + i, code_of(table, tiles[i].glyph, 0), tiles[i].fg_color, tiles[i].bg_color));
            assert forall|k: int| 0 <= k < 4 implies #[trigger] b.uvs[4 * i + k] == a.uvs[4 * i + k]
                && b.fg_colors[4 * i + k] == a.fg_colors[4 * i + k] && b.bg_colors[4 * i + k] == a.bg_colors[4 * i + k] by {
                assert(4 * i + k < 4 * n);
            }
        }
    }
}

/// Quads depend on the vertices and indices alone.
pub proof fn lemma_border_geometry_same(a: MeshView, b: MeshView, first: int, w: int, h: int, n: int)
    requires
        border_geometry(a, first, w, h, n),
        a.verts == b.verts,
        a.indices == b.indices,
    ensures
        border_geometry(b, first, w, h, n),
{
    assert forall|i: int| 0 <= i < n implies #[trigger] b.has_quad(first + i, ring_pos(i, w, h).0, ring_pos(i, w, h).1) by {
        assert(a.has_quad(first + i, ring_pos(i, w, h).0, ring_pos(i, w, h).1));
    }
}

/// Quads depend on the vertices and indices alone.
pub proof fn lemma_grid_geometry_same(a: MeshView, b: MeshView, w: int, n: int)
    requires
        grid_geometry(a, w, n),
        a.verts == b.verts,
        a.indices == b.indices,
    ensures
        grid_geometry(b, w, n),
{
    assert forall|s: int| 0 <= s < n implies #[trigger] b.has_quad(s, s % w, s / w) by {
        assert(a.has_quad(s, s % w, s / w));
    }
}

/// Two slots holding glyph codes `c` and `c + 16` have texture corners in
/// the same atlas column, the second exactly one cell lower.
pub proof fn lemma_slots_one_row_apart(
    m: MeshView,
    s0: int,
    s1: int,
    c: int,
    fg0: Color,
    bg0: Color,
    fg1: Color,
    bg1: Color,
)
    requires
        0 <= c < 240,
        m.has_tile_data(s0, c, fg0, bg0),
        m.has_tile_data(s1, c + 16, fg1, bg1),
    ensures
        forall|k: int| 0 <= k < 4 ==> (#[trigger] m.uvs[4 * s1 + k]).0 == m.uvs[4 * s0 + k].0
            && m.uvs[4 * s1 + k].1 == m.uvs[4 * s0 + k].1 + 1,
{
    assert forall|k: int| 0 <= k < 4 implies (#[trigger] m.uvs[4 * s1 + k]).0 == m.uvs[4 * s0 + k].0
        && m.uvs[4 * s1 + k].1 == m.uvs[4 * s0 + k].1 + 1 by {
        assert(m.uvs[4 * s0 + k] == (glyph_uv(c, k).0 as u8, glyph_uv(c, k).1 as u8));
        assert(m.uvs[4 * s1 + k] == (glyph_uv(c + 16, k).0 as u8, glyph_uv(c + 16, k).1 as u8));
        assert(k == 0 || k == 1 || k == 2 || k == 3);
    }
}

/// Geometry that `same_geometry_outside` leaves alone keeps its quad.
pub proof fn lemma_quad_kept(a: MeshView, b: MeshView, s: int, x: int, y: int, lo: int, hi: int)
    requires
        a.wf(),
        0 <= s < a.slots(),
        a.has_quad(s, x, y),
        b.same_geometry_outside(a, lo, hi),
        s < lo || s >= hi,
    ensures
        b.has_quad(s, x, y),
{
    assert forall|k: int| 0 <= k < 4 implies #[trigger] b.verts[4 * s + k] == (
        quad_vertex(x, y, k).0 as i32,
        quad_vertex(x, y, k).1 as i32,
    ) by {
        assert(a.verts[4 * s + k] == b.verts[4 * s + k]);
    }
    assert forall|j: int| 0 <= j < 6 implies #[trigger] b.indices[6 * s + j] == 4 * s + quad_index(j) by {
        assert(a.indices[6 * s + j] == b.indices[6 * s + j]);
    }
}

/// Tile data that `same_tile_data_outside` leaves alone is kept.
pub proof fn lemma_tile_data_kept(a: MeshView, b: MeshView, s: int, code: int, fg: Color, bg: Color, lo: int, hi: int)
    requires
        a.wf(),
        0 <= s < a.slots(),
        a.has_tile_data(s, code, fg, bg),
        b.same_tile_data_outside(a, lo, hi),
        s < lo || s >= hi,
    ensures
        b.has_tile_data(s, code, fg, bg),
{
    assert forall|k: int| 0 <= k < 4 implies {
        &&& #[trigger] b.uvs[4 * s + k] == (glyph_uv(code, k).0 as u8, glyph_uv(code, k).1 as u8)
        &&& b.fg_colors[4 * s + k]@ == mesh_color(fg)
        &&& b.bg_colors[4 * s + k]@ == mesh_color(bg)
    } by {
        assert(a.uvs[4 * s + k] == b.uvs[4 * s + k]);
        assert(a.fg_colors[4 * s + k] == b.fg_colors[4 * s + k]);
        assert(a.bg_colors[4 * s + k] == b.bg_colors[4 * s + k]);
    }
}

/// The buffers of a terminal mesh.
#[derive(Clone, Debug)]
pub struct TerminalMesh {
    verts: Vec<(i32, i32)>,
    indices: Vec<u32>,
    uvs: Vec<(u8, u8)>,
    fg_colors: Vec<[u8; 4]>,
    bg_colors: Vec<[u8; 4]>,
    grid_width: usize,
    grid_height: usize,
}

impl View for TerminalMesh {
    type V = MeshView;

    closed spec fn view(&self) -> MeshView {
        MeshView {
            verts: self.verts@,
            indices: self.indices@,
            uvs: self.uvs@,
            fg_colors: self.fg_colors@,
            bg_colors: self.bg_colors@,
            grid: (self.grid_width as nat, self.grid_height as nat),
        }
    }
}

/// `v` cut or grown to `n` elements, new elements `fill`.
fn resize_vec<T: Copy>(v: &mut Vec<T>, n: usize, fill: T)
    ensures
        final(v)@.len() == n,
        forall|i: int| 0 <= i < n ==> #[trigger] final(v)@[i] == if i < old(v)@.len() { old(v)@[i] } else { fill },
{
    if n <= v.len() {
        v.truncate(n);
    } else {
        while v.len() < n
            invariant
                old(v)@.len() <= v@.len() <= n,
                forall|i: int| 0 <= i < v@.len() ==> #[trigger] v@[i] == if i < old(v)@.len() { old(v)@[i] } else { fill },
            decreases n - v@.len(),
        {
            v.push(fill);
        }
    }
}

impl TerminalMesh {
    /// A mesh with no slots.
    pub fn new() -> (m: TerminalMesh)
        ensures
            m@.wf(),
            m@.slots() == 0,
            m@.grid == (0nat, 0nat),
    {
        TerminalMesh {
            verts: Vec::new(),
            indices: Vec::new(),
            uvs: Vec::new(),
            fg_colors: Vec::new(),
            bg_colors: Vec::new(),
            grid_width: 0,
            grid_height: 0,
        }
    }

    /// Drop every slot and forget the grid size.
    pub fn reset(&mut self)
        ensures
            final(self)@.wf(),
            final(self)@.slots() == 0,
            final(self)@.grid == (0nat, 0nat),
    {
        self.resize_mesh_data(0);
        self.grid_width = 0;
        self.grid_height = 0;
    }

    /// The grid size the geometry was last built for.
    pub fn grid(&self) -> (g: (usize, usize))
        ensures
            g.0 == self@.grid.0,
            g.1 == self@.grid.1,
    {
        (self.grid_width, self.grid_height)
    }

    /// The number of vertices.
    pub fn mesh_vertex_count(&self) -> (n: usize)
        ensures
            n == self@.verts.len(),
    {
        self.verts.len()
    }

    /// The number of slots.
    pub fn slot_count(&self) -> (n: usize)
        requires
            self@.wf(),
        ensures
            n == self@.slots(),
    {
        self.verts.len() / 4
    }

    pub fn verts(&self) -> (r: &[(i32, i32)])
        ensures
            r@ == self@.verts,
    {
        self.verts.as_slice()
    }

    pub fn indices(&self) -> (r: &[u32])
        ensures
            r@ == self@.indices,
    {
        self.indices.as_slice()
    }

    pub fn uvs(&self) -> (r: &[(u8, u8)])
        ensures
            r@ == self@.uvs,
    {
        self.uvs.as_slice()
    }

    pub fn fg_colors(&self) -> (r: &[[u8; 4]])
        ensures
            r@ == self@.fg_colors,
    {
        self.fg_colors.as_slice()
    }

    pub fn bg_colors(&self) -> (r: &[[u8; 4]])
        ensures
            r@ == self@.bg_colors,
    {
        self.bg_colors.as_slice()
    }

    /// Resize every buffer to `slots` slots, keeping the slots below that
    /// and zeroing new ones.
    pub fn resize_mesh_data(&mut self, slots: usize)
        requires
            slots <= MAX_SLOTS,
        ensures
            final(self)@.wf(),
            final(self)@.slots() == slots,
            final(self)@.grid == old(self)@.grid,
            forall|i: int| 0 <= i < 4 * slots && i < old(self)@.verts.len() ==> #[trigger] final(self)@.verts[i] == old(self)@.verts[i],
            forall|i: int| 0 <= i < 6 * slots && i < old(self)@.indices.len() ==> #[trigger] final(self)@.indices[i] == old(self)@.indices[i],
            forall|i: int| 0 <= i < 4 * slots && i < old(self)@.uvs.len() ==> #[trigger] final(self)@.uvs[i] == old(self)@.uvs[i],
            forall|i: int| 0 <= i < 4 * slots && i < old(self)@.fg_colors.len() ==> #[trigger] final(self)@.fg_colors[i] == old(self)@.fg_colors[i],
            forall|i: int| 0 <= i < 4 * slots && i < old(self)@.bg_colors.len() ==> #[trigger] final(self)@.bg_colors[i] == old(self)@.bg_colors[i],
            forall|i: int| old(self)@.verts.len() <= i < 4 * slots ==> #[trigger] final(self)@.verts[i] == (0i32, 0i32),
            forall|i: int| old(self)@.indices.len() <= i < 6 * slots ==> #[trigger] final(self)@.indices[i] == 0,
            forall|i: int| old(self)@.uvs.len() <= i < 4 * slots ==> #[trigger] final(self)@.uvs[i] == (0u8, 0u8),
            forall|i: int| old(self)@.fg_colors.len() <= i < 4 * slots ==> #[trigger] final(self)@.fg_colors[i]@ == seq![0u8, 0, 0, 0],
            forall|i: int| old(self)@.bg_colors.len() <= i < 4 * slots ==> #[trigger] final(self)@.bg_colors[i]@ == seq![0u8, 0, 0, 0],
    {
        let zero: [u8; 4] = [0; 4];
        assert(zero@ =~= seq![0u8, 0, 0, 0]);
        resize_vec(&mut self.verts, slots * 4, (0, 0));
        resize_vec(&mut self.indices, slots * 6, 0);
        resize_vec(&mut self.uvs, slots * 4, (0, 0));
        resize_vec(&mut self.fg_colors, slots * 4, zero);
        resize_vec(&mut self.bg_colors, slots * 4, zero);
    }

    /// Put the quad over cell `(x, y)` in slot `slot`, leaving the other
    /// slots' geometry alone.
    pub fn set_tile_verts(&mut self, x: i32, y: i32, slot: usize)
        requires
            old(self)@.wf(),
            slot < old(self)@.slots(),
            x < i32::MAX,
            y < i32::MAX,
        ensures
            final(self)@.wf(),
            final(self)@.has_quad(slot as int, x as int, y as int),
            final(self)@.same_geometry_outside(old(self)@, slot as int, slot + 1),
            final(self)@.uvs == old(self)@.uvs,
            final(self)@.fg_colors == old(self)@.fg_colors,
            final(self)@.bg_colors == old(self)@.bg_colors,
            final(self)@.grid == old(self)@.grid,
    {
        let vi = slot * 4;
        self.verts.set(vi, (x, y));
        self.verts.set(vi + 1, (x, y + 1));
        self.verts.set(vi + 2, (x + 1, y));
        self.verts.set(vi + 3, (x + 1, y + 1));
        let ii = slot * 6;
        let v = vi as u32;
        self.indices.set(ii, v);
        self.indices.set(ii + 1, v + 2);
        self.indices.set(ii + 2, v + 1);
        self.indices.set(ii + 3, v + 3);
        self.indices.set(ii + 4, v + 1);
        self.indices.set(ii + 5, v + 2);
        assert forall|k: int| 0 <= k < 4 implies #[trigger] self@.verts[4 * slot + k] == (
            quad_vertex(x as int, y as int, k).0 as i32,
            quad_vertex(x as int, y as int, k).1 as i32,
        ) by {
            assert(k == 0 || k == 1 || k == 2 || k == 3);
        }
        assert forall|j: int| 0 <= j < 6 implies #[trigger] self@.indices[6 * slot + j] == 4 * slot + quad_index(j) by {
            assert(j == 0 || j == 1 || j == 2 || j == 3 || j == 4 || j == 5);
        }
    }

    /// Put the texture corners of glyph `code` and the colours `fg` and
    /// `bg` in slot `slot`, leaving the other slots' tile data alone.
    pub fn set_tile_data(&mut self, code: u8, fg: Color, bg: Color, slot: usize)
        requires
            old(self)@.wf(),
            slot < old(self)@.slots(),
        ensures
            final(self)@.wf(),
            final(self)@.has_tile_data(slot as int, code as int, fg, bg),
            final(self)@.same_tile_data_outside(old(self)@, slot as int, slot + 1),
            final(self)@.verts == old(self)@.verts,
            final(self)@.indices == old(self)@.indices,
            final(self)@.grid == old(self)@.grid,
    {
        let uvs = glyph_uvs(code);
        let f = fg.to_mesh_color();
        let b = bg.to_mesh_color();
        let vi = slot * 4;
        self.uvs.set(vi, uvs[0]);
        self.uvs.set(vi + 1, uvs[1]);
        self.uvs.set(vi + 2, uvs[2]);
        self.uvs.set(vi + 3, uvs[3]);
        self.fg_colors.set(vi, f);
        self.fg_colors.set(vi + 1, f);
        self.fg_colors.set(vi + 2, f);
        self.fg_colors.set(vi + 3, f);
        self.bg_colors.set(vi, b);
        self.bg_colors.set(vi + 1, b);
        self.bg_colors.set(vi + 2, b);
        self.bg_colors.set(vi + 3, b);
        assert forall|k: int| 0 <= k < 4 implies {
            &&& #[trigger] self@.uvs[4 * slot + k] == (glyph_uv(code as int, k).0 as u8, glyph_uv(code as int, k).1 as u8)
            &&& self@.fg_colors[4 * slot + k]@ == mesh_color(fg)
            &&& self@.bg_colors[4 * slot + k]@ == mesh_color(bg)
        } by {
            assert(k == 0 || k == 1 || k == 2 || k == 3);
            assert(uvs@[k] == (glyph_uv(code as int, k).0 as u8, glyph_uv(code as int, k).1 as u8));
        }
    }

    /// Size the buffers to one slot per cell of a `w` by `h` grid and put
    /// each cell's quad in its slot, row by row from the bottom. Slots that
    /// were there keep their tile data.
    pub fn build_grid_verts(&mut self, w: usize, h: usize)
        requires
            old(self)@.wf(),
            1 <= w <= MAX_SIDE,
            1 <= h <= MAX_SIDE,
            w * h <= MAX_SLOTS,
        ensures
            final(self)@.wf(),
            final(self)@.slots() == w * h,
            final(self)@.grid == (w as nat, h as nat),
            grid_geometry(final(self)@, w as int, w * h),
            forall|i: int| 0 <= i < final(self)@.uvs.len() && i < old(self)@.uvs.len() ==> #[trigger] final(self)@.uvs[i] == old(self)@.uvs[i],
            forall|i: int| 0 <= i < final(self)@.fg_colors.len() && i < old(self)@.fg_colors.len() ==> #[trigger] final(self)@.fg_colors[i] == old(self)@.fg_colors[i],
            forall|i: int| 0 <= i < final(self)@.bg_colors.len() && i < old(self)@.bg_colors.len() ==> #[trigger] final(self)@.bg_colors[i] == old(self)@.bg_colors[i],
    {
        let n = w * h;
        self.resize_mesh_data(n);
        self.grid_width = w;
        self.grid_height = h;
        let ghost resized = self@;
        let mut s: usize = 0;
        while s < n
            invariant
                s <= n,
                n == w * h,
                1 <= w <= MAX_SIDE,
                1 <= h <= MAX_SIDE,
                n <= MAX_SLOTS,
                self@.wf(),
                self@.slots() == n,
                self@.uvs == resized.uvs,
                self@.fg_colors == resized.fg_colors,
                self@.bg_colors == resized.bg_colors,
                self@.grid == (w as nat, h as nat),
                grid_geometry(self@, w as int, s as int),
            decreases n - s,
        {
            let ghost before = self@;
            proof {
                assert(s / w < h) by (nonlinear_arith)
                    requires
                        s < w * h,
                        1 <= w,
                ;
            }
            self.set_tile_verts((s % w) as i32, (s / w) as i32, s);
            proof {
                assert forall|t: int| 0 <= t < s + 1 implies #[trigger] self@.has_quad(t, t % (w as int), t / (w as int)) by {
                    if t < s {
                        lemma_quad_kept(before, self@, t, t % (w as int), t / (w as int), s as int, s + 1);
                    }
                }
            }
            s = s + 1;
        }
    }

    /// Put the tile data of `tiles` in the slots from `first` on, glyphs
    /// mapped through `mapping`; the other slots' tile data stays.
    pub fn update_from_tiles(&mut self, tiles: &[Tile], first: usize, mapping: &UvMapping)
        requires
            old(self)@.wf(),
            first + tiles@.len() <= old(self)@.slots(),
            mapping@.len() == 256,
        ensures
            final(self)@.wf(),
            final(self)@.slots() == old(self)@.slots(),
            tile_data_of(final(self)@, first as int, tiles@, mapping@),
            final(self)@.same_tile_data_outside(old(self)@, first as int, first + tiles@.len()),
            final(self)@.verts == old(self)@.verts,
            final(self)@.indices == old(self)@.indices,
            final(self)@.grid == old(self)@.grid,
    {
        let mut k: usize = 0;
        while k < tiles.len()
            invariant
                k <= tiles@.len(),
                first + tiles@.len() <= old(self)@.slots(),
                mapping@.len() == 256,
                self@.wf(),
                self@.slots() == old(self)@.slots(),
                self@.verts == old(self)@.verts,
                self@.indices == old(self)@.indices,
                self@.grid == old(self)@.grid,
                self@.same_tile_data_outside(old(self)@, first as int, first + k),
                forall|i: int|
                    0 <= i < k ==> #[trigger] self@.has_tile_data(
                        first + i,
                        code_of(mapping@, tiles@[i].glyph, 0),
                        tiles@[i].fg_color,
                        tiles@[i].bg_color,
                    ),
            decreases tiles@.len() - k,
        {
            let ghost before = self@;
            let t = tiles[k];
            let code = mapping.glyph_code(t.glyph);
            self.set_tile_data(code, t.fg_color, t.bg_color, first + k);
            proof {
                assert forall|i: int| 0 <= i < k + 1 implies #[trigger] self@.has_tile_data(
                    first + i,
                    code_of(mapping@, tiles@[i].glyph, 0),
                    tiles@[i].fg_color,
                    tiles@[i].bg_color,
                ) by {
                    if i < k {
                        lemma_tile_data_kept(before, self@, first + i, code_of(mapping@, tiles@[i].glyph, 0),
                            tiles@[i].fg_color, tiles@[i].bg_color, first + k, first + k + 1);
                    }
                }
            }
            k = k + 1;
        }
    }

    /// Put the quads of the ring of a `w` by `h` grid in the slots from
    /// `first` on; the other slots' geometry stays.
    pub fn set_border_verts(&mut self, w: usize, h: usize, first: usize)
        requires
            old(self)@.wf(),
            1 <= w <= MAX_SIDE,
            1 <= h <= MAX_SIDE,
            first + ring_len(w as int, h as int) <= old(self)@.slots(),
        ensures
            final(self)@.wf(),
            final(self)@.slots() == old(self)@.slots(),
            border_geometry(final(self)@, first as int, w as int, h as int, ring_len(w as int, h as int)),
            final(self)@.same_geometry_outside(old(self)@, first as int, first + ring_len(w as int, h as int)),
            final(self)@.uvs == old(self)@.uvs,
            final(self)@.fg_colors == old(self)@.fg_colors,
            final(self)@.bg_colors == old(self)@.bg_colors,
            final(self)@.grid == old(self)@.grid,
    {
        let n = crate::border::ring_len_of(w, h);
        let mut i: usize = 0;
        while i < n
            invariant
                i <= n,
                n == ring_len(w as int, h as int),
                1 <= w <= MAX_SIDE,
                1 <= h <= MAX_SIDE,
                first + n <= old(self)@.slots(),
                self@.wf(),
                self@.slots() == old(self)@.slots(),
                self@.uvs == old(self)@.uvs,
                self@.fg_colors == old(self)@.fg_colors,
                self@.bg_colors == old(self)@.bg_colors,
                self@.grid == old(self)@.grid,
                self@.same_geometry_outside(old(self)@, first as int, first + i),
                border_geometry(self@, first as int, w as int, h as int, i as int),
            decreases n - i,
        {
            let ghost before = self@;
            let (x, y) = ring_position_of(i, w, h);
            self.set_tile_verts(x as i32, y as i32, first + i);
            proof {
                assert forall|j: int| 0 <= j < i + 1 implies #[trigger] self@.has_quad(first + j,
                    ring_pos(j, w as int, h as int).0, ring_pos(j, w as int, h as int).1) by {
                    if j < i {
                        lemma_quad_kept(before, self@, first + j, ring_pos(j, w as int, h as int).0,
                            ring_pos(j, w as int, h as int).1, first + i, first + i + 1);
                    }
                }
            }
            i = i + 1;
        }
    }

    /// Append a slot holding the quad over cell `(x, y)` and the tile data
    /// of glyph `code` in colours `fg` and `bg`.
    pub fn add_tile(&mut self, x: i32, y: i32, code: u8, fg: Color, bg: Color)
        requires
            old(self)@.wf(),
            old(self)@.slots() < MAX_SLOTS,
            x < i32::MAX,
            y < i32::MAX,
        ensures
            final(self)@.wf(),
            final(self)@.slots() == old(self)@.slots() + 1,
            final(self)@.grid == old(self)@.grid,
            final(self)@.has_quad(old(self)@.slots(), x as int, y as int),
            final(self)@.has_tile_data(old(self)@.slots(), code as int, fg, bg),
            final(self)@.verts.subrange(0, old(self)@.verts.len() as int) == old(self)@.verts,
            final(self)@.indices.subrange(0, old(self)@.indices.len() as int) == old(self)@.indices,
            final(self)@.uvs.subrange(0, old(self)@.uvs.len() as int) == old(self)@.uvs,
            final(self)@.fg_colors.subrange(0, old(self)@.fg_colors.len() as int) == old(self)@.fg_colors,
            final(self)@.bg_colors.subrange(0, old(self)@.bg_colors.len() as int) == old(self)@.bg_colors,
    {
        let slot = self.slot_count();
        self.resize_mesh_data(slot + 1);
        self.set_tile_verts(x, y, slot);
        self.set_tile_data(code, fg, bg, slot);
        assert(self@.verts.subrange(0, old(self)@.verts.len() as int) =~= old(self)@.verts);
        assert(self@.indices.subrange(0, old(self)@.indices.len() as int) =~= old(self)@.indices);
        assert(self@.uvs.subrange(0, old(self)@.uvs.len() as int) =~= old(self)@.uvs);
        assert(self@.fg_colors.subrange(0, old(self)@.fg_colors.len() as int) =~= old(self)@.fg_colors);
        assert(self@.bg_colors.subrange(0, old(self)@.bg_colors.len() as int) =~= old(self)@.bg_colors);
    }
}

} // verus!
