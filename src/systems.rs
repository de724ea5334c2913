//! The passes that keep a terminal's mesh up to date.
//!
//! Grid tiles own slots `0 .. tile_count`; a border's ring tiles own the
//! slots after them. A change of the grid's size rebuilds all geometry.
//! Adding a border appends its slots, removing one drops them, and neither
//! moves the grid's slots. Content changes rewrite tile data in place.
use vstd::prelude::*;

use sark_grids::Pivot;

use crate::border::{ring_len, BorderView};
use crate::grid::{pivot_anchor, MAX_SIDE};
use crate::mesh::{
    border_geometry, grid_geometry, lemma_border_geometry_same, lemma_grid_geometry_same,
    lemma_prefix_keeps, prefix_kept, tile_data_of, MeshView, TerminalMesh, MAX_SLOTS,
};
use crate::terminal::{Terminal, TerminalView};
use crate::uv_mapping::UvMapping;

verus! {

/// The number of slots a terminal's mesh needs.
pub open spec fn expected_slots(t: TerminalView) -> int {
    t.tiles.len() + match t.border {
        Some(b) => b.tiles.len() as int,
        None => 0,
    }
}

/// The terminal's mesh, with or without a border, fits in `MAX_SLOTS`.
pub open spec fn mesh_fits(t: TerminalView) -> bool {
    t.tiles.len() + ring_len(t.width as int, t.height as int) <= MAX_SLOTS
}

/// The update rebuilds the grid's geometry: asked to, the texture is
/// missing, the grid's size changed, or the mesh lacks grid slots.
pub open spec fn needs_rebuild(t: TerminalView, m: MeshView, texture_ready: bool, force: bool) -> bool {
    force || !texture_ready || m.grid != (t.width, t.height) || m.slots() < t.tiles.len()
}

/// Where the mesh's origin sits on the terminal, as a pivot of its
/// rectangle.
#[derive(Clone, Copy, Debug)]
pub struct TerminalMeshPivot(pub Pivot);

/// `k` times `side`, for `k` of at most two.
fn scaled_side(k: i64, side: usize) -> (r: i64)
    requires
        0 <= k <= 2,
        side <= MAX_SIDE,
    ensures
        r == k * side,
{
    if k == 0 {
        0
    } else if k == 1 {
        side as i64
    } else {
        2 * side as i64
    }
}

impl TerminalMeshPivot {
    /// The position of grid corner `(0, 0)` relative to the pivot, in half
    /// tiles: the pivot's place on each side (`0` low end, `1` middle, `2`
    /// high end) times the side's length, negated.
    pub fn origin_half_tiles(&self, size: [usize; 2]) -> (o: (i64, i64))
        requires
            size[0] <= MAX_SIDE,
            size[1] <= MAX_SIDE,
        ensures
            o.0 == -(pivot_anchor(self.0).0 * size[0]),
            o.1 == -(pivot_anchor(self.0).1 * size[1]),
    {
        let (hx, hy): (i64, i64) = match self.0 {
            Pivot::TopLeft => (0, 2),
            Pivot::TopCenter => (1, 2),
            Pivot::TopRight => (2, 2),
            Pivot::LeftCenter => (0, 1),
            Pivot::RightCenter => (2, 1),
            Pivot::BottomLeft => (0, 0),
            Pivot::BottomCenter => (1, 0),
            Pivot::BottomRight => (2, 0),
            Pivot::Center => (1, 1),
        };
        (-scaled_side(hx, size[0]), -scaled_side(hy, size[1]))
    }
}

impl Default for TerminalMeshPivot {
    fn default() -> (p: TerminalMeshPivot)
        ensures
            p.0 == Pivot::Center,
    {
        TerminalMeshPivot(Pivot::Center)
    }
}

impl From<Pivot> for TerminalMeshPivot {
    fn from(p: Pivot) -> (r: TerminalMeshPivot) {
        TerminalMeshPivot(p)
    }
}

impl vstd::std_specs::convert::FromSpecImpl<Pivot> for TerminalMeshPivot {
    open spec fn obeys_from_spec() -> bool {
        true
    }

    open spec fn from_spec(p: Pivot) -> TerminalMeshPivot {
        TerminalMeshPivot(p)
    }
}

/// How large a tile is in world units.
#[derive(Clone, Copy, Debug, PartialEq, Eq)]
pub enum TileScaling {
    /// Each tile takes one world unit; meant for square fonts.
    World,
    /// One world unit per texture pixel, so a tile is as large as its glyph
    /// cell in the font texture.
    Pixels,
}

impl TileScaling {
    /// The world size of a tile whose glyph cell in the font texture is
    /// `cell_pixels` large.
    pub fn tile_size(self, cell_pixels: [u32; 2]) -> (s: [u32; 2])
        ensures
            self == TileScaling::World ==> s[0] == 1 && s[1] == 1,
            self == TileScaling::Pixels ==> s[0] == cell_pixels[0] && s[1] == cell_pixels[1],
    {
        match self {
            TileScaling::World => [1, 1],
            TileScaling::Pixels => cell_pixels,
        }
    }
}

impl Default for TileScaling {
    fn default() -> (s: TileScaling)
        ensures
            s == TileScaling::World,
    {
        TileScaling::World
    }
}

/// The passes that build a terminal's mesh, run in the order `rebuild_verts`,
/// `tile_mesh_update`, `border_mesh_update` by `update`.
pub struct TerminalMeshSystems;

impl TerminalMeshSystems {
    /// Rebuild the grid's geometry: one slot per tile, each holding its
    /// cell's quad, and mark the terminal changed so its tile data is
    /// written next. Without a loaded texture the mesh is emptied instead.
    pub fn rebuild_verts(term: &mut Terminal, mesh: &mut TerminalMesh, texture_ready: bool)
        requires
            old(term).wf(),
            old(mesh)@.wf(),
            mesh_fits(old(term)@),
        ensures
            final(term).wf(),
            final(mesh)@.wf(),
            !texture_ready ==> final(mesh)@.slots() == 0 && final(mesh)@.grid == (0nat, 0nat)
                && final(term)@ == old(term)@,
            texture_ready ==> final(mesh)@.slots() == old(term)@.tiles.len()
                && final(mesh)@.grid == (old(term)@.width, old(term)@.height)
                && grid_geometry(final(mesh)@, old(term)@.width as int, old(term)@.tiles.len() as int)
                && final(term)@ == (TerminalView { changed: true, ..old(term)@ }),
    {
        if !texture_ready {
            mesh.reset();
            return;
        }
        let w = term.width();
        let h = term.height();
        mesh.build_grid_verts(w, h);
        term.set_changed();
    }

    /// Write every grid tile's data to its slot, if the terminal changed and
    /// the mesh has its grid slots.
    pub fn tile_mesh_update(term: &Terminal, mesh: &mut TerminalMesh, mapping: &UvMapping)
        requires
            term.wf(),
            old(mesh)@.wf(),
            mapping@.len() == 256,
        ensures
            final(mesh)@.wf(),
            ({
                let run = term@.changed && old(mesh)@.slots() > 0 && old(mesh)@.slots() >= term@.tiles.len();
                &&& run ==> tile_data_of(final(mesh)@, 0, term@.tiles, mapping@)
                    && final(mesh)@.same_tile_data_outside(old(mesh)@, 0, term@.tiles.len() as int)
                    && final(mesh)@.verts == old(mesh)@.verts
                    && final(mesh)@.indices == old(mesh)@.indices
                    && final(mesh)@.grid == old(mesh)@.grid
                &&& !run ==> final(mesh)@ == old(mesh)@
            }),
    {
        let n = mesh.slot_count();
        if !term.changed() || n == 0 || n < term.tile_count() {
            return;
        }
        mesh.update_from_tiles(term.tiles(), 0, mapping);
    }

    /// Keep the border's slots after the grid's. Without a border they are
    /// dropped. With one, missing slots are appended; then, if they were
    /// appended or the border changed, its quads and tile data are written
    /// and its change consumed. Nothing happens to a mesh without its grid
    /// slots.
    pub fn border_mesh_update(term: &mut Terminal, mesh: &mut TerminalMesh, mapping: &UvMapping)
        requires
            old(term).wf(),
            old(mesh)@.wf(),
            mesh_fits(old(term)@),
            mapping@.len() == 256,
        ensures
            final(term).wf(),
            final(mesh)@.wf(),
            final(mesh)@.grid == old(mesh)@.grid,
            ({
                let tc = old(term)@.tiles.len() as int;
                let slots = old(mesh)@.slots();
                let run = slots > 0 && slots >= tc;
                match old(term)@.border {
                    None => {
                        &&& final(term)@ == old(term)@
                        &&& run ==> final(mesh)@.slots() == tc && prefix_kept(old(mesh)@, final(mesh)@, tc)
                        &&& !run ==> final(mesh)@ == old(mesh)@
                    },
                    Some(b) => {
                        let n = b.tiles.len() as int;
                        let write = run && (slots != tc + n || b.changed);
                        &&& run ==> final(mesh)@.slots() == tc + n && prefix_kept(old(mesh)@, final(mesh)@, tc)
                        &&& write ==> border_geometry(final(mesh)@, tc, old(term)@.width as int,
                            old(term)@.height as int, n) && tile_data_of(final(mesh)@, tc, b.tiles, mapping@)
                            && final(term)@ == (TerminalView {
                                border: Some(BorderView { changed: false, ..b }),
                                ..old(term)@
                            })
                        &&& !write ==> final(term)@ == old(term)@
                        &&& !run ==> final(mesh)@ == old(mesh)@
                        &&& run && !write ==> final(mesh)@ == old(mesh)@
                    },
                }
            }),
    {
        let tc = term.tile_count();
        let slots = mesh.slot_count();
        if slots == 0 || slots < tc {
            return;
        }
        let w = term.width();
        let h = term.height();
        let ghost m0 = mesh@;
        match term.get_border() {
            None => {
                mesh.resize_mesh_data(tc);
                assert(prefix_kept(m0, mesh@, tc as int));
            },
            Some(b) => {
                let n = b.tile_count();
                let changed = b.changed();
                let appended = slots != tc + n;
                if appended {
                    mesh.resize_mesh_data(tc + n);
                }
                if appended || changed {
                    let ghost m1 = mesh@;
                    mesh.set_border_verts(w, h, tc);
                    let ghost m2 = mesh@;
                    mesh.update_from_tiles(b.tiles(), tc, mapping);
                    proof {
                        lemma_border_geometry_same(m2, mesh@, tc as int, w as int, h as int, n as int);
                        assert forall|i: int| 0 <= i < 4 * tc implies #[trigger] mesh@.verts[i] == m0.verts[i] by {
                            assert(mesh@.verts[i] == m1.verts[i]);
                        }
                        assert forall|i: int| 0 <= i < 6 * tc implies #[trigger] mesh@.indices[i] == m0.indices[i] by {
                            assert(mesh@.indices[i] == m1.indices[i]);
                        }
                        assert forall|i: int| 0 <= i < 4 * tc implies #[trigger] mesh@.uvs[i] == m0.uvs[i] by {
                            assert(mesh@.uvs[i] == m1.uvs[i]);
                        }
                        assert forall|i: int| 0 <= i < 4 * tc implies #[trigger] mesh@.fg_colors[i] == m0.fg_colors[i] by {
                            assert(mesh@.fg_colors[i] == m1.fg_colors[i]);
                        }
                        assert forall|i: int| 0 <= i < 4 * tc implies #[trigger] mesh@.bg_colors[i] == m0.bg_colors[i] by {
                            assert(mesh@.bg_colors[i] == m1.bg_colors[i]);
                        }
                    }
                    term.reset_border_changed_state();
                }
            },
        }
    }

    /// One update of the mesh from the terminal's net state: rebuild the
    /// geometry when `needs_rebuild` says so, write the grid's tile data if
    /// the terminal changed or was rebuilt, bring the border's slots up to
    /// date, and consume the terminal's changes. A border added to an
    /// unchanged grid is appended after the grid's slots, which keep their
    /// vertices.
    pub fn update(
        term: &mut Terminal,
        mesh: &mut TerminalMesh,
        mapping: &UvMapping,
        texture_ready: bool,
        force_rebuild: bool,
    )
        requires
            old(term).wf(),
            old(mesh)@.wf(),
            mesh_fits(old(term)@),
            mapping@.len() == 256,
        ensures
            final(term).wf(),
            final(mesh)@.wf(),
            final(term)@ == (TerminalView { changed: false, border: final(term)@.border, ..old(term)@ }),
            match (old(term)@.border, final(term)@.border) {
                (Some(b), Some(c)) => c == (BorderView { changed: c.changed, ..b }),
                (None, None) => true,
                _ => false,
            },
            !texture_ready ==> final(mesh)@.slots() == 0,
            ({
                let t = old(term)@;
                let tc = t.tiles.len() as int;
                let rebuild = needs_rebuild(t, old(mesh)@, texture_ready, force_rebuild);
                &&& texture_ready ==> final(mesh)@.slots() == expected_slots(t)
                &&& texture_ready && rebuild ==> grid_geometry(final(mesh)@, t.width as int, tc)
                &&& !rebuild ==> (forall|i: int| 0 <= i < 4 * tc ==> #[trigger] final(mesh)@.verts[i] == old(mesh)@.verts[i])
                    && (forall|i: int| 0 <= i < 6 * tc ==> #[trigger] final(mesh)@.indices[i] == old(mesh)@.indices[i])
                &&& texture_ready && (t.changed || rebuild) ==> tile_data_of(final(mesh)@, 0, t.tiles, mapping@)
                &&& texture_ready ==> match t.border {
                    Some(b) => (b.changed || rebuild || old(mesh)@.slots() != tc + b.tiles.len())
                        ==> border_geometry(final(mesh)@, tc, t.width as int, t.height as int, b.tiles.len() as int)
                            && tile_data_of(final(mesh)@, tc, b.tiles, mapping@),
                    None => true,
                }
            }),
    {
        let ghost t0 = term@;
        let ghost m0 = mesh@;
        let tc = term.tile_count();
        proof {
            assert(t0.width * t0.height >= 1) by (nonlinear_arith)
                requires
                    t0.width >= 1,
                    t0.height >= 1,
            ;
        }
        let size = term.size();
        let grid = mesh.grid();
        let rebuild = force_rebuild || !texture_ready || grid.0 != size[0] || grid.1 != size[1]
            || mesh.slot_count() < tc;
        if rebuild {
            Self::rebuild_verts(term, mesh, texture_ready);
        }
        let ghost m1 = mesh@;
        Self::tile_mesh_update(term, mesh, mapping);
        let ghost m2 = mesh@;
        proof {
            if texture_ready && rebuild {
                lemma_grid_geometry_same(m1, m2, t0.width as int, tc as int);
            }
        }
        Self::border_mesh_update(term, mesh, mapping);
        proof {
            if texture_ready {
                lemma_prefix_keeps(m2, mesh@, t0.width as int, t0.tiles, mapping@);
            }
        }
        term.reset_changed_state();
    }

} // impl TerminalMeshSystems

} // verus!
