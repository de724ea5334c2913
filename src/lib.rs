//! A grid of coloured glyphs ("a terminal") together with the logic that
//! turns it into mesh buffers: tile storage and addressing, borders, string
//! layout with word wrapping, glyph to texture-atlas mapping and the
//! incremental mesh update passes.

pub mod border;
pub mod color;
pub mod formatting;
pub mod grid;
pub mod mesh;
pub mod string;
pub mod systems;
pub mod terminal;
pub mod tile;
pub mod uv_mapping;

pub use border::{Border, TitleAlign};
pub use color::Color;
pub use formatting::{char_format, TileFormat, TileModification};
pub use grid::{GridRect, PivotedPoint};
pub use mesh::TerminalMesh;
pub use string::FormattedString;
pub use systems::{TerminalMeshPivot, TerminalMeshSystems, TileScaling};
pub use terminal::Terminal;
pub use tile::Tile;
pub use uv_mapping::UvMapping;
