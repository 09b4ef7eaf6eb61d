//! Viewport layout and coordinate mapping for a tile-image inspector.
//!
//! The inspector shows a fixed 16x16 glyph font atlas, a grid of tiles that
//! reference glyphs of that atlas, and a zoomed view of one glyph, side by
//! side in a resizable viewport.  This crate holds the part worth proving:
//! partitioning the drawing surface into the three panel regions, deriving
//! the uniform map cell scale that fits the grid into its region without
//! distortion, and mapping a pointer position back to a discrete cell of the
//! font grid or the map grid.  All geometry is exact rational arithmetic, so
//! the contracts can state the layout rules without rounding slack.

pub mod geometry;
pub mod grid;
pub mod layout;
pub mod picker;
pub mod ratio;

pub use geometry::FracPoint;
pub use geometry::Rect;
pub use layout::compute_layout;
pub use layout::GridDimensions;
pub use layout::Layout;
pub use layout::LayoutError;
pub use layout::SurfaceSize;
pub use picker::pick;
pub use picker::FontInfo;
pub use picker::Info;
pub use picker::MapInfo;
pub use picker::Selection;
pub use ratio::Frac;
pub use ratio::Ratio;
