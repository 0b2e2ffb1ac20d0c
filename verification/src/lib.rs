//! Appending one settled scene onto another.
//!
//! A [`Scene`] holds what was recorded into a viewport: strips of coverage with their alpha bytes,
//! encoded paints, and the draws and layers that point to them. [`Scene::append_scene`] puts all of
//! one scene behind another, optionally moved by whole tiles, as if it had been recorded there.

pub mod append;
pub mod error;
pub mod geometry;
pub mod laws;
pub mod paint;
pub mod record;
pub mod recording;
pub mod scene;
pub mod shift;
pub mod strips;
pub mod validity;

pub use error::AppendSceneError;
pub use geometry::{max_size, translated_bbox, RectU16, SizeU16, TILE_HEIGHT, TILE_WIDTH};
pub use paint::{remap_paint, Paint};
pub use record::{
    CommandRecorder, LayerClip, LayerKind, Node, RecordedDraw, RecordedLayer, RecordedPath,
    RecordedRect,
};
pub use recording::{ClipPath, PaintSource};
pub use scene::Scene;
pub use strips::{Strip, ALPHA_IDX_END};
