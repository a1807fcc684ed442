//! A scripting-driven 2D rendering runtime core.
//!
//! The scene graph (viewports, sprites, bitmaps) lives in a [`scene::Scene`]
//! registry of ownership-counted slots. Sprites hold strong references to
//! their viewport and bitmap; viewports hold only weak entries back to their
//! sprites. The per-frame traversal prunes dead entries and emits draw
//! commands; a thin unverified shell executes those commands on a GPU.

pub mod bitmap;
pub mod codec;
pub mod color;
pub mod config;
pub mod graphics;
pub mod laws;
pub mod rect;
pub mod render;
pub mod result;
pub mod rlog;
pub mod scene;
pub mod shader;
pub mod sprite;
pub mod viewport;
