//! A ray tracer's integer core: scene-file text, scene-command bookkeeping, image
//! encoding, dithering thresholds, mesh indices and the bounding-volume hierarchy layout.

pub mod api;
pub mod bvh;
pub mod cli;
pub mod color;
pub mod dithering;
pub mod dto;
pub mod error;
pub mod image;
pub mod mesh;
pub mod text;
