//! Tiling, mirroring and frame-animation logic of a parallax background plugin.

pub mod layer;
pub mod sprite;
