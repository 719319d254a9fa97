//! Verified core of a music visualizer: frame rasterization, cover-art cropping, audio window
//! layout, spectrum band partitioning, offline video stepping and release checks.
use vstd::prelude::*;

pub mod audio;
pub mod bands;
pub mod bars;
pub mod cover;
pub mod glyph;
pub mod raster;
pub mod stepper;
pub mod sync;
pub mod text;
pub mod updater;
pub mod visual;

verus! {
} // verus!
