//! A raster-to-raster map reprojection library.
//!
//! A source image whose pixels are addressed under one cartographic
//! projection is resampled into a new image under another projection: each
//! output pixel holds the color found at the geographic location that the
//! source projection maps there.
//!
//! All coordinates are fixed-point integers (microdegrees for geographic
//! angles, micro-units for planar coordinates), so every step of the
//! pipeline is exact integer arithmetic with stated rounding.

mod arith;
pub mod engine;
pub mod equirect;
pub mod geo;
pub mod projection;
pub mod raster;
