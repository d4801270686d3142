//! GPU-side presentation core for decoded video frames.
//!
//! The crate models the per-video texture and resource lifecycle, the
//! fixed-capacity per-instance transform ring that lets one video be drawn
//! several times within a single frame, the pixel-format catalog that picks
//! texture layouts for semi-planar chroma-subsampled video, and the
//! fixed-point YUV to RGB conversion used for thumbnail extraction.
//!
//! GPU submission itself (texture creation, buffer writes, render passes) is
//! left to a thin unverified host layer: every operation here computes the
//! exact byte ranges, offsets and records that the host must hand to the GPU.

pub mod adapter;
pub mod color;
pub mod config;
pub mod entry;
pub mod half_float;
pub mod laws;
pub mod pixel_format;
pub mod registry;
pub mod types;
