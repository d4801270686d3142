//! Pixel-format catalog: maps a pixel-format tag to the texture layouts and
//! byte sizes used for the two planes of a semi-planar 4:2:0 frame.

use vstd::prelude::*;

verus! {

/// Texture layout selected for one plane of a decoded frame.
///
/// The host's GPU layer maps each variant onto the corresponding texture
/// format of its graphics API; the catalog only decides which one to use.
#[derive(Clone, Copy, Debug, PartialEq, Eq, Structural)]
pub enum TextureLayout {
    /// One 8-bit normalized channel per sample.
    R8Unorm,
    /// Two interleaved 8-bit normalized channels per sample.
    Rg8Unorm,
    /// One 16-bit half-precision float channel per sample.
    R16Float,
    /// Two interleaved 16-bit half-precision float channels per sample.
    Rg16Float,
}

/// Pixel-format tag of a decoded semi-planar 4:2:0 frame.
#[derive(Clone, Copy, Debug, PartialEq, Eq, Structural)]
pub enum VideoPixelFormat {
    /// 8-bit 4:2:0
    Nv12,
    /// 10-bit 4:2:0
    P010Le,
    /// 12-bit 4:2:0
    P012Le,
    /// 16-bit 4:2:0
    P016Le,
}

pub open spec fn spec_bit_depth(f: VideoPixelFormat) -> u8 {
    match f {
        VideoPixelFormat::Nv12 => 8,
        VideoPixelFormat::P010Le => 10,
        VideoPixelFormat::P012Le => 12,
        VideoPixelFormat::P016Le => 16,
    }
}

pub open spec fn spec_bytes_per_pixel(f: VideoPixelFormat) -> usize {
    match f {
        VideoPixelFormat::Nv12 => 1,
        VideoPixelFormat::P010Le => 2,
        VideoPixelFormat::P012Le => 2,
        VideoPixelFormat::P016Le => 2,
    }
}

pub open spec fn spec_y_layout(f: VideoPixelFormat) -> TextureLayout {
    match f {
        VideoPixelFormat::Nv12 => TextureLayout::R8Unorm,
        _ => TextureLayout::R16Float,
    }
}

pub open spec fn spec_uv_layout(f: VideoPixelFormat) -> TextureLayout {
    match f {
        VideoPixelFormat::Nv12 => TextureLayout::Rg8Unorm,
        _ => TextureLayout::Rg16Float,
    }
}

impl VideoPixelFormat {
    /// Bit depth of one sample of this format.
    pub fn bit_depth(&self) -> (d: u8)
        ensures
            d == spec_bit_depth(*self),
    {
        match self {
            VideoPixelFormat::Nv12 => 8,
            VideoPixelFormat::P010Le => 10,
            VideoPixelFormat::P012Le => 12,
            VideoPixelFormat::P016Le => 16,
        }
    }

    /// Bytes used to store one sample of the luma plane.
    pub fn bytes_per_pixel(&self) -> (n: usize)
        ensures
            n == spec_bytes_per_pixel(*self),
    {
        match self {
            VideoPixelFormat::Nv12 => 1,
            VideoPixelFormat::P010Le | VideoPixelFormat::P012Le | VideoPixelFormat::P016Le => 2,
        }
    }

    /// Texture layout for the full-resolution luma plane.
    ///
    /// Depths above 8 bits use a half-float container because it is the
    /// lowest-common-denominator layout guaranteed to be linearly filterable.
    pub fn y_texture_format(&self) -> (l: TextureLayout)
        ensures
            l == spec_y_layout(*self),
    {
        match self {
            VideoPixelFormat::Nv12 => TextureLayout::R8Unorm,
            VideoPixelFormat::P010Le | VideoPixelFormat::P012Le | VideoPixelFormat::P016Le => {
                TextureLayout::R16Float
            },
        }
    }

    /// Texture layout for the half-resolution interleaved chroma plane.
    pub fn uv_texture_format(&self) -> (l: TextureLayout)
        ensures
            l == spec_uv_layout(*self),
    {
        match self {
            VideoPixelFormat::Nv12 => TextureLayout::Rg8Unorm,
            VideoPixelFormat::P010Le | VideoPixelFormat::P012Le | VideoPixelFormat::P016Le => {
                TextureLayout::Rg16Float
            },
        }
    }
}

/// The catalog is total and pure: every tag maps to a defined result, the bit
/// depth is one of 8, 10, 12 or 16, the per-sample byte count is 1 or 2, and
/// the 8-bit tag is exactly the one mapped to the 8-bit normalized layouts
/// while every deeper tag gets the half-float layouts.
pub proof fn lemma_catalog_total(f: VideoPixelFormat)
    ensures
        spec_bit_depth(f) == 8 || spec_bit_depth(f) == 10 || spec_bit_depth(f) == 12
            || spec_bit_depth(f) == 16,
        spec_bytes_per_pixel(f) == 1 || spec_bytes_per_pixel(f) == 2,
        (spec_bit_depth(f) == 8) <==> (spec_bytes_per_pixel(f) == 1),
        (spec_bit_depth(f) == 8) <==> (spec_y_layout(f) == TextureLayout::R8Unorm
            && spec_uv_layout(f) == TextureLayout::Rg8Unorm),
        (spec_bit_depth(f) != 8) <==> (spec_y_layout(f) == TextureLayout::R16Float
            && spec_uv_layout(f) == TextureLayout::Rg16Float),
{
}

} // verus!
