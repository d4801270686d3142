use subwave_present::pixel_format::{TextureLayout, VideoPixelFormat};

#[test]
fn bit_depth_matches_tag() {
    assert_eq!(VideoPixelFormat::Nv12.bit_depth(), 8);
    assert_eq!(VideoPixelFormat::P010Le.bit_depth(), 10);
    assert_eq!(VideoPixelFormat::P012Le.bit_depth(), 12);
    assert_eq!(VideoPixelFormat::P016Le.bit_depth(), 16);
}

#[test]
fn bytes_per_pixel_matches_depth() {
    assert_eq!(VideoPixelFormat::Nv12.bytes_per_pixel(), 1);
    assert_eq!(VideoPixelFormat::P010Le.bytes_per_pixel(), 2);
    assert_eq!(VideoPixelFormat::P012Le.bytes_per_pixel(), 2);
    assert_eq!(VideoPixelFormat::P016Le.bytes_per_pixel(), 2);
}

#[test]
fn eight_bit_uses_normalized_layouts() {
    assert_eq!(VideoPixelFormat::Nv12.y_texture_format(), TextureLayout::R8Unorm);
    assert_eq!(VideoPixelFormat::Nv12.uv_texture_format(), TextureLayout::Rg8Unorm);
}

#[test]
fn deeper_tags_use_half_float_layouts() {
    for f in [VideoPixelFormat::P010Le, VideoPixelFormat::P012Le, VideoPixelFormat::P016Le] {
        assert_eq!(f.y_texture_format(), TextureLayout::R16Float);
        assert_eq!(f.uv_texture_format(), TextureLayout::Rg16Float);
    }
}

#[test]
fn catalog_is_pure_across_calls() {
    for f in [
        VideoPixelFormat::Nv12,
        VideoPixelFormat::P010Le,
        VideoPixelFormat::P012Le,
        VideoPixelFormat::P016Le,
    ] {
        assert_eq!(f.bit_depth(), f.bit_depth());
        assert_eq!(f.bytes_per_pixel(), f.bytes_per_pixel());
        assert_eq!(f.y_texture_format(), f.y_texture_format());
        assert_eq!(f.uv_texture_format(), f.uv_texture_format());
        assert!(matches!(f.bit_depth(), 8 | 10 | 12 | 16));
        assert!(matches!(f.bytes_per_pixel(), 1 | 2));
    }
}
