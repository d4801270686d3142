use subwave_present::color::yuv_to_rgba;

/// A uniform semi-planar 4:2:0 buffer: luma plane filled with `y`, then the
/// interleaved chroma plane filled with `(u, v)` pairs.
fn uniform_frame(width: u32, height: u32, y: u8, u: u8, v: u8) -> Vec<u8> {
    let w = width as usize;
    let h = height as usize;
    let mut buf = vec![y; w * h];
    for _ in 0..(w / 2) * (h / 2) {
        buf.push(u);
        buf.push(v);
    }
    buf
}

#[test]
fn white_limited_range_maps_to_white() {
    let frame = uniform_frame(4, 4, 235, 128, 128);
    let rgba = yuv_to_rgba(&frame, 4, 4, 1);
    assert_eq!(rgba.len(), 4 * 4 * 4);
    for px in rgba.chunks(4) {
        // 1.164 * (235 - 16) truncates to 254: white within integer
        // truncation tolerance.
        assert_eq!(px, &[254, 254, 254, 255]);
    }
}

#[test]
fn black_limited_range_maps_to_black() {
    let frame = uniform_frame(4, 4, 16, 128, 128);
    let rgba = yuv_to_rgba(&frame, 4, 4, 1);
    assert_eq!(rgba.len(), 4 * 4 * 4);
    for px in rgba.chunks(4) {
        assert_eq!(px, &[0, 0, 0, 255]);
    }
}

#[test]
fn below_black_clamps_to_zero() {
    let frame = uniform_frame(2, 2, 0, 128, 128);
    let rgba = yuv_to_rgba(&frame, 2, 2, 1);
    for px in rgba.chunks(4) {
        assert_eq!(px, &[0, 0, 0, 255]);
    }
}

#[test]
fn saturated_red_clamps_channels() {
    // Y=81, U=90, V=240 is the classic limited-range red.
    let frame = uniform_frame(2, 2, 81, 90, 240);
    let rgba = yuv_to_rgba(&frame, 2, 2, 1);
    // r = (1164*(81-16) + 1596*(240-128)) / 1000 = (75660 + 178752) / 1000 = 254
    // g = (75660 - 813*112 - 391*(90-128)) / 1000 = (75660 - 91056 + 14858) / 1000 < 0 -> 0
    // b = (75660 + 2018*(90-128)) / 1000 < 0 -> 0
    for px in rgba.chunks(4) {
        assert_eq!(px, &[254, 0, 0, 255]);
    }
}

#[test]
fn downscale_halves_output_dimensions() {
    let frame = uniform_frame(8, 4, 100, 128, 128);
    let rgba = yuv_to_rgba(&frame, 8, 4, 2);
    assert_eq!(rgba.len(), 4 * (8 / 2) * (4 / 2));
}

#[test]
fn downscale_samples_nearest_neighbor() {
    // 4x2 frame whose left half is white and right half is black.
    let mut frame = vec![235, 235, 16, 16, 235, 235, 16, 16];
    // Chroma plane: two pairs, both neutral.
    frame.extend_from_slice(&[128, 128, 128, 128]);
    let rgba = yuv_to_rgba(&frame, 4, 2, 2);
    assert_eq!(rgba.len(), 4 * 2 * 1);
    // Output pixel 0 samples source (0, 0) = white; pixel 1 samples (2, 0) = black.
    assert_eq!(&rgba[0..4], &[254, 254, 254, 255]);
    assert_eq!(&rgba[4..8], &[0, 0, 0, 255]);
}

#[test]
fn source_buffer_is_left_unmodified() {
    let frame = uniform_frame(4, 4, 77, 99, 150);
    let copy = frame.clone();
    let _ = yuv_to_rgba(&frame, 4, 4, 1);
    assert_eq!(frame, copy);
}

#[test]
fn exact_formula_on_mixed_pixel() {
    // Single 2x2 block: distinct luma per pixel, one chroma pair.
    let frame = vec![50, 100, 150, 200, 110, 170];
    let rgba = yuv_to_rgba(&frame, 2, 2, 1);
    assert_eq!(rgba.len(), 16);
    // For Y=50, U=110, V=170:
    // r = (1164*34 + 1596*42) / 1000 = (39576 + 67032) / 1000 = 106
    // g = (39576 - 813*42 - 391*(-18)) / 1000 = (39576 - 34146 + 7038) / 1000 = 12
    // b = (39576 + 2018*(-18)) / 1000 = (39576 - 36324) / 1000 = 3
    assert_eq!(&rgba[0..4], &[106, 12, 3, 255]);
    // For Y=100 with the same chroma:
    // r = (97776 + 67032) / 1000 = 164
    // g = (97776 - 34146 + 7038) / 1000 = 70
    // b = (97776 - 36324) / 1000 = 61
    assert_eq!(&rgba[4..8], &[164, 70, 61, 255]);
}
