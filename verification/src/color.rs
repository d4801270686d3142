//! Fixed-point limited-range BT.601 YUV to RGBA conversion.
//!
//! Thumbnails are extracted from the shared 8-bit semi-planar 4:2:0 frame
//! buffer: one full-resolution luma plane followed by one half-resolution
//! interleaved chroma plane.  Each output pixel samples the nearest-neighbor
//! source luma and chroma pair (no interpolation) and applies the
//! limited-range BT.601 transform with coefficients scaled by 1000, then
//! clamps every channel to the 8-bit range.  Alpha is fixed at 255.

use vstd::prelude::*;

verus! {

/// One output channel from its scaled numerator: clamp `num / 1000` to the
/// 8-bit range.
pub open spec fn spec_channel(num: int) -> int {
    if num < 0 {
        0
    } else if num >= 256000 {
        255
    } else {
        num / 1000
    }
}

/// Red channel of the limited-range BT.601 transform, channels in 0..256.
pub open spec fn spec_red(y: int, v: int) -> int {
    spec_channel(1164 * (y - 16) + 1596 * (v - 128))
}

/// Green channel of the limited-range BT.601 transform.
pub open spec fn spec_green(y: int, u: int, v: int) -> int {
    spec_channel(1164 * (y - 16) - 813 * (v - 128) - 391 * (u - 128))
}

/// Blue channel of the limited-range BT.601 transform.
pub open spec fn spec_blue(y: int, u: int) -> int {
    spec_channel(1164 * (y - 16) + 2018 * (u - 128))
}

/// Luma sample of source pixel `(x, y)` in a semi-planar frame of width `w`.
pub open spec fn spec_luma_at(yuv: Seq<u8>, w: int, x: int, y: int) -> int {
    yuv[y * w + x] as int
}

/// First chroma channel (U) shared by the 2x2 block around source pixel
/// `(x, y)`: the chroma plane starts at `w * h` and holds interleaved U/V
/// pairs at half resolution in both axes.
pub open spec fn spec_u_at(yuv: Seq<u8>, w: int, h: int, x: int, y: int) -> int {
    yuv[w * h + (y / 2) * w + (x / 2) * 2] as int
}

/// Second chroma channel (V) of the same interleaved pair.
pub open spec fn spec_v_at(yuv: Seq<u8>, w: int, h: int, x: int, y: int) -> int {
    yuv[w * h + (y / 2) * w + (x / 2) * 2 + 1] as int
}

/// The four output bytes of thumbnail pixel `(px, py)` hold the converted
/// RGBA value of source pixel `(px * d, py * d)`.
pub open spec fn thumb_pixel_ok(
    yuv: Seq<u8>,
    w: int,
    h: int,
    d: int,
    out: Seq<u8>,
    px: int,
    py: int,
) -> bool {
    let base = 4 * (py * (w / d)) + 4 * px;
    let xs = px * d;
    let ys = py * d;
    &&& out[base] as int == spec_red(spec_luma_at(yuv, w, xs, ys), spec_v_at(yuv, w, h, xs, ys))
    &&& out[base + 1] as int == spec_green(
        spec_luma_at(yuv, w, xs, ys),
        spec_u_at(yuv, w, h, xs, ys),
        spec_v_at(yuv, w, h, xs, ys),
    )
    &&& out[base + 2] as int == spec_blue(
        spec_luma_at(yuv, w, xs, ys),
        spec_u_at(yuv, w, h, xs, ys),
    )
    &&& out[base + 3] == 255u8
}

/// Convert one channel from its scaled numerator.
fn channel_from_num(num: i32) -> (c: u8)
    ensures
        c as int == spec_channel(num as int),
{
    if num < 0 {
        0
    } else if num >= 256000 {
        255
    } else {
        proof {
            assert(0 <= num as int / 1000 < 256) by (nonlinear_arith)
                requires
                    0 <= num,
                    num < 256000,
            ;
        }
        (num / 1000) as u8
    }
}

/// Every source index touched for thumbnail pixel `(px, py)` lies inside a
/// well-formed semi-planar buffer: the luma sample is below `w * h` and the
/// chroma pair is below `w * h / 2` within the chroma plane.
proof fn lemma_thumb_index_bounds(w: int, h: int, d: int, px: int, py: int)
    requires
        d >= 1,
        w >= 0,
        h >= 0,
        w % 2 == 0,
        h % 2 == 0,
        0 <= px < w / d,
        0 <= py < h / d,
    ensures
        px * d + d <= w,
        py * d + d <= h,
        (py * d) * w + px * d < w * h,
        ((py * d) / 2) * w + ((px * d) / 2) * 2 + 1 < (w * h) / 2,
{
    let xs = px * d;
    let ys = py * d;
    // px * d + d <= (w / d) * d <= w, and likewise for the vertical axis
    vstd::arithmetic::mul::lemma_mul_inequality(px + 1, w / d, d);
    vstd::arithmetic::mul::lemma_mul_is_distributive_add_other_way(d, px, 1);
    vstd::arithmetic::div_mod::lemma_fundamental_div_mod(w, d);
    vstd::arithmetic::mul::lemma_mul_is_commutative(w / d, d);
    vstd::arithmetic::div_mod::lemma_mod_division_less_than_divisor(w, d);
    assert(px * d + d <= w);
    vstd::arithmetic::mul::lemma_mul_inequality(py + 1, h / d, d);
    vstd::arithmetic::mul::lemma_mul_is_distributive_add_other_way(d, py, 1);
    vstd::arithmetic::div_mod::lemma_fundamental_div_mod(h, d);
    vstd::arithmetic::mul::lemma_mul_is_commutative(h / d, d);
    vstd::arithmetic::div_mod::lemma_mod_division_less_than_divisor(h, d);
    assert(py * d + d <= h);
    // luma index: ys * w + xs <= (h - 1) * w + (w - 1) < h * w
    assert(w >= 1 && h >= 1);
    vstd::arithmetic::mul::lemma_mul_inequality(ys, h - 1, w);
    vstd::arithmetic::mul::lemma_mul_is_distributive_sub_other_way(w, h, 1);
    vstd::arithmetic::mul::lemma_mul_is_commutative(w, h);
    assert(ys * w + xs < w * h);
    // the frame is even-sided: h == 2 * (h / 2) and w == 2 * (w / 2)
    vstd::arithmetic::div_mod::lemma_fundamental_div_mod(h, 2);
    vstd::arithmetic::div_mod::lemma_fundamental_div_mod(w, 2);
    assert(h == 2 * (h / 2) && w == 2 * (w / 2));
    // ys / 2 <= (h - 1) / 2 == h / 2 - 1, since h is even
    vstd::arithmetic::div_mod::lemma_div_is_ordered(ys, h - 1, 2);
    vstd::arithmetic::div_mod::lemma_fundamental_div_mod_converse(h - 1, 2, h / 2 - 1, 1);
    assert(ys / 2 <= h / 2 - 1);
    vstd::arithmetic::div_mod::lemma_div_is_ordered(xs, w - 1, 2);
    vstd::arithmetic::div_mod::lemma_fundamental_div_mod_converse(w - 1, 2, w / 2 - 1, 1);
    assert((xs / 2) * 2 <= w - 2) by (nonlinear_arith)
        requires
            xs / 2 <= w / 2 - 1,
            w == 2 * (w / 2),
    ;
    // chroma index: (ys / 2) * w + (xs / 2) * 2 + 1 <= (h / 2 - 1) * w + w - 1 < (h / 2) * w
    vstd::arithmetic::mul::lemma_mul_inequality(ys / 2, h / 2 - 1, w);
    vstd::arithmetic::mul::lemma_mul_is_distributive_sub_other_way(w, h / 2, 1);
    assert((ys / 2) * w + (xs / 2) * 2 + 1 < (h / 2) * w);
    // and (w * h) / 2 == (h / 2) * w because h is even
    assert(w * h == 2 * ((h / 2) * w)) by (nonlinear_arith)
        requires
            h == 2 * (h / 2),
    ;
    vstd::arithmetic::div_mod::lemma_div_multiples_vanish((h / 2) * w, 2);
}

/// Output bytes written for an earlier thumbnail pixel lie strictly below
/// the write position of a later one.
proof fn lemma_row_base_bound(ow: int, px: int, py: int, qx: int, qy: int)
    requires
        0 <= qx < ow,
        0 <= qy < py,
        0 <= px,
    ensures
        4 * (qy * ow) + 4 * qx + 4 <= 4 * (py * ow) + 4 * px,
{
    vstd::arithmetic::mul::lemma_mul_inequality(qy, py - 1, ow);
    vstd::arithmetic::mul::lemma_mul_is_distributive_sub_other_way(ow, py, 1);
}

/// Convert a semi-planar 8-bit 4:2:0 buffer into an owned RGBA8 buffer of
/// size `(width / downscale) x (height / downscale)`, sampling the
/// nearest-neighbor source pixel for each output pixel.
///
/// The function has no side effects: it allocates and returns a new buffer
/// and leaves the source untouched.
pub fn yuv_to_rgba(yuv: &[u8], width: u32, height: u32, downscale: u32) -> (out: Vec<u8>)
    requires
        downscale >= 1,
        width % 2 == 0,
        height % 2 == 0,
        yuv@.len() >= width * height + (width * height) / 2,
        4 * (((width as int) / (downscale as int)) * ((height as int) / (downscale as int)))
            <= usize::MAX,
    ensures
        out@.len() == 4 * (((width as int) / (downscale as int)) * ((height as int) / (
        downscale as int))),
        forall|px: int, py: int|
            0 <= px < (width as int) / (downscale as int) && 0 <= py < (height as int) / (
            downscale as int) ==> #[trigger] thumb_pixel_ok(
                yuv@,
                width as int,
                height as int,
                downscale as int,
                out@,
                px,
                py,
            ),
{
    let w = width as usize;
    let h = height as usize;
    let d = downscale as usize;
    let ow = w / d;
    let oh = h / d;
    let _buf_len = yuv.len();
    let mut rgba: Vec<u8> = Vec::new();

    proof {
        assert(4 * ((0 as int) * (ow as int)) == 0) by (nonlinear_arith);
    }
    let mut py: usize = 0;
    while py < oh
        invariant
            w == width,
            h == height,
            d == downscale,
            d >= 1,
            w % 2 == 0,
            h % 2 == 0,
            ow == (w as int) / (d as int),
            oh == (h as int) / (d as int),
            yuv@.len() >= w * h + (w * h) / 2,
            yuv@.len() <= usize::MAX,
            4 * ((ow as int) * (oh as int)) <= usize::MAX,
            py <= oh,
            rgba@.len() == 4 * ((py as int) * (ow as int)),
            forall|qx: int, qy: int|
                0 <= qx < ow && 0 <= qy < py ==> #[trigger] thumb_pixel_ok(
                    yuv@,
                    w as int,
                    h as int,
                    d as int,
                    rgba@,
                    qx,
                    qy,
                ),
        decreases oh - py,
    {
        let mut px: usize = 0;
        proof {
            assert(4 * (((py + 1) as int) * (ow as int)) <= 4 * ((oh as int) * (ow as int))
                && 4 * (((py + 1) as int) * (ow as int)) == 4 * ((py as int) * (ow as int)) + 4 * (
            ow as int) && 4 * ((oh as int) * (ow as int)) == 4 * ((ow as int) * (oh as int)))
                by (nonlinear_arith)
                requires
                    0 <= py < oh,
                    ow >= 0,
            ;
        }
        while px < ow
            invariant
                w == width,
                h == height,
                d == downscale,
                d >= 1,
                w % 2 == 0,
                h % 2 == 0,
                ow == (w as int) / (d as int),
                oh == (h as int) / (d as int),
                yuv@.len() >= w * h + (w * h) / 2,
                yuv@.len() <= usize::MAX,
                py < oh,
                px <= ow,
                4 * (((py + 1) as int) * (ow as int)) <= 4 * ((ow as int) * (oh as int)),
                4 * (((py + 1) as int) * (ow as int)) == 4 * ((py as int) * (ow as int)) + 4 * (
                ow as int),
                4 * ((ow as int) * (oh as int)) <= usize::MAX,
                rgba@.len() == 4 * ((py as int) * (ow as int)) + 4 * (px as int),
                forall|qx: int, qy: int|
                    0 <= qx < ow && 0 <= qy < py ==> #[trigger] thumb_pixel_ok(
                        yuv@,
                        w as int,
                        h as int,
                        d as int,
                        rgba@,
                        qx,
                        qy,
                    ),
                forall|qx: int|
                    0 <= qx < px ==> #[trigger] thumb_pixel_ok(
                        yuv@,
                        w as int,
                        h as int,
                        d as int,
                        rgba@,
                        qx,
                        py as int,
                    ),
            decreases ow - px,
        {
            proof {
                lemma_thumb_index_bounds(w as int, h as int, d as int, px as int, py as int);
            }
            let xs = px * d;
            let ys = py * d;
            let luma_idx = ys * w + xs;
            let uv_idx = w * h + (ys / 2) * w + (xs / 2) * 2;
            let yv = yuv[luma_idx] as i32;
            let uv = yuv[uv_idx] as i32;
            let vv = yuv[uv_idx + 1] as i32;

            let r = channel_from_num(1164 * (yv - 16) + 1596 * (vv - 128));
            let g = channel_from_num(1164 * (yv - 16) - 813 * (vv - 128) - 391 * (uv - 128));
            let b = channel_from_num(1164 * (yv - 16) + 2018 * (uv - 128));

            let ghost prev = rgba@;
            rgba.push(r);
            rgba.push(g);
            rgba.push(b);
            rgba.push(255);

            proof {
                assert(thumb_pixel_ok(
                    yuv@,
                    w as int,
                    h as int,
                    d as int,
                    rgba@,
                    px as int,
                    py as int,
                ));
                assert forall|qx: int, qy: int|
                    0 <= qx < ow && 0 <= qy < py implies #[trigger] thumb_pixel_ok(
                    yuv@,
                    w as int,
                    h as int,
                    d as int,
                    rgba@,
                    qx,
                    qy,
                ) by {
                    lemma_row_base_bound(ow as int, px as int, py as int, qx, qy);
                    assert(thumb_pixel_ok(yuv@, w as int, h as int, d as int, prev, qx, qy));
                }
                assert forall|qx: int| 0 <= qx < px implies #[trigger] thumb_pixel_ok(
                    yuv@,
                    w as int,
                    h as int,
                    d as int,
                    rgba@,
                    qx,
                    py as int,
                ) by {
                    assert(thumb_pixel_ok(yuv@, w as int, h as int, d as int, prev, qx, py as int));
                }
            }
            px = px + 1;
        }
        py = py + 1;
    }
    proof {
        assert(4 * ((oh as int) * (ow as int)) == 4 * ((ow as int) * (oh as int)))
            by (nonlinear_arith);
    }
    rgba
}

} // verus!
