use subwave_present::entry::{RECORD_STRIDE, RING_CAPACITY, Transform};
use subwave_present::registry::VideoRenderPipeline;

fn frame_bytes(width: u32, height: u32, fill: u8) -> Vec<u8> {
    let w = width as usize;
    let h = height as usize;
    vec![fill; w * h + (w / 2) * (h / 2) * 2]
}

fn rect(x0: u32, y0: u32, x1: u32, y1: u32) -> Transform {
    Transform { x0, y0, x1, y1 }
}

#[test]
fn upload_creates_entry_and_splits_planes() {
    let mut p = VideoRenderPipeline::new();
    let mut frame = Vec::new();
    // 2x2 luma plane then one interleaved chroma pair.
    frame.extend_from_slice(&[1, 2, 3, 4]);
    frame.extend_from_slice(&[5, 6]);
    let copy = frame.clone();
    p.upload(42, true, 2, 2, &frame);
    assert_eq!(p.len(), 1);
    assert!(p.contains(42));
    assert_eq!(p.videos[0].luma, vec![1, 2, 3, 4]);
    assert_eq!(p.videos[0].chroma, vec![5, 6]);
    // The source buffer is caller-owned and left unmodified.
    assert_eq!(frame, copy);
}

#[test]
fn upload_writes_exact_plane_sizes() {
    let mut p = VideoRenderPipeline::new();
    let frame = frame_bytes(6, 4, 9);
    p.upload(1, true, 6, 4, &frame);
    assert_eq!(p.videos[0].luma.len(), 6 * 4);
    assert_eq!(p.videos[0].chroma.len(), (6 / 2) * (4 / 2) * 2);
}

#[test]
fn second_upload_overwrites_planes() {
    let mut p = VideoRenderPipeline::new();
    p.upload(1, true, 2, 2, &frame_bytes(2, 2, 10));
    p.upload(1, true, 2, 2, &frame_bytes(2, 2, 20));
    assert_eq!(p.len(), 1);
    assert_eq!(p.videos[0].luma, vec![20; 4]);
    assert_eq!(p.videos[0].chroma, vec![20; 2]);
}

#[test]
fn prepare_then_draw_binds_written_slot() {
    let mut p = VideoRenderPipeline::new();
    p.upload(1, true, 2, 2, &frame_bytes(2, 2, 0));
    let outcome = p.prepare(1, rect(1, 2, 3, 4));
    let write = outcome.write.expect("entry exists");
    assert_eq!(write.offset, 0);
    let offset = p.draw(1).expect("entry exists");
    assert_eq!(offset, write.offset);
}

#[test]
fn two_prepares_two_draws_bind_slots_in_order() {
    let mut p = VideoRenderPipeline::new();
    p.upload(1, true, 2, 2, &frame_bytes(2, 2, 0));
    let w0 = p.prepare(1, rect(1, 0, 2, 0)).write.unwrap();
    let w1 = p.prepare(1, rect(3, 0, 4, 0)).write.unwrap();
    assert_eq!(w0.offset, 0);
    assert_eq!(w1.offset, RECORD_STRIDE);
    assert_eq!(p.draw(1).unwrap(), 0);
    assert_eq!(p.draw(1).unwrap(), RECORD_STRIDE);
}

#[test]
fn record_bytes_are_little_endian_and_padded() {
    let mut p = VideoRenderPipeline::new();
    p.upload(1, true, 2, 2, &frame_bytes(2, 2, 0));
    let write = p.prepare(1, rect(0x04030201, 0x08070605, 0x0c0b0a09, 0x100f0e0d)).write.unwrap();
    assert_eq!(write.bytes.len(), RECORD_STRIDE);
    assert_eq!(
        &write.bytes[0..16],
        &[1, 2, 3, 4, 5, 6, 7, 8, 9, 10, 11, 12, 13, 14, 15, 16]
    );
    assert!(write.bytes[16..].iter().all(|&b| b == 0));
}

#[test]
fn prepare_with_all_alive_keeps_every_entry() {
    let mut p = VideoRenderPipeline::new();
    p.upload(1, true, 2, 2, &frame_bytes(2, 2, 0));
    p.upload(2, true, 4, 2, &frame_bytes(4, 2, 0));
    let outcome = p.prepare(1, rect(0, 0, 1, 1));
    assert!(outcome.removed.is_empty());
    assert_eq!(p.len(), 2);
    assert!(p.contains(1));
    assert!(p.contains(2));
}

#[test]
fn cleared_liveness_reclaims_entry_on_next_prepare() {
    let mut p = VideoRenderPipeline::new();
    p.upload(1, true, 2, 2, &frame_bytes(2, 2, 0));
    p.upload(2, true, 2, 2, &frame_bytes(2, 2, 0));
    p.clear_liveness(2);
    // The entry survives until the next prepare call's sweep.
    assert!(p.contains(2));
    let outcome = p.prepare(1, rect(0, 0, 1, 1));
    assert_eq!(outcome.removed, vec![2]);
    assert!(!p.contains(2));
    assert!(p.contains(1));
    // A subsequent draw for the reclaimed id is a no-op.
    assert_eq!(p.draw(2), None);
    assert_eq!(p.len(), 1);
}

#[test]
fn prepare_for_unknown_id_writes_nothing_but_sweeps() {
    let mut p = VideoRenderPipeline::new();
    p.upload(1, true, 2, 2, &frame_bytes(2, 2, 0));
    p.clear_liveness(1);
    let outcome = p.prepare(99, rect(0, 0, 1, 1));
    assert!(outcome.write.is_none());
    assert_eq!(outcome.removed, vec![1]);
    assert_eq!(p.len(), 0);
}

#[test]
fn draw_for_unknown_id_is_noop() {
    let mut p = VideoRenderPipeline::new();
    assert_eq!(p.draw(5), None);
    assert_eq!(p.len(), 0);
}

#[test]
fn reset_textures_drops_entry() {
    let mut p = VideoRenderPipeline::new();
    p.upload(1, true, 2, 2, &frame_bytes(2, 2, 0));
    assert!(p.reset_textures(1));
    assert!(!p.contains(1));
    assert!(!p.reset_textures(1));
}

#[test]
fn capacity_boundary_binds_distinct_slots_then_wraps() {
    let mut p = VideoRenderPipeline::new();
    p.upload(1, true, 2, 2, &frame_bytes(2, 2, 0));
    let mut offsets = Vec::new();
    for k in 0..RING_CAPACITY {
        let w = p.prepare(1, rect(k as u32, 0, 0, 0)).write.unwrap();
        offsets.push(w.offset);
    }
    // 256 prepares fill 256 distinct slots with no collision.
    for (k, &o) in offsets.iter().enumerate() {
        assert_eq!(o, k * RECORD_STRIDE);
    }
    // 256 draws bind the same 256 slots in order.
    for k in 0..RING_CAPACITY {
        assert_eq!(p.draw(1).unwrap(), k * RECORD_STRIDE);
    }
    // After a fresh fill, the 257th prepare before any draw silently
    // overwrites slot 0.
    for k in 0..RING_CAPACITY {
        let w = p.prepare(1, rect(k as u32, 0, 0, 0)).write.unwrap();
        assert_eq!(w.offset, k * RECORD_STRIDE);
    }
    let wrapped = p.prepare(1, rect(4096, 0, 0, 0)).write.unwrap();
    assert_eq!(wrapped.offset, 0);
    assert_eq!(p.videos[0].ring[0], rect(4096, 0, 0, 0));
}
