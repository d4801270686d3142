//! Per-video GPU resource bundle: the two plane images, the fixed-capacity
//! ring of per-instance transform records, and the two advancing slot
//! indices that implement the double-buffered draw protocol.
//!
//! The entry models the GPU side of one active video: the byte contents it
//! holds for the luma and chroma planes are exactly the bytes the host must
//! upload into the two textures, and every ring write is returned to the
//! host as a byte record plus the aligned offset at which to store it.

use vstd::prelude::*;

verus! {

/// Number of per-instance transform slots in one entry's ring: the maximum
/// number of draws of a single video within one frame before the ring wraps.
pub const RING_CAPACITY: usize = 256;

/// Byte stride of one transform record.  GPU dynamic-offset bindings must be
/// aligned to the device's minimum addressable granularity, modeled as 256
/// bytes, so each 16-byte rectangle is padded up to this stride.
pub const RECORD_STRIDE: usize = 256;

/// Bounding rectangle of one draw, as the raw bit patterns of the host's
/// single-precision corner coordinates: left, top, right, bottom.
#[derive(Clone, Copy, Debug, PartialEq, Eq, Structural)]
pub struct Transform {
    pub x0: u32,
    pub y0: u32,
    pub x1: u32,
    pub y1: u32,
}

/// Byte `k` of the little-endian encoding of `wd`.
pub open spec fn spec_le_byte(wd: u32, k: int) -> u8 {
    ((wd >> ((8 * k) as u32)) & 0xff) as u8
}

/// Byte `i` of one padded transform record: the four corner words in
/// little-endian order, then zero padding up to the record stride.
pub open spec fn spec_record_byte(t: Transform, i: int) -> u8 {
    if i < 4 {
        spec_le_byte(t.x0, i)
    } else if i < 8 {
        spec_le_byte(t.y0, i - 4)
    } else if i < 12 {
        spec_le_byte(t.x1, i - 8)
    } else if i < 16 {
        spec_le_byte(t.y1, i - 12)
    } else {
        0u8
    }
}

/// The full padded record written into one ring slot.
pub open spec fn spec_record_bytes(t: Transform) -> Seq<u8> {
    Seq::new(RECORD_STRIDE as nat, |i: int| spec_record_byte(t, i))
}

/// Append the little-endian bytes of `wd`.
fn push_le_word(out: &mut Vec<u8>, wd: u32)
    ensures
        final(out)@.len() == old(out)@.len() + 4,
        forall|k: int| 0 <= k < old(out)@.len() ==> final(out)@[k] == old(out)@[k],
        forall|k: int|
            0 <= k < 4 ==> final(out)@[old(out)@.len() + k] == spec_le_byte(wd, k),
{
    proof {
        assert((wd & 0xff) == (wd >> 0) & 0xff && ((wd >> 0) & 0xff) < 256 && ((wd >> 8)
            & 0xff) < 256 && ((wd >> 16) & 0xff) < 256 && ((wd >> 24) & 0xff) < 256)
            by (bit_vector);
    }
    out.push((wd & 0xff) as u8);
    out.push(((wd >> 8) & 0xff) as u8);
    out.push(((wd >> 16) & 0xff) as u8);
    out.push(((wd >> 24) & 0xff) as u8);
}

/// Serialize one transform into its padded record, ready for the host to
/// store at the slot's aligned byte offset.
pub fn transform_record_bytes(t: &Transform) -> (out: Vec<u8>)
    ensures
        out@ == spec_record_bytes(*t),
{
    let mut out: Vec<u8> = Vec::new();
    push_le_word(&mut out, t.x0);
    push_le_word(&mut out, t.y0);
    push_le_word(&mut out, t.x1);
    push_le_word(&mut out, t.y1);
    while out.len() < RECORD_STRIDE
        invariant
            16 <= out@.len() <= RECORD_STRIDE,
            forall|i: int| 0 <= i < out@.len() ==> out@[i] == spec_record_byte(*t, i),
        decreases RECORD_STRIDE - out@.len(),
    {
        out.push(0);
    }
    proof {
        assert(out@ =~= spec_record_bytes(*t));
    }
    out
}

/// Mathematical model of one video entry.
pub ghost struct EntryModel {
    pub id: u64,
    pub width: u32,
    pub height: u32,
    pub luma: Seq<u8>,
    pub chroma: Seq<u8>,
    pub ring: Seq<Transform>,
    pub prepare_index: int,
    pub draw_index: int,
    pub alive: bool,
}

/// GPU-side resource bundle for one active video instance.
pub struct VideoEntry {
    /// Identifier of the video instance, monotonically assigned by the host
    /// and never reused within one run.
    pub id: u64,
    /// Frame width in pixels (the luma plane width).
    pub width: u32,
    /// Frame height in pixels (the luma plane height).
    pub height: u32,
    /// Bytes of the full-resolution luma plane texture.
    pub luma: Vec<u8>,
    /// Bytes of the half-resolution interleaved chroma plane texture.
    pub chroma: Vec<u8>,
    /// Fixed-capacity ring of per-instance transform records.
    pub ring: Vec<Transform>,
    /// Slot that the next `prepare` writes, already reduced modulo the ring
    /// capacity.
    pub prepare_index: usize,
    /// Slot that the next `draw` binds, already reduced modulo the ring
    /// capacity.
    pub draw_index: usize,
    /// Mirror of the session's liveness flag: cleared when the owning video
    /// session tears down, observed by the cleanup sweep.
    pub alive: bool,
}

impl View for VideoEntry {
    type V = EntryModel;

    open spec fn view(&self) -> EntryModel {
        EntryModel {
            id: self.id,
            width: self.width,
            height: self.height,
            luma: self.luma@,
            chroma: self.chroma@,
            ring: self.ring@,
            prepare_index: self.prepare_index as int,
            draw_index: self.draw_index as int,
            alive: self.alive,
        }
    }
}

/// Byte length of the luma plane of a `w` by `h` frame.
pub open spec fn luma_len(w: int, h: int) -> int {
    w * h
}

/// Byte length of the interleaved chroma plane of a `w` by `h` frame: half
/// resolution in both axes, two bytes per sample.
pub open spec fn chroma_len(w: int, h: int) -> int {
    ((w / 2) * (h / 2)) * 2
}

/// Well-formedness of one entry: the ring always holds exactly the fixed
/// capacity of slots, both indices stay reduced, the frame is even-sided,
/// and the plane byte buffers match the announced dimensions.
pub open spec fn entry_wf(m: EntryModel) -> bool {
    &&& m.ring.len() == RING_CAPACITY
    &&& 0 <= m.prepare_index < RING_CAPACITY
    &&& 0 <= m.draw_index < RING_CAPACITY
    &&& m.width % 2 == 0
    &&& m.height % 2 == 0
    &&& m.width >= 2
    &&& m.height >= 2
    &&& m.luma.len() == luma_len(m.width as int, m.height as int)
    &&& m.chroma.len() == chroma_len(m.width as int, m.height as int)
}

/// Effect of `prepare` on one entry: the transform is stored in the slot
/// `prepare_index` points at, `prepare_index` advances with wrap-around, and
/// `draw_index` resets so the next draw binds the first freshly written
/// slot.
pub open spec fn entry_prepared(m: EntryModel, t: Transform) -> EntryModel {
    EntryModel {
        ring: m.ring.update(m.prepare_index, t),
        prepare_index: (m.prepare_index + 1) % (RING_CAPACITY as int),
        draw_index: 0,
        ..m
    }
}

/// Effect of `draw` on one entry: `draw_index` advances with wrap-around and
/// `prepare_index` resets, so the next frame's `prepare` starts writing at
/// slot zero again.
pub open spec fn entry_drawn(m: EntryModel) -> EntryModel {
    EntryModel {
        draw_index: (m.draw_index + 1) % (RING_CAPACITY as int),
        prepare_index: 0,
        ..m
    }
}

/// Dynamic byte offset at which `draw` binds the entry's ring.
pub open spec fn draw_offset(m: EntryModel) -> int {
    m.draw_index * (RECORD_STRIDE as int)
}

/// Aligned byte offset of the ring slot that the next `prepare` writes.
pub open spec fn prepare_offset(m: EntryModel) -> int {
    m.prepare_index * (RECORD_STRIDE as int)
}

/// Effect of `upload` on one entry: the luma plane receives the first
/// `w * h` frame bytes and the chroma plane the following `(w/2)*(h/2)*2`
/// bytes; counters, ring and liveness are untouched.
pub open spec fn entry_uploaded(m: EntryModel, frame: Seq<u8>) -> EntryModel {
    let ll = luma_len(m.width as int, m.height as int);
    let cl = chroma_len(m.width as int, m.height as int);
    EntryModel { luma: frame.subrange(0, ll), chroma: frame.subrange(ll, ll + cl), ..m }
}

/// A freshly created entry: empty planes of the announced size are about to
/// be filled by the first upload, the ring holds zeroed records, both
/// indices start at slot zero.
pub open spec fn entry_fresh(id: u64, alive: bool, width: u32, height: u32) -> EntryModel {
    EntryModel {
        id: id,
        width: width,
        height: height,
        luma: Seq::new(luma_len(width as int, height as int) as nat, |i: int| 0u8),
        chroma: Seq::new(chroma_len(width as int, height as int) as nat, |i: int| 0u8),
        ring: Seq::new(RING_CAPACITY as nat, |i: int| Transform { x0: 0, y0: 0, x1: 0, y1: 0 }),
        prepare_index: 0,
        draw_index: 0,
        alive: alive,
    }
}


/// One ring write that the host must mirror into the GPU-side instance
/// buffer: store `bytes` at byte offset `offset`.
pub struct SlotWrite {
    /// Aligned byte offset of the written slot.
    pub offset: usize,
    /// The padded record to store there.
    pub bytes: Vec<u8>,
}

/// Compute the luma plane byte length of a `width` by `height` frame.
pub fn luma_plane_len(width: u32, height: u32) -> (n: usize)
    requires
        luma_len(width as int, height as int) <= usize::MAX,
    ensures
        n == luma_len(width as int, height as int),
{
    (width as usize) * (height as usize)
}

/// Compute the chroma plane byte length of a `width` by `height` frame.
pub fn chroma_plane_len(width: u32, height: u32) -> (n: usize)
    requires
        luma_len(width as int, height as int) <= usize::MAX,
    ensures
        n == chroma_len(width as int, height as int),
{
    proof {
        vstd::arithmetic::div_mod::lemma_fundamental_div_mod(width as int, 2);
        vstd::arithmetic::div_mod::lemma_fundamental_div_mod(height as int, 2);
        vstd::arithmetic::div_mod::lemma_mod_division_less_than_divisor(width as int, 2);
        vstd::arithmetic::div_mod::lemma_mod_division_less_than_divisor(height as int, 2);
        assert((((width as int) / 2) * ((height as int) / 2)) * 2 <= (width as int) * (
        height as int)) by (nonlinear_arith)
            requires
                2 * ((width as int) / 2) <= width as int,
                2 * ((height as int) / 2) <= height as int,
                0 <= (width as int) / 2,
                0 <= (height as int) / 2,
        ;
    }
    (((width / 2) as usize) * ((height / 2) as usize)) * 2
}

impl VideoEntry {
    /// Create the resource bundle for a previously-unseen video id, sized to
    /// the announced frame dimensions, with zeroed planes and ring.
    pub fn new(id: u64, alive: bool, width: u32, height: u32) -> (e: VideoEntry)
        requires
            width % 2 == 0,
            height % 2 == 0,
            width >= 2,
            height >= 2,
            luma_len(width as int, height as int) <= usize::MAX,
        ensures
            e@ == entry_fresh(id, alive, width, height),
            entry_wf(e@),
    {
        let ll = luma_plane_len(width, height);
        let cl = chroma_plane_len(width, height);
        let mut luma: Vec<u8> = Vec::new();
        while luma.len() < ll
            invariant
                luma@.len() <= ll,
                forall|i: int| 0 <= i < luma@.len() ==> luma@[i] == 0u8,
            decreases ll - luma@.len(),
        {
            luma.push(0);
        }
        let mut chroma: Vec<u8> = Vec::new();
        while chroma.len() < cl
            invariant
                chroma@.len() <= cl,
                forall|i: int| 0 <= i < chroma@.len() ==> chroma@[i] == 0u8,
            decreases cl - chroma@.len(),
        {
            chroma.push(0);
        }
        let mut ring: Vec<Transform> = Vec::new();
        while ring.len() < RING_CAPACITY
            invariant
                ring@.len() <= RING_CAPACITY,
                forall|i: int|
                    0 <= i < ring@.len() ==> ring@[i] == (Transform { x0: 0, y0: 0, x1: 0, y1: 0 }),
            decreases RING_CAPACITY - ring@.len(),
        {
            ring.push(Transform { x0: 0, y0: 0, x1: 0, y1: 0 });
        }
        let e = VideoEntry {
            id,
            width,
            height,
            luma,
            chroma,
            ring,
            prepare_index: 0,
            draw_index: 0,
            alive,
        };
        proof {
            assert(e@.luma =~= entry_fresh(id, alive, width, height).luma);
            assert(e@.chroma =~= entry_fresh(id, alive, width, height).chroma);
            assert(e@.ring =~= entry_fresh(id, alive, width, height).ring);
        }
        e
    }

    /// Copy one frame into the entry's planes: the first `w * h` bytes into
    /// the luma plane, the following `(w/2)*(h/2)*2` bytes into the chroma
    /// plane.  The source is only read.
    pub fn upload(&mut self, frame: &[u8])
        requires
            entry_wf(old(self)@),
            frame@.len() >= luma_len(old(self).width as int, old(self).height as int)
                + chroma_len(old(self).width as int, old(self).height as int),
        ensures
            final(self)@ == entry_uploaded(old(self)@, frame@),
            entry_wf(final(self)@),
    {
        // The existing plane and the frame give the machine bounds on the
        // plane lengths.
        let _existing_luma = self.luma.len();
        let _frame_len = frame.len();
        let ll = luma_plane_len(self.width, self.height);
        let cl = chroma_plane_len(self.width, self.height);
        self.luma = vstd::slice::slice_to_vec(vstd::slice::slice_subrange(frame, 0, ll));
        self.chroma = vstd::slice::slice_to_vec(vstd::slice::slice_subrange(frame, ll, ll + cl));
    }

    /// Store a transform in the slot `prepare_index` points at, advance
    /// `prepare_index` with wrap-around, and reset `draw_index`; the
    /// returned write tells the host where to mirror the padded record.
    pub fn write_slot(&mut self, t: Transform) -> (w: SlotWrite)
        requires
            entry_wf(old(self)@),
        ensures
            final(self)@ == entry_prepared(old(self)@, t),
            entry_wf(final(self)@),
            w.offset == prepare_offset(old(self)@),
            w.bytes@ == spec_record_bytes(t),
    {
        let offset = self.prepare_index * RECORD_STRIDE;
        let bytes = transform_record_bytes(&t);
        self.ring[self.prepare_index] = t;
        self.prepare_index = (self.prepare_index + 1) % RING_CAPACITY;
        self.draw_index = 0;
        SlotWrite { offset, bytes }
    }

    /// Bind the slot `draw_index` points at: return its aligned byte offset,
    /// advance `draw_index` with wrap-around, and reset `prepare_index`.
    pub fn advance_draw(&mut self) -> (offset: usize)
        requires
            entry_wf(old(self)@),
        ensures
            final(self)@ == entry_drawn(old(self)@),
            entry_wf(final(self)@),
            offset == draw_offset(old(self)@),
    {
        let offset = self.draw_index * RECORD_STRIDE;
        self.draw_index = (self.draw_index + 1) % RING_CAPACITY;
        self.prepare_index = 0;
        offset
    }
}

} // verus!

