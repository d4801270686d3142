//! Presentation adapter: the thin per-widget object the host framework
//! drives once per frame.  It forwards to the registry -- upload the latest
//! frame if the decode side flagged one, then write this instance's
//! transform -- and hands the host back exactly what to mirror onto the
//! GPU.

use vstd::prelude::*;

use crate::entry::Transform;
use crate::entry::chroma_len;
use crate::entry::entry_fresh;
use crate::entry::entry_prepared;
use crate::entry::entry_uploaded;
use crate::entry::luma_len;
use crate::entry::prepare_offset;
use crate::entry::spec_record_bytes;
use crate::registry::PrepareOutcome;
use crate::registry::VideoRenderPipeline;
use crate::registry::dead_ids;
use crate::registry::entry_of;
use crate::registry::has_id;
use crate::registry::registry_wf;
use crate::registry::spec_index_of;
use crate::registry::sweep;

verus! {

/// One widget's view of its video for a single frame: a snapshot of the
/// decode mailbox (the latest frame bytes and the dirty flag) plus the
/// identity and dimensions the session announced.
pub struct VideoPrimitive {
    /// Identifier of the video instance.
    pub video_id: u64,
    /// Snapshot of the session's liveness flag.
    pub alive: bool,
    /// The latest decoded frame, copied out of the shared mailbox.
    pub frame: Vec<u8>,
    /// Announced frame width in pixels.
    pub width: u32,
    /// Announced frame height in pixels.
    pub height: u32,
    /// Dirty flag of the mailbox: whether `frame` should be uploaded.
    pub upload_frame: bool,
}

/// The registry state after the adapter's optional upload step.
pub open spec fn after_upload(p: VideoPrimitive, s: Seq<crate::entry::EntryModel>) -> Seq<
    crate::entry::EntryModel,
> {
    if p.upload_frame && p.frame@.len() > 0 {
        let i = spec_index_of(s, p.video_id);
        if i >= 0 {
            s.update(i, entry_uploaded(s[i], p.frame@))
        } else {
            s.push(entry_uploaded(entry_fresh(p.video_id, p.alive, p.width, p.height), p.frame@))
        }
    } else {
        s
    }
}

impl VideoPrimitive {
    /// Snapshot one widget's state for this frame.
    pub fn new(
        video_id: u64,
        alive: bool,
        frame: Vec<u8>,
        width: u32,
        height: u32,
        upload_frame: bool,
    ) -> (p: VideoPrimitive)
        ensures
            p.video_id == video_id,
            p.alive == alive,
            p.frame == frame,
            p.width == width,
            p.height == height,
            p.upload_frame == upload_frame,
    {
        VideoPrimitive { video_id, alive, frame, width, height, upload_frame }
    }

    /// Per-frame preparation: if the mailbox is dirty and non-empty, upload
    /// the frame (creating the entry on first sight of the id), then write
    /// this instance's transform and run the cleanup sweep.  An empty frame
    /// buffer skips the upload silently.
    pub fn prepare(&self, pipeline: &mut VideoRenderPipeline, bounds: Transform) -> (r:
        PrepareOutcome)
        requires
            registry_wf(old(pipeline)@),
            self.upload_frame && self.frame@.len() > 0 ==> {
                &&& self.width % 2 == 0
                &&& self.height % 2 == 0
                &&& self.width >= 2
                &&& self.height >= 2
                &&& self.frame@.len() >= luma_len(self.width as int, self.height as int)
                    + chroma_len(self.width as int, self.height as int)
                &&& has_id(old(pipeline)@, self.video_id) ==> entry_of(
                    old(pipeline)@,
                    self.video_id,
                ).width == self.width && entry_of(old(pipeline)@, self.video_id).height
                    == self.height
            },
        ensures
            registry_wf(final(pipeline)@),
            ({
                let s = after_upload(*self, old(pipeline)@);
                let i = spec_index_of(s, self.video_id);
                let s1 = if i >= 0 {
                    s.update(i, entry_prepared(s[i], bounds))
                } else {
                    s
                };
                &&& final(pipeline)@ == sweep(s1)
                &&& r.removed@ == dead_ids(s1)
                &&& (i >= 0 <==> r.write is Some)
                &&& (i >= 0 ==> r.write->Some_0.offset == prepare_offset(s[i])
                    && r.write->Some_0.bytes@ == spec_record_bytes(bounds))
            }),
    {
        if self.upload_frame && self.frame.len() > 0 {
            pipeline.upload(
                self.video_id,
                self.alive,
                self.width,
                self.height,
                self.frame.as_slice(),
            );
        }
        pipeline.prepare(self.video_id, bounds)
    }

    /// Per-frame draw: bind this instance's slot, if its entry still
    /// exists, and tell the host which dynamic offset to bind.
    pub fn render(&self, pipeline: &mut VideoRenderPipeline) -> (r: Option<usize>)
        requires
            registry_wf(old(pipeline)@),
        ensures
            registry_wf(final(pipeline)@),
            ({
                let s = old(pipeline)@;
                let i = spec_index_of(s, self.video_id);
                if i >= 0 {
                    &&& final(pipeline)@ == s.update(i, crate::entry::entry_drawn(s[i]))
                    &&& r is Some
                    &&& r->Some_0 == crate::entry::draw_offset(s[i])
                } else {
                    &&& final(pipeline)@ == s
                    &&& r is None
                }
            }),
    {
        pipeline.draw(self.video_id)
    }
}

} // verus!
