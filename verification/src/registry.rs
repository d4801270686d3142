//! Render pipeline registry: owns every active video entry, creates entries
//! lazily on first upload, executes the per-frame upload / prepare / draw
//! bookkeeping, and reclaims entries whose liveness flag has been cleared.
//!
//! The id-to-entry mapping lives in one place, mutated only from the host's
//! single drawing context, so the registry needs no internal locking.  Every
//! operation returns the exact byte ranges and offsets the host must mirror
//! onto its GPU objects.

use vstd::prelude::*;

use crate::entry::EntryModel;
use crate::entry::SlotWrite;
use crate::entry::Transform;
use crate::entry::VideoEntry;
use crate::entry::chroma_len;
use crate::entry::draw_offset;
use crate::entry::entry_drawn;
use crate::entry::entry_fresh;
use crate::entry::entry_prepared;
use crate::entry::entry_uploaded;
use crate::entry::entry_wf;
use crate::entry::luma_len;
use crate::entry::prepare_offset;
use crate::entry::spec_record_bytes;

verus! {

/// Models of a sequence of entries, in storage order.
pub open spec fn models(s: Seq<VideoEntry>) -> Seq<EntryModel> {
    Seq::new(s.len(), |i: int| s[i]@)
}

/// Index of the first entry with the given id, or `-1` if there is none.
pub open spec fn spec_index_of(s: Seq<EntryModel>, id: u64) -> int
    decreases s.len(),
{
    if s.len() == 0 {
        -1
    } else if s[0].id == id {
        0
    } else {
        let r = spec_index_of(s.drop_first(), id);
        if r < 0 {
            -1
        } else {
            r + 1
        }
    }
}

/// Whether some entry carries the given id.
pub open spec fn has_id(s: Seq<EntryModel>, id: u64) -> bool {
    spec_index_of(s, id) >= 0
}

/// The entry carrying the given id (meaningful only when `has_id` holds).
pub open spec fn entry_of(s: Seq<EntryModel>, id: u64) -> EntryModel {
    s[spec_index_of(s, id)]
}

/// `spec_index_of` finds exactly the first occurrence: a non-negative
/// result points at an entry with the id and nothing before it matches,
/// and a negative result means no entry matches at all.
pub proof fn lemma_index_of_first(s: Seq<EntryModel>, id: u64)
    ensures
        spec_index_of(s, id) >= -1,
        spec_index_of(s, id) < s.len(),
        spec_index_of(s, id) >= 0 ==> s[spec_index_of(s, id)].id == id,
        spec_index_of(s, id) < 0 ==> forall|j: int| 0 <= j < s.len() ==> s[j].id != id,
        forall|j: int| 0 <= j < spec_index_of(s, id) ==> s[j].id != id,
    decreases s.len(),
{
    if s.len() == 0 {
    } else if s[0].id == id {
    } else {
        lemma_index_of_first(s.drop_first(), id);
        let r = spec_index_of(s.drop_first(), id);
        if r < 0 {
            assert forall|j: int| 0 <= j < s.len() implies s[j].id != id by {
                if j > 0 {
                    assert(s.drop_first()[j - 1] == s[j]);
                }
            }
        } else {
            assert forall|j: int| 0 <= j < spec_index_of(s, id) implies s[j].id != id by {
                if j > 0 {
                    assert(s.drop_first()[j - 1] == s[j]);
                }
            }
        }
    }
}

/// Entries that survive a cleanup sweep: exactly those whose liveness flag
/// is still set, in their original order.
pub open spec fn sweep(s: Seq<EntryModel>) -> Seq<EntryModel>
    decreases s.len(),
{
    if s.len() == 0 {
        Seq::empty()
    } else {
        let rest = sweep(s.drop_last());
        if s.last().alive {
            rest.push(s.last())
        } else {
            rest
        }
    }
}

/// Ids of the entries that a cleanup sweep reclaims: exactly those whose
/// liveness flag is cleared, in their original order.
pub open spec fn dead_ids(s: Seq<EntryModel>) -> Seq<u64>
    decreases s.len(),
{
    if s.len() == 0 {
        Seq::empty()
    } else {
        let rest = dead_ids(s.drop_last());
        if s.last().alive {
            rest
        } else {
            rest.push(s.last().id)
        }
    }
}

/// Well-formedness of the registry state: every entry is well formed and
/// ids are unique (iteration order is irrelevant to the contracts).
pub open spec fn registry_wf(s: Seq<EntryModel>) -> bool {
    &&& forall|i: int| 0 <= i < s.len() ==> entry_wf(#[trigger] s[i])
    &&& forall|i: int, j: int| 0 <= i < j < s.len() ==> s[i].id != s[j].id
}

/// Every entry that survives the sweep is one of the original entries.
pub proof fn lemma_sweep_element_of(s: Seq<EntryModel>, k: int)
    requires
        0 <= k < sweep(s).len(),
    ensures
        exists|j: int| 0 <= j < s.len() && s[j] == sweep(s)[k],
    decreases s.len(),
{
    if s.len() == 0 {
    } else {
        let rest = sweep(s.drop_last());
        if s.last().alive && k == rest.len() {
            assert(s[s.len() - 1] == sweep(s)[k]);
        } else {
            lemma_sweep_element_of(s.drop_last(), k);
            let j = choose|j: int| 0 <= j < s.drop_last().len() && s.drop_last()[j] == sweep(
                s.drop_last(),
            )[k];
            assert(s[j] == sweep(s)[k]);
        }
    }
}

/// Every entry that survives the sweep has its liveness flag set.
pub proof fn lemma_sweep_all_live(s: Seq<EntryModel>)
    ensures
        forall|k: int| 0 <= k < sweep(s).len() ==> (#[trigger] sweep(s)[k]).alive,
    decreases s.len(),
{
    if s.len() == 0 {
    } else {
        lemma_sweep_all_live(s.drop_last());
        let rest = sweep(s.drop_last());
        assert forall|k: int| 0 <= k < sweep(s).len() implies (#[trigger] sweep(s)[k]).alive by {
            if k < rest.len() {
                assert(sweep(s)[k] == rest[k]);
            }
        }
    }
}

/// Cleanup is idempotent while every entry is alive: a sweep over a state
/// with no cleared liveness flag returns exactly that state, so a `prepare`
/// call removes nothing and reclaims no ids.
pub proof fn lemma_sweep_keeps_all_alive(s: Seq<EntryModel>)
    requires
        forall|i: int| 0 <= i < s.len() ==> (#[trigger] s[i]).alive,
    ensures
        sweep(s) == s,
        dead_ids(s) == Seq::<u64>::empty(),
    decreases s.len(),
{
    if s.len() == 0 {
        assert(sweep(s) =~= s);
    } else {
        lemma_sweep_keeps_all_alive(s.drop_last());
        assert(sweep(s) =~= s);
        assert(dead_ids(s) =~= Seq::<u64>::empty());
    }
}

/// Reclamation: once an id's entry has a cleared liveness flag, the sweep
/// removes it, so the swept state no longer maps that id.
pub proof fn lemma_sweep_drops_cleared(s: Seq<EntryModel>, id: u64)
    requires
        registry_wf(s),
        forall|j: int| 0 <= j < s.len() && (#[trigger] s[j]).id == id ==> !s[j].alive,
    ensures
        !has_id(sweep(s), id),
{
    if has_id(sweep(s), id) {
        lemma_index_of_first(sweep(s), id);
        let k = spec_index_of(sweep(s), id);
        lemma_sweep_all_live(s);
        lemma_sweep_element_of(s, k);
        let j = choose|j: int| 0 <= j < s.len() && s[j] == sweep(s)[k];
        assert(s[j].id == id && s[j].alive);
    }
}

/// The sweep preserves well-formedness: surviving entries stay well formed
/// and their ids stay unique.
pub proof fn lemma_sweep_preserves_wf(s: Seq<EntryModel>)
    requires
        registry_wf(s),
    ensures
        registry_wf(sweep(s)),
{
    assert forall|k: int| 0 <= k < sweep(s).len() implies entry_wf(#[trigger] sweep(s)[k]) by {
        lemma_sweep_element_of(s, k);
    }
    assert forall|k1: int, k2: int| 0 <= k1 < k2 < sweep(s).len() implies sweep(s)[k1].id != sweep(
        s,
    )[k2].id by {
        lemma_sweep_distinct_sources(s, k1, k2);
    }
}

/// Two distinct survivors of the sweep come from two distinct original
/// entries, in order.
proof fn lemma_sweep_distinct_sources(s: Seq<EntryModel>, k1: int, k2: int)
    requires
        registry_wf(s),
        0 <= k1 < k2 < sweep(s).len(),
    ensures
        sweep(s)[k1].id != sweep(s)[k2].id,
    decreases s.len(),
{
    if s.len() == 0 {
    } else {
        let rest = sweep(s.drop_last());
        assert(registry_wf(s.drop_last())) by {
            assert(forall|j: int|
                0 <= j < s.drop_last().len() ==> s.drop_last()[j] == s[j]);
        }
        if s.last().alive && k2 == rest.len() {
            // sweep(s)[k2] is the last entry of s; sweep(s)[k1] comes from
            // some earlier entry, whose id differs by uniqueness.
            lemma_sweep_element_of(s.drop_last(), k1);
            let j = choose|j: int|
                0 <= j < s.drop_last().len() && s.drop_last()[j] == sweep(s.drop_last())[k1];
            assert(s[j] == sweep(s)[k1]);
            assert(s[j].id != s[s.len() - 1].id);
        } else {
            lemma_sweep_distinct_sources(s.drop_last(), k1, k2);
        }
    }
}

/// Outcome of one `prepare` call: the ring write the host must mirror (when
/// the id was known) and the ids of the entries reclaimed by the cleanup
/// sweep, whose GPU resources the host must release.
pub struct PrepareOutcome {
    /// The slot record written for this instance, if the id had an entry.
    pub write: Option<SlotWrite>,
    /// Ids reclaimed by the cleanup sweep, in storage order.
    pub removed: Vec<u64>,
}

/// Process-wide (per output surface format) presentation state: the mapping
/// from video id to its GPU resource bundle.  Constructed once, lazily, the
/// first time a video is drawn against a given output surface format; the
/// host keeps the GPU pipeline objects keyed the same way.
pub struct VideoRenderPipeline {
    /// The active entries; ids are unique, order carries no meaning.
    pub videos: Vec<VideoEntry>,
}

impl View for VideoRenderPipeline {
    type V = Seq<EntryModel>;

    open spec fn view(&self) -> Seq<EntryModel> {
        models(self.videos@)
    }
}

/// Find the storage index of an id.
fn find_index(videos: &Vec<VideoEntry>, id: u64) -> (r: Option<usize>)
    ensures
        match r {
            Some(i) => 0 <= i < videos@.len() && spec_index_of(models(videos@), id) == i,
            None => spec_index_of(models(videos@), id) == -1,
        },
{
    let n = videos.len();
    let mut i: usize = 0;
    while i < n
        invariant
            n == videos@.len(),
            i <= n,
            forall|j: int| 0 <= j < i ==> models(videos@)[j].id != id,
        decreases n - i,
    {
        if videos[i].id == id {
            proof {
                assert(models(videos@)[i as int].id == id);
                lemma_index_of_first(models(videos@), id);
            }
            return Some(i);
        }
        i = i + 1;
    }
    proof {
        lemma_index_of_first(models(videos@), id);
    }
    None
}

impl VideoRenderPipeline {
    /// Create the registry for one output surface format, with no active
    /// videos yet.
    pub fn new() -> (r: VideoRenderPipeline)
        ensures
            r@ == Seq::<EntryModel>::empty(),
            registry_wf(r@),
    {
        let r = VideoRenderPipeline { videos: Vec::new() };
        proof {
            assert(r@ =~= Seq::<EntryModel>::empty());
        }
        r
    }

    /// Upload one frame for an id: if the id is new, allocate its entry
    /// sized to the announced dimensions; then store the first `w * h`
    /// frame bytes as the luma plane and the following `(w/2)*(h/2)*2`
    /// bytes as the chroma plane.  The frame is only read.
    pub fn upload(&mut self, video_id: u64, alive: bool, width: u32, height: u32, frame: &[u8])
        requires
            registry_wf(old(self)@),
            width % 2 == 0,
            height % 2 == 0,
            width >= 2,
            height >= 2,
            frame@.len() >= luma_len(width as int, height as int) + chroma_len(
                width as int,
                height as int,
            ),
            has_id(old(self)@, video_id) ==> entry_of(old(self)@, video_id).width == width
                && entry_of(old(self)@, video_id).height == height,
        ensures
            registry_wf(final(self)@),
            ({
                let s = old(self)@;
                let i = spec_index_of(s, video_id);
                if i >= 0 {
                    final(self)@ == s.update(i, entry_uploaded(s[i], frame@))
                } else {
                    final(self)@ == s.push(
                        entry_uploaded(entry_fresh(video_id, alive, width, height), frame@),
                    )
                }
            }),
    {
        proof {
            lemma_index_of_first(old(self)@, video_id);
        }
        let _frame_bound = frame.len();
        match find_index(&self.videos, video_id) {
            Some(i) => {
                let entry = &mut self.videos[i];
                entry.upload(frame);
                proof {
                    assert(final(self)@ =~= old(self)@.update(
                        spec_index_of(old(self)@, video_id),
                        entry_uploaded(old(self)@[spec_index_of(old(self)@, video_id)], frame@),
                    ));
                }
            },
            None => {
                let mut entry = VideoEntry::new(video_id, alive, width, height);
                entry.upload(frame);
                self.videos.push(entry);
                proof {
                    assert(final(self)@ =~= old(self)@.push(
                        entry_uploaded(entry_fresh(video_id, alive, width, height), frame@),
                    ));
                }
            },
        }
    }

    /// Mark an id's entry as reclaimable: the model of the session clearing
    /// its liveness flag, observed by the next cleanup sweep.  Unknown ids
    /// are ignored.
    pub fn clear_liveness(&mut self, video_id: u64)
        requires
            registry_wf(old(self)@),
        ensures
            registry_wf(final(self)@),
            ({
                let s = old(self)@;
                let i = spec_index_of(s, video_id);
                if i >= 0 {
                    final(self)@ == s.update(i, EntryModel { alive: false, ..s[i] })
                } else {
                    final(self)@ == s
                }
            }),
    {
        proof {
            lemma_index_of_first(old(self)@, video_id);
        }
        match find_index(&self.videos, video_id) {
            Some(i) => {
                let entry = &mut self.videos[i];
                entry.alive = false;
                proof {
                    let s = old(self)@;
                    let ix = spec_index_of(s, video_id);
                    assert(final(self)@ =~= s.update(ix, EntryModel { alive: false, ..s[ix] }));
                }
            },
            None => {
                proof {
                    assert(final(self)@ =~= old(self)@);
                }
            },
        }
    }

    /// Remove every entry whose liveness flag is cleared and report their
    /// ids so the host can release the matching GPU resources.
    fn cleanup(&mut self) -> (removed: Vec<u64>)
        requires
            registry_wf(old(self)@),
        ensures
            registry_wf(final(self)@),
            final(self)@ == sweep(old(self)@),
            removed@ == dead_ids(old(self)@),
    {
        let ghost orig = self@;
        let mut kept: Vec<VideoEntry> = Vec::new();
        let mut removed: Vec<u64> = Vec::new();
        while self.videos.len() > 0
            invariant
                self.videos@.len() <= orig.len(),
                models(self.videos@) =~= orig.subrange(
                    orig.len() - self.videos@.len(),
                    orig.len() as int,
                ),
                models(kept@) =~= sweep(orig.subrange(0, orig.len() - self.videos@.len())),
                removed@ =~= dead_ids(orig.subrange(0, orig.len() - self.videos@.len())),
            decreases self.videos@.len(),
        {
            let ghost i = orig.len() - self.videos@.len();
            let ghost before = self.videos@;
            let e = self.videos.remove(0);
            proof {
                assert(models(before)[0] == e@);
                assert(models(before)[0] == orig.subrange(i, orig.len() as int)[0]);
                assert(e@ == orig[i]);
                assert forall|k: int| 0 <= k < self.videos@.len() implies models(self.videos@)[k]
                    == orig.subrange(i + 1, orig.len() as int)[k] by {
                    assert(self.videos@[k] == before[k + 1]);
                    assert(models(before)[k + 1] == orig.subrange(i, orig.len() as int)[k + 1]);
                }
                assert(models(self.videos@) =~= orig.subrange(i + 1, orig.len() as int));
                assert(orig.subrange(0, i + 1).drop_last() =~= orig.subrange(0, i));
                assert(orig.subrange(0, i + 1).last() == orig[i]);
            }
            if e.alive {
                kept.push(e);
                proof {
                    assert(models(kept@) =~= sweep(orig.subrange(0, i + 1)));
                }
            } else {
                removed.push(e.id);
                proof {
                    assert(removed@ =~= dead_ids(orig.subrange(0, i + 1)));
                }
            }
        }
        proof {
            assert(orig.subrange(0, orig.len() as int) =~= orig);
        }
        self.videos = kept;
        proof {
            lemma_sweep_preserves_wf(orig);
        }
        removed
    }

    /// Write the per-instance transform for one draw of this id: store the
    /// padded record in the slot `prepare_index` points at, advance
    /// `prepare_index`, reset `draw_index`, then run the cleanup sweep over
    /// all entries.  An unknown id writes nothing; the sweep runs either
    /// way.
    pub fn prepare(&mut self, video_id: u64, bounds: Transform) -> (r: PrepareOutcome)
        requires
            registry_wf(old(self)@),
        ensures
            registry_wf(final(self)@),
            ({
                let s = old(self)@;
                let i = spec_index_of(s, video_id);
                let s1 = if i >= 0 {
                    s.update(i, entry_prepared(s[i], bounds))
                } else {
                    s
                };
                &&& final(self)@ == sweep(s1)
                &&& r.removed@ == dead_ids(s1)
                &&& (i >= 0 <==> r.write is Some)
                &&& (i >= 0 ==> r.write->Some_0.offset == prepare_offset(s[i])
                    && r.write->Some_0.bytes@ == spec_record_bytes(bounds))
            }),
    {
        proof {
            lemma_index_of_first(old(self)@, video_id);
        }
        let write: Option<SlotWrite> = match find_index(&self.videos, video_id) {
            Some(i) => {
                let entry = &mut self.videos[i];
                let w = entry.write_slot(bounds);
                proof {
                    let s = old(self)@;
                    let ix = spec_index_of(s, video_id);
                    assert(self@ =~= s.update(ix, entry_prepared(s[ix], bounds)));
                }
                Some(w)
            },
            None => None,
        };
        let removed = self.cleanup();
        PrepareOutcome { write, removed }
    }

    /// Bind one draw of this id: return the dynamic byte offset of the slot
    /// `draw_index` points at, advance `draw_index`, and reset
    /// `prepare_index`.  An unknown id is a no-op and binds nothing.
    pub fn draw(&mut self, video_id: u64) -> (r: Option<usize>)
        requires
            registry_wf(old(self)@),
        ensures
            registry_wf(final(self)@),
            ({
                let s = old(self)@;
                let i = spec_index_of(s, video_id);
                if i >= 0 {
                    &&& final(self)@ == s.update(i, entry_drawn(s[i]))
                    &&& r is Some
                    &&& r->Some_0 == draw_offset(s[i])
                } else {
                    &&& final(self)@ == s
                    &&& r is None
                }
            }),
    {
        proof {
            lemma_index_of_first(old(self)@, video_id);
        }
        match find_index(&self.videos, video_id) {
            Some(i) => {
                let entry = &mut self.videos[i];
                let offset = entry.advance_draw();
                proof {
                    let s = old(self)@;
                    let ix = spec_index_of(s, video_id);
                    assert(self@ =~= s.update(ix, entry_drawn(s[ix])));
                }
                Some(offset)
            },
            None => {
                proof {
                    assert(self@ =~= old(self)@);
                }
                None
            },
        }
    }

    /// Drop an id's entry outright so the next upload recreates its
    /// textures; the host must release the matching GPU resources.
    pub fn reset_textures(&mut self, video_id: u64) -> (removed: bool)
        requires
            registry_wf(old(self)@),
        ensures
            registry_wf(final(self)@),
            ({
                let s = old(self)@;
                let i = spec_index_of(s, video_id);
                if i >= 0 {
                    final(self)@ == s.remove(i) && removed
                } else {
                    final(self)@ == s && !removed
                }
            }),
    {
        proof {
            lemma_index_of_first(old(self)@, video_id);
        }
        match find_index(&self.videos, video_id) {
            Some(i) => {
                self.videos.remove(i);
                proof {
                    let s = old(self)@;
                    let ix = spec_index_of(s, video_id);
                    assert(self@ =~= s.remove(ix));
                    assert forall|a: int, b: int|
                        0 <= a < b < self@.len() implies self@[a].id != self@[b].id by {
                        if b < ix {
                            assert(self@[a] == s[a] && self@[b] == s[b]);
                        } else if a < ix {
                            assert(self@[a] == s[a] && self@[b] == s[b + 1]);
                        } else {
                            assert(self@[a] == s[a + 1] && self@[b] == s[b + 1]);
                        }
                    }
                }
                true
            },
            None => {
                proof {
                    assert(self@ =~= old(self)@);
                }
                false
            },
        }
    }

    /// Number of active entries.
    pub fn len(&self) -> (n: usize)
        ensures
            n == self@.len(),
    {
        self.videos.len()
    }

    /// Whether an id currently has an entry.
    pub fn contains(&self, video_id: u64) -> (b: bool)
        ensures
            b == has_id(self@, video_id),
    {
        proof {
            lemma_index_of_first(self@, video_id);
        }
        match find_index(&self.videos, video_id) {
            Some(_) => true,
            None => false,
        }
    }
}

} // verus!
