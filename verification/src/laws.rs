//! Laws of the double-buffered draw protocol and of entry reclamation,
//! stated over the entry and registry models and proved once and for all.

use vstd::prelude::*;

use crate::entry::EntryModel;
use crate::entry::RECORD_STRIDE;
use crate::entry::RING_CAPACITY;
use crate::entry::Transform;
use crate::entry::chroma_len;
use crate::entry::draw_offset;
use crate::entry::entry_drawn;
use crate::entry::entry_prepared;
use crate::entry::entry_uploaded;
use crate::entry::entry_wf;
use crate::entry::luma_len;
use crate::registry::dead_ids;
use crate::registry::entry_of;
use crate::registry::has_id;
use crate::registry::lemma_index_of_first;
use crate::registry::lemma_sweep_drops_cleared;
use crate::registry::lemma_sweep_keeps_all_alive;
use crate::registry::registry_wf;
use crate::registry::spec_index_of;
use crate::registry::sweep;

verus! {

/// A preparation keeps an entry well formed.
pub proof fn lemma_prepared_wf(m: EntryModel, t: Transform)
    requires
        entry_wf(m),
    ensures
        entry_wf(entry_prepared(m, t)),
{
}

/// A draw keeps an entry well formed.
pub proof fn lemma_drawn_wf(m: EntryModel)
    requires
        entry_wf(m),
    ensures
        entry_wf(entry_drawn(m)),
{
}

/// An upload writes exactly `w * h` bytes into the luma plane and
/// `(w/2) * (h/2) * 2` bytes into the chroma plane of an entry sized
/// `w` by `h` -- the two leading regions of the frame, with the source
/// buffer only read.
pub proof fn lemma_upload_writes_exact_plane_sizes(m: EntryModel, frame: Seq<u8>)
    requires
        entry_wf(m),
        frame.len() >= luma_len(m.width as int, m.height as int) + chroma_len(
            m.width as int,
            m.height as int,
        ),
    ensures
        entry_uploaded(m, frame).luma.len() == luma_len(m.width as int, m.height as int),
        entry_uploaded(m, frame).chroma.len() == chroma_len(m.width as int, m.height as int),
        entry_uploaded(m, frame).luma == frame.subrange(
            0,
            luma_len(m.width as int, m.height as int),
        ),
        entry_uploaded(m, frame).chroma == frame.subrange(
            luma_len(m.width as int, m.height as int),
            luma_len(m.width as int, m.height as int) + chroma_len(m.width as int, m.height as int),
        ),
{
}

/// Round trip: on a freshly created entry (both indices at slot zero), one
/// `prepare` followed by one `draw` binds exactly the slot the prepare just
/// wrote -- slot zero, at dynamic offset zero.
pub proof fn lemma_prepare_then_draw_binds_written_slot(m: EntryModel, t: Transform)
    requires
        entry_wf(m),
        m.prepare_index == 0,
        m.draw_index == 0,
    ensures
        entry_prepared(m, t).ring[0] == t,
        draw_offset(entry_prepared(m, t)) == 0,
        entry_prepared(m, t).prepare_index == 1,
{
}

/// Round trip, two instances: two `prepare` calls write the two distinct
/// slots zero and one in order, and the two following `draw` calls bind
/// exactly those two slots in the same order.
pub proof fn lemma_two_prepares_two_draws_bind_in_order(m: EntryModel, t1: Transform, t2: Transform)
    requires
        entry_wf(m),
        m.prepare_index == 0,
        m.draw_index == 0,
    ensures
        entry_prepared(entry_prepared(m, t1), t2).ring[0] == t1,
        entry_prepared(entry_prepared(m, t1), t2).ring[1] == t2,
        draw_offset(entry_prepared(entry_prepared(m, t1), t2)) == 0,
        draw_offset(entry_drawn(entry_prepared(entry_prepared(m, t1), t2))) == RECORD_STRIDE,
{
}

/// The entry reached after preparing every transform of `ts` in order.
pub open spec fn entry_prepared_seq(m: EntryModel, ts: Seq<Transform>) -> EntryModel
    decreases ts.len(),
{
    if ts.len() == 0 {
        m
    } else {
        entry_prepared(entry_prepared_seq(m, ts.drop_last()), ts.last())
    }
}

/// The entry reached after `n` draws.
pub open spec fn entry_drawn_seq(m: EntryModel, n: int) -> EntryModel
    decreases n,
{
    if n <= 0 {
        m
    } else {
        entry_drawn(entry_drawn_seq(m, n - 1))
    }
}

/// Capacity boundary, write side: up to the ring capacity, consecutive
/// `prepare` calls on a fresh entry fill consecutive distinct slots with no
/// collision -- slot `k` holds the `k`-th transform -- and the write index
/// wraps back to slot zero exactly when the capacity is reached.
pub proof fn lemma_ring_fills_without_collision(m: EntryModel, ts: Seq<Transform>)
    requires
        entry_wf(m),
        m.prepare_index == 0,
        ts.len() <= RING_CAPACITY,
    ensures
        entry_wf(entry_prepared_seq(m, ts)),
        entry_prepared_seq(m, ts).prepare_index == if ts.len() < RING_CAPACITY {
            ts.len() as int
        } else {
            0
        },
        ts.len() > 0 ==> entry_prepared_seq(m, ts).draw_index == 0,
        forall|k: int| 0 <= k < ts.len() ==> entry_prepared_seq(m, ts).ring[k] == ts[k],
        entry_prepared_seq(m, ts).ring.len() == m.ring.len(),
    decreases ts.len(),
{
    if ts.len() == 0 {
    } else {
        lemma_ring_fills_without_collision(m, ts.drop_last());
        let mp = entry_prepared_seq(m, ts.drop_last());
        assert(entry_prepared_seq(m, ts) == entry_prepared(mp, ts.last()));
        assert forall|k: int| 0 <= k < ts.len() implies entry_prepared_seq(m, ts).ring[k]
            == ts[k] by {
            if k < ts.len() - 1 {
                assert(ts.drop_last()[k] == ts[k]);
            }
        }
    }
}

/// Capacity boundary, wrap: the prepare right after the capacity-filling
/// sequence silently overwrites slot zero before it was ever drawn, while
/// every other slot still holds its original transform.
pub proof fn lemma_ring_wraps_at_capacity(m: EntryModel, ts: Seq<Transform>)
    requires
        entry_wf(m),
        m.prepare_index == 0,
        ts.len() == RING_CAPACITY + 1,
    ensures
        entry_prepared_seq(m, ts).ring[0] == ts.last(),
        forall|k: int| 1 <= k < RING_CAPACITY ==> entry_prepared_seq(m, ts).ring[k] == ts[k],
{
    lemma_ring_fills_without_collision(m, ts.drop_last());
    let mp = entry_prepared_seq(m, ts.drop_last());
    assert(entry_prepared_seq(m, ts) == entry_prepared(mp, ts.last()));
    assert forall|k: int| 1 <= k < RING_CAPACITY implies entry_prepared_seq(m, ts).ring[k]
        == ts[k] by {
        assert(ts.drop_last()[k] == ts[k]);
    }
}

/// Capacity boundary, read side: consecutive draws bind consecutive slots,
/// so the `k`-th draw after a reset binds the slot at offset `k` strides --
/// 256 distinct offsets for 256 draws -- and never touches the ring
/// contents.
pub proof fn lemma_draws_bind_slots_in_order(m: EntryModel, k: int)
    requires
        entry_wf(m),
        m.draw_index == 0,
        0 <= k < RING_CAPACITY,
    ensures
        entry_wf(entry_drawn_seq(m, k)),
        entry_drawn_seq(m, k).draw_index == k,
        entry_drawn_seq(m, k).ring == m.ring,
        draw_offset(entry_drawn_seq(m, k)) == k * (RECORD_STRIDE as int),
    decreases k,
{
    if k == 0 {
    } else {
        lemma_draws_bind_slots_in_order(m, k - 1);
    }
}

/// Idempotence of cleanup: a `prepare` issued while no entry has a cleared
/// liveness flag alters no part of the id-to-entry mapping beyond the
/// prepared entry's own ring and indices -- the sweep keeps every entry and
/// reclaims nothing.
pub proof fn lemma_prepare_with_all_alive_reclaims_nothing(
    s: Seq<EntryModel>,
    id: u64,
    t: Transform,
)
    requires
        registry_wf(s),
        forall|i: int| 0 <= i < s.len() ==> (#[trigger] s[i]).alive,
    ensures
        ({
            let i = spec_index_of(s, id);
            let s1 = if i >= 0 {
                s.update(i, entry_prepared(s[i], t))
            } else {
                s
            };
            sweep(s1) == s1 && dead_ids(s1).len() == 0
        }),
{
    lemma_index_of_first(s, id);
    let i = spec_index_of(s, id);
    let s1 = if i >= 0 {
        s.update(i, entry_prepared(s[i], t))
    } else {
        s
    };
    assert(forall|j: int| 0 <= j < s1.len() ==> (#[trigger] s1[j]).alive);
    lemma_sweep_keeps_all_alive(s1);
}

/// Reclamation: once an id's liveness flag is cleared, the sweep run by the
/// next `prepare` call (whichever id that call is for) removes the entry,
/// and a subsequent `draw` for the id finds nothing -- by the draw
/// contract, a no-op.
pub proof fn lemma_cleared_entry_is_reclaimed(
    s: Seq<EntryModel>,
    id: u64,
    prepared_id: u64,
    t: Transform,
)
    requires
        registry_wf(s),
        has_id(s, id),
        !entry_of(s, id).alive,
    ensures
        ({
            let i = spec_index_of(s, prepared_id);
            let s1 = if i >= 0 {
                s.update(i, entry_prepared(s[i], t))
            } else {
                s
            };
            !has_id(sweep(s1), id)
        }),
{
    lemma_index_of_first(s, id);
    lemma_index_of_first(s, prepared_id);
    let i = spec_index_of(s, prepared_id);
    let s1 = if i >= 0 {
        s.update(i, entry_prepared(s[i], t))
    } else {
        s
    };
    let iid = spec_index_of(s, id);
    assert(registry_wf(s1));
    assert forall|j: int| 0 <= j < s1.len() && (#[trigger] s1[j]).id == id implies !s1[j].alive by {
        if j != iid {
            assert(s[j].id != id);
        }
    }
    lemma_sweep_drops_cleared(s1, id);
}

} // verus!
