//! Properties of the store's lifecycle that span several operations, proved
//! over the model in `store`.

use vstd::prelude::*;

use crate::store::{
    add_outcome, after_add, after_cleanup, after_mark, after_save, claim, count_batched,
    count_pending, event_expired, has_batch, has_event, insert_by_time, is_pending, is_pending_id,
    batch_expired, kept_batches, kept_events, lemma_kept_events_len, lemma_pending_sorted,
    listings_claimed, mark_outcome, new_batch_row, owner_pending, pending_by_time,
    pending_upto, save_outcome, sorted_by_time, store_wf, swept_count, BatchRow, BatchStatus,
    EventRow, StoreView, TelemetryError,
};
use crate::telemetry::EventView;

verus! {

proof fn lemma_insert_members(s: Seq<EventView>, x: EventView)
    ensures
        forall|y: EventView| #[trigger] insert_by_time(s, x).contains(y) ==> y == x || s.contains(y),
    decreases s.len(),
{
    if s.len() > 0 && x.timestamp < s.last().timestamp {
        lemma_insert_members(s.drop_last(), x);
        let r = insert_by_time(s.drop_last(), x);
        assert forall|y: EventView| #[trigger] insert_by_time(s, x).contains(y) implies y == x
            || s.contains(y) by {
            let w = choose|w: int| 0 <= w < r.push(s.last()).len() && r.push(s.last())[w] == y;
            if w < r.len() {
                assert(r.contains(y));
                if y != x {
                    let u = choose|u: int| 0 <= u < s.drop_last().len() && s.drop_last()[u] == y;
                    assert(s[u] == y);
                }
            } else {
                assert(s[s.len() - 1] == y);
            }
        }
    } else if s.len() > 0 {
        assert forall|y: EventView| #[trigger] insert_by_time(s, x).contains(y) implies y == x
            || s.contains(y) by {
            let w = choose|w: int| 0 <= w < s.push(x).len() && s.push(x)[w] == y;
            if w < s.len() {
                assert(s[w] == y);
            }
        }
    } else {
        assert forall|y: EventView| #[trigger] insert_by_time(s, x).contains(y) implies y == x
            || s.contains(y) by {
            assert(seq![x][0] == x);
        }
    }
}

/// Every event that `pending_by_time` lists is the event of a pending row.
proof fn lemma_pending_members(rows: Seq<EventRow>)
    ensures
        forall|y: EventView| #[trigger]
            pending_by_time(rows).contains(y) ==> exists|i: int|
                0 <= i < rows.len() && rows[i].event == y && is_pending(rows[i]),
    decreases rows.len(),
{
    if rows.len() > 0 {
        let d = rows.drop_last();
        lemma_pending_members(d);
        assert forall|y: EventView| #[trigger] pending_by_time(rows).contains(y) implies exists|
            i: int,
        | 0 <= i < rows.len() && rows[i].event == y && is_pending(rows[i]) by {
            if is_pending(rows.last()) {
                lemma_insert_members(pending_by_time(d), rows.last().event);
                if y == rows.last().event {
                    assert(rows[rows.len() - 1] == rows.last());
                } else {
                    assert(pending_by_time(d).contains(y));
                    let i = choose|i: int| 0 <= i < d.len() && d[i].event == y && is_pending(d[i]);
                    assert(rows[i] == d[i]);
                }
            } else {
                assert(pending_by_time(d).contains(y));
                let i = choose|i: int| 0 <= i < d.len() && d[i].event == y && is_pending(d[i]);
                assert(rows[i] == d[i]);
            }
        }
    }
}

proof fn lemma_pending_upto_members(v: StoreView, limit: nat)
    ensures
        forall|y: EventView| #[trigger]
            pending_upto(v, limit).contains(y) ==> exists|i: int|
                0 <= i < v.events.len() && v.events[i].event == y && is_pending(v.events[i]),
{
    lemma_pending_members(v.events);
    let p = pending_by_time(v.events);
    assert forall|y: EventView| #[trigger] pending_upto(v, limit).contains(y) implies exists|i: int|
        0 <= i < v.events.len() && v.events[i].event == y && is_pending(v.events[i]) by {
        if p.len() > limit {
            let w = choose|w: int| 0 <= w < p.take(limit as int).len() && p.take(limit as int)[w] == y;
            assert(p[w] == y);
            assert(p.contains(y));
        }
    }
}

/// The pending events are listed oldest first, and each is a stored event
/// that no batch has claimed.
pub proof fn lemma_pending_ordered(v: StoreView, limit: nat)
    ensures
        sorted_by_time(pending_upto(v, limit)),
        pending_upto(v, limit).len() <= limit,
        forall|y: EventView| #[trigger]
            pending_upto(v, limit).contains(y) ==> exists|i: int|
                0 <= i < v.events.len() && v.events[i].event == y && is_pending(v.events[i]),
{
    lemma_pending_upto_members(v, limit);
    lemma_pending_sorted(v.events);
}

/// Once a batch that claims an event is stored, that event is never again
/// among the pending events, and a later batch that names it is refused; when
/// the later batch's identifier is fresh and all its events are stored, the
/// refusal is a `State` error.
pub proof fn lemma_no_double_batching(
    v: StoreView,
    batch_id: Seq<char>,
    created_at: int,
    size_bytes: int,
    ids: Seq<Seq<char>>,
    k: int,
    limit: nat,
    next_id: Seq<char>,
    next_ids: Seq<Seq<char>>,
)
    requires
        store_wf(v),
        save_outcome(v, batch_id, ids) is Ok,
        0 <= k < ids.len(),
        next_ids.contains(ids[k]),
    ensures
        ({
            let w = after_save(v, batch_id, created_at, size_bytes, ids);
            &&& forall|y: EventView| #[trigger]
                pending_upto(w, limit).contains(y) ==> y.id != ids[k]
            &&& save_outcome(w, next_id, next_ids) is Err
            &&& (!has_batch(w.batches, next_id) && forall|c: int|
                0 <= c < next_ids.len() ==> has_event(w.events, next_ids[c])) ==> save_outcome(
                w,
                next_id,
                next_ids,
            ) == Err::<(), TelemetryError>(TelemetryError::State)
        }),
{
    let w = after_save(v, batch_id, created_at, size_bytes, ids);
    assert(w.events == claim(v.events, batch_id, ids));
    assert(ids.contains(ids[k]));
    // No row of `w` with the identifier ids[k] is pending.
    assert forall|i: int| 0 <= i < w.events.len() && w.events[i].event.id == ids[k] implies !is_pending(
        w.events[i],
    ) by {
        assert(v.events[i].event.id == ids[k]);
    }
    lemma_pending_upto_members(w, limit);
    assert forall|y: EventView| #[trigger] pending_upto(w, limit).contains(y) implies y.id
        != ids[k] by {
        let i = choose|i: int|
            0 <= i < w.events.len() && w.events[i].event == y && is_pending(w.events[i]);
    }
    let c = choose|c: int| 0 <= c < next_ids.len() && next_ids[c] == ids[k];
    assert(!is_pending_id(w.events, next_ids[c]));
}

/// A stored event with identifier `id` is claimed by batch `batch_id`.
pub open spec fn claimed_by(rows: Seq<EventRow>, id: Seq<char>, batch_id: Seq<char>) -> bool {
    exists|i: int| 0 <= i < rows.len() && rows[i].event.id == id && rows[i].batch_id == Some(batch_id)
}

/// Storing a batch is all or nothing: on success the batch row is added and
/// every event the batch names is claimed by it, no other row changes; on
/// failure the store is as it was.
pub proof fn lemma_save_all_or_nothing(
    v: StoreView,
    batch_id: Seq<char>,
    created_at: int,
    size_bytes: int,
    ids: Seq<Seq<char>>,
)
    ensures
        ({
            let w = after_save(v, batch_id, created_at, size_bytes, ids);
            ||| save_outcome(v, batch_id, ids) is Err && w == v
            ||| {
                &&& save_outcome(v, batch_id, ids) is Ok
                &&& w.batches == v.batches.push(
                    new_batch_row(batch_id, created_at, size_bytes, ids),
                )
                &&& w.events.len() == v.events.len()
                &&& forall|i: int|
                    0 <= i < v.events.len() ==> if ids.contains(v.events[i].event.id) {
                        w.events[i].batch_id == Some(batch_id) && w.events[i].event
                            == v.events[i].event
                    } else {
                        w.events[i] == v.events[i]
                    }
                &&& forall|c: int| 0 <= c < ids.len() ==> claimed_by(w.events, #[trigger] ids[c], batch_id)
            }
        }),
{
    let w = after_save(v, batch_id, created_at, size_bytes, ids);
    if save_outcome(v, batch_id, ids) is Ok {
        assert(w.events == claim(v.events, batch_id, ids));
        assert(w.events.len() == v.events.len());
        assert forall|i: int| 0 <= i < v.events.len() implies if ids.contains(v.events[i].event.id) {
            w.events[i].batch_id == Some(batch_id) && w.events[i].event == v.events[i].event
        } else {
            w.events[i] == v.events[i]
        } by {}
        assert forall|c: int| 0 <= c < ids.len() implies claimed_by(w.events, #[trigger] ids[c], batch_id) by {
            assert(has_event(v.events, ids[c]));
            let i = choose|i: int| 0 <= i < v.events.len() && v.events[i].event.id == ids[c];
            assert(ids.contains(ids[c]));
            assert(w.events[i].event.id == ids[c]);
        }
    }
}

proof fn lemma_count_split(rows: Seq<EventRow>)
    ensures
        count_pending(rows) + count_batched(rows) == rows.len(),
    decreases rows.len(),
{
    if rows.len() > 0 {
        lemma_count_split(rows.drop_last());
    }
}

/// The pending and batched counts always add up to the events stored; adding
/// an event stores one more, storing a batch or marking one sent keeps the
/// events' number, and a sweep removes exactly the events it reports.
pub proof fn lemma_conservation(
    v: StoreView,
    e: EventView,
    batch_id: Seq<char>,
    created_at: int,
    size_bytes: int,
    ids: Seq<Seq<char>>,
    now: int,
    cutoff: int,
)
    ensures
        count_pending(v.events) + count_batched(v.events) == v.events.len(),
        after_add(v, e).events.len() == v.events.len() + if add_outcome(v, e) is Ok {
            1int
        } else {
            0int
        },
        after_save(v, batch_id, created_at, size_bytes, ids).events.len() == v.events.len(),
        after_mark(v, batch_id, now).events == v.events,
        after_cleanup(v, cutoff).events.len() == v.events.len() - swept_count(v, cutoff),
{
    lemma_count_split(v.events);
}

proof fn lemma_unexpired_kept(batches: Seq<BatchRow>, rows: Seq<EventRow>, cutoff: int)
    ensures
        forall|i: int|
            0 <= i < rows.len() && !event_expired(batches, rows[i], cutoff) ==> kept_events(
                batches,
                rows,
                cutoff,
            ).contains(#[trigger] rows[i]),
    decreases rows.len(),
{
    if rows.len() > 0 {
        let d = rows.drop_last();
        lemma_unexpired_kept(batches, d, cutoff);
        let kd = kept_events(batches, d, cutoff);
        assert forall|i: int|
            0 <= i < rows.len() && !event_expired(batches, rows[i], cutoff) implies kept_events(
            batches,
            rows,
            cutoff,
        ).contains(#[trigger] rows[i]) by {
            if i < rows.len() - 1 {
                assert(d[i] == rows[i]);
                assert(kd.contains(d[i]));
                let w = choose|w: int| 0 <= w < kd.len() && kd[w] == d[i];
                if !event_expired(batches, rows.last(), cutoff) {
                    assert(kd.push(rows.last())[w] == rows[i]);
                }
            } else {
                assert(kd.push(rows.last())[kd.len() as int] == rows[i]);
            }
        }
    }
}

proof fn lemma_unexpired_batches_kept(batches: Seq<BatchRow>, cutoff: int)
    ensures
        forall|j: int|
            0 <= j < batches.len() && !batch_expired(batches[j], cutoff) ==> kept_batches(
                batches,
                cutoff,
            ).contains(#[trigger] batches[j]),
    decreases batches.len(),
{
    if batches.len() > 0 {
        let d = batches.drop_last();
        lemma_unexpired_batches_kept(d, cutoff);
        let kd = kept_batches(d, cutoff);
        assert forall|j: int|
            0 <= j < batches.len() && !batch_expired(batches[j], cutoff) implies kept_batches(
            batches,
            cutoff,
        ).contains(#[trigger] batches[j]) by {
            if j < batches.len() - 1 {
                assert(d[j] == batches[j]);
                assert(kd.contains(d[j]));
                let w = choose|w: int| 0 <= w < kd.len() && kd[w] == d[j];
                if !batch_expired(batches.last(), cutoff) {
                    assert(kd.push(batches.last())[w] == batches[j]);
                }
            } else {
                assert(kd.push(batches.last())[kd.len() as int] == batches[j]);
            }
        }
    }
}

/// A sweep never deletes a pending event, whatever the cutoff.
pub proof fn lemma_cleanup_spares_pending(v: StoreView, cutoff: int, i: int)
    requires
        0 <= i < v.events.len(),
        is_pending(v.events[i]),
    ensures
        after_cleanup(v, cutoff).events.contains(v.events[i]),
{
    lemma_unexpired_kept(v.batches, v.events, cutoff);
}

/// A sweep never deletes a pending batch, nor any stored event that a
/// pending batch lists, whatever the cutoff.
pub proof fn lemma_cleanup_spares_unsent(v: StoreView, cutoff: int, j: int, k: int, i: int)
    requires
        store_wf(v),
        0 <= j < v.batches.len(),
        v.batches[j].status == BatchStatus::Pending,
        0 <= k < v.batches[j].event_ids.len(),
        0 <= i < v.events.len(),
        v.events[i].event.id == v.batches[j].event_ids[k],
    ensures
        after_cleanup(v, cutoff).events.contains(v.events[i]),
        after_cleanup(v, cutoff).batches.contains(v.batches[j]),
{
    assert(listings_claimed(v.events, v.batches));
    assert(v.events[i].batch_id == Some(v.batches[j].batch_id));
    assert(owner_pending(v.batches, v.events[i]));
    lemma_unexpired_kept(v.batches, v.events, cutoff);
    lemma_unexpired_batches_kept(v.batches, cutoff);
}

/// Every stored event with identifier `id` is claimed by some batch.
pub open spec fn claimed_everywhere(rows: Seq<EventRow>, id: Seq<char>) -> bool {
    forall|i: int| 0 <= i < rows.len() && #[trigger] rows[i].event.id == id ==> !is_pending(rows[i])
}

/// One call on the store, with the values its contract speaks of (the clock
/// reading of `Mark`, the cutoff of `Sweep`).
pub enum StoreOp {
    Add(EventView),
    Save(Seq<char>, int, int, Seq<Seq<char>>),
    Mark(Seq<char>, int),
    Sweep(int),
}

pub open spec fn apply_op(v: StoreView, op: StoreOp) -> StoreView {
    match op {
        StoreOp::Add(e) => after_add(v, e),
        StoreOp::Save(batch_id, created_at, size_bytes, ids) => after_save(
            v,
            batch_id,
            created_at,
            size_bytes,
            ids,
        ),
        StoreOp::Mark(batch_id, now) => after_mark(v, batch_id, now),
        StoreOp::Sweep(cutoff) => after_cleanup(v, cutoff),
    }
}

/// The store after the calls `ops`, in order.
pub open spec fn run_ops(v: StoreView, ops: Seq<StoreOp>) -> StoreView
    decreases ops.len(),
{
    if ops.len() == 0 {
        v
    } else {
        apply_op(run_ops(v, ops.drop_last()), ops.last())
    }
}

/// How many of the calls `ops` added an event.
pub open spec fn added_by(v: StoreView, ops: Seq<StoreOp>) -> int
    decreases ops.len(),
{
    if ops.len() == 0 {
        0
    } else {
        added_by(v, ops.drop_last()) + match ops.last() {
            StoreOp::Add(e) => if add_outcome(run_ops(v, ops.drop_last()), e) is Ok {
                1int
            } else {
                0int
            },
            _ => 0int,
        }
    }
}

/// How many events the sweeps among `ops` deleted.
pub open spec fn swept_by(v: StoreView, ops: Seq<StoreOp>) -> int
    decreases ops.len(),
{
    if ops.len() == 0 {
        0
    } else {
        swept_by(v, ops.drop_last()) + match ops.last() {
            StoreOp::Sweep(cutoff) => swept_count(run_ops(v, ops.drop_last()), cutoff),
            _ => 0int,
        }
    }
}

/// Over any history of calls, the pending and batched counts add up to the
/// events there were, plus those added, minus those the sweeps deleted.
pub proof fn lemma_conservation_over_history(v: StoreView, ops: Seq<StoreOp>)
    ensures
        count_pending(run_ops(v, ops).events) + count_batched(run_ops(v, ops).events)
            == v.events.len() + added_by(v, ops) - swept_by(v, ops),
    decreases ops.len(),
{
    lemma_count_split(v.events);
    if ops.len() > 0 {
        let pre = run_ops(v, ops.drop_last());
        let w = run_ops(v, ops);
        lemma_conservation_over_history(v, ops.drop_last());
        lemma_count_split(pre.events);
        lemma_count_split(w.events);
        assert(w == apply_op(pre, ops.last()));
        match ops.last() {
            StoreOp::Add(e) => {
                lemma_conservation(pre, e, Seq::empty(), 0, 0, Seq::empty(), 0, 0);
                assert(added_by(v, ops) == added_by(v, ops.drop_last()) + if add_outcome(pre, e) is Ok {
                    1int
                } else {
                    0int
                });
                assert(swept_by(v, ops) == swept_by(v, ops.drop_last()));
            },
            StoreOp::Save(b, c, z, ids) => {
                lemma_conservation(pre, arbitrary(), b, c, z, ids, 0, 0);
                assert(added_by(v, ops) == added_by(v, ops.drop_last()));
                assert(swept_by(v, ops) == swept_by(v, ops.drop_last()));
            },
            StoreOp::Mark(b, now) => {
                lemma_conservation(pre, arbitrary(), b, 0, 0, Seq::empty(), now, 0);
                assert(added_by(v, ops) == added_by(v, ops.drop_last()));
                assert(swept_by(v, ops) == swept_by(v, ops.drop_last()));
            },
            StoreOp::Sweep(cutoff) => {
                lemma_conservation(pre, arbitrary(), Seq::empty(), 0, 0, Seq::empty(), 0, cutoff);
                assert(added_by(v, ops) == added_by(v, ops.drop_last()));
                assert(swept_by(v, ops) == swept_by(v, ops.drop_last()) + swept_count(pre, cutoff));
            },
        }
    }
}

/// Once every stored event with identifier `id` is claimed, any further
/// calls that add no event under that identifier keep it so: a claimed event
/// never returns to pending.
pub proof fn lemma_claim_persists(v: StoreView, ops: Seq<StoreOp>, id: Seq<char>)
    requires
        claimed_everywhere(v.events, id),
        forall|o: int| 0 <= o < ops.len() ==> !(#[trigger] ops[o] matches StoreOp::Add(e) && e.id == id),
    ensures
        claimed_everywhere(run_ops(v, ops).events, id),
    decreases ops.len(),
{
    if ops.len() > 0 {
        let pre = run_ops(v, ops.drop_last());
        assert forall|o: int| 0 <= o < ops.drop_last().len() implies !(#[trigger] ops.drop_last()[o] matches StoreOp::Add(e) && e.id == id) by {
            assert(ops.drop_last()[o] == ops[o]);
        }
        lemma_claim_persists(v, ops.drop_last(), id);
        let w = run_ops(v, ops);
        match ops.last() {
            StoreOp::Add(e) => {
                assert forall|i: int| 0 <= i < w.events.len() && #[trigger] w.events[i].event.id == id implies !is_pending(w.events[i]) by {
                    if add_outcome(pre, e) is Ok && i == pre.events.len() {
                        assert(ops[ops.len() - 1] == ops.last());
                    } else {
                        assert(w.events[i] == pre.events[i]);
                    }
                }
            },
            StoreOp::Save(b, c, z, ids) => {
                assert forall|i: int| 0 <= i < w.events.len() && #[trigger] w.events[i].event.id == id implies !is_pending(w.events[i]) by {
                    assert(pre.events[i].event.id == id);
                }
            },
            StoreOp::Mark(b, now) => {},
            StoreOp::Sweep(cutoff) => {
                lemma_kept_events_len(pre.batches, pre.events, cutoff);
                assert forall|i: int| 0 <= i < w.events.len() && #[trigger] w.events[i].event.id == id implies !is_pending(w.events[i]) by {
                    let kept = kept_events(pre.batches, pre.events, cutoff);
                    assert(pre.events.contains(kept[i]));
                    let u = choose|u: int| 0 <= u < pre.events.len() && pre.events[u] == kept[i];
                    assert(pre.events[u].event.id == id);
                }
            },
        }
    }
}

/// A stored batch claims all its events everywhere they are stored.
pub proof fn lemma_saved_events_claimed(
    v: StoreView,
    batch_id: Seq<char>,
    created_at: int,
    size_bytes: int,
    ids: Seq<Seq<char>>,
    k: int,
)
    requires
        save_outcome(v, batch_id, ids) is Ok,
        0 <= k < ids.len(),
    ensures
        claimed_everywhere(after_save(v, batch_id, created_at, size_bytes, ids).events, ids[k]),
{
    let w = after_save(v, batch_id, created_at, size_bytes, ids);
    assert forall|i: int| 0 <= i < w.events.len() && #[trigger] w.events[i].event.id == ids[k] implies !is_pending(w.events[i]) by {
        assert(v.events[i].event.id == ids[k]);
        assert(ids.contains(ids[k]));
    }
}

/// In a valid store, an event stored as batched is claimed wherever its
/// identifier is stored, since identifiers are unique.
pub proof fn lemma_batched_row_claimed(v: StoreView, i: int)
    requires
        store_wf(v),
        0 <= i < v.events.len(),
        !is_pending(v.events[i]),
    ensures
        claimed_everywhere(v.events, v.events[i].event.id),
{
    assert forall|u: int| 0 <= u < v.events.len() && #[trigger] v.events[u].event.id == v.events[i].event.id implies !is_pending(v.events[u]) by {
        if u != i {
            if u < i {
                assert(v.events[u].event.id != v.events[i].event.id);
            } else {
                assert(v.events[i].event.id != v.events[u].event.id);
            }
        }
    }
}

/// A claimed event is never listed as pending, and any batch that names it
/// is refused; when that batch's identifier is fresh and all its events are
/// stored, the refusal is a `State` error.
pub proof fn lemma_claimed_event_refused(
    w: StoreView,
    id: Seq<char>,
    limit: nat,
    next_id: Seq<char>,
    next_ids: Seq<Seq<char>>,
)
    requires
        claimed_everywhere(w.events, id),
        next_ids.contains(id),
    ensures
        forall|y: EventView| #[trigger] pending_upto(w, limit).contains(y) ==> y.id != id,
        save_outcome(w, next_id, next_ids) is Err,
        (!has_batch(w.batches, next_id) && forall|c: int|
            0 <= c < next_ids.len() ==> has_event(w.events, next_ids[c])) ==> save_outcome(
            w,
            next_id,
            next_ids,
        ) == Err::<(), TelemetryError>(TelemetryError::State),
{
    lemma_pending_upto_members(w, limit);
    assert forall|y: EventView| #[trigger] pending_upto(w, limit).contains(y) implies y.id != id by {
        if y.id == id {
            let i = choose|i: int|
                0 <= i < w.events.len() && w.events[i].event == y && is_pending(w.events[i]);
            assert(w.events[i].event.id == id);
        }
    }
    let c = choose|c: int| 0 <= c < next_ids.len() && next_ids[c] == id;
    assert(!is_pending_id(w.events, next_ids[c])) by {
        if is_pending_id(w.events, next_ids[c]) {
            let i = choose|i: int|
                0 <= i < w.events.len() && w.events[i].event.id == next_ids[c] && is_pending(w.events[i]);
            assert(w.events[i].event.id == id);
        }
    }
}

/// Marking a batch sent twice succeeds both times, and the second call
/// changes nothing: the batch keeps the `sent_at` of the first call (or the
/// one it had, if it was sent before).
pub proof fn lemma_mark_sent_idempotent(v: StoreView, batch_id: Seq<char>, first: int, second: int)
    requires
        store_wf(v),
        has_batch(v.batches, batch_id),
    ensures
        mark_outcome(v, batch_id) is Ok,
        mark_outcome(after_mark(v, batch_id, first), batch_id) is Ok,
        after_mark(after_mark(v, batch_id, first), batch_id, second) == after_mark(
            v,
            batch_id,
            first,
        ),
        forall|j: int|
            0 <= j < v.batches.len() && v.batches[j].batch_id == batch_id ==> {
                let b = after_mark(v, batch_id, first).batches[j];
                &&& b.status == BatchStatus::Sent
                &&& b.sent_at == if v.batches[j].status == BatchStatus::Pending {
                    Some(first)
                } else {
                    v.batches[j].sent_at
                }
            },
{
    let w = after_mark(v, batch_id, first);
    let j = choose|j: int| 0 <= j < v.batches.len() && v.batches[j].batch_id == batch_id;
    assert(w.batches.len() == v.batches.len());
    assert(forall|a: int| 0 <= a < w.batches.len() ==> w.batches[a].batch_id == v.batches[a].batch_id);
    assert(has_batch(w.batches, batch_id));
    let j2 = choose|j2: int| 0 <= j2 < w.batches.len() && w.batches[j2].batch_id == batch_id;
    assert(j2 == j);
}

proof fn lemma_sweep_keeps_pending(batches: Seq<BatchRow>, rows: Seq<EventRow>, cutoff: int)
    ensures
        pending_by_time(kept_events(batches, rows, cutoff)) == pending_by_time(rows),
    decreases rows.len(),
{
    if rows.len() > 0 {
        let d = rows.drop_last();
        lemma_sweep_keeps_pending(batches, d, cutoff);
        if !event_expired(batches, rows.last(), cutoff) {
            let k = kept_events(batches, d, cutoff).push(rows.last());
            assert(k.drop_last() =~= kept_events(batches, d, cutoff));
        }
    }
}

/// Without new inserts or batches the pending listing stays the same:
/// marking a batch sent and sweeping old data leave it unchanged.
pub proof fn lemma_pending_stable(v: StoreView, limit: nat, batch_id: Seq<char>, now: int, cutoff: int)
    ensures
        pending_upto(after_mark(v, batch_id, now), limit) == pending_upto(v, limit),
        pending_upto(after_cleanup(v, cutoff), limit) == pending_upto(v, limit),
{
    lemma_sweep_keeps_pending(v.batches, v.events, cutoff);
}

} // verus!
