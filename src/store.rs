//! The telemetry store: an append-only log of events, the batches that claim
//! them, and the send lifecycle and retention sweep of those batches.
//!
//! Every operation is one atomic step from a state to the next: the `ensures`
//! of each method gives the next state as a spec function of the view, and a
//! failed operation leaves the store as it was.

use vstd::prelude::*;

use crate::telemetry::{EventBatch, EventView, TelemetryEvent, batch_size, events_view, opt_view};

verus! {

/// Errors of the store's operations.
#[derive(Debug, Clone, Copy, PartialEq, Eq, Structural)]
pub enum TelemetryError {
    /// A write conflicts with what is stored (an identifier is taken).
    Storage,
    /// An identifier names nothing that is stored.
    NotFound,
    /// The operation would break the lifecycle of events or batches.
    State,
}

impl TelemetryError {
    /// A short description of the error.
    pub fn message(&self) -> (r: &'static str)
        ensures
            r@ == match *self {
                TelemetryError::Storage => "storage error: identifier already stored"@,
                TelemetryError::NotFound => "not found"@,
                TelemetryError::State => "state error: lifecycle violated"@,
            },
    {
        match self {
            TelemetryError::Storage => "storage error: identifier already stored",
            TelemetryError::NotFound => "not found",
            TelemetryError::State => "state error: lifecycle violated",
        }
    }
}

/// Delivery status of a batch.
#[derive(Debug, Clone, Copy, PartialEq, Eq, Structural)]
pub enum BatchStatus {
    Pending,
    Sent,
}

/// A stored event; `batch_id` names the batch that claimed it, and is `None`
/// while the event is pending.
#[derive(Debug, Clone)]
pub struct StoredEvent {
    pub event: TelemetryEvent,
    pub batch_id: Option<String>,
}

/// A stored batch: the identifiers of the events it claimed, frozen at
/// creation. Times are nanoseconds since the Unix epoch (UTC).
#[derive(Debug, Clone)]
pub struct BatchRecord {
    pub batch_id: String,
    pub created_at: i64,
    pub sent_at: Option<i64>,
    pub size_bytes: usize,
    pub event_ids: Vec<String>,
    pub status: BatchStatus,
}

/// Aggregate counts of the store.
#[derive(Debug, Clone, Copy, PartialEq, Eq, Structural)]
pub struct TelemetryStats {
    pub pending_events: usize,
    pub batched_events: usize,
    pub total_batches: usize,
    pub sent_batches: usize,
}

pub struct EventRow {
    pub event: EventView,
    pub batch_id: Option<Seq<char>>,
}

pub struct BatchRow {
    pub batch_id: Seq<char>,
    pub created_at: int,
    pub sent_at: Option<int>,
    pub size_bytes: int,
    pub event_ids: Seq<Seq<char>>,
    pub status: BatchStatus,
}

pub struct StoreView {
    pub events: Seq<EventRow>,
    pub batches: Seq<BatchRow>,
}

impl View for StoredEvent {
    type V = EventRow;

    open spec fn view(&self) -> EventRow {
        EventRow { event: self.event@, batch_id: opt_view(self.batch_id) }
    }
}

pub open spec fn ids_view(v: Seq<String>) -> Seq<Seq<char>> {
    v.map_values(|s: String| s@)
}

impl View for BatchRecord {
    type V = BatchRow;

    open spec fn view(&self) -> BatchRow {
        BatchRow {
            batch_id: self.batch_id@,
            created_at: self.created_at as int,
            sent_at: match self.sent_at {
                Some(t) => Some(t as int),
                None => None,
            },
            size_bytes: self.size_bytes as int,
            event_ids: ids_view(self.event_ids@),
            status: self.status,
        }
    }
}

/// The store. Its contents are private; callers see them through `view`.
pub struct Store {
    events: Vec<StoredEvent>,
    batches: Vec<BatchRecord>,
}

pub open spec fn rows_view(v: Seq<StoredEvent>) -> Seq<EventRow> {
    v.map_values(|r: StoredEvent| r@)
}

pub open spec fn batch_rows_view(v: Seq<BatchRecord>) -> Seq<BatchRow> {
    v.map_values(|b: BatchRecord| b@)
}

impl View for Store {
    type V = StoreView;

    closed spec fn view(&self) -> StoreView {
        StoreView { events: rows_view(self.events@), batches: batch_rows_view(self.batches@) }
    }
}

// ---------------------------------------------------------------------------
// The model
pub open spec fn has_event(rows: Seq<EventRow>, id: Seq<char>) -> bool {
    exists|i: int| 0 <= i < rows.len() && rows[i].event.id == id
}

pub open spec fn has_batch(batches: Seq<BatchRow>, id: Seq<char>) -> bool {
    exists|j: int| 0 <= j < batches.len() && batches[j].batch_id == id
}

pub open spec fn is_pending(r: EventRow) -> bool {
    r.batch_id is None
}

/// Some stored batch lists the event identifier `id`.
pub open spec fn listed_by(batches: Seq<BatchRow>, id: Seq<char>) -> bool {
    exists|j: int, k: int|
        0 <= j < batches.len() && 0 <= k < batches[j].event_ids.len() && #[trigger] batches[j].event_ids[k]
            == id
}

/// Every stored event that a batch lists is claimed by that batch.
pub open spec fn listings_claimed(events: Seq<EventRow>, batches: Seq<BatchRow>) -> bool {
    forall|j: int, k: int, i: int|
        #![trigger batches[j].event_ids[k], events[i]]
        0 <= j < batches.len() && 0 <= k < batches[j].event_ids.len() && 0 <= i < events.len()
            && events[i].event.id == batches[j].event_ids[k] ==> events[i].batch_id == Some(
            batches[j].batch_id,
        )
}

/// Event identifiers and batch identifiers are each unique, and every event
/// that a batch lists is claimed by that batch (so it belongs to no other).
pub open spec fn store_wf(v: StoreView) -> bool {
    &&& forall|i: int, k: int|
        0 <= i < k < v.events.len() ==> v.events[i].event.id != v.events[k].event.id
    &&& forall|i: int, k: int|
        0 <= i < k < v.batches.len() ==> v.batches[i].batch_id != v.batches[k].batch_id
    &&& listings_claimed(v.events, v.batches)
}

pub open spec fn count_pending(rows: Seq<EventRow>) -> nat
    decreases rows.len(),
{
    if rows.len() == 0 {
        0
    } else {
        count_pending(rows.drop_last()) + if is_pending(rows.last()) {
            1nat
        } else {
            0nat
        }
    }
}

pub open spec fn count_batched(rows: Seq<EventRow>) -> nat
    decreases rows.len(),
{
    if rows.len() == 0 {
        0
    } else {
        count_batched(rows.drop_last()) + if is_pending(rows.last()) {
            0nat
        } else {
            1nat
        }
    }
}

pub open spec fn count_sent(batches: Seq<BatchRow>) -> nat
    decreases batches.len(),
{
    if batches.len() == 0 {
        0
    } else {
        count_sent(batches.drop_last()) + if batches.last().status == BatchStatus::Sent {
            1nat
        } else {
            0nat
        }
    }
}

pub open spec fn stats_of(v: StoreView) -> TelemetryStats {
    TelemetryStats {
        pending_events: count_pending(v.events) as usize,
        batched_events: count_batched(v.events) as usize,
        total_batches: v.batches.len() as usize,
        sent_batches: count_sent(v.batches) as usize,
    }
}

/// Adding fails with `Storage` when the identifier is taken: an event with
/// it is stored, or a stored batch still lists it.
pub open spec fn add_outcome(v: StoreView, e: EventView) -> Result<(), TelemetryError> {
    if has_event(v.events, e.id) || listed_by(v.batches, e.id) {
        Err(TelemetryError::Storage)
    } else {
        Ok(())
    }
}

pub open spec fn after_add(v: StoreView, e: EventView) -> StoreView {
    if has_event(v.events, e.id) || listed_by(v.batches, e.id) {
        v
    } else {
        StoreView { events: v.events.push(EventRow { event: e, batch_id: None }), ..v }
    }
}

/// `s` with `x` placed after every element whose timestamp is not later
/// than its own: an insertion that keeps a time-ordered sequence ordered and
/// keeps events of equal time in the order they came.
pub open spec fn insert_by_time(s: Seq<EventView>, x: EventView) -> Seq<EventView>
    decreases s.len(),
{
    if s.len() == 0 {
        seq![x]
    } else if x.timestamp < s.last().timestamp {
        insert_by_time(s.drop_last(), x).push(s.last())
    } else {
        s.push(x)
    }
}

/// The pending events, ordered by timestamp, oldest first; events of equal
/// timestamp in the order they were added.
pub open spec fn pending_by_time(rows: Seq<EventRow>) -> Seq<EventView>
    decreases rows.len(),
{
    if rows.len() == 0 {
        Seq::empty()
    } else if is_pending(rows.last()) {
        insert_by_time(pending_by_time(rows.drop_last()), rows.last().event)
    } else {
        pending_by_time(rows.drop_last())
    }
}

/// The oldest `limit` pending events, oldest first.
pub open spec fn pending_upto(v: StoreView, limit: nat) -> Seq<EventView> {
    let p = pending_by_time(v.events);
    if p.len() <= limit {
        p
    } else {
        p.take(limit as int)
    }
}

pub open spec fn sorted_by_time(s: Seq<EventView>) -> bool {
    forall|i: int, k: int| 0 <= i < k < s.len() ==> s[i].timestamp <= s[k].timestamp
}

/// Where the exec insertion stops, the spec insertion puts `x`.
proof fn lemma_insert_at(s: Seq<EventView>, x: EventView, p: int)
    requires
        0 <= p <= s.len(),
        forall|j: int| p <= j < s.len() ==> s[j].timestamp > x.timestamp,
        p == 0 || s[p - 1].timestamp <= x.timestamp,
    ensures
        insert_by_time(s, x) == s.insert(p, x),
    decreases s.len(),
{
    if s.len() == 0 {
        assert(s.insert(p, x) =~= seq![x]);
    } else if x.timestamp < s.last().timestamp {
        lemma_insert_at(s.drop_last(), x, p);
        assert(s.drop_last().insert(p, x).push(s.last()) =~= s.insert(p, x));
    } else {
        assert(p == s.len());
        assert(s.push(x) =~= s.insert(p, x));
    }
}

proof fn lemma_insert_sorted(s: Seq<EventView>, x: EventView)
    requires
        sorted_by_time(s),
    ensures
        sorted_by_time(insert_by_time(s, x)),
        insert_by_time(s, x).to_multiset() == s.to_multiset().insert(x),
    decreases s.len(),
{
    broadcast use vstd::seq_lib::group_to_multiset_ensures;
    if s.len() == 0 {
        assert(seq![x] =~= Seq::<EventView>::empty().push(x));
    } else if x.timestamp < s.last().timestamp {
        let r = insert_by_time(s.drop_last(), x);
        lemma_insert_sorted(s.drop_last(), x);
        assert(s.drop_last().push(s.last()) =~= s);
        assert forall|i: int| 0 <= i < r.len() implies r[i].timestamp <= s.last().timestamp by {
            assert(r.to_multiset().count(r[i]) > 0);
            assert(s.drop_last().to_multiset().insert(x).count(r[i]) > 0);
            if r[i] != x {
                assert(s.drop_last().contains(r[i]));
            }
        }
    } else {
    }
}

/// The pending events are listed in time order.
pub proof fn lemma_pending_sorted(rows: Seq<EventRow>)
    ensures
        sorted_by_time(pending_by_time(rows)),
    decreases rows.len(),
{
    if rows.len() > 0 {
        lemma_pending_sorted(rows.drop_last());
        if is_pending(rows.last()) {
            lemma_insert_sorted(pending_by_time(rows.drop_last()), rows.last().event);
        }
    }
}

pub open spec fn is_pending_id(rows: Seq<EventRow>, id: Seq<char>) -> bool {
    exists|i: int| 0 <= i < rows.len() && rows[i].event.id == id && is_pending(rows[i])
}

pub open spec fn has_repeat(ids: Seq<Seq<char>>) -> bool {
    exists|a: int, b: int| 0 <= a < b < ids.len() && ids[a] == ids[b]
}

/// The identifiers of a batch's events, in order.
pub open spec fn event_ids_of(es: Seq<EventView>) -> Seq<Seq<char>> {
    es.map_values(|e: EventView| e.id)
}

/// The outcome of storing a batch `batch_id` that claims the events `ids`:
/// an empty batch is refused (`State`); a taken batch identifier is a
/// `Storage` error; an identifier that names no stored event is `NotFound`;
/// an event that is no longer pending, or that is named twice, is a `State`
/// error.
pub open spec fn save_outcome(v: StoreView, batch_id: Seq<char>, ids: Seq<Seq<char>>) -> Result<
    (),
    TelemetryError,
> {
    if ids.len() == 0 {
        Err(TelemetryError::State)
    } else if has_batch(v.batches, batch_id) {
        Err(TelemetryError::Storage)
    } else if exists|k: int| 0 <= k < ids.len() && !has_event(v.events, ids[k]) {
        Err(TelemetryError::NotFound)
    } else if has_repeat(ids) || exists|k: int|
        0 <= k < ids.len() && !is_pending_id(v.events, ids[k]) {
        Err(TelemetryError::State)
    } else {
        Ok(())
    }
}

/// Each event named in `ids` is claimed by the batch `batch_id`.
pub open spec fn claim(rows: Seq<EventRow>, batch_id: Seq<char>, ids: Seq<Seq<char>>) -> Seq<
    EventRow,
> {
    rows.map_values(
        |r: EventRow|
            if ids.contains(r.event.id) {
                EventRow { batch_id: Some(batch_id), ..r }
            } else {
                r
            },
    )
}

pub open spec fn new_batch_row(
    batch_id: Seq<char>,
    created_at: int,
    size_bytes: int,
    ids: Seq<Seq<char>>,
) -> BatchRow {
    BatchRow {
        batch_id,
        created_at,
        sent_at: None,
        size_bytes,
        event_ids: ids,
        status: BatchStatus::Pending,
    }
}

/// The store after storing a batch: on success the batch row is added and
/// its events are claimed, both in one step; otherwise nothing changes.
pub open spec fn after_save(
    v: StoreView,
    batch_id: Seq<char>,
    created_at: int,
    size_bytes: int,
    ids: Seq<Seq<char>>,
) -> StoreView {
    if save_outcome(v, batch_id, ids) is Ok {
        StoreView {
            events: claim(v.events, batch_id, ids),
            batches: v.batches.push(new_batch_row(batch_id, created_at, size_bytes, ids)),
        }
    } else {
        v
    }
}

pub open spec fn mark_outcome(v: StoreView, batch_id: Seq<char>) -> Result<(), TelemetryError> {
    if has_batch(v.batches, batch_id) {
        Ok(())
    } else {
        Err(TelemetryError::NotFound)
    }
}

/// The store after marking batch `batch_id` sent at time `now`: a pending
/// batch becomes sent with `sent_at == now`; a batch already sent keeps its
/// first `sent_at`; an unknown identifier changes nothing.
pub open spec fn after_mark(v: StoreView, batch_id: Seq<char>, now: int) -> StoreView {
    if has_batch(v.batches, batch_id) {
        let j = choose|j: int| 0 <= j < v.batches.len() && v.batches[j].batch_id == batch_id;
        if v.batches[j].status == BatchStatus::Sent {
            v
        } else {
            StoreView {
                batches: v.batches.update(
                    j,
                    BatchRow { status: BatchStatus::Sent, sent_at: Some(now), ..v.batches[j] },
                ),
                ..v
            }
        }
    } else {
        v
    }
}

/// The event's claiming batch is stored and not yet sent.
pub open spec fn owner_pending(batches: Seq<BatchRow>, r: EventRow) -> bool {
    r.batch_id is Some && exists|j: int|
        0 <= j < batches.len() && batches[j].batch_id == r.batch_id->Some_0 && batches[j].status
            == BatchStatus::Pending
}

/// An event is swept when it is batched, older than `cutoff`, and its batch
/// is not pending.
pub open spec fn event_expired(batches: Seq<BatchRow>, r: EventRow, cutoff: int) -> bool {
    !is_pending(r) && r.event.timestamp < cutoff && !owner_pending(batches, r)
}

/// A batch is swept when it is sent and was created before `cutoff`.
pub open spec fn batch_expired(b: BatchRow, cutoff: int) -> bool {
    b.status == BatchStatus::Sent && b.created_at < cutoff
}

pub open spec fn kept_events(batches: Seq<BatchRow>, rows: Seq<EventRow>, cutoff: int) -> Seq<
    EventRow,
>
    decreases rows.len(),
{
    if rows.len() == 0 {
        Seq::empty()
    } else if event_expired(batches, rows.last(), cutoff) {
        kept_events(batches, rows.drop_last(), cutoff)
    } else {
        kept_events(batches, rows.drop_last(), cutoff).push(rows.last())
    }
}

pub open spec fn kept_batches(batches: Seq<BatchRow>, cutoff: int) -> Seq<BatchRow>
    decreases batches.len(),
{
    if batches.len() == 0 {
        Seq::empty()
    } else if batch_expired(batches.last(), cutoff) {
        kept_batches(batches.drop_last(), cutoff)
    } else {
        kept_batches(batches.drop_last(), cutoff).push(batches.last())
    }
}

/// The store after sweeping with `cutoff`: both sweeps judge by the state
/// before the sweep.
pub open spec fn after_cleanup(v: StoreView, cutoff: int) -> StoreView {
    StoreView {
        events: kept_events(v.batches, v.events, cutoff),
        batches: kept_batches(v.batches, cutoff),
    }
}

/// The number of events a sweep with `cutoff` deletes.
pub open spec fn swept_count(v: StoreView, cutoff: int) -> int {
    v.events.len() - kept_events(v.batches, v.events, cutoff).len()
}

/// Nanoseconds in a day.
pub const DAY_NANOS: i64 = 86_400_000_000_000;

/// The cutoff `days` days before `now`, both in nanoseconds, held within
/// the range of `i64`.
pub open spec fn cutoff_before(now: int, days: int) -> int {
    let c = now - days * DAY_NANOS;
    if c < i64::MIN {
        i64::MIN as int
    } else if c > i64::MAX {
        i64::MAX as int
    } else {
        c
    }
}

/// A sweep keeps no more events than there were, each one of them.
pub proof fn lemma_kept_events_len(batches: Seq<BatchRow>, rows: Seq<EventRow>, cutoff: int)
    ensures
        kept_events(batches, rows, cutoff).len() <= rows.len(),
        forall|k: int|
            0 <= k < kept_events(batches, rows, cutoff).len() ==> rows.contains(
                #[trigger] kept_events(batches, rows, cutoff)[k],
            ),
    decreases rows.len(),
{
    if rows.len() > 0 {
        lemma_kept_events_len(batches, rows.drop_last(), cutoff);
        let kd = kept_events(batches, rows.drop_last(), cutoff);
        assert forall|k: int| 0 <= k < kd.len() implies rows.contains(#[trigger] kd[k]) by {
            assert(rows.drop_last().contains(kd[k]));
            let w = choose|w: int| 0 <= w < rows.drop_last().len() && rows.drop_last()[w] == kd[k];
            assert(rows[w] == kd[k]);
        }
        assert(rows[rows.len() - 1] == rows.last());
    }
}

/// A sweep keeps no more batches than there were, each one of them.
pub proof fn lemma_kept_batches_sub(batches: Seq<BatchRow>, cutoff: int)
    ensures
        kept_batches(batches, cutoff).len() <= batches.len(),
        forall|k: int|
            0 <= k < kept_batches(batches, cutoff).len() ==> batches.contains(
                #[trigger] kept_batches(batches, cutoff)[k],
            ),
    decreases batches.len(),
{
    if batches.len() > 0 {
        lemma_kept_batches_sub(batches.drop_last(), cutoff);
        let kd = kept_batches(batches.drop_last(), cutoff);
        assert forall|k: int| 0 <= k < kd.len() implies batches.contains(#[trigger] kd[k]) by {
            assert(batches.drop_last().contains(kd[k]));
            let w = choose|w: int|
                0 <= w < batches.drop_last().len() && batches.drop_last()[w] == kd[k];
            assert(batches[w] == kd[k]);
        }
        assert(batches[batches.len() - 1] == batches.last());
    }
}

proof fn lemma_kept_events_unique(batches: Seq<BatchRow>, rows: Seq<EventRow>, cutoff: int)
    requires
        forall|i: int, k: int| 0 <= i < k < rows.len() ==> rows[i].event.id != rows[k].event.id,
    ensures
        ({
            let kept = kept_events(batches, rows, cutoff);
            forall|i: int, k: int| 0 <= i < k < kept.len() ==> kept[i].event.id != kept[k].event.id
        }),
    decreases rows.len(),
{
    if rows.len() > 0 {
        let d = rows.drop_last();
        lemma_kept_events_unique(batches, d, cutoff);
        lemma_kept_events_len(batches, d, cutoff);
        let kd = kept_events(batches, d, cutoff);
        assert forall|i: int| 0 <= i < kd.len() implies kd[i].event.id != rows.last().event.id by {
            assert(d.contains(kd[i]));
            let w = choose|w: int| 0 <= w < d.len() && d[w] == kd[i];
            assert(rows[w] == kd[i]);
        }
    }
}

proof fn lemma_kept_batches_unique(batches: Seq<BatchRow>, cutoff: int)
    requires
        forall|i: int, k: int|
            0 <= i < k < batches.len() ==> batches[i].batch_id != batches[k].batch_id,
    ensures
        ({
            let kept = kept_batches(batches, cutoff);
            forall|i: int, k: int| 0 <= i < k < kept.len() ==> kept[i].batch_id != kept[k].batch_id
        }),
    decreases batches.len(),
{
    if batches.len() > 0 {
        let d = batches.drop_last();
        lemma_kept_batches_unique(d, cutoff);
        lemma_kept_batches_sub(d, cutoff);
        let kd = kept_batches(d, cutoff);
        assert forall|i: int| 0 <= i < kd.len() implies kd[i].batch_id != batches.last().batch_id by {
            assert(d.contains(kd[i]));
            let w = choose|w: int| 0 <= w < d.len() && d[w] == kd[i];
            assert(batches[w] == kd[i]);
        }
    }
}

// ---------------------------------------------------------------------------
// Operations
impl Store {
    pub open spec fn wf(&self) -> bool {
        store_wf(self@)
    }

    /// An empty store.
    pub fn new() -> (r: Self)
        ensures
            r.wf(),
            r@.events.len() == 0,
            r@.batches.len() == 0,
    {
        let r = Store { events: Vec::new(), batches: Vec::new() };
        assert(r@.events =~= Seq::<EventRow>::empty());
        r
    }

    fn find_event(&self, id: &String) -> (r: Option<usize>)
        ensures
            match r {
                Some(i) => i < self@.events.len() && self@.events[i as int].event.id == id@,
                None => !has_event(self@.events, id@),
            },
    {
        let mut i: usize = 0;
        while i < self.events.len()
            invariant
                0 <= i <= self.events.len(),
                forall|k: int| 0 <= k < i ==> self@.events[k].event.id != id@,
            decreases self.events.len() - i,
        {
            assert(self@.events[i as int] == self.events@[i as int]@);
            if self.events[i].event.id == *id {
                return Some(i);
            }
            i += 1;
        }
        None
    }

    fn find_batch(&self, id: &String) -> (r: Option<usize>)
        ensures
            match r {
                Some(j) => j < self@.batches.len() && self@.batches[j as int].batch_id == id@,
                None => !has_batch(self@.batches, id@),
            },
    {
        let mut j: usize = 0;
        while j < self.batches.len()
            invariant
                0 <= j <= self.batches.len(),
                forall|k: int| 0 <= k < j ==> self@.batches[k].batch_id != id@,
            decreases self.batches.len() - j,
        {
            assert(self@.batches[j as int] == self.batches@[j as int]@);
            if self.batches[j].batch_id == *id {
                return Some(j);
            }
            j += 1;
        }
        None
    }

    /// Whether a stored batch lists the event identifier `id`.
    fn is_listed(&self, id: &String) -> (r: bool)
        ensures
            r == listed_by(self@.batches, id@),
    {
        let mut j: usize = 0;
        while j < self.batches.len()
            invariant
                0 <= j <= self.batches.len(),
                forall|a: int, k: int|
                    0 <= a < j && 0 <= k < self@.batches[a].event_ids.len()
                        ==> #[trigger] self@.batches[a].event_ids[k] != id@,
            decreases self.batches.len() - j,
        {
            let b = &self.batches[j];
            assert(self@.batches[j as int] == b@);
            let mut k: usize = 0;
            while k < b.event_ids.len()
                invariant
                    0 <= k <= b.event_ids.len(),
                    j < self.batches.len(),
                    b == &self.batches@[j as int],
                    self@.batches[j as int] == b@,
                    forall|c: int| 0 <= c < k ==> #[trigger] self@.batches[j as int].event_ids[c] != id@,
                decreases b.event_ids.len() - k,
            {
                assert(self@.batches[j as int].event_ids[k as int] == b.event_ids@[k as int]@);
                if b.event_ids[k] == *id {
                    return true;
                }
                k += 1;
            }
            j += 1;
        }
        false
    }

    /// Stores `event` as pending. Fails with `Storage`, and changes nothing,
    /// when its identifier is taken (see `add_outcome`).
    pub fn add_telemetry_event(&mut self, event: &TelemetryEvent) -> (r: Result<(), TelemetryError>)
        requires
            old(self).wf(),
        ensures
            final(self).wf(),
            r == add_outcome(old(self)@, event@),
            final(self)@ == after_add(old(self)@, event@),
    {
        if self.find_event(&event.id).is_some() || self.is_listed(&event.id) {
            return Err(TelemetryError::Storage);
        }
        let ghost before = self@;
        self.events.push(StoredEvent { event: event.duplicate(), batch_id: None });
        assert(self@.events =~= before.events.push(EventRow { event: event@, batch_id: None }));
        assert(self@ == after_add(before, event@));
        proof {
            let w = self@;
            assert forall|j: int, k: int, i: int|
                #![trigger w.batches[j].event_ids[k], w.events[i]]
                0 <= j < w.batches.len() && 0 <= k < w.batches[j].event_ids.len() && 0 <= i
                    < w.events.len() && w.events[i].event.id == w.batches[j].event_ids[k] implies w.events[i].batch_id
                == Some(w.batches[j].batch_id) by {
                if i == before.events.len() {
                    assert(listed_by(before.batches, event@.id));
                } else {
                    assert(w.events[i] == before.events[i]);
                }
            }
        }
        Ok(())
    }

    /// Counts of pending and batched events, of batches, and of sent batches.
    pub fn get_telemetry_stats(&self) -> (r: TelemetryStats)
        ensures
            r == stats_of(self@),
    {
        let mut pending: usize = 0;
        let mut batched: usize = 0;
        let mut i: usize = 0;
        while i < self.events.len()
            invariant
                0 <= i <= self.events.len(),
                pending == count_pending(self@.events.subrange(0, i as int)),
                batched == count_batched(self@.events.subrange(0, i as int)),
                pending + batched == i,
            decreases self.events.len() - i,
        {
            proof {
                let cur = self@.events.subrange(0, i + 1);
                assert(cur.drop_last() =~= self@.events.subrange(0, i as int));
                assert(cur.last() == self.events@[i as int]@);
            }
            if self.events[i].batch_id.is_none() {
                pending += 1;
            } else {
                batched += 1;
            }
            i += 1;
        }
        assert(self@.events.subrange(0, i as int) =~= self@.events);
        let mut sent: usize = 0;
        let mut j: usize = 0;
        while j < self.batches.len()
            invariant
                0 <= j <= self.batches.len(),
                sent == count_sent(self@.batches.subrange(0, j as int)),
                sent <= j,
            decreases self.batches.len() - j,
        {
            proof {
                let cur = self@.batches.subrange(0, j + 1);
                assert(cur.drop_last() =~= self@.batches.subrange(0, j as int));
                assert(cur.last() == self.batches@[j as int]@);
            }
            if self.batches[j].status == BatchStatus::Sent {
                sent += 1;
            }
            j += 1;
        }
        assert(self@.batches.subrange(0, j as int) =~= self@.batches);
        TelemetryStats {
            pending_events: pending,
            batched_events: batched,
            total_batches: self.batches.len(),
            sent_batches: sent,
        }
    }

    /// Up to `limit` pending events, oldest first; events with equal
    /// timestamps come in the order they were added.
    pub fn get_pending_events(&self, limit: usize) -> (r: Vec<TelemetryEvent>)
        ensures
            events_view(r@) == pending_upto(self@, limit as nat),
            sorted_by_time(events_view(r@)),
            r@.len() <= limit,
    {
        let mut acc: Vec<TelemetryEvent> = Vec::new();
        let mut i: usize = 0;
        while i < self.events.len()
            invariant
                0 <= i <= self.events.len(),
                events_view(acc@) == pending_by_time(self@.events.subrange(0, i as int)),
            decreases self.events.len() - i,
        {
            let ghost pre = self@.events.subrange(0, i as int);
            proof {
                let cur = self@.events.subrange(0, i + 1);
                assert(cur.drop_last() =~= pre);
                assert(cur.last() == self.events@[i as int]@);
            }
            if self.events[i].batch_id.is_none() {
                let x = self.events[i].event.duplicate();
                let mut p: usize = acc.len();
                while p > 0 && acc[p - 1].timestamp > x.timestamp
                    invariant
                        0 <= p <= acc.len(),
                        forall|j: int| p <= j < acc.len() ==> acc@[j].timestamp > x.timestamp,
                    decreases p,
                {
                    p -= 1;
                }
                let ghost sv = events_view(acc@);
                proof {
                    lemma_insert_at(sv, x@, p as int);
                }
                acc.insert(p, x);
                assert(events_view(acc@) =~= sv.insert(p as int, x@));
            }
            i += 1;
        }
        assert(self@.events.subrange(0, i as int) =~= self@.events);
        proof {
            lemma_pending_sorted(self@.events);
        }
        if acc.len() > limit {
            acc.truncate(limit);
            assert(events_view(acc@) =~= pending_by_time(self@.events).take(limit as int));
        }
        acc
    }

    fn contains_id(ids: &Vec<String>, id: &String) -> (r: bool)
        ensures
            r == ids_view(ids@).contains(id@),
    {
        let mut k: usize = 0;
        while k < ids.len()
            invariant
                0 <= k <= ids.len(),
                forall|a: int| 0 <= a < k ==> ids@[a]@ != id@,
            decreases ids.len() - k,
        {
            if ids[k] == *id {
                assert(ids_view(ids@)[k as int] == id@);
                return true;
            }
            k += 1;
        }
        assert forall|a: int| 0 <= a < ids_view(ids@).len() implies ids_view(ids@)[a] != id@ by {
            assert(ids_view(ids@)[a] == ids@[a]@);
        }
        false
    }

    /// Checks a batch against the stored state, without changing it.
    fn check_batch(&self, batch_id: &String, ids: &Vec<String>) -> (r: Result<(), TelemetryError>)
        requires
            self.wf(),
        ensures
            r == save_outcome(self@, batch_id@, ids_view(ids@)),
    {
        let ghost iv = ids_view(ids@);
        if ids.len() == 0 {
            return Err(TelemetryError::State);
        }
        if self.find_batch(batch_id).is_some() {
            return Err(TelemetryError::Storage);
        }
        let mut k: usize = 0;
        while k < ids.len()
            invariant
                0 <= k <= ids.len(),
                iv == ids_view(ids@),
                self.wf(),
                ids.len() > 0,
                !has_batch(self@.batches, batch_id@),
                forall|a: int| 0 <= a < k ==> has_event(self@.events, iv[a]),
            decreases ids.len() - k,
        {
            if self.find_event(&ids[k]).is_none() {
                assert(iv[k as int] == ids@[k as int]@);
                assert(!has_event(self@.events, iv[k as int]));
                assert(exists|c: int| 0 <= c < iv.len() && !has_event(self@.events, iv[c]));
                return Err(TelemetryError::NotFound);
            }
            assert(iv[k as int] == ids@[k as int]@);
            k += 1;
        }
        let mut k: usize = 0;
        while k < ids.len()
            invariant
                0 <= k <= ids.len(),
                iv == ids_view(ids@),
                self.wf(),
                ids.len() > 0,
                !has_batch(self@.batches, batch_id@),
                forall|a: int| 0 <= a < k ==> is_pending_id(self@.events, iv[a]),
                forall|a: int, b: int| 0 <= a < b < k ==> iv[a] != iv[b],
                forall|a: int| 0 <= a < iv.len() ==> has_event(self@.events, iv[a]),
            decreases ids.len() - k,
        {
            assert(iv[k as int] == ids@[k as int]@);
            let mut a: usize = 0;
            while a < k
                invariant
                    0 <= a <= k < ids.len(),
                    iv == ids_view(ids@),
                    self.wf(),
                    ids.len() > 0,
                    !has_batch(self@.batches, batch_id@),
                    forall|c: int| 0 <= c < iv.len() ==> has_event(self@.events, iv[c]),
                    forall|c: int| 0 <= c < a ==> iv[c] != iv[k as int],
                decreases k - a,
            {
                assert(iv[a as int] == ids@[a as int]@);
                if ids[a] == ids[k] {
                    assert(iv[a as int] == iv[k as int]);
                    assert(has_repeat(iv));
                    assert(!exists|c: int| 0 <= c < iv.len() && !has_event(self@.events, iv[c]));
                    return Err(TelemetryError::State);
                }
                a += 1;
            }
            match self.find_event(&ids[k]) {
                Some(i) => {
                    assert(self@.events[i as int] == self.events@[i as int]@);
                    if self.events[i].batch_id.is_some() {
                        proof {
                            if is_pending_id(self@.events, iv[k as int]) {
                                let w = choose|w: int|
                                    0 <= w < self@.events.len() && self@.events[w].event.id
                                        == iv[k as int] && is_pending(self@.events[w]);
                                assert(store_wf(self@));
                                assert(w == i as int);
                            }
                            assert(!exists|c: int| 0 <= c < iv.len() && !has_event(self@.events, iv[c]));
                        }
                        return Err(TelemetryError::State);
                    }
                },
                None => {
                    return Err(TelemetryError::NotFound);
                },
            }
            k += 1;
        }
        Ok(())
    }

    /// Stores `batch` as pending and claims its events, in one step; on any
    /// error nothing changes. See `save_outcome` for when it fails.
    pub fn save_batch(&mut self, batch: &EventBatch) -> (r: Result<(), TelemetryError>)
        requires
            old(self).wf(),
        ensures
            final(self).wf(),
            r == save_outcome(old(self)@, batch.batch_id@, event_ids_of(events_view(batch.events@))),
            final(self)@ == after_save(
                old(self)@,
                batch.batch_id@,
                batch.created_at as int,
                batch.size_bytes as int,
                event_ids_of(events_view(batch.events@)),
            ),
    {
        let mut ids: Vec<String> = Vec::new();
        let mut k: usize = 0;
        while k < batch.events.len()
            invariant
                0 <= k <= batch.events.len(),
                ids@.len() == k,
                forall|a: int| 0 <= a < k ==> ids@[a]@ == batch.events@[a].id@,
            decreases batch.events.len() - k,
        {
            ids.push(batch.events[k].id.clone());
            k += 1;
        }
        assert(ids_view(ids@) =~= event_ids_of(events_view(batch.events@)));
        let checked = self.check_batch(&batch.batch_id, &ids);
        if checked.is_err() {
            return checked;
        }
        let ghost before = self@;
        let ghost iv = ids_view(ids@);
        let mut rows: Vec<StoredEvent> = Vec::new();
        let mut i: usize = 0;
        while i < self.events.len()
            invariant
                0 <= i <= self.events.len(),
                self@ == before,
                iv == ids_view(ids@),
                rows@.len() == i,
                forall|a: int|
                    0 <= a < i ==> rows@[a]@ == claim(before.events, batch.batch_id@, iv)[a],
            decreases self.events.len() - i,
        {
            assert(before.events[i as int] == self.events@[i as int]@);
            let claimed = Self::contains_id(&ids, &self.events[i].event.id);
            let owner = if claimed {
                Some(batch.batch_id.clone())
            } else {
                crate::telemetry::copy_opt(&self.events[i].batch_id)
            };
            rows.push(StoredEvent { event: self.events[i].event.duplicate(), batch_id: owner });
            i += 1;
        }
        self.events = rows;
        self.batches.push(
            BatchRecord {
                batch_id: batch.batch_id.clone(),
                created_at: batch.created_at,
                sent_at: None,
                size_bytes: batch.size_bytes,
                event_ids: ids,
                status: BatchStatus::Pending,
            },
        );
        assert(self@.batches =~= before.batches.push(
            new_batch_row(batch.batch_id@, batch.created_at as int, batch.size_bytes as int, iv),
        ));
        assert(self@.events =~= claim(before.events, batch.batch_id@, iv));
        proof {
            assert forall|a: int, b: int| 0 <= a < b < self@.events.len() implies self@.events[a].event.id
                != self@.events[b].event.id by {
                assert(self@.events[a].event.id == before.events[a].event.id);
                assert(self@.events[b].event.id == before.events[b].event.id);
            }
            assert forall|a: int, b: int| 0 <= a < b < self@.batches.len() implies self@.batches[a].batch_id
                != self@.batches[b].batch_id by {
                if b == self@.batches.len() - 1 {
                    assert(before.batches[a].batch_id != batch.batch_id@);
                }
            }
        }
        Ok(())
    }

    /// Assembles `events` into a batch with the given identifier and creation
    /// time and stores it (see `save_batch`); returns the batch on success.
    pub fn create_batch_at(&mut self, events: Vec<TelemetryEvent>, batch_id: String, created_at: i64) -> (r:
        Result<EventBatch, TelemetryError>)
        requires
            old(self).wf(),
        ensures
            final(self).wf(),
            r is Ok <==> save_outcome(old(self)@, batch_id@, event_ids_of(events_view(events@))) is Ok,
            r matches Err(e) ==> save_outcome(old(self)@, batch_id@, event_ids_of(events_view(events@)))
                == Err::<(), TelemetryError>(e),
            final(self)@ == after_save(
                old(self)@,
                batch_id@,
                created_at as int,
                batch_size(events_view(events@)) as int,
                event_ids_of(events_view(events@)),
            ),
            r matches Ok(b) ==> b.batch_id@ == batch_id@ && events_view(b.events@) == events_view(
                events@,
            ) && b.created_at == created_at && b.size_bytes == batch_size(events_view(events@)),
    {
        let batch = EventBatch::assemble(batch_id, events, created_at);
        match self.save_batch(&batch) {
            Ok(()) => Ok(batch),
            Err(e) => Err(e),
        }
    }

    /// Assembles `events` into a batch with a fresh identifier, created now,
    /// and stores it: the batch row and the claim of its events are written
    /// in one step. An empty list is refused with `State`.
    pub fn create_batch(&mut self, events: Vec<TelemetryEvent>) -> (r: Result<
        EventBatch,
        TelemetryError,
    >)
        requires
            old(self).wf(),
        ensures
            final(self).wf(),
            events@.len() == 0 ==> r == Err::<EventBatch, TelemetryError>(TelemetryError::State),
            r matches Ok(b) ==> save_outcome(
                old(self)@,
                b.batch_id@,
                event_ids_of(events_view(events@)),
            ) is Ok && final(self)@ == after_save(
                old(self)@,
                b.batch_id@,
                b.created_at as int,
                b.size_bytes as int,
                event_ids_of(events_view(events@)),
            ) && events_view(b.events@) == events_view(events@) && b.size_bytes == batch_size(
                events_view(events@),
            ),
            r matches Err(e) ==> final(self)@ == old(self)@ && exists|id: Seq<char>|
                save_outcome(old(self)@, id, event_ids_of(events_view(events@)))
                    == Err::<(), TelemetryError>(e),
    {
        let batch_id = crate::ambient::new_uuid();
        let created_at = crate::ambient::now_nanos();
        let ghost id = batch_id@;
        let r = self.create_batch_at(events, batch_id, created_at);
        proof {
            if r is Err {
                assert(save_outcome(old(self)@, id, event_ids_of(events_view(events@))) is Err);
            }
        }
        r
    }

    /// Marks batch `batch_id` sent at time `now`. Marking a batch that is
    /// already sent succeeds and keeps its first `sent_at`; an unknown
    /// identifier is `NotFound`.
    pub fn mark_batch_sent_at(&mut self, batch_id: &str, now: i64) -> (r: Result<(), TelemetryError>)
        requires
            old(self).wf(),
        ensures
            final(self).wf(),
            r == mark_outcome(old(self)@, batch_id@),
            final(self)@ == after_mark(old(self)@, batch_id@, now as int),
            forall|j: int|
                0 <= j < old(self)@.batches.len() && old(self)@.batches[j].batch_id == batch_id@
                    && old(self)@.batches[j].status == BatchStatus::Sent ==> final(self)@ == old(self)@,
    {
        let id = batch_id.to_owned();
        match self.find_batch(&id) {
            None => Err(TelemetryError::NotFound),
            Some(j) => {
                let ghost before = self@;
                proof {
                    let c = choose|c: int|
                        0 <= c < before.batches.len() && before.batches[c].batch_id == batch_id@;
                    assert(c == j as int);
                }
                assert(before.batches[j as int] == self.batches@[j as int]@);
                if self.batches[j].status == BatchStatus::Sent {
                    return Ok(());
                }
                let b = &self.batches[j];
                let mut ids: Vec<String> = Vec::new();
                let mut k: usize = 0;
                while k < b.event_ids.len()
                    invariant
                        0 <= k <= b.event_ids.len(),
                        ids@.len() == k,
                        forall|a: int| 0 <= a < k ==> ids@[a]@ == b.event_ids@[a]@,
                    decreases b.event_ids.len() - k,
                {
                    ids.push(b.event_ids[k].clone());
                    k += 1;
                }
                assert(ids_view(ids@) =~= ids_view(b.event_ids@));
                let updated = BatchRecord {
                    batch_id: b.batch_id.clone(),
                    created_at: b.created_at,
                    sent_at: Some(now),
                    size_bytes: b.size_bytes,
                    event_ids: ids,
                    status: BatchStatus::Sent,
                };
                self.batches.set(j, updated);
                assert(self@.batches =~= before.batches.update(
                    j as int,
                    BatchRow {
                        status: BatchStatus::Sent,
                        sent_at: Some(now as int),
                        ..before.batches[j as int]
                    },
                ));
                assert(self@.events == before.events);
                proof {
                    assert forall|a: int, c: int| 0 <= a < c < self@.batches.len() implies self@.batches[a].batch_id
                        != self@.batches[c].batch_id by {
                        assert(self@.batches[a].batch_id == before.batches[a].batch_id);
                        assert(self@.batches[c].batch_id == before.batches[c].batch_id);
                    }
                }
                Ok(())
            },
        }
    }

    /// Marks batch `batch_id` sent now; see `mark_batch_sent_at`.
    pub fn mark_batch_sent(&mut self, batch_id: &str) -> (r: Result<(), TelemetryError>)
        requires
            old(self).wf(),
        ensures
            final(self).wf(),
            r == mark_outcome(old(self)@, batch_id@),
            exists|now: i64| final(self)@ == after_mark(old(self)@, batch_id@, now as int),
            forall|j: int|
                0 <= j < old(self)@.batches.len() && old(self)@.batches[j].batch_id == batch_id@
                    && old(self)@.batches[j].status == BatchStatus::Sent ==> final(self)@ == old(self)@,
    {
        let now = crate::ambient::now_nanos();
        self.mark_batch_sent_at(batch_id, now)
    }

    fn owner_is_pending(&self, r: &StoredEvent) -> (b: bool)
        requires
            self.wf(),
        ensures
            b == owner_pending(self@.batches, r@),
    {
        match &r.batch_id {
            None => false,
            Some(id) => match self.find_batch(id) {
                None => false,
                Some(j) => {
                    assert(self@.batches[j as int] == self.batches@[j as int]@);
                    if self.batches[j].status == BatchStatus::Pending {
                        true
                    } else {
                        proof {
                            if owner_pending(self@.batches, r@) {
                                let w = choose|w: int|
                                    0 <= w < self@.batches.len() && self@.batches[w].batch_id
                                        == id@ && self@.batches[w].status == BatchStatus::Pending;
                                assert(store_wf(self@));
                                assert(w == j as int);
                            }
                        }
                        false
                    }
                },
            },
        }
    }

    /// Deletes every batched event older than `cutoff` whose batch is not
    /// pending, and every sent batch created before `cutoff`; returns the
    /// number of events deleted. Events of a pending batch are never deleted.
    pub fn cleanup_before(&mut self, cutoff: i64) -> (r: usize)
        requires
            old(self).wf(),
        ensures
            final(self).wf(),
            final(self)@ == after_cleanup(old(self)@, cutoff as int),
            r == swept_count(old(self)@, cutoff as int),
    {
        let ghost before = self@;
        let mut rows: Vec<StoredEvent> = Vec::new();
        let mut i: usize = 0;
        while i < self.events.len()
            invariant
                0 <= i <= self.events.len(),
                self@ == before,
                self.wf(),
                rows_view(rows@) == kept_events(
                    before.batches,
                    before.events.subrange(0, i as int),
                    cutoff as int,
                ),
            decreases self.events.len() - i,
        {
            let ghost pre = before.events.subrange(0, i as int);
            proof {
                let cur = before.events.subrange(0, i + 1);
                assert(cur.drop_last() =~= pre);
                assert(cur.last() == self.events@[i as int]@);
            }
            let row = &self.events[i];
            let expired = row.batch_id.is_some() && row.event.timestamp < cutoff
                && !self.owner_is_pending(row);
            if !expired {
                let copy = StoredEvent {
                    event: row.event.duplicate(),
                    batch_id: crate::telemetry::copy_opt(&row.batch_id),
                };
                let ghost rv = rows_view(rows@);
                rows.push(copy);
                assert(rows_view(rows@) =~= rv.push(row@));
            }
            i += 1;
        }
        assert(before.events.subrange(0, i as int) =~= before.events);
        let mut kept: Vec<BatchRecord> = Vec::new();
        let mut j: usize = 0;
        while j < self.batches.len()
            invariant
                0 <= j <= self.batches.len(),
                self@ == before,
                batch_rows_view(kept@) == kept_batches(
                    before.batches.subrange(0, j as int),
                    cutoff as int,
                ),
            decreases self.batches.len() - j,
        {
            let ghost pre = before.batches.subrange(0, j as int);
            proof {
                let cur = before.batches.subrange(0, j + 1);
                assert(cur.drop_last() =~= pre);
                assert(cur.last() == self.batches@[j as int]@);
            }
            let b = &self.batches[j];
            if !(b.status == BatchStatus::Sent && b.created_at < cutoff) {
                let mut ids: Vec<String> = Vec::new();
                let mut k: usize = 0;
                while k < b.event_ids.len()
                    invariant
                        0 <= k <= b.event_ids.len(),
                        ids@.len() == k,
                        forall|a: int| 0 <= a < k ==> ids@[a]@ == b.event_ids@[a]@,
                    decreases b.event_ids.len() - k,
                {
                    ids.push(b.event_ids[k].clone());
                    k += 1;
                }
                assert(ids_view(ids@) =~= ids_view(b.event_ids@));
                let copy = BatchRecord {
                    batch_id: b.batch_id.clone(),
                    created_at: b.created_at,
                    sent_at: b.sent_at,
                    size_bytes: b.size_bytes,
                    event_ids: ids,
                    status: b.status,
                };
                let ghost kv = batch_rows_view(kept@);
                kept.push(copy);
                assert(batch_rows_view(kept@) =~= kv.push(b@));
            }
            j += 1;
        }
        assert(before.batches.subrange(0, j as int) =~= before.batches);
        proof {
            lemma_kept_events_len(before.batches, before.events, cutoff as int);
            lemma_kept_batches_sub(before.batches, cutoff as int);
        }
        let deleted = self.events.len() - rows.len();
        self.events = rows;
        self.batches = kept;
        assert(self@ == after_cleanup(before, cutoff as int));
        proof {
            lemma_kept_events_unique(before.batches, before.events, cutoff as int);
            lemma_kept_batches_unique(before.batches, cutoff as int);
        }
        deleted
    }

    /// Sweeps with the cutoff `days` days before `now` (see `cleanup_before`).
    pub fn cleanup_older_than(&mut self, days: i64, now: i64) -> (r: usize)
        requires
            old(self).wf(),
        ensures
            final(self).wf(),
            final(self)@ == after_cleanup(old(self)@, cutoff_before(now as int, days as int)),
            r == swept_count(old(self)@, cutoff_before(now as int, days as int)),
    {
        let d: i128 = days as i128;
        assert(-0x8000_0000_0000_0000 * 86_400_000_000_000 <= d * 86_400_000_000_000
            <= 0x7fff_ffff_ffff_ffff * 86_400_000_000_000) by (nonlinear_arith)
            requires
                -0x8000_0000_0000_0000 <= d <= 0x7fff_ffff_ffff_ffff,
        ;
        let c: i128 = now as i128 - d * (DAY_NANOS as i128);
        let cutoff: i64 = if c < i64::MIN as i128 {
            i64::MIN
        } else if c > i64::MAX as i128 {
            i64::MAX
        } else {
            c as i64
        };
        self.cleanup_before(cutoff)
    }

    /// Sweeps with the cutoff `days` days before now; returns the number of
    /// events deleted.
    pub fn cleanup_old_telemetry(&mut self, days: i64) -> (r: usize)
        requires
            old(self).wf(),
        ensures
            final(self).wf(),
            exists|now: i64|
                final(self)@ == after_cleanup(old(self)@, cutoff_before(now as int, days as int))
                    && r == swept_count(old(self)@, cutoff_before(now as int, days as int)),
    {
        let now = crate::ambient::now_nanos();
        self.cleanup_older_than(days, now)
    }

    /// The stored events, in the order they were added.
    pub fn rows(&self) -> (r: &Vec<StoredEvent>)
        ensures
            rows_view(r@) == self@.events,
    {
        &self.events
    }

    /// The stored batches, in the order they were created.
    pub fn batch_rows(&self) -> (r: &Vec<BatchRecord>)
        ensures
            batch_rows_view(r@) == self@.batches,
    {
        &self.batches
    }

    /// A store holding the given rows, as read back from durable storage.
    /// Fails with `Storage` when two events, or two batches, share an
    /// identifier.
    pub fn restore(events: Vec<StoredEvent>, batches: Vec<BatchRecord>) -> (r: Result<
        Store,
        TelemetryError,
    >)
        ensures
            r is Ok <==> store_wf(
                (StoreView { events: rows_view(events@), batches: batch_rows_view(batches@) }),
            ),
            r matches Ok(s) ==> s.wf() && s@ == (StoreView {
                events: rows_view(events@),
                batches: batch_rows_view(batches@),
            }),
            r matches Err(e) ==> e == TelemetryError::Storage,
    {
        let ghost ev = rows_view(events@);
        let ghost bv = batch_rows_view(batches@);
        let mut i: usize = 0;
        while i < events.len()
            invariant
                0 <= i <= events.len(),
                ev == rows_view(events@),
                forall|a: int, b: int| 0 <= a < b < events.len() && a < i ==> ev[a].event.id != ev[b].event.id,
            decreases events.len() - i,
        {
            let mut k: usize = i + 1;
            while k < events.len()
                invariant
                    i < k <= events.len(),
                    ev == rows_view(events@),
                    forall|a: int, b: int| 0 <= a < b < events.len() && a < i ==> ev[a].event.id != ev[b].event.id,
                    forall|b: int| i < b < k ==> ev[i as int].event.id != ev[b].event.id,
                decreases events.len() - k,
            {
                assert(ev[i as int] == events@[i as int]@ && ev[k as int] == events@[k as int]@);
                if events[i].event.id == events[k].event.id {
                    return Err(TelemetryError::Storage);
                }
                k += 1;
            }
            i += 1;
        }
        let mut i: usize = 0;
        while i < batches.len()
            invariant
                0 <= i <= batches.len(),
                bv == batch_rows_view(batches@),
                forall|a: int, b: int| 0 <= a < b < batches.len() && a < i ==> bv[a].batch_id != bv[b].batch_id,
                forall|a: int, b: int| 0 <= a < b < events.len() ==> ev[a].event.id != ev[b].event.id,
            decreases batches.len() - i,
        {
            let mut k: usize = i + 1;
            while k < batches.len()
                invariant
                    i < k <= batches.len(),
                    bv == batch_rows_view(batches@),
                    forall|a: int, b: int| 0 <= a < b < batches.len() && a < i ==> bv[a].batch_id != bv[b].batch_id,
                    forall|b: int| i < b < k ==> bv[i as int].batch_id != bv[b].batch_id,
                decreases batches.len() - k,
            {
                assert(bv[i as int] == batches@[i as int]@ && bv[k as int] == batches@[k as int]@);
                if batches[i].batch_id == batches[k].batch_id {
                    return Err(TelemetryError::Storage);
                }
                k += 1;
            }
            i += 1;
        }
        let mut j: usize = 0;
        while j < batches.len()
            invariant
                0 <= j <= batches.len(),
                bv == batch_rows_view(batches@),
                ev == rows_view(events@),
                forall|a: int, b: int| 0 <= a < b < batches.len() ==> bv[a].batch_id != bv[b].batch_id,
                forall|a: int, b: int| 0 <= a < b < events.len() ==> ev[a].event.id != ev[b].event.id,
                forall|a: int, k: int, i: int|
                    #![trigger bv[a].event_ids[k], ev[i]]
                    0 <= a < j && 0 <= k < bv[a].event_ids.len() && 0 <= i < ev.len()
                        && ev[i].event.id == bv[a].event_ids[k] ==> ev[i].batch_id == Some(
                        bv[a].batch_id,
                    ),
            decreases batches.len() - j,
        {
            let b = &batches[j];
            assert(bv[j as int] == b@);
            let mut k: usize = 0;
            while k < b.event_ids.len()
                invariant
                    0 <= k <= b.event_ids.len(),
                    j < batches.len(),
                    b == &batches@[j as int],
                    bv[j as int] == b@,
                    ev == rows_view(events@),
                    bv == batch_rows_view(batches@),
                    forall|c: int, i: int|
                        #![trigger bv[j as int].event_ids[c], ev[i]]
                        0 <= c < k && 0 <= i < ev.len() && ev[i].event.id == bv[j as int].event_ids[c]
                            ==> ev[i].batch_id == Some(bv[j as int].batch_id),
                decreases b.event_ids.len() - k,
            {
                assert(bv[j as int].event_ids[k as int] == b.event_ids@[k as int]@);
                let mut i: usize = 0;
                while i < events.len()
                    invariant
                        0 <= i <= events.len(),
                        k < b.event_ids.len(),
                        j < batches.len(),
                        b == &batches@[j as int],
                        bv[j as int] == b@,
                        ev == rows_view(events@),
                        bv == batch_rows_view(batches@),
                        bv[j as int].event_ids[k as int] == b.event_ids@[k as int]@,
                        forall|i2: int|
                            #![trigger ev[i2]]
                            0 <= i2 < i && ev[i2].event.id == bv[j as int].event_ids[k as int]
                                ==> ev[i2].batch_id == Some(bv[j as int].batch_id),
                    decreases events.len() - i,
                {
                    assert(ev[i as int] == events@[i as int]@);
                    if events[i].event.id == b.event_ids[k] {
                        let claimed = match &events[i].batch_id {
                            Some(owner) => *owner == b.batch_id,
                            None => false,
                        };
                        if !claimed {
                            proof {
                                assert(ev[i as int].event.id == bv[j as int].event_ids[k as int]);
                                assert(bv[j as int].batch_id == b.batch_id@);
                                assert(ev[i as int].batch_id == opt_view(events@[i as int].batch_id));
                                assert(ev[i as int].batch_id != Some(bv[j as int].batch_id));
                                assert(bv[j as int].event_ids.len() == b.event_ids@.len());
                                assert(ev.len() == events@.len());
                                assert(bv.len() == batches@.len());
                                if listings_claimed(ev, bv) {
                                    assert(ev[i as int].batch_id == Some(bv[j as int].batch_id));
                                }
                            }
                            return Err(TelemetryError::Storage);
                        }
                    }
                    i += 1;
                }
                k += 1;
            }
            j += 1;
        }
        let s = Store { events, batches };
        assert(s@.events == ev && s@.batches == bv);
        Ok(s)
    }
}

} // verus!
