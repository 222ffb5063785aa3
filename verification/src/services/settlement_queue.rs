//! The queue of payments that wait for settlement.

use vstd::prelude::*;
use vstd::utf8::*;

use crate::clock::now_nanos;
use crate::config::{env_var, number_up_to, EnvVars};
use crate::json::{is_plain, json_parsed, json_text, Json, JsonView};
use crate::text::{decimal_value, parse_decimal};

use super::settlement_store::{
    can_count_retry, claims, count_status, law_recovery_loses_nothing, lemma_changed,
    lemma_count_push, lemma_count_update, rows_view, same_settlement, SettlementStatus,
    SettlementStore, SettlementStoreError, SettlementView, StoreView, StoredSettlement,
};

verus! {

/// The default number of settlements that a queue takes.
pub const DEFAULT_MAX_QUEUE_SIZE: usize = 10_000;

/// The number of settlements that a queue takes: the one that is set, or the
/// default.
pub open spec fn queue_size(vars: Seq<(Seq<char>, Seq<char>)>) -> usize {
    match env_var(vars, "SETTLEMENT_QUEUE_MAX_SIZE"@) {
        Some(s) => match number_up_to(s, usize::MAX as nat) {
            Some(n) => n as usize,
            None => DEFAULT_MAX_QUEUE_SIZE,
        },
        None => DEFAULT_MAX_QUEUE_SIZE,
    }
}

/// The number of settlements that a queue takes, as the environment says.
pub fn max_queue_size(env: &EnvVars) -> (r: usize)
    ensures
        r == queue_size(env@),
{
    match env.get("SETTLEMENT_QUEUE_MAX_SIZE") {
        Some(s) => match parse_decimal(s.as_str(), usize::MAX as u128) {
            Some(n) => n as usize,
            None => DEFAULT_MAX_QUEUE_SIZE,
        },
        None => DEFAULT_MAX_QUEUE_SIZE,
    }
}

/// A payment that waits for settlement.
#[derive(Debug, Clone)]
pub struct PendingSettlement {
    /// The request that has the facilitator settle it.
    pub settle_request: Json,
    /// The nonce by which it is queued once.
    pub nonce: String,
}

impl PendingSettlement {
    /// A payment with its settle request and its nonce.
    pub fn new(settle_request: Json, nonce: String) -> (r: Self)
        ensures
            r.settle_request == settle_request,
            r.nonce == nonce,
    {
        PendingSettlement { settle_request, nonce }
    }
}

/// A bounded queue over the table of settlements.
pub struct SettlementQueue {
    store: SettlementStore,
    max_size: usize,
}

/// A queue: its table and its bound.
pub struct QueueView {
    pub store: StoreView,
    pub max_size: usize,
}

impl View for SettlementQueue {
    type V = QueueView;

    closed spec fn view(&self) -> QueueView {
        QueueView { store: self.store@, max_size: self.max_size }
    }
}

/// How many settlements of a table are pending or in progress.
pub open spec fn active(s: StoreView) -> nat {
    s.count(SettlementStatus::Pending) + s.count(SettlementStatus::InProgress)
}

/// 1 for a settlement that is pending or in progress, 0 for another.
pub open spec fn active_row(r: SettlementView) -> int {
    if r.status == SettlementStatus::Pending || r.status == SettlementStatus::InProgress {
        1
    } else {
        0
    }
}

impl QueueView {
    /// Whether as many settlements as the bound are pending or in progress.
    pub open spec fn full(self) -> bool {
        active(self.store) >= self.max_size
    }

    /// The queue after a settlement was queued, or refused, at a time.
    pub open spec fn pushed(self, nonce: Seq<char>, request: JsonView, now: int) -> QueueView {
        if self.refuses() {
            self
        } else if self.store.has_nonce(nonce) {
            QueueView { store: self.store.with_id_skipped(), ..self }
        } else {
            QueueView {
                store: self.store.with_settlement(nonce, json_text(request), now),
                ..self
            }
        }
    }

    /// Whether the queue refuses settlements: it is full, or the table has no
    /// room for a new one.
    pub open spec fn refuses(self) -> bool {
        self.full() || self.store.exhausted()
    }
}

/// Whether the request of the settlement that was queued last reads back as
/// this one, where it has no fraction in it and is not nested too deeply.
pub open spec fn reads_back(s: StoreView, request: JsonView) -> bool {
    is_plain(request, 127) ==> json_parsed(encode_utf8(s.rows.last().settle_request_json)) == Ok::<
        JsonView,
        Seq<char>,
    >(request)
}

impl SettlementQueue {
    /// A queue of the default size over a table.
    pub fn new(store: SettlementStore) -> (r: Result<Self, SettlementStoreError>)
        requires
            store@.valid(),
        ensures
            r is Ok,
            r->Ok_0@.store.valid(),
            exists|now: int| started(store@, DEFAULT_MAX_QUEUE_SIZE, now, r->Ok_0@),
    {
        Self::with_max_size(store, DEFAULT_MAX_QUEUE_SIZE)
    }

    /// A queue of some size over a table.
    pub fn with_max_size(store: SettlementStore, max_size: usize) -> (r: Result<
        Self,
        SettlementStoreError,
    >)
        requires
            store@.valid(),
        ensures
            r is Ok,
            r->Ok_0@.store.valid(),
            exists|now: int| started(store@, max_size, now, r->Ok_0@),
    {
        let now: i128 = now_nanos();
        Self::with_store_and_max_size(store, max_size, now)
    }

    /// A queue of some size over a table, at a time. What was in progress in
    /// the table is put back first.
    pub fn with_store_and_max_size(store: SettlementStore, max_size: usize, now: i128) -> (r: Result<
        Self,
        SettlementStoreError,
    >)
        requires
            store@.valid(),
        ensures
            r is Ok,
            r->Ok_0@.store.valid(),
            started(store@, max_size, now as int, r->Ok_0@),
    {
        let mut store = store;
        match store.recover_in_progress_at(now) {
            Ok(_) => {},
            Err(e) => return Err(e),
        }
        Ok(SettlementQueue { store, max_size })
    }

    /// The table of settlements.
    pub fn store(&self) -> (r: &SettlementStore)
        ensures
            r@ == self@.store,
    {
        &self.store
    }

    /// Queues a settlement at a time. It is handed back where the queue
    /// refuses it; one whose nonce is there already is taken without a
    /// new row.
    pub fn push_at(&mut self, settlement: PendingSettlement, now: i128) -> (r: Result<
        (),
        PendingSettlement,
    >)
        requires
            old(self)@.store.valid(),
        ensures
            final(self)@.store.valid(),
            final(self)@ == old(self)@.pushed(
                settlement.nonce@,
                settlement.settle_request@,
                now as int,
            ),
            match r {
                Ok(_) => !old(self)@.refuses(),
                Err(s) => old(self)@.refuses() && s == settlement,
            },
            r is Ok && !old(self)@.store.has_nonce(settlement.nonce@) ==> reads_back(
                final(self)@.store,
                settlement.settle_request@,
            ),
    {
        if self.is_full() {
            return Err(settlement);
        }
        match self.store.insert_at(settlement.nonce.as_str(), &settlement.settle_request, now) {
            Ok(_) => Ok(()),
            Err(_) => Err(settlement),
        }
    }

    /// Queues a settlement now.
    pub fn push(&mut self, settlement: PendingSettlement) -> (r: Result<(), PendingSettlement>)
        requires
            old(self)@.store.valid(),
        ensures
            final(self)@.store.valid(),
            exists|now: int|
                final(self)@ == #[trigger] old(self)@.pushed(
                    settlement.nonce@,
                    settlement.settle_request@,
                    now,
                ),
            match r {
                Ok(_) => !old(self)@.refuses(),
                Err(s) => old(self)@.refuses() && s == settlement,
            },
            r is Ok && !old(self)@.store.has_nonce(settlement.nonce@) ==> reads_back(
                final(self)@.store,
                settlement.settle_request@,
            ),
    {
        let now: i128 = now_nanos();
        self.push_at(settlement, now)
    }

    /// Claims the pending settlement that was queued first, at a time.
    pub fn claim_next_at(&mut self, now: i128) -> (r: Result<
        Option<StoredSettlement>,
        SettlementStoreError,
    >)
        requires
            old(self)@.store.valid(),
        ensures
            final(self)@.store.valid(),
            final(self)@ == (QueueView { store: final(self)@.store, ..old(self)@ }),
            claims(old(self)@.store, final(self)@.store, now as int, r),
    {
        self.store.claim_next_at(now)
    }

    /// Completes a settlement at a time.
    pub fn mark_completed_at(&mut self, id: i64, tx_hash: &str, now: i128) -> (r: Result<
        (),
        SettlementStoreError,
    >)
        requires
            old(self)@.store.valid(),
        ensures
            r is Ok,
            final(self)@.store.valid(),
            final(self)@ == (QueueView {
                store: old(self)@.store.completed(id, tx_hash@, now as int),
                ..old(self)@
            }),
    {
        self.store.mark_completed_at(id, tx_hash, now)
    }

    /// Fails a settlement at a time.
    pub fn mark_failed_at(&mut self, id: i64, error: &str, now: i128) -> (r: Result<
        (),
        SettlementStoreError,
    >)
        requires
            old(self)@.store.valid(),
        ensures
            r is Ok,
            final(self)@.store.valid(),
            final(self)@ == (QueueView {
                store: old(self)@.store.failed(id, error@, now as int),
                ..old(self)@
            }),
    {
        self.store.mark_failed_at(id, error, now)
    }

    /// Puts a settlement back at a time.
    pub fn record_retry_at(&mut self, id: i64, error: &str, now: i128) -> (r: Result<
        (),
        SettlementStoreError,
    >)
        requires
            old(self)@.store.valid(),
            can_count_retry(old(self)@.store, id),
        ensures
            r is Ok,
            final(self)@.store.valid(),
            final(self)@ == (QueueView {
                store: old(self)@.store.retried(id, error@, now as int),
                ..old(self)@
            }),
    {
        self.store.record_retry_at(id, error, now)
    }

    /// The depth of the queue: how many settlements are pending or in
    /// progress.
    pub fn len(&self) -> (r: usize)
        ensures
            r == active(self@.store),
    {
        let rows = self.store.rows();
        let ghost view = self@.store.rows;
        let mut n: usize = 0;
        let mut i: usize = 0;
        assert(view.take(0) =~= seq![]);
        while i < rows.len()
            invariant
                i <= rows@.len(),
                n <= i,
                view == rows_view(rows@),
                n == count_status(view.take(i as int), SettlementStatus::Pending) + count_status(
                    view.take(i as int),
                    SettlementStatus::InProgress,
                ),
            decreases rows@.len() - i,
        {
            assert(view.take(i + 1).drop_last() =~= view.take(i as int));
            assert(view.take(i + 1).last() == rows@[i as int]@);
            let status = rows[i].status;
            if status == SettlementStatus::Pending || status == SettlementStatus::InProgress {
                n += 1;
            }
            i += 1;
        }
        assert(view.take(i as int) =~= view);
        n
    }

    /// Whether no settlement is pending or in progress.
    pub fn is_empty(&self) -> (r: bool)
        ensures
            r == (active(self@.store) == 0),
    {
        self.len() == 0
    }

    /// Whether as many settlements as the bound are pending or in progress.
    pub fn is_full(&self) -> (r: bool)
        ensures
            r == self@.full(),
    {
        self.len() >= self.max_size
    }

    /// The bound.
    pub fn max_size(&self) -> (r: usize)
        ensures
            r == self@.max_size,
    {
        self.max_size
    }

    /// How many settlements are pending, in progress, completed and failed.
    pub fn get_status_counts(&self) -> (r: (i64, i64, i64, i64))
        requires
            self@.store.valid(),
        ensures
            r.0 == self@.store.count(SettlementStatus::Pending),
            r.1 == self@.store.count(SettlementStatus::InProgress),
            r.2 == self@.store.count(SettlementStatus::Completed),
            r.3 == self@.store.count(SettlementStatus::Failed),
    {
        let pending: i64 = match self.store.pending_count() {
            Ok(n) => n,
            Err(_) => 0,
        };
        let in_progress: i64 = match self.store.in_progress_count() {
            Ok(n) => n,
            Err(_) => 0,
        };
        let completed: i64 = match self.store.count_by_status(SettlementStatus::Completed) {
            Ok(n) => n,
            Err(_) => 0,
        };
        let failed: i64 = match self.store.count_by_status(SettlementStatus::Failed) {
            Ok(n) => n,
            Err(_) => 0,
        };
        (pending, in_progress, completed, failed)
    }
}

/// Whether `q` is the queue that a table gives at a time: what was in progress
/// is pending.
pub open spec fn started(s: StoreView, max_size: usize, now: int, q: QueueView) -> bool {
    &&& q.store == s.recovered(now)
    &&& q.max_size == max_size
}

// ---------------------------------------------------------------------------
// Laws
// ---------------------------------------------------------------------------

/// The depth follows what happens to the settlements. A start keeps it. A
/// settlement that is queued makes it one more. Claiming keeps it, completing
/// and failing take off what the settlement counted, and one that is put back
/// counts once.
pub proof fn law_depth_covers_queue(
    q: QueueView,
    max_size: usize,
    start: QueueView,
    nonce: Seq<char>,
    request: JsonView,
    i: int,
    text: Seq<char>,
    now: int,
)
    requires
        q.store.valid(),
        0 <= i < q.store.rows.len(),
    ensures
        started(q.store, max_size, now, start) ==> active(start.store) == active(q.store),
        active(q.pushed(nonce, request, now).store) == active(q.store) + if q.refuses()
            || q.store.has_nonce(nonce) {
            0int
        } else {
            1int
        },
        q.store.is_next(i) ==> active(q.store.claimed(i, now)) == active(q.store),
        active(q.store.completed(q.store.rows[i].id, text, now)) == active(q.store) - active_row(
            q.store.rows[i],
        ),
        active(q.store.failed(q.store.rows[i].id, text, now)) == active(q.store) - active_row(
            q.store.rows[i],
        ),
        active(q.store.retried(q.store.rows[i].id, text, now)) == active(q.store) - active_row(
            q.store.rows[i],
        ) + 1,
{
    let s = q.store;
    let id = s.rows[i].id;
    law_recovery_loses_nothing(s, now);
    lemma_push_depth(q, nonce, request, now);
    let r1 = s.claimed(i, now).rows[i];
    lemma_count_update(s.rows, i, r1, SettlementStatus::Pending);
    lemma_count_update(s.rows, i, r1, SettlementStatus::InProgress);
    let f2 = |r: SettlementView|
        SettlementView {
            status: SettlementStatus::Completed,
            tx_hash: Some(text),
            updated_at: now,
            ..r
        };
    lemma_changed(s, i, f2);
    assert(s.completed(id, text, now) == s.changed(id, f2));
    lemma_count_update(s.rows, i, f2(s.rows[i]), SettlementStatus::Pending);
    lemma_count_update(s.rows, i, f2(s.rows[i]), SettlementStatus::InProgress);
    let f3 = |r: SettlementView|
        SettlementView {
            status: SettlementStatus::Failed,
            last_error: Some(text),
            updated_at: now,
            ..r
        };
    lemma_changed(s, i, f3);
    assert(s.failed(id, text, now) == s.changed(id, f3));
    lemma_count_update(s.rows, i, f3(s.rows[i]), SettlementStatus::Pending);
    lemma_count_update(s.rows, i, f3(s.rows[i]), SettlementStatus::InProgress);
    let f4 = |r: SettlementView|
        SettlementView {
            status: SettlementStatus::Pending,
            retry_count: (r.retry_count + 1) as i32,
            last_error: Some(text),
            updated_at: now,
            ..r
        };
    lemma_changed(s, i, f4);
    assert(s.retried(id, text, now) == s.changed(id, f4));
    lemma_count_update(s.rows, i, f4(s.rows[i]), SettlementStatus::Pending);
    lemma_count_update(s.rows, i, f4(s.rows[i]), SettlementStatus::InProgress);
}

/// The depth after a settlement was queued, or refused.
proof fn lemma_push_depth(q: QueueView, nonce: Seq<char>, request: JsonView, now: int)
    ensures
        active(q.pushed(nonce, request, now).store) == active(q.store) + if q.refuses()
            || q.store.has_nonce(nonce) {
            0int
        } else {
            1int
        },
{
    let t = q.store.with_settlement(nonce, json_text(request), now);
    lemma_count_push(q.store.rows, t.rows.last(), SettlementStatus::Pending);
    lemma_count_push(q.store.rows, t.rows.last(), SettlementStatus::InProgress);
    assert(t.rows == q.store.rows.push(t.rows.last()));
}

/// Queueing never makes more settlements than the bound pending or in progress.
pub proof fn law_bound_holds(q: QueueView, nonce: Seq<char>, request: JsonView, now: int)
    requires
        active(q.store) <= q.max_size,
    ensures
        active(q.pushed(nonce, request, now).store) <= q.max_size,
{
    lemma_push_depth(q, nonce, request, now);
}

/// Finished settlements do not count against the bound: in a queue whose depth
/// is within its bound, completing or failing one that is pending or in
/// progress makes room for a new one.
pub proof fn law_finished_make_room(
    q: QueueView,
    i: int,
    text: Seq<char>,
    now: int,
    nonce: Seq<char>,
    request: JsonView,
    later: int,
)
    requires
        q.store.valid(),
        0 <= i < q.store.rows.len(),
        active_row(q.store.rows[i]) == 1,
        active(q.store) <= q.max_size,
        !q.store.exhausted(),
        !q.store.has_nonce(nonce),
    ensures
        ({
            let id = q.store.rows[i].id;
            let done = QueueView { store: q.store.completed(id, text, now), ..q };
            let gone = QueueView { store: q.store.failed(id, text, now), ..q };
            &&& !done.refuses()
            &&& !gone.refuses()
            &&& done.pushed(nonce, request, later).store == done.store.with_settlement(
                nonce,
                json_text(request),
                later,
            )
            &&& gone.pushed(nonce, request, later).store == gone.store.with_settlement(
                nonce,
                json_text(request),
                later,
            )
        }),
{
    let id = q.store.rows[i].id;
    law_depth_covers_queue(q, q.max_size, q, nonce, request, i, text, now);
    let done = q.store.completed(id, text, now);
    let gone = q.store.failed(id, text, now);
    assert forall|j: int| 0 <= j < q.store.rows.len() implies (#[trigger] done.rows[j]).nonce
        != nonce && gone.rows[j].nonce != nonce by {
        assert(q.store.rows[j].nonce != nonce);
    }
    assert(!gone.has_nonce(nonce)) by {
        if gone.has_nonce(nonce) {
            let j = choose|j: int| 0 <= j < gone.rows.len() && (#[trigger] gone.rows[j]).nonce
                == nonce;
            assert(done.rows[j].nonce != nonce);
        }
    }
}

/// A queue in which nothing is pending or in progress takes a new settlement,
/// however many it has taken before.
pub proof fn law_idle_queue_takes(q: QueueView, nonce: Seq<char>, request: JsonView, now: int)
    requires
        active(q.store) == 0,
        q.max_size >= 1,
        !q.store.exhausted(),
        !q.store.has_nonce(nonce),
    ensures
        !q.refuses(),
        q.pushed(nonce, request, now).store == q.store.with_settlement(
            nonce,
            json_text(request),
            now,
        ),
{
}

/// A payment whose nonce was queued is not queued again: whether the queue
/// takes or refuses it, the settlements stay as they are.
pub proof fn law_queued_once(q: QueueView, nonce: Seq<char>, request: JsonView, now: int)
    requires
        q.store.has_nonce(nonce),
    ensures
        q.pushed(nonce, request, now).store.rows == q.store.rows,
        q.pushed(nonce, request, now).max_size == q.max_size,
{
}

/// A queue is full exactly where as many settlements as its bound are pending
/// or in progress; finished ones do not count. It refuses settlements where it
/// is full or its table has no room.
pub proof fn law_full_queue(q: QueueView)
    ensures
        q.full() <==> q.store.count(SettlementStatus::Pending) + q.store.count(
            SettlementStatus::InProgress,
        ) >= q.max_size,
        q.refuses() <==> q.full() || q.store.exhausted(),
{
}

/// Queueing leaves the queue as it is where it refuses; a new settlement that
/// it takes is one more row at the end, with its nonce and the text of its
/// request, and one whose nonce is there adds none. The bound stays.
pub proof fn law_push_in_full(q: QueueView, nonce: Seq<char>, request: JsonView, now: int)
    ensures
        ({
            let after = q.pushed(nonce, request, now);
            &&& after.max_size == q.max_size
            &&& q.refuses() ==> after == q
            &&& !q.refuses() && !q.store.has_nonce(nonce) ==> {
                &&& after.store.rows.len() == q.store.rows.len() + 1
                &&& after.store.rows.drop_last() == q.store.rows
                &&& after.store.rows.last().nonce == nonce
                &&& after.store.rows.last().settle_request_json == json_text(request)
                &&& after.store.rows.last().status == SettlementStatus::Pending
                &&& after.store.rows.last().queued_at == now
            }
        }),
{
    if !q.refuses() && !q.store.has_nonce(nonce) {
        assert(q.pushed(nonce, request, now).store.rows.drop_last() =~= q.store.rows);
    }
}

/// The bound of a queue is the number that is set, where it is one, and 10000
/// otherwise.
pub proof fn law_queue_size(vars: Seq<(Seq<char>, Seq<char>)>)
    ensures
        ({
            let set = env_var(vars, "SETTLEMENT_QUEUE_MAX_SIZE"@);
            let n = decimal_value(set->0);
            &&& set is Some && n is Some && n->0 <= usize::MAX ==> queue_size(vars) == n->0
            &&& set is None || n is None || n->0 > usize::MAX ==> queue_size(vars) == 10_000
        }),
{
}

/// A queue that is started takes over the table that is there: every settlement
/// stays what it is, and one that was in progress is pending again, so that
/// none is left in progress.
pub proof fn law_started_queue(s: StoreView, max_size: usize, now: int, q: QueueView, i: int)
    requires
        started(s, max_size, now, q),
        0 <= i < s.rows.len(),
    ensures
        q.max_size == max_size,
        q.store.rows.len() == s.rows.len(),
        q.store.last_id == s.last_id,
        ({
            let before = s.rows[i];
            let row = q.store.rows[i];
            &&& row.status != SettlementStatus::InProgress
            &&& before.status == SettlementStatus::InProgress ==> row.status
                == SettlementStatus::Pending
            &&& before.status != SettlementStatus::InProgress ==> row == before
            &&& same_settlement(row, before)
            &&& row.retry_count == before.retry_count
        }),
{
}

} // verus!
