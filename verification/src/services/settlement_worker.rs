//! Settling of queued payments in the background.
//!
//! A settlement that was claimed is sent to the facilitator until it is
//! settled or has failed for good.

use vstd::prelude::*;
use vstd::string::*;
use vstd::utf8::*;

use crate::json::{json_parsed, Json, JsonView};
use crate::text::{contains, lowercase, occurs, to_lowercase};

use super::facilitator::{RetryIntervals, SettleResult, SettleView};
use super::settlement_queue::{QueueView, SettlementQueue};
use super::settlement_store::{can_count_retry, SettlementStatus, StoredSettlement};
use super::verification_cache::counted;

verus! {

/// How often a settlement is sent each time that it is claimed.
pub const MAX_SETTLEMENT_RETRIES: u32 = 5;

/// How many settlements were processed, and how. The counts wrap around.
pub struct SettlementMetrics {
    pub total_processed: u64,
    pub success_count: u64,
    pub failure_count: u64,
    pub retry_count: u64,
}

/// One more, or 0 after the greatest count.
fn count_up(n: u64) -> (r: u64)
    ensures
        r == counted(n),
{
    if n == 0xffff_ffff_ffff_ffff {
        0
    } else {
        n + 1
    }
}

impl SettlementMetrics {
    /// Whether every settlement that was processed has succeeded or failed, as
    /// far as counts that wrap around say.
    pub open spec fn balanced(&self) -> bool {
        (self.success_count + self.failure_count - self.total_processed) % 0x1_0000_0000_0000_0000
            == 0
    }

    /// The counts after a success.
    pub open spec fn succeeded(self) -> SettlementMetrics {
        SettlementMetrics {
            total_processed: counted(self.total_processed),
            success_count: counted(self.success_count),
            ..self
        }
    }

    /// The counts after a failure.
    pub open spec fn failed(self) -> SettlementMetrics {
        SettlementMetrics {
            total_processed: counted(self.total_processed),
            failure_count: counted(self.failure_count),
            ..self
        }
    }

    /// The counts after a retry.
    pub open spec fn retried(self) -> SettlementMetrics {
        SettlementMetrics { retry_count: counted(self.retry_count), ..self }
    }

    /// No settlement was processed.
    pub fn new() -> (r: Self)
        ensures
            r == (SettlementMetrics {
                total_processed: 0,
                success_count: 0,
                failure_count: 0,
                retry_count: 0,
            }),
            r.balanced(),
    {
        SettlementMetrics {
            total_processed: 0,
            success_count: 0,
            failure_count: 0,
            retry_count: 0,
        }
    }

    /// Counts a success.
    pub fn record_success(&mut self)
        ensures
            *final(self) == old(self).succeeded(),
            old(self).balanced() ==> final(self).balanced(),
    {
        self.total_processed = count_up(self.total_processed);
        self.success_count = count_up(self.success_count);
    }

    /// Counts a failure.
    pub fn record_failure(&mut self)
        ensures
            *final(self) == old(self).failed(),
            old(self).balanced() ==> final(self).balanced(),
    {
        self.total_processed = count_up(self.total_processed);
        self.failure_count = count_up(self.failure_count);
    }

    /// Counts a retry.
    pub fn record_retry(&mut self)
        ensures
            *final(self) == old(self).retried(),
            old(self).balanced() ==> final(self).balanced(),
    {
        self.retry_count = count_up(self.retry_count);
    }

    /// The settlements that were processed, the successes, the failures and
    /// the retries.
    pub fn get_stats(&self) -> (r: (u64, u64, u64, u64))
        ensures
            r == (self.total_processed, self.success_count, self.failure_count, self.retry_count),
    {
        (self.total_processed, self.success_count, self.failure_count, self.retry_count)
    }
}

/// Whether an error of the facilitator may pass.
pub open spec fn retryable(error: Seq<char>) -> bool {
    let e = lowercase(error);
    ||| occurs(e, "timeout"@)
    ||| occurs(e, "connection"@)
    ||| occurs(e, "network"@)
    ||| occurs(e, "rate limit"@)
    ||| occurs(e, "too many requests"@)
    ||| occurs(e, "unavailable"@)
    ||| occurs(e, "temporary"@)
    ||| occurs(e, "retry"@)
    ||| occurs(e, "congestion"@)
    ||| occurs(e, "nonce too low"@)
    ||| occurs(e, "replacement transaction"@)
}

/// A settlement that is being processed: its request, how often it was sent
/// over all, and when that is enough.
pub struct SettlementRun {
    pub id: i64,
    pub request: Json,
    pub attempts: u32,
    pub max_attempts: u32,
}

/// A settlement that is being processed.
pub struct RunView {
    pub id: i64,
    pub request: JsonView,
    pub attempts: u32,
    pub max_attempts: u32,
}

impl View for SettlementRun {
    type V = RunView;

    open spec fn view(&self) -> RunView {
        RunView {
            id: self.id,
            request: self.request@,
            attempts: self.attempts,
            max_attempts: self.max_attempts,
        }
    }
}

/// How often a settlement was put back before, as an unsigned count of 32 bits.
pub open spec fn sends_before(retry_count: i32) -> int {
    if retry_count >= 0 {
        retry_count as int
    } else {
        retry_count + 0x1_0000_0000
    }
}

/// What follows from the outcome of a send.
pub enum RunStep {
    /// The settlement is completed or has failed.
    Finished,
    /// It may be sent again after a pause. Where no pause is left, it fails
    /// with this error.
    MayRetry(String),
}

/// What a settlement comes to.
pub enum VerdictView {
    Completed(Seq<char>),
    Failed(Seq<char>),
    MayRetry(Seq<char>),
}

/// What the outcome of a send comes to: the facilitator's answer, or the error
/// of the call.
pub open spec fn verdict(run: RunView, outcome: Result<SettleView, Seq<char>>) -> VerdictView {
    match outcome {
        Ok(s) => if s.success {
            VerdictView::Completed(
                match s.transaction {
                    Some(t) => t,
                    None => "unknown"@,
                },
            )
        } else {
            let e = match s.error_reason {
                Some(e) => e,
                None => "Unknown error"@,
            };
            if retryable(e) && run.attempts < run.max_attempts {
                VerdictView::MayRetry(e)
            } else {
                VerdictView::Failed(e)
            }
        },
        Err(e) => if run.attempts < run.max_attempts {
            VerdictView::MayRetry(e)
        } else {
            VerdictView::Failed(e)
        },
    }
}

/// What an outcome is.
pub open spec fn outcome_view(o: Result<SettleResult, String>) -> Result<SettleView, Seq<char>> {
    match o {
        Ok(s) => Ok(s@),
        Err(e) => Err(e@),
    }
}

/// A queue whose table has changed.
pub open spec fn with_failed(q: QueueView, id: i64, error: Seq<char>, now: int) -> QueueView {
    QueueView { store: q.store.failed(id, error, now), ..q }
}

/// A queue in which a settlement was completed.
pub open spec fn with_completed(q: QueueView, id: i64, tx: Seq<char>, now: int) -> QueueView {
    QueueView { store: q.store.completed(id, tx, now), ..q }
}

/// Processes settlements, and counts what came of them.
pub struct SettlementWorker {
    pub metrics: SettlementMetrics,
}

impl SettlementWorker {
    /// A worker that has processed nothing.
    pub fn new() -> (r: Self)
        ensures
            r.metrics == (SettlementMetrics {
                total_processed: 0,
                success_count: 0,
                failure_count: 0,
                retry_count: 0,
            }),
    {
        SettlementWorker { metrics: SettlementMetrics::new() }
    }

    /// What came of the settlements.
    pub fn metrics(&self) -> (r: &SettlementMetrics)
        ensures
            *r == self.metrics,
    {
        &self.metrics
    }

    /// How long is waited between the attempts of a settlement, and in all.
    pub fn create_backoff() -> (r: RetryIntervals)
        ensures
            r == (RetryIntervals {
                initial_interval: 10_000,
                max_interval: 120_000,
                max_elapsed_time: 600_000,
            }),
    {
        RetryIntervals {
            initial_interval: 10_000,
            max_interval: 120_000,
            max_elapsed_time: 600_000,
        }
    }

    /// Claims the next settlement of a queue at a time.
    pub fn claim(&self, queue: &mut SettlementQueue, now: i128) -> (r: Option<StoredSettlement>)
        requires
            old(queue)@.store.valid(),
        ensures
            final(queue)@.store.valid(),
            final(queue)@ == (QueueView { store: final(queue)@.store, ..old(queue)@ }),
            match r {
                Some(row) => exists|i: int|
                    #![trigger old(queue)@.store.is_next(i)]
                    old(queue)@.store.is_next(i) && final(queue)@.store == old(
                        queue,
                    )@.store.claimed(i, now as int) && row@ == final(queue)@.store.rows[i],
                None => final(queue)@.store == old(queue)@.store && forall|i: int|
                    0 <= i < old(queue)@.store.rows.len() ==> (#[trigger] old(
                        queue,
                    )@.store.rows[i]).status != SettlementStatus::Pending,
            },
    {
        match queue.claim_next_at(now) {
            Ok(s) => s,
            Err(_) => None,
        }
    }

    /// Begins to process a settlement, given what its request reads as. One
    /// whose request cannot be read fails.
    pub fn begin_with(
        &mut self,
        queue: &mut SettlementQueue,
        settlement: &StoredSettlement,
        parsed: Result<Json, String>,
        now: i128,
    ) -> (r: Option<SettlementRun>)
        requires
            old(queue)@.store.valid(),
            sends_before(settlement.retry_count) + MAX_SETTLEMENT_RETRIES <= u32::MAX,
        ensures
            final(queue)@.store.valid(),
            match parsed {
                Ok(j) => {
                    &&& r is Some
                    &&& r->0@ == (RunView {
                        id: settlement.id,
                        request: j@,
                        attempts: (sends_before(settlement.retry_count) + 1) as u32,
                        max_attempts: (sends_before(settlement.retry_count) + 5) as u32,
                    })
                    &&& final(queue)@ == old(queue)@
                    &&& *final(self) == *old(self)
                },
                Err(e) => {
                    &&& r is None
                    &&& final(queue)@ == with_failed(
                        old(queue)@,
                        settlement.id,
                        "Deserialization error: "@ + e@,
                        now as int,
                    )
                    &&& final(self).metrics == old(self).metrics.failed()
                },
            },
    {
        match parsed {
            Ok(request) => {
                let count: i64 = settlement.retry_count as i64;
                let retries: u32 = if count >= 0 {
                    count as u32
                } else {
                    (count + 0x1_0000_0000) as u32
                };
                Some(
                    SettlementRun {
                        id: settlement.id,
                        request,
                        attempts: retries + 1,
                        max_attempts: MAX_SETTLEMENT_RETRIES + retries,
                    },
                )
            },
            Err(e) => {
                let mut m = "Deserialization error: ".to_owned();
                m.append(e.as_str());
                let _ = queue.mark_failed_at(settlement.id, m.as_str(), now);
                self.metrics.record_failure();
                None
            },
        }
    }

    /// Begins to process a settlement: reads its request, which is then sent
    /// for the first time. One whose request cannot be read fails.
    pub fn begin(
        &mut self,
        queue: &mut SettlementQueue,
        settlement: &StoredSettlement,
        now: i128,
    ) -> (r: Option<SettlementRun>)
        requires
            old(queue)@.store.valid(),
            sends_before(settlement.retry_count) + MAX_SETTLEMENT_RETRIES <= u32::MAX,
        ensures
            final(queue)@.store.valid(),
            match json_parsed(encode_utf8(settlement.settle_request_json@)) {
                Ok(j) => {
                    &&& r is Some
                    &&& r->0@ == (RunView {
                        id: settlement.id,
                        request: j,
                        attempts: (sends_before(settlement.retry_count) + 1) as u32,
                        max_attempts: (sends_before(settlement.retry_count) + 5) as u32,
                    })
                    &&& final(queue)@ == old(queue)@
                    &&& *final(self) == *old(self)
                },
                Err(e) => {
                    &&& r is None
                    &&& final(queue)@ == with_failed(
                        old(queue)@,
                        settlement.id,
                        "Deserialization error: "@ + e,
                        now as int,
                    )
                    &&& final(self).metrics == old(self).metrics.failed()
                },
            },
    {
        let parsed = settlement.settle_request();
        self.begin_with(queue, settlement, parsed, now)
    }

    /// Decides on the outcome of a send.
    pub fn process_settlement(
        &mut self,
        queue: &mut SettlementQueue,
        run: &SettlementRun,
        outcome: Result<SettleResult, String>,
        now: i128,
    ) -> (r: RunStep)
        requires
            old(queue)@.store.valid(),
        ensures
            final(queue)@.store.valid(),
            match verdict(run@, outcome_view(outcome)) {
                VerdictView::Completed(tx) => {
                    &&& r is Finished
                    &&& final(queue)@ == with_completed(old(queue)@, run.id, tx, now as int)
                    &&& final(self).metrics == old(self).metrics.succeeded()
                },
                VerdictView::Failed(e) => {
                    &&& r is Finished
                    &&& final(queue)@ == with_failed(old(queue)@, run.id, e, now as int)
                    &&& final(self).metrics == old(self).metrics.failed()
                },
                VerdictView::MayRetry(e) => {
                    &&& r is MayRetry
                    &&& r->MayRetry_0@ == e
                    &&& final(queue)@ == old(queue)@
                    &&& final(self).metrics == old(self).metrics.retried()
                },
            },
    {
        let (error, may_retry) = match outcome {
            Ok(s) => {
                if s.success {
                    let tx = match s.transaction {
                        Some(t) => t,
                        None => "unknown".to_owned(),
                    };
                    let _ = queue.mark_completed_at(run.id, tx.as_str(), now);
                    self.metrics.record_success();
                    return RunStep::Finished;
                }
                let e = match s.error_reason {
                    Some(e) => e,
                    None => "Unknown error".to_owned(),
                };
                let passes = Self::is_retryable_error(e.as_str());
                (e, passes)
            },
            Err(e) => (e, true),
        };
        if may_retry && run.attempts < run.max_attempts {
            self.metrics.record_retry();
            return RunStep::MayRetry(error);
        }
        let _ = queue.mark_failed_at(run.id, error.as_str(), now);
        self.metrics.record_failure();
        RunStep::Finished
    }

    /// Decides on whether a settlement is sent again, once it is known whether
    /// there is a pause left; where there is none, it fails with its error.
    pub fn after_pause(
        &mut self,
        queue: &mut SettlementQueue,
        run: &mut SettlementRun,
        error: &str,
        paused: bool,
        now: i128,
    ) -> (r: bool)
        requires
            old(queue)@.store.valid(),
            old(run).attempts < old(run).max_attempts,
        ensures
            final(queue)@.store.valid(),
            r == paused,
            if paused {
                &&& final(run)@ == (RunView {
                    attempts: (old(run).attempts + 1) as u32,
                    ..old(run)@
                })
                &&& final(queue)@ == old(queue)@
                &&& *final(self) == *old(self)
            } else {
                &&& *final(run) == *old(run)
                &&& final(queue)@ == with_failed(old(queue)@, old(run).id, error@, now as int)
                &&& final(self).metrics == old(self).metrics.failed()
            },
    {
        if paused {
            run.attempts = run.attempts + 1;
            true
        } else {
            let _ = queue.mark_failed_at(run.id, error, now);
            self.metrics.record_failure();
            false
        }
    }

    /// Puts a claimed settlement back because the worker shuts down.
    pub fn shut_down(&self, queue: &mut SettlementQueue, id: i64, now: i128)
        requires
            old(queue)@.store.valid(),
            can_count_retry(old(queue)@.store, id),
        ensures
            final(queue)@.store.valid(),
            final(queue)@ == (QueueView {
                store: old(queue)@.store.retried(id, "Worker shutdown"@, now as int),
                ..old(queue)@
            }),
    {
        let _ = queue.record_retry_at(id, "Worker shutdown", now);
    }

    /// Whether an error of the facilitator may pass.
    pub fn is_retryable_error(error: &str) -> (r: bool)
        ensures
            r == retryable(error@),
    {
        let lower = to_lowercase(error);
        let e = lower.as_str();
        contains(e, "timeout") || contains(e, "connection") || contains(e, "network") || contains(
            e,
            "rate limit",
        ) || contains(e, "too many requests") || contains(e, "unavailable") || contains(
            e,
            "temporary",
        ) || contains(e, "retry") || contains(e, "congestion") || contains(e, "nonce too low")
            || contains(e, "replacement transaction")
    }
}

// ---------------------------------------------------------------------------
// Laws
// ---------------------------------------------------------------------------

/// A settlement that was claimed is sent five times at most before it is
/// completed or fails: it begins with the first send, only a settlement below
/// its limit may be sent again, and each further send counts.
pub proof fn law_sends_are_bounded(
    retry_count: i32,
    run: RunView,
    outcome: Result<SettleView, Seq<char>>,
)
    requires
        sends_before(retry_count) < run.attempts <= run.max_attempts,
        run.max_attempts == sends_before(retry_count) + MAX_SETTLEMENT_RETRIES,
    ensures
        verdict(run, outcome) is MayRetry ==> run.attempts + 1 <= run.max_attempts,
        run.attempts - sends_before(retry_count) <= 5,
{
}

/// An answer of success completes a settlement, whatever was tried before; an
/// answer that gives an error which cannot pass makes it fail at once.
pub proof fn law_answers_decide(run: RunView, s: SettleView)
    ensures
        s.success ==> verdict(run, Ok(s)) is Completed,
        !s.success && s.error_reason is Some && !retryable(s.error_reason->0) ==> verdict(
            run,
            Ok(s),
        ) == VerdictView::Failed(s.error_reason->0),
{
}

/// What each outcome of a send comes to. A success completes the settlement,
/// with its transaction where the facilitator names one. An error that may
/// pass, and a call that failed, is tried again below the limit of sends; any
/// other one, and one at the limit, is final with its error.
pub proof fn law_outcomes_decide(run: RunView, outcome: Result<SettleView, Seq<char>>)
    ensures
        ({
            let v = verdict(run, outcome);
            let left = run.attempts < run.max_attempts;
            match outcome {
                Ok(s) => {
                    let e = if s.error_reason is Some {
                        s.error_reason->0
                    } else {
                        "Unknown error"@
                    };
                    &&& s.success && s.transaction is Some ==> v == VerdictView::Completed(
                        s.transaction->0,
                    )
                    &&& s.success && s.transaction is None ==> v == VerdictView::Completed(
                        "unknown"@,
                    )
                    &&& !s.success && retryable(e) && left ==> v == VerdictView::MayRetry(e)
                    &&& !s.success && (!retryable(e) || !left) ==> v == VerdictView::Failed(e)
                },
                Err(e) => {
                    &&& left ==> v == VerdictView::MayRetry(e)
                    &&& !left ==> v == VerdictView::Failed(e)
                },
            }
        }),
{
}

/// Which errors may pass: those that speak, in whatever case, of a timeout, the
/// connection, the network, a rate limit, too many requests, something
/// unavailable or temporary, a retry, congestion, a nonce that is too low or a
/// replacement transaction; and no others.
pub proof fn law_errors_that_pass(error: Seq<char>)
    ensures
        ({
            let e = lowercase(error);
            &&& occurs(e, "timeout"@) ==> retryable(error)
            &&& occurs(e, "connection"@) ==> retryable(error)
            &&& occurs(e, "network"@) ==> retryable(error)
            &&& occurs(e, "rate limit"@) ==> retryable(error)
            &&& occurs(e, "too many requests"@) ==> retryable(error)
            &&& occurs(e, "unavailable"@) ==> retryable(error)
            &&& occurs(e, "temporary"@) ==> retryable(error)
            &&& occurs(e, "retry"@) ==> retryable(error)
            &&& occurs(e, "congestion"@) ==> retryable(error)
            &&& occurs(e, "nonce too low"@) ==> retryable(error)
            &&& occurs(e, "replacement transaction"@) ==> retryable(error)
            &&& retryable(error) ==> occurs(e, "timeout"@) || occurs(e, "connection"@) || occurs(
                e,
                "network"@,
            ) || occurs(e, "rate limit"@) || occurs(e, "too many requests"@) || occurs(
                e,
                "unavailable"@,
            ) || occurs(e, "temporary"@) || occurs(e, "retry"@) || occurs(e, "congestion"@)
                || occurs(e, "nonce too low"@) || occurs(e, "replacement transaction"@)
        }),
{
}

/// What is counted: a success and a failure each as one settlement that was
/// processed, a retry as none.
pub proof fn law_counts(m: SettlementMetrics)
    requires
        m.total_processed < u64::MAX,
        m.success_count < u64::MAX,
        m.failure_count < u64::MAX,
        m.retry_count < u64::MAX,
    ensures
        ({
            let s = m.succeeded();
            let f = m.failed();
            let r = m.retried();
            &&& s.total_processed == m.total_processed + 1
            &&& s.success_count == m.success_count + 1
            &&& s.failure_count == m.failure_count
            &&& s.retry_count == m.retry_count
            &&& f.total_processed == m.total_processed + 1
            &&& f.success_count == m.success_count
            &&& f.failure_count == m.failure_count + 1
            &&& f.retry_count == m.retry_count
            &&& r.total_processed == m.total_processed
            &&& r.success_count == m.success_count
            &&& r.failure_count == m.failure_count
            &&& r.retry_count == m.retry_count + 1
        }),
{
}

/// A settlement that is finished in a queue is finished there alone: the row
/// with its id is completed with its transaction, or failed with its error, and
/// no other row is touched.
pub proof fn law_finished_in_the_queue(
    q: QueueView,
    id: i64,
    text: Seq<char>,
    now: int,
    i: int,
)
    requires
        0 <= i < q.store.rows.len(),
    ensures
        ({
            let row = q.store.rows[i];
            let done = with_completed(q, id, text, now).store.rows[i];
            let gone = with_failed(q, id, text, now).store.rows[i];
            &&& with_completed(q, id, text, now).max_size == q.max_size
            &&& with_failed(q, id, text, now).max_size == q.max_size
            &&& row.id != id ==> done == row && gone == row
            &&& row.id == id ==> done.status == SettlementStatus::Completed && done.tx_hash == Some(
                text,
            ) && gone.status == SettlementStatus::Failed && gone.last_error == Some(text)
        }),
{
}

/// A settlement that was sent before is counted on from there: the attempts
/// begin at one more than the retries that its row counts, and four more may
/// follow.
pub proof fn law_attempts_go_on(retry_count: i32, run: RunView)
    requires
        retry_count >= 0,
        run.attempts == sends_before(retry_count) + 1,
        run.max_attempts == sends_before(retry_count) + 5,
    ensures
        run.attempts == retry_count + 1,
        run.max_attempts == run.attempts + 4,
{
}

} // verus!
