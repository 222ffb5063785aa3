//! The table of settlements.
//!
//! A settlement is queued once by its nonce, claimed in the order in which it
//! was queued, and then completed, failed or put back. Times are nanoseconds
//! since 1970.

use vstd::prelude::*;
use vstd::string::*;
use vstd::utf8::*;

use crate::clock::now_nanos;
use crate::http::{copy_text, text_view};
use crate::json::{is_plain, json_parsed, json_text, Json, JsonView};
use crate::text::same_text;

verus! {

/// Where a settlement stands.
#[derive(Debug, Clone, Copy, PartialEq, Eq, Structural)]
pub enum SettlementStatus {
    Pending,
    InProgress,
    Completed,
    Failed,
}

/// The name of a status.
pub open spec fn status_name(s: SettlementStatus) -> Seq<char> {
    match s {
        SettlementStatus::Pending => "pending"@,
        SettlementStatus::InProgress => "in_progress"@,
        SettlementStatus::Completed => "completed"@,
        SettlementStatus::Failed => "failed"@,
    }
}

/// The status with a name.
pub open spec fn status_named(s: Seq<char>) -> Option<SettlementStatus> {
    if s == "pending"@ {
        Some(SettlementStatus::Pending)
    } else if s == "in_progress"@ {
        Some(SettlementStatus::InProgress)
    } else if s == "completed"@ {
        Some(SettlementStatus::Completed)
    } else if s == "failed"@ {
        Some(SettlementStatus::Failed)
    } else {
        None
    }
}

impl SettlementStatus {
    /// The name of this status.
    pub fn as_str(&self) -> (r: &'static str)
        ensures
            r@ == status_name(*self),
    {
        match self {
            SettlementStatus::Pending => "pending",
            SettlementStatus::InProgress => "in_progress",
            SettlementStatus::Completed => "completed",
            SettlementStatus::Failed => "failed",
        }
    }

    /// The status with a name.
    pub fn from_str(s: &str) -> (r: Option<Self>)
        ensures
            r == status_named(s@),
    {
        if same_text(s, "pending") {
            Some(SettlementStatus::Pending)
        } else if same_text(s, "in_progress") {
            Some(SettlementStatus::InProgress)
        } else if same_text(s, "completed") {
            Some(SettlementStatus::Completed)
        } else if same_text(s, "failed") {
            Some(SettlementStatus::Failed)
        } else {
            None
        }
    }
}

/// The name of a status is the name of that status alone.
pub proof fn law_status_reads_back(s: SettlementStatus)
    ensures
        status_named(status_name(s)) == Some(s),
{
    reveal_strlit("pending");
    reveal_strlit("in_progress");
    reveal_strlit("completed");
    reveal_strlit("failed");
    assert("pending"@.len() == 7);
    assert("in_progress"@.len() == 11);
    assert("completed"@.len() == 9);
    assert("failed"@.len() == 6);
}

/// A settlement in the table.
#[derive(Debug, Clone)]
pub struct StoredSettlement {
    pub id: i64,
    pub nonce: String,
    /// The settle request, as the JSON text that the facilitator is sent.
    pub settle_request_json: String,
    pub queued_at: i128,
    pub status: SettlementStatus,
    pub retry_count: i32,
    pub last_error: Option<String>,
    pub tx_hash: Option<String>,
    pub updated_at: i128,
}

/// A settlement in the table.
pub struct SettlementView {
    pub id: i64,
    pub nonce: Seq<char>,
    pub settle_request_json: Seq<char>,
    pub queued_at: int,
    pub status: SettlementStatus,
    pub retry_count: i32,
    pub last_error: Option<Seq<char>>,
    pub tx_hash: Option<Seq<char>>,
    pub updated_at: int,
}

impl View for StoredSettlement {
    type V = SettlementView;

    open spec fn view(&self) -> SettlementView {
        SettlementView {
            id: self.id,
            nonce: self.nonce@,
            settle_request_json: self.settle_request_json@,
            queued_at: self.queued_at as int,
            status: self.status,
            retry_count: self.retry_count,
            last_error: text_view(self.last_error),
            tx_hash: text_view(self.tx_hash),
            updated_at: self.updated_at as int,
        }
    }
}

impl StoredSettlement {
    /// Reads the settle request; the error is serde_json's text.
    pub fn settle_request(&self) -> (r: Result<Json, String>)
        ensures
            match r {
                Ok(j) => json_parsed(encode_utf8(self.settle_request_json@)) == Ok::<
                    JsonView,
                    Seq<char>,
                >(j@),
                Err(e) => json_parsed(encode_utf8(self.settle_request_json@)) == Err::<
                    JsonView,
                    Seq<char>,
                >(e@),
            },
    {
        Json::parse(self.settle_request_json.as_str().as_bytes())
    }

    /// A copy of this row.
    fn copy(&self) -> (r: Self)
        ensures
            r@ == self@,
    {
        StoredSettlement {
            id: self.id,
            nonce: self.nonce.clone(),
            settle_request_json: self.settle_request_json.clone(),
            queued_at: self.queued_at,
            status: self.status,
            retry_count: self.retry_count,
            last_error: copy_text(&self.last_error),
            tx_hash: copy_text(&self.tx_hash),
            updated_at: self.updated_at,
        }
    }
}

/// What can go wrong in the table.
#[derive(Debug)]
pub enum SettlementStoreError {
    Database(String),
    Serialization(String),
}

impl SettlementStoreError {
    /// The message of this error.
    pub fn to_string(&self) -> (r: String)
        ensures
            r@ == (match self {
                SettlementStoreError::Database(e) => "Database error: "@ + e@,
                SettlementStoreError::Serialization(e) => "Serialization error: "@ + e@,
            }),
    {
        match self {
            SettlementStoreError::Database(e) => {
                let mut m = "Database error: ".to_owned();
                m.append(e.as_str());
                m
            },
            SettlementStoreError::Serialization(e) => {
                let mut m = "Serialization error: ".to_owned();
                m.append(e.as_str());
                m
            },
        }
    }
}

// ---------------------------------------------------------------------------
// The model
// ---------------------------------------------------------------------------

/// The table: its rows by increasing id, and the last id that was given out.
pub struct StoreView {
    pub rows: Seq<SettlementView>,
    pub last_id: i64,
}

/// Whether a table can hold these rows: by increasing id, no nonce twice, and
/// no more of them than a count can say.
pub open spec fn keys_hold(rows: Seq<SettlementView>) -> bool {
    &&& rows.len() <= i64::MAX
    &&& forall|i: int, j: int|
        0 <= i < j < rows.len() ==> (#[trigger] rows[i]).id < (#[trigger] rows[j]).id
    &&& forall|i: int, j: int|
        0 <= i < j < rows.len() ==> (#[trigger] rows[i]).nonce != (#[trigger] rows[j]).nonce
}

/// The id above which a table with these rows goes on, where its counter
/// stands at `counter`: the greater of the counter and of the greatest id
/// there is, or of zero where there is none.
pub open spec fn last_given(rows: Seq<SettlementView>, counter: i64) -> i64 {
    let greatest = if rows.len() == 0 {
        0i64
    } else {
        rows.last().id
    };
    if counter < greatest {
        greatest
    } else {
        counter
    }
}

impl StoreView {
    /// Whether a table can hold these rows, and the ids of all of them were
    /// given out.
    pub open spec fn valid(self) -> bool {
        &&& keys_hold(self.rows)
        &&& forall|i: int|
            0 <= i < self.rows.len() ==> (#[trigger] self.rows[i]).id <= self.last_id
    }

    /// Whether the table has no room for another row: no id above the last one
    /// is left, or the number of rows would no longer be a count.
    pub open spec fn exhausted(self) -> bool {
        self.last_id == i64::MAX || self.rows.len() == i64::MAX
    }

    /// Whether there is a settlement with a nonce.
    pub open spec fn has_nonce(self, nonce: Seq<char>) -> bool {
        exists|i: int| 0 <= i < self.rows.len() && (#[trigger] self.rows[i]).nonce == nonce
    }

    /// The table with one more pending settlement.
    pub open spec fn with_settlement(self, nonce: Seq<char>, json: Seq<char>, now: int) -> StoreView {
        StoreView {
            rows: self.rows.push(new_settlement((self.last_id + 1) as i64, nonce, json, now)),
            last_id: (self.last_id + 1) as i64,
        }
    }

    /// The table with the next id passed over.
    pub open spec fn with_id_skipped(self) -> StoreView {
        StoreView { last_id: (self.last_id + 1) as i64, ..self }
    }

    /// Whether the row at `i` is the pending one that was queued first; of
    /// those that were queued at one time, the one with the lowest id.
    pub open spec fn is_next(self, i: int) -> bool {
        &&& 0 <= i < self.rows.len()
        &&& self.rows[i].status == SettlementStatus::Pending
        &&& forall|j: int|
            0 <= j < self.rows.len() && (#[trigger] self.rows[j]).status
                == SettlementStatus::Pending ==> self.rows[i].queued_at < self.rows[j].queued_at
                || (self.rows[i].queued_at == self.rows[j].queued_at && i <= j)
    }

    /// The table after the row at `i` was claimed.
    pub open spec fn claimed(self, i: int, now: int) -> StoreView {
        StoreView {
            rows: self.rows.update(
                i,
                SettlementView {
                    status: SettlementStatus::InProgress,
                    updated_at: now,
                    ..self.rows[i]
                },
            ),
            ..self
        }
    }

    /// The table with one row changed, where there is one with this id.
    pub open spec fn changed(self, id: i64, f: spec_fn(SettlementView) -> SettlementView) -> StoreView {
        StoreView {
            rows: self.rows.map_values(
                |r: SettlementView|
                    if r.id == id {
                        f(r)
                    } else {
                        r
                    },
            ),
            ..self
        }
    }

    /// The table after a settlement was completed.
    pub open spec fn completed(self, id: i64, tx_hash: Seq<char>, now: int) -> StoreView {
        self.changed(
            id,
            |r: SettlementView|
                SettlementView {
                    status: SettlementStatus::Completed,
                    tx_hash: Some(tx_hash),
                    updated_at: now,
                    ..r
                },
        )
    }

    /// The table after a settlement failed.
    pub open spec fn failed(self, id: i64, error: Seq<char>, now: int) -> StoreView {
        self.changed(
            id,
            |r: SettlementView|
                SettlementView {
                    status: SettlementStatus::Failed,
                    last_error: Some(error),
                    updated_at: now,
                    ..r
                },
        )
    }

    /// The table after a settlement was put back.
    pub open spec fn retried(self, id: i64, error: Seq<char>, now: int) -> StoreView {
        self.changed(
            id,
            |r: SettlementView|
                SettlementView {
                    status: SettlementStatus::Pending,
                    retry_count: (r.retry_count + 1) as i32,
                    last_error: Some(error),
                    updated_at: now,
                    ..r
                },
        )
    }

    /// The table after the settlements in progress were put back.
    pub open spec fn recovered(self, now: int) -> StoreView {
        StoreView {
            rows: self.rows.map_values(|r: SettlementView| recovered_row(r, now)),
            ..self
        }
    }

    /// How many settlements have a status.
    pub open spec fn count(self, status: SettlementStatus) -> nat {
        count_status(self.rows, status)
    }
}

/// A settlement after those in progress were put back.
pub open spec fn recovered_row(r: SettlementView, now: int) -> SettlementView {
    if r.status == SettlementStatus::InProgress {
        SettlementView { status: SettlementStatus::Pending, updated_at: now, ..r }
    } else {
        r
    }
}

/// A settlement that was just queued.
pub open spec fn new_settlement(id: i64, nonce: Seq<char>, json: Seq<char>, now: int) -> SettlementView {
    SettlementView {
        id,
        nonce,
        settle_request_json: json,
        queued_at: now,
        status: SettlementStatus::Pending,
        retry_count: 0,
        last_error: None,
        tx_hash: None,
        updated_at: now,
    }
}

/// How many rows have a status.
pub open spec fn count_status(rows: Seq<SettlementView>, status: SettlementStatus) -> nat
    decreases rows.len(),
{
    if rows.len() == 0 {
        0
    } else {
        count_status(rows.drop_last(), status) + if rows.last().status == status {
            1nat
        } else {
            0nat
        }
    }
}

// ---------------------------------------------------------------------------
// The table
// ---------------------------------------------------------------------------

/// The table of settlements.
pub struct SettlementStore {
    rows: Vec<StoredSettlement>,
    last_id: i64,
}

/// What a list of rows is.
pub open spec fn rows_view(v: Seq<StoredSettlement>) -> Seq<SettlementView> {
    Seq::new(v.len(), |i: int| v[i]@)
}

impl View for SettlementStore {
    type V = StoreView;

    closed spec fn view(&self) -> StoreView {
        StoreView { rows: rows_view(self.rows@), last_id: self.last_id }
    }
}

impl SettlementStore {
    /// The table with these rows, where a table can hold them. `counter` is
    /// the last id that was given out, as far as that was noted.
    pub fn open(rows: Vec<StoredSettlement>, counter: i64) -> (r: Result<
        Self,
        SettlementStoreError,
    >)
        ensures
            ({
                let s = rows_view(rows@);
                match r {
                    Ok(t) => {
                        &&& keys_hold(s)
                        &&& t@ == (StoreView { rows: s, last_id: last_given(s, counter) })
                        &&& t@.valid()
                    },
                    Err(e) => !keys_hold(s) && e == SettlementStoreError::Database(
                        e->Database_0,
                    ) && e->Database_0@ == "settlement rows are inconsistent"@,
                }
            }),
    {
        let ghost s = rows_view(rows@);
        let mut ok: bool = rows.len() as u64 <= 0x7fff_ffff_ffff_ffff;
        let mut i: usize = 0;
        while i < rows.len() && ok
            invariant
                i <= rows@.len(),
                s == rows_view(rows@),
                ok ==> s.len() <= i64::MAX,
                ok ==> keys_hold(s.take(i as int)),
                !ok ==> !keys_hold(s),
            decreases rows@.len() - i,
        {
            assert(s[i as int] == rows@[i as int]@);
            if i > 0 && rows[i - 1].id >= rows[i].id {
                assert(s[i - 1].id >= s[i as int].id);
                ok = false;
            } else {
                let mut j: usize = 0;
                while j < i && ok
                    invariant
                        j <= i < rows@.len(),
                        s == rows_view(rows@),
                        ok ==> forall|k: int|
                            0 <= k < j ==> (#[trigger] s[k]).nonce != s[i as int].nonce,
                        !ok ==> !keys_hold(s),
                    decreases i - j,
                {
                    if same_text(rows[j].nonce.as_str(), rows[i].nonce.as_str()) {
                        assert(s[j as int].nonce == s[i as int].nonce);
                        ok = false;
                    }
                    j += 1;
                }
                proof {
                    if ok {
                        let u = s.take(i + 1);
                        let t = s.take(i as int);
                        assert forall|a: int, b: int| 0 <= a < b < u.len() implies (
                        #[trigger] u[a]).id < (#[trigger] u[b]).id by {
                            assert(t[a] == u[a]);
                            if b < i {
                                assert(t[b] == u[b]);
                            } else if a < i - 1 {
                                assert(t[a].id < t[i - 1].id);
                            }
                        }
                        assert forall|a: int, b: int| 0 <= a < b < u.len() implies (
                        #[trigger] u[a]).nonce != (#[trigger] u[b]).nonce by {
                            assert(t[a] == u[a]);
                            if b < i {
                                assert(t[b] == u[b]);
                            } else {
                                assert(s[a].nonce != s[i as int].nonce);
                            }
                        }
                    }
                }
            }
            i += 1;
        }
        if ok {
            assert(s.take(i as int) =~= s);
            let greatest: i64 = if rows.len() == 0 {
                0
            } else {
                rows[rows.len() - 1].id
            };
            let last_id: i64 = if counter < greatest {
                greatest
            } else {
                counter
            };
            Ok(SettlementStore { rows, last_id })
        } else {
            Err(SettlementStoreError::Database("settlement rows are inconsistent".to_owned()))
        }
    }

    /// An empty table.
    pub fn open_in_memory() -> (r: Result<Self, SettlementStoreError>)
        ensures
            r is Ok,
            r->Ok_0@ == (StoreView { rows: seq![], last_id: 0 }),
            r->Ok_0@.valid(),
    {
        let s = SettlementStore { rows: Vec::new(), last_id: 0 };
        assert(s@.rows =~= seq![]);
        Ok(s)
    }

    /// The rows, by increasing id.
    pub fn rows(&self) -> (r: &Vec<StoredSettlement>)
        ensures
            rows_view(r@) == self@.rows,
    {
        &self.rows
    }

    /// Whether there is a settlement with a nonce.
    fn has_nonce(&self, nonce: &str) -> (r: bool)
        ensures
            r == self@.has_nonce(nonce@),
    {
        let mut i: usize = 0;
        while i < self.rows.len()
            invariant
                i <= self.rows@.len(),
                forall|j: int| 0 <= j < i ==> (#[trigger] self@.rows[j]).nonce != nonce@,
            decreases self.rows@.len() - i,
        {
            if same_text(self.rows[i].nonce.as_str(), nonce) {
                assert(self@.rows[i as int].nonce == nonce@);
                return true;
            }
            i += 1;
        }
        false
    }

    /// Queues a settlement at a time, and gives its id. Where the table has no
    /// room, nothing changes. Where the nonce is there already, no row does, and
    /// the id that it would have had is passed over.
    pub fn insert_at(&mut self, nonce: &str, settle_request: &Json, now: i128) -> (r: Result<
        Option<i64>,
        SettlementStoreError,
    >)
        requires
            old(self)@.valid(),
        ensures
            final(self)@.valid(),
            inserted(old(self)@, final(self)@, nonce@, settle_request@, now as int, r),
    {
        let json = settle_request.to_text();
        if self.last_id == 0x7fff_ffff_ffff_ffff || self.rows.len() as u64
            == 0x7fff_ffff_ffff_ffff {
            return Err(SettlementStoreError::Database("database or disk is full".to_owned()));
        }
        let ghost before = self@;
        let id: i64 = self.last_id + 1;
        self.last_id = id;
        if self.has_nonce(nonce) {
            assert(self@ == before.with_id_skipped());
            return Ok(None);
        }
        self.rows.push(
            StoredSettlement {
                id,
                nonce: nonce.to_owned(),
                settle_request_json: json,
                queued_at: now,
                status: SettlementStatus::Pending,
                retry_count: 0,
                last_error: None,
                tx_hash: None,
                updated_at: now,
            },
        );
        proof {
            let after = before.with_settlement(nonce@, json@, now as int);
            assert(self@.rows =~= after.rows);
            assert forall|i: int| 0 <= i < after.rows.len() implies (
            #[trigger] after.rows[i]).id <= after.last_id by {
                if i < before.rows.len() {
                    assert(after.rows[i] == before.rows[i]);
                }
            }
            assert forall|i: int, j: int| 0 <= i < j < after.rows.len() implies (
            #[trigger] after.rows[i]).id < (#[trigger] after.rows[j]).id by {
                assert(after.rows[i] == before.rows[i]);
                if j < before.rows.len() {
                    assert(after.rows[j] == before.rows[j]);
                }
            }
            assert forall|i: int, j: int| 0 <= i < j < after.rows.len() implies (
            #[trigger] after.rows[i]).nonce != (#[trigger] after.rows[j]).nonce by {
                assert(after.rows[i] == before.rows[i]);
                if j < before.rows.len() {
                    assert(after.rows[j] == before.rows[j]);
                }
            }
        }
        Ok(Some(id))
    }

    /// Queues a settlement now, and gives its id.
    pub fn insert(&mut self, nonce: &str, settle_request: &Json) -> (r: Result<
        Option<i64>,
        SettlementStoreError,
    >)
        requires
            old(self)@.valid(),
        ensures
            final(self)@.valid(),
            exists|now: int| #[trigger]
                inserted(old(self)@, final(self)@, nonce@, settle_request@, now, r),
    {
        let now: i128 = now_nanos();
        self.insert_at(nonce, settle_request, now)
    }

    /// Claims the pending settlement that was queued first, at a time.
    pub fn claim_next_at(&mut self, now: i128) -> (r: Result<
        Option<StoredSettlement>,
        SettlementStoreError,
    >)
        requires
            old(self)@.valid(),
        ensures
            final(self)@.valid(),
            claims(old(self)@, final(self)@, now as int, r),
    {
        let ghost s = self@;
        let mut best: Option<usize> = None;
        let mut i: usize = 0;
        while i < self.rows.len()
            invariant
                i <= self.rows@.len(),
                s == self@,
                match best {
                    Some(b) => b < i && s.rows[b as int].status == SettlementStatus::Pending
                        && forall|j: int|
                        0 <= j < i && (#[trigger] s.rows[j]).status == SettlementStatus::Pending
                            ==> s.rows[b as int].queued_at < s.rows[j].queued_at || (
                        s.rows[b as int].queued_at == s.rows[j].queued_at && b <= j),
                    None => forall|j: int|
                        0 <= j < i ==> (#[trigger] s.rows[j]).status != SettlementStatus::Pending,
                },
            decreases self.rows@.len() - i,
        {
            assert(s.rows[i as int] == self.rows@[i as int]@);
            if self.rows[i].status == SettlementStatus::Pending {
                match best {
                    Some(b) => {
                        assert(s.rows[b as int] == self.rows@[b as int]@);
                        if self.rows[i].queued_at < self.rows[b].queued_at {
                            best = Some(i);
                        }
                    },
                    None => {
                        best = Some(i);
                    },
                }
            }
            i += 1;
        }
        match best {
            Some(b) => {
                let mut row = self.rows[b].copy();
                row.status = SettlementStatus::InProgress;
                row.updated_at = now;
                let out = row.copy();
                self.rows.set(b, row);
                proof {
                    assert(s.is_next(b as int));
                    let after = s.claimed(b as int, now as int);
                    assert(self@.rows =~= after.rows);
                    lemma_same_keys(s, after);
                }
                Ok(Some(out))
            },
            None => Ok(None),
        }
    }

    /// Claims the pending settlement that was queued first, now.
    pub fn claim_next(&mut self) -> (r: Result<Option<StoredSettlement>, SettlementStoreError>)
        requires
            old(self)@.valid(),
        ensures
            final(self)@.valid(),
            exists|now: int| #[trigger] claims(old(self)@, final(self)@, now, r),
    {
        let now: i128 = now_nanos();
        self.claim_next_at(now)
    }

    /// The position of the row with an id.
    fn position(&self, id: i64) -> (r: Option<usize>)
        requires
            self@.valid(),
        ensures
            match r {
                Some(i) => i < self@.rows.len() && self@.rows[i as int].id == id && forall|j: int|
                    0 <= j < self@.rows.len() && j != i ==> (#[trigger] self@.rows[j]).id != id,
                None => forall|j: int|
                    0 <= j < self@.rows.len() ==> (#[trigger] self@.rows[j]).id != id,
            },
    {
        let mut i: usize = 0;
        while i < self.rows.len()
            invariant
                i <= self.rows@.len(),
                self@.valid(),
                forall|j: int| 0 <= j < i ==> (#[trigger] self@.rows[j]).id != id,
            decreases self.rows@.len() - i,
        {
            assert(self@.rows[i as int] == self.rows@[i as int]@);
            if self.rows[i].id == id {
                assert forall|j: int| 0 <= j < self@.rows.len() && j != i implies (
                #[trigger] self@.rows[j]).id != id by {
                    if j > i {
                        assert(self@.rows[i as int].id < self@.rows[j].id);
                    }
                }
                return Some(i);
            }
            i += 1;
        }
        None
    }

    /// Completes a settlement at a time.
    pub fn mark_completed_at(&mut self, id: i64, tx_hash: &str, now: i128) -> (r: Result<
        (),
        SettlementStoreError,
    >)
        requires
            old(self)@.valid(),
        ensures
            r is Ok,
            final(self)@.valid(),
            final(self)@ == old(self)@.completed(id, tx_hash@, now as int),
    {
        let ghost s = self@;
        if let Some(i) = self.position(id) {
            let mut row = self.rows[i].copy();
            row.status = SettlementStatus::Completed;
            row.tx_hash = Some(tx_hash.to_owned());
            row.updated_at = now;
            self.rows.set(i, row);
        }
        proof {
            let after = s.completed(id, tx_hash@, now as int);
            assert(self@.rows =~= after.rows);
            lemma_same_keys(s, after);
        }
        Ok(())
    }

    /// Completes a settlement now.
    pub fn mark_completed(&mut self, id: i64, tx_hash: &str) -> (r: Result<
        (),
        SettlementStoreError,
    >)
        requires
            old(self)@.valid(),
        ensures
            r is Ok,
            final(self)@.valid(),
            exists|now: int| final(self)@ == #[trigger] old(self)@.completed(id, tx_hash@, now),
    {
        let now: i128 = now_nanos();
        self.mark_completed_at(id, tx_hash, now)
    }

    /// Fails a settlement at a time.
    pub fn mark_failed_at(&mut self, id: i64, error: &str, now: i128) -> (r: Result<
        (),
        SettlementStoreError,
    >)
        requires
            old(self)@.valid(),
        ensures
            r is Ok,
            final(self)@.valid(),
            final(self)@ == old(self)@.failed(id, error@, now as int),
    {
        let ghost s = self@;
        if let Some(i) = self.position(id) {
            let mut row = self.rows[i].copy();
            row.status = SettlementStatus::Failed;
            row.last_error = Some(error.to_owned());
            row.updated_at = now;
            self.rows.set(i, row);
        }
        proof {
            let after = s.failed(id, error@, now as int);
            assert(self@.rows =~= after.rows);
            lemma_same_keys(s, after);
        }
        Ok(())
    }

    /// Fails a settlement now.
    pub fn mark_failed(&mut self, id: i64, error: &str) -> (r: Result<(), SettlementStoreError>)
        requires
            old(self)@.valid(),
        ensures
            r is Ok,
            final(self)@.valid(),
            exists|now: int| final(self)@ == #[trigger] old(self)@.failed(id, error@, now),
    {
        let now: i128 = now_nanos();
        self.mark_failed_at(id, error, now)
    }

    /// Puts a settlement back at a time.
    pub fn record_retry_at(&mut self, id: i64, error: &str, now: i128) -> (r: Result<
        (),
        SettlementStoreError,
    >)
        requires
            old(self)@.valid(),
            can_count_retry(old(self)@, id),
        ensures
            r is Ok,
            final(self)@.valid(),
            final(self)@ == old(self)@.retried(id, error@, now as int),
    {
        let ghost s = self@;
        if let Some(i) = self.position(id) {
            let mut row = self.rows[i].copy();
            row.status = SettlementStatus::Pending;
            assert(s.rows[i as int].retry_count < i32::MAX);
            row.retry_count = row.retry_count + 1;
            row.last_error = Some(error.to_owned());
            row.updated_at = now;
            self.rows.set(i, row);
        }
        proof {
            let after = s.retried(id, error@, now as int);
            assert(self@.rows =~= after.rows);
            lemma_same_keys(s, after);
        }
        Ok(())
    }

    /// Puts a settlement back now.
    pub fn record_retry(&mut self, id: i64, error: &str) -> (r: Result<(), SettlementStoreError>)
        requires
            old(self)@.valid(),
            can_count_retry(old(self)@, id),
        ensures
            r is Ok,
            final(self)@.valid(),
            exists|now: int| final(self)@ == #[trigger] old(self)@.retried(id, error@, now),
    {
        let now: i128 = now_nanos();
        self.record_retry_at(id, error, now)
    }

    /// How many settlements have a status.
    pub fn count_by_status(&self, status: SettlementStatus) -> (r: Result<i64, SettlementStoreError>)
        requires
            self@.valid(),
        ensures
            r is Ok,
            r->Ok_0 == self@.count(status),
    {
        let mut n: i64 = 0;
        let mut i: usize = 0;
        assert(self@.rows.take(0) =~= seq![]);
        while i < self.rows.len()
            invariant
                i <= self.rows@.len(),
                self@.valid(),
                n == count_status(self@.rows.take(i as int), status),
                n <= i,
            decreases self.rows@.len() - i,
        {
            proof {
                assert(self@.rows[i as int] == self.rows@[i as int]@);
                assert(self@.rows.take(i + 1).drop_last() =~= self@.rows.take(i as int));
            }
            if self.rows[i].status == status {
                n += 1;
            }
            i += 1;
        }
        assert(self@.rows.take(i as int) =~= self@.rows);
        Ok(n)
    }

    /// How many settlements are pending.
    pub fn pending_count(&self) -> (r: Result<i64, SettlementStoreError>)
        requires
            self@.valid(),
        ensures
            r is Ok,
            r->Ok_0 == self@.count(SettlementStatus::Pending),
    {
        self.count_by_status(SettlementStatus::Pending)
    }

    /// How many settlements are in progress.
    pub fn in_progress_count(&self) -> (r: Result<i64, SettlementStoreError>)
        requires
            self@.valid(),
        ensures
            r is Ok,
            r->Ok_0 == self@.count(SettlementStatus::InProgress),
    {
        self.count_by_status(SettlementStatus::InProgress)
    }

    /// Puts the settlements in progress back at a time, and says how many
    /// there were.
    pub fn recover_in_progress_at(&mut self, now: i128) -> (r: Result<i64, SettlementStoreError>)
        requires
            old(self)@.valid(),
        ensures
            r is Ok,
            r->Ok_0 == old(self)@.count(SettlementStatus::InProgress),
            final(self)@.valid(),
            final(self)@ == old(self)@.recovered(now as int),
    {
        let ghost s = self@;
        let count = self.in_progress_count();
        let mut i: usize = 0;
        while i < self.rows.len()
            invariant
                i <= self.rows@.len(),
                self.rows@.len() == s.rows.len(),
                self.last_id == s.last_id,
                forall|j: int|
                    0 <= j < self.rows@.len() ==> (#[trigger] self.rows@[j])@ == if j < i {
                        recovered_row(s.rows[j], now as int)
                    } else {
                        s.rows[j]
                    },
            decreases self.rows@.len() - i,
        {
            if self.rows[i].status == SettlementStatus::InProgress {
                let mut row = self.rows[i].copy();
                row.status = SettlementStatus::Pending;
                row.updated_at = now;
                self.rows.set(i, row);
            }
            i += 1;
        }
        proof {
            let after = s.recovered(now as int);
            assert(self@.rows =~= after.rows);
            lemma_same_keys(s, after);
        }
        count
    }

    /// Puts the settlements in progress back now, and says how many there
    /// were.
    pub fn recover_in_progress(&mut self) -> (r: Result<i64, SettlementStoreError>)
        requires
            old(self)@.valid(),
        ensures
            r is Ok,
            r->Ok_0 == old(self)@.count(SettlementStatus::InProgress),
            final(self)@.valid(),
            exists|now: int| final(self)@ == #[trigger] old(self)@.recovered(now),
    {
        let now: i128 = now_nanos();
        self.recover_in_progress_at(now)
    }
}

/// Whether the retries of a settlement can be counted up once more.
pub open spec fn can_count_retry(s: StoreView, id: i64) -> bool {
    forall|i: int|
        0 <= i < s.rows.len() && (#[trigger] s.rows[i]).id == id ==> s.rows[i].retry_count
            < i32::MAX
}

/// A table with the ids and nonces of a valid one is valid.
proof fn lemma_same_keys(s: StoreView, t: StoreView)
    requires
        s.valid(),
        t.last_id == s.last_id,
        t.rows.len() == s.rows.len(),
        forall|i: int|
            0 <= i < s.rows.len() ==> (#[trigger] t.rows[i]).id == s.rows[i].id && t.rows[i].nonce
                == s.rows[i].nonce,
    ensures
        t.valid(),
{
    assert forall|i: int| 0 <= i < t.rows.len() implies (#[trigger] t.rows[i]).id
        <= t.last_id by {
        assert(s.rows[i].id <= s.last_id);
    }
    assert forall|i: int, j: int| 0 <= i < j < t.rows.len() implies (#[trigger] t.rows[i]).id < (
    #[trigger] t.rows[j]).id by {
        assert(s.rows[i].id < s.rows[j].id);
    }
    assert forall|i: int, j: int| 0 <= i < j < t.rows.len() implies (#[trigger] t.rows[i]).nonce
        != (#[trigger] t.rows[j]).nonce by {
        assert(s.rows[i].nonce != s.rows[j].nonce);
    }
}

/// Whether `r` and the table `t` are what queueing a settlement in the table
/// `s` gives. The stored request reads back as the one that was queued.
pub open spec fn inserted(
    s: StoreView,
    t: StoreView,
    nonce: Seq<char>,
    request: JsonView,
    now: int,
    r: Result<Option<i64>, SettlementStoreError>,
) -> bool {
    if s.exhausted() {
        &&& t == s
        &&& r is Err && r->Err_0 is Database && r->Err_0->Database_0@
            == "database or disk is full"@
    } else if s.has_nonce(nonce) {
        &&& t == s.with_id_skipped()
        &&& r == Ok::<Option<i64>, SettlementStoreError>(None)
    } else {
        &&& t == s.with_settlement(nonce, json_text(request), now)
        &&& r == Ok::<Option<i64>, SettlementStoreError>(Some((s.last_id + 1) as i64))
        &&& is_plain(request, 127) ==> json_parsed(
            encode_utf8(t.rows.last().settle_request_json),
        ) == Ok::<JsonView, Seq<char>>(request)
    }
}

/// Whether `r` and the table `t` are what claiming the next settlement of the
/// table `s` gives.
pub open spec fn claims(
    s: StoreView,
    t: StoreView,
    now: int,
    r: Result<Option<StoredSettlement>, SettlementStoreError>,
) -> bool {
    match r {
        Ok(Some(row)) => exists|i: int|
            #![trigger s.is_next(i)]
            s.is_next(i) && t == s.claimed(i, now) && row@ == t.rows[i],
        Ok(None) => t == s && forall|i: int|
            0 <= i < s.rows.len() ==> (#[trigger] s.rows[i]).status != SettlementStatus::Pending,
        Err(_) => false,
    }
}

// ---------------------------------------------------------------------------
// Laws
// ---------------------------------------------------------------------------

/// Settlements are claimed in the order in which they are queued: one that is
/// queued later does not overtake the one that is next.
pub proof fn law_queueing_does_not_overtake(
    s: StoreView,
    i: int,
    nonce: Seq<char>,
    json: Seq<char>,
    now: int,
)
    requires
        s.is_next(i),
        s.rows[i].queued_at <= now,
    ensures
        s.with_settlement(nonce, json, now).is_next(i),
{
    let t = s.with_settlement(nonce, json, now);
    assert forall|j: int|
        0 <= j < t.rows.len() && (#[trigger] t.rows[j]).status
            == SettlementStatus::Pending implies t.rows[i].queued_at < t.rows[j].queued_at || (
    t.rows[i].queued_at == t.rows[j].queued_at && i <= j) by {
        if j < s.rows.len() {
            assert(t.rows[j] == s.rows[j]);
        }
    }
}

/// There is one next settlement at most.
pub proof fn law_next_is_unique(s: StoreView, i: int, j: int)
    requires
        s.is_next(i),
        s.is_next(j),
    ensures
        i == j,
{
    assert(s.rows[i].status == SettlementStatus::Pending);
    assert(s.rows[j].status == SettlementStatus::Pending);
}

/// A settlement that was claimed is not claimed again: it is not pending.
pub proof fn law_claimed_once(s: StoreView, i: int, now: int)
    requires
        s.is_next(i),
    ensures
        !s.claimed(i, now).is_next(i),
        s.claimed(i, now).rows[i].status == SettlementStatus::InProgress,
{
}

/// A nonce never leaves the table, so that a payment is queued once: whatever
/// is claimed, completed, failed, put back, recovered or queued, a nonce that
/// was there is still there.
pub proof fn law_nonce_stays(
    s: StoreView,
    nonce: Seq<char>,
    i: int,
    id: i64,
    text: Seq<char>,
    other: Seq<char>,
    now: int,
)
    requires
        s.has_nonce(nonce),
        0 <= i < s.rows.len(),
    ensures
        s.with_settlement(other, text, now).has_nonce(nonce),
        s.claimed(i, now).has_nonce(nonce),
        s.completed(id, text, now).has_nonce(nonce),
        s.failed(id, text, now).has_nonce(nonce),
        s.retried(id, text, now).has_nonce(nonce),
        s.recovered(now).has_nonce(nonce),
{
    let j = choose|j: int| 0 <= j < s.rows.len() && (#[trigger] s.rows[j]).nonce == nonce;
    assert(s.with_settlement(other, text, now).rows[j].nonce == nonce);
    assert(s.claimed(i, now).rows[j].nonce == nonce);
    assert(s.completed(id, text, now).rows[j].nonce == nonce);
    assert(s.failed(id, text, now).rows[j].nonce == nonce);
    assert(s.retried(id, text, now).rows[j].nonce == nonce);
    assert(s.recovered(now).rows[j].nonce == nonce);
}

/// 1 for a row that has a status, 0 for another.
pub open spec fn counts_as(r: SettlementView, status: SettlementStatus) -> int {
    if r.status == status {
        1
    } else {
        0
    }
}

/// The count of a status after one row was replaced.
pub proof fn lemma_count_update(
    rows: Seq<SettlementView>,
    i: int,
    r: SettlementView,
    status: SettlementStatus,
)
    requires
        0 <= i < rows.len(),
    ensures
        count_status(rows.update(i, r), status) == count_status(rows, status) - counts_as(
            rows[i],
            status,
        ) + counts_as(r, status),
    decreases rows.len(),
{
    let u = rows.update(i, r);
    if i == rows.len() - 1 {
        assert(u.drop_last() =~= rows.drop_last());
    } else {
        lemma_count_update(rows.drop_last(), i, r, status);
        assert(u.drop_last() =~= rows.drop_last().update(i, r));
        assert(u.last() == rows.last());
    }
}

/// The count of a status after one row was added.
pub proof fn lemma_count_push(
    rows: Seq<SettlementView>,
    r: SettlementView,
    status: SettlementStatus,
)
    ensures
        count_status(rows.push(r), status) == count_status(rows, status) + counts_as(r, status),
{
    assert(rows.push(r).drop_last() =~= rows);
}

/// Changing the row with an id replaces the one row that has it.
pub proof fn lemma_changed(
    s: StoreView,
    i: int,
    f: spec_fn(SettlementView) -> SettlementView,
)
    requires
        s.valid(),
        0 <= i < s.rows.len(),
    ensures
        s.changed(s.rows[i].id, f).rows == s.rows.update(i, f(s.rows[i])),
{
    let t = s.changed(s.rows[i].id, f);
    assert forall|j: int| 0 <= j < s.rows.len() implies #[trigger] t.rows[j] == s.rows.update(
        i,
        f(s.rows[i]),
    )[j] by {
        if j < i {
            assert(s.rows[j].id < s.rows[i].id);
        } else if j > i {
            assert(s.rows[i].id < s.rows[j].id);
        }
    }
    assert(t.rows =~= s.rows.update(i, f(s.rows[i])));
}

/// Claiming moves one settlement from pending to in progress.
pub proof fn law_claim_counts(s: StoreView, i: int, now: int)
    requires
        s.is_next(i),
    ensures
        s.claimed(i, now).count(SettlementStatus::Pending) == s.count(SettlementStatus::Pending)
            - 1,
        s.claimed(i, now).count(SettlementStatus::InProgress) == s.count(
            SettlementStatus::InProgress,
        ) + 1,
{
    let r = s.claimed(i, now).rows[i];
    lemma_count_update(s.rows, i, r, SettlementStatus::Pending);
    lemma_count_update(s.rows, i, r, SettlementStatus::InProgress);
}

/// The counts after the settlements in progress were put back.
proof fn lemma_recovered_counts(rows: Seq<SettlementView>, now: int)
    ensures
        ({
            let after = rows.map_values(|r: SettlementView| recovered_row(r, now));
            &&& count_status(after, SettlementStatus::InProgress) == 0
            &&& count_status(after, SettlementStatus::Pending) == count_status(
                rows,
                SettlementStatus::Pending,
            ) + count_status(rows, SettlementStatus::InProgress)
        }),
    decreases rows.len(),
{
    let after = rows.map_values(|r: SettlementView| recovered_row(r, now));
    if rows.len() > 0 {
        lemma_recovered_counts(rows.drop_last(), now);
        assert(after.drop_last() =~= rows.drop_last().map_values(
            |r: SettlementView| recovered_row(r, now),
        ));
    }
}

/// After a restart no settlement is lost: those that were in progress are
/// pending again.
pub proof fn law_recovery_loses_nothing(s: StoreView, now: int)
    ensures
        s.recovered(now).count(SettlementStatus::InProgress) == 0,
        s.recovered(now).count(SettlementStatus::Pending) == s.count(SettlementStatus::Pending)
            + s.count(SettlementStatus::InProgress),
{
    lemma_recovered_counts(s.rows, now);
}

/// A settlement that is queued is a pending one at the end of the table, with
/// its nonce and its request, queued and changed at that time, never sent; the
/// other rows stay. Its id is above those of all others.
pub proof fn law_queued_row(s: StoreView, nonce: Seq<char>, json: Seq<char>, now: int)
    requires
        s.valid(),
        !s.exhausted(),
    ensures
        ({
            let t = s.with_settlement(nonce, json, now);
            let row = t.rows.last();
            &&& t.rows.drop_last() == s.rows
            &&& row.nonce == nonce
            &&& row.settle_request_json == json
            &&& row.queued_at == now
            &&& row.updated_at == now
            &&& row.status == SettlementStatus::Pending
            &&& row.retry_count == 0
            &&& row.last_error is None
            &&& row.tx_hash is None
            &&& row.id == t.last_id
            &&& forall|i: int| 0 <= i < s.rows.len() ==> (#[trigger] s.rows[i]).id < row.id
        }),
{
    let t = s.with_settlement(nonce, json, now);
    assert(t.rows.drop_last() =~= s.rows);
}

/// Whether a row is the same settlement as another: it has the same id, nonce
/// and request, and was queued at the same time.
pub open spec fn same_settlement(a: SettlementView, b: SettlementView) -> bool {
    &&& a.id == b.id
    &&& a.nonce == b.nonce
    &&& a.settle_request_json == b.settle_request_json
    &&& a.queued_at == b.queued_at
}

/// What is done to a settlement is done to the row with its id alone, and what
/// the settlement is stays. A completed one gets its transaction, a failed one
/// its error; one that is put back is pending again with its error and one
/// retry more.
pub proof fn law_changes_one_settlement(
    s: StoreView,
    id: i64,
    text: Seq<char>,
    now: int,
    i: int,
)
    requires
        0 <= i < s.rows.len(),
        s.rows[i].retry_count < i32::MAX,
    ensures
        ({
            let row = s.rows[i];
            let done = s.completed(id, text, now);
            let gone = s.failed(id, text, now);
            let back = s.retried(id, text, now);
            &&& done.rows.len() == s.rows.len() && done.last_id == s.last_id
            &&& gone.rows.len() == s.rows.len() && gone.last_id == s.last_id
            &&& back.rows.len() == s.rows.len() && back.last_id == s.last_id
            &&& row.id != id ==> done.rows[i] == row && gone.rows[i] == row && back.rows[i] == row
            &&& row.id == id ==> {
                let d = done.rows[i];
                let g = gone.rows[i];
                let b = back.rows[i];
                &&& same_settlement(d, row) && same_settlement(g, row) && same_settlement(b, row)
                &&& d.status == SettlementStatus::Completed
                &&& d.tx_hash == Some(text)
                &&& d.last_error == row.last_error
                &&& d.retry_count == row.retry_count
                &&& d.updated_at == now
                &&& g.status == SettlementStatus::Failed
                &&& g.last_error == Some(text)
                &&& g.tx_hash == row.tx_hash
                &&& g.retry_count == row.retry_count
                &&& g.updated_at == now
                &&& b.status == SettlementStatus::Pending
                &&& b.last_error == Some(text)
                &&& b.tx_hash == row.tx_hash
                &&& b.retry_count == row.retry_count + 1
                &&& b.updated_at == now
            }
        }),
{
}

/// Claiming a settlement marks it as in progress, at that time; what it is
/// stays, and so do all others. After a restart those in progress are pending
/// again, and the others stay.
pub proof fn law_claim_and_recovery(s: StoreView, k: int, now: int, i: int)
    requires
        0 <= k < s.rows.len(),
        0 <= i < s.rows.len(),
    ensures
        ({
            let row = s.rows[i];
            let c = s.claimed(k, now).rows[i];
            let r = s.recovered(now).rows[i];
            &&& s.claimed(k, now).rows.len() == s.rows.len()
            &&& s.recovered(now).rows.len() == s.rows.len()
            &&& s.claimed(k, now).last_id == s.last_id
            &&& s.recovered(now).last_id == s.last_id
            &&& i != k ==> c == row
            &&& i == k ==> same_settlement(c, row) && c.status == SettlementStatus::InProgress
                && c.updated_at == now && c.retry_count == row.retry_count && c.last_error
                == row.last_error && c.tx_hash == row.tx_hash
            &&& row.status != SettlementStatus::InProgress ==> r == row
            &&& row.status == SettlementStatus::InProgress ==> same_settlement(r, row) && r.status
                == SettlementStatus::Pending && r.updated_at == now && r.retry_count
                == row.retry_count && r.last_error == row.last_error && r.tx_hash == row.tx_hash
        }),
{
}

/// The settlement that is next is a pending one, and no pending one was queued
/// before it.
pub proof fn law_first_come_first_served(s: StoreView, i: int, j: int)
    requires
        s.is_next(i),
        0 <= j < s.rows.len(),
        s.rows[j].status == SettlementStatus::Pending,
    ensures
        s.rows[i].status == SettlementStatus::Pending,
        s.rows[i].queued_at <= s.rows[j].queued_at,
        s.rows[i].queued_at == s.rows[j].queued_at ==> i <= j,
{
}

/// The number of settlements with a status counts each row once: one more row
/// counts one more where it has the status, and nothing otherwise.
pub proof fn law_counting(rows: Seq<SettlementView>, r: SettlementView, status: SettlementStatus)
    ensures
        count_status(Seq::<SettlementView>::empty(), status) == 0,
        r.status == status ==> count_status(rows.push(r), status) == count_status(rows, status) + 1,
        r.status != status ==> count_status(rows.push(r), status) == count_status(rows, status),
{
    lemma_count_push(rows, r, status);
}

/// The statuses are named `pending`, `in_progress`, `completed` and `failed`,
/// and no other text names one.
pub proof fn law_status_names(s: Seq<char>)
    ensures
        status_name(SettlementStatus::Pending) == "pending"@,
        status_name(SettlementStatus::InProgress) == "in_progress"@,
        status_name(SettlementStatus::Completed) == "completed"@,
        status_name(SettlementStatus::Failed) == "failed"@,
        status_named(s) is Some ==> status_name(status_named(s)->0) == s,
{
}

/// The ids of a table go on above all that are there and all that were given
/// out, and from 1 where none ever was.
pub proof fn law_ids_go_on(rows: Seq<SettlementView>, counter: i64, i: int)
    requires
        keys_hold(rows),
    ensures
        counter <= last_given(rows, counter),
        0 <= i < rows.len() ==> rows[i].id <= last_given(rows, counter),
        rows.len() == 0 ==> 0 <= last_given(rows, counter),
        last_given(rows, counter) == counter || (rows.len() == 0 && last_given(rows, counter) == 0)
            || (rows.len() > 0 && last_given(rows, counter) == rows.last().id),
{
    if 0 <= i < rows.len() - 1 {
        assert(rows[i].id < rows[rows.len() - 1].id);
    }
}

/// Of the first rows, the pending one that was queued first, where there is
/// one.
proof fn lemma_next_among(s: StoreView, n: int) -> (i: int)
    requires
        0 <= n <= s.rows.len(),
    ensures
        (exists|j: int|
            0 <= j < n && (#[trigger] s.rows[j]).status == SettlementStatus::Pending) ==> {
            &&& 0 <= i < n
            &&& s.rows[i].status == SettlementStatus::Pending
            &&& forall|j: int|
                0 <= j < n && (#[trigger] s.rows[j]).status == SettlementStatus::Pending
                    ==> s.rows[i].queued_at < s.rows[j].queued_at || (s.rows[i].queued_at
                    == s.rows[j].queued_at && i <= j)
        },
    decreases n,
{
    if n == 0 {
        0
    } else {
        let k = lemma_next_among(s, n - 1);
        let before = exists|j: int|
            0 <= j < n - 1 && (#[trigger] s.rows[j]).status == SettlementStatus::Pending;
        if s.rows[n - 1].status == SettlementStatus::Pending && (!before || s.rows[n - 1].queued_at
            < s.rows[k].queued_at) {
            n - 1
        } else {
            k
        }
    }
}

/// Where a settlement is pending, one is next: none is left waiting while
/// nothing can be claimed.
pub proof fn law_pending_is_claimed(s: StoreView, j: int)
    requires
        0 <= j < s.rows.len(),
        s.rows[j].status == SettlementStatus::Pending,
    ensures
        exists|i: int| s.is_next(i),
{
    let i = lemma_next_among(s, s.rows.len() as int);
    assert(s.is_next(i));
}

/// Queueing a settlement adds one row for it, and only where its nonce is new:
/// a nonce that is there already is reported and leaves every row, and so does
/// a table with no room. The row is pending and holds the nonce and the text of
/// the request. An id is used up either way, where there is room.
pub proof fn law_queued_once(
    s: StoreView,
    t: StoreView,
    nonce: Seq<char>,
    request: JsonView,
    now: int,
    r: Result<Option<i64>, SettlementStoreError>,
)
    requires
        s.valid(),
        inserted(s, t, nonce, request, now, r),
    ensures
        ({
            let known = exists|i: int|
                0 <= i < s.rows.len() && (#[trigger] s.rows[i]).nonce == nonce;
            let room = s.last_id < i64::MAX && s.rows.len() < i64::MAX;
            &&& r is Ok <==> room
            &&& r is Err ==> t == s
            &&& room ==> t.last_id == s.last_id + 1
            &&& room && known ==> r->Ok_0 is None && t.rows == s.rows
            &&& room && !known ==> {
                let row = t.rows.last();
                &&& r->Ok_0 == Some(row.id)
                &&& t.rows.len() == s.rows.len() + 1
                &&& forall|i: int| 0 <= i < s.rows.len() ==> #[trigger] t.rows[i] == s.rows[i]
                &&& row.nonce == nonce
                &&& row.settle_request_json == json_text(request)
                &&& row.status == SettlementStatus::Pending
                &&& row.queued_at == now
                &&& row.retry_count == 0
            }
        }),
{
}

/// Claiming takes a settlement that is pending, while there is one, and of the
/// pending ones the one that was queued first. It is in progress from then on
/// and handed out as it was queued; every other one stays as it is.
pub proof fn law_claiming_in_full(
    s: StoreView,
    t: StoreView,
    now: int,
    r: Result<Option<StoredSettlement>, SettlementStoreError>,
)
    requires
        claims(s, t, now, r),
    ensures
        ({
            let pending = exists|i: int|
                0 <= i < s.rows.len() && (#[trigger] s.rows[i]).status
                    == SettlementStatus::Pending;
            &&& r is Ok
            &&& r->Ok_0 is Some <==> pending
            &&& r->Ok_0 is None ==> t == s
            &&& r->Ok_0 is Some ==> exists|i: int|
                {
                    &&& 0 <= i < s.rows.len()
                    &&& t.rows.len() == s.rows.len()
                    &&& (#[trigger] s.rows[i]).status == SettlementStatus::Pending
                    &&& t.rows[i].status == SettlementStatus::InProgress
                    &&& t.rows[i].retry_count == s.rows[i].retry_count
                    &&& same_settlement(t.rows[i], s.rows[i])
                    &&& r->Ok_0->0@ == t.rows[i]
                    &&& forall|j: int|
                        0 <= j < s.rows.len() && j != i ==> #[trigger] t.rows[j] == s.rows[j]
                    &&& forall|j: int|
                        0 <= j < s.rows.len() && (#[trigger] s.rows[j]).status
                            == SettlementStatus::Pending ==> s.rows[i].queued_at
                            <= s.rows[j].queued_at
                }
        }),
{
    if r->Ok_0 is Some {
        let row = r->Ok_0->0;
        let i = choose|i: int|
            #![trigger s.is_next(i)]
            s.is_next(i) && t == s.claimed(i, now) && row@ == t.rows[i];
        assert(s.rows[i].status == SettlementStatus::Pending);
    }
}

} // verus!
