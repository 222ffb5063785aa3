use inference_super_router::config::EnvVars;
use inference_super_router::json::{Json, JsonObject};
use inference_super_router::services::facilitator::SettleResult;
use inference_super_router::services::settlement_queue::{
    max_queue_size, PendingSettlement, SettlementQueue,
};
use inference_super_router::services::settlement_store::{
    SettlementStatus, SettlementStore, SettlementStoreError, StoredSettlement,
};
use inference_super_router::services::settlement_worker::RunStep;
use inference_super_router::services::{SettlementMetrics, SettlementWorker};

fn object(fields: Vec<(&str, Json)>) -> Json {
    let mut o = JsonObject::new();
    for (k, v) in fields {
        o.put(k, v);
    }
    Json::Object(o)
}

fn mock_settle_request() -> Json {
    object(vec![
        ("x402Version", Json::unsigned(2)),
        ("paymentPayload", object(vec![("test", Json::Bool(true))])),
        ("paymentRequirements", object(vec![("scheme", Json::str("exact"))])),
    ])
}

#[test]
fn test_insert_and_claim() {
    let mut store = SettlementStore::open_in_memory().unwrap();
    let request = mock_settle_request();

    let id = store.insert("nonce1", &request).unwrap().unwrap();
    assert!(id > 0);

    let settlement = store.claim_next().unwrap().unwrap();
    assert_eq!(settlement.nonce, "nonce1");
    assert_eq!(settlement.status, SettlementStatus::InProgress);

    assert!(store.claim_next().unwrap().is_none());
}

#[test]
fn test_duplicate_nonce() {
    let mut store = SettlementStore::open_in_memory().unwrap();
    let request = mock_settle_request();

    let id1 = store.insert("nonce1", &request).unwrap();
    assert!(id1.is_some());

    let id2 = store.insert("nonce1", &request).unwrap();
    assert!(id2.is_none());
}

#[test]
fn test_mark_completed() {
    let mut store = SettlementStore::open_in_memory().unwrap();
    let request = mock_settle_request();

    store.insert("nonce1", &request).unwrap();
    let settlement = store.claim_next().unwrap().unwrap();
    store.mark_completed(settlement.id, "0xabc123").unwrap();

    assert_eq!(store.pending_count().unwrap(), 0);
    assert_eq!(store.count_by_status(SettlementStatus::Completed).unwrap(), 1);
}

#[test]
fn test_fifo_order() {
    let mut store = SettlementStore::open_in_memory().unwrap();
    let request = mock_settle_request();

    let start: i128 = 1_700_000_000_000_000_000;
    let pause: i128 = 10 * 1_000_000;
    store.insert_at("first", &request, start).unwrap();
    store.insert_at("second", &request, start + pause).unwrap();
    store.insert_at("third", &request, start + 2 * pause).unwrap();

    assert_eq!(store.claim_next().unwrap().unwrap().nonce, "first");
    assert_eq!(store.claim_next().unwrap().unwrap().nonce, "second");
    assert_eq!(store.claim_next().unwrap().unwrap().nonce, "third");
}

#[test]
fn test_recover_in_progress() {
    let mut store = SettlementStore::open_in_memory().unwrap();
    let request = mock_settle_request();

    store.insert("nonce1", &request).unwrap();
    store.claim_next().unwrap();

    assert_eq!(store.in_progress_count().unwrap(), 1);
    assert_eq!(store.pending_count().unwrap(), 0);

    store.recover_in_progress().unwrap();

    assert_eq!(store.in_progress_count().unwrap(), 0);
    assert_eq!(store.pending_count().unwrap(), 1);
}

#[test]
fn test_is_retryable_error() {
    assert!(SettlementWorker::is_retryable_error("Connection timeout"));
    assert!(SettlementWorker::is_retryable_error("Network error"));
    assert!(SettlementWorker::is_retryable_error("Service temporarily unavailable"));
    assert!(SettlementWorker::is_retryable_error("Rate limit exceeded"));
    assert!(SettlementWorker::is_retryable_error("nonce too low"));

    assert!(!SettlementWorker::is_retryable_error("Invalid signature"));
    assert!(!SettlementWorker::is_retryable_error("Insufficient balance"));
}

#[test]
fn test_metrics() {
    let mut metrics = SettlementMetrics::new();
    metrics.record_success();
    metrics.record_success();
    metrics.record_failure();
    metrics.record_retry();
    metrics.record_retry();
    metrics.record_retry();

    let (total, success, failure, retries) = metrics.get_stats();
    assert_eq!(total, 3);
    assert_eq!(success, 2);
    assert_eq!(failure, 1);
    assert_eq!(retries, 3);
}

#[test]
fn settlements_queued_at_one_time_are_claimed_by_id() {
    let mut store = SettlementStore::open_in_memory().unwrap();
    let request = mock_settle_request();
    store.insert_at("b", &request, 7).unwrap();
    store.insert_at("a", &request, 7).unwrap();
    store.insert_at("early", &request, 3).unwrap();
    assert_eq!(store.claim_next_at(9).unwrap().unwrap().nonce, "early");
    assert_eq!(store.claim_next_at(9).unwrap().unwrap().nonce, "b");
    assert_eq!(store.claim_next_at(9).unwrap().unwrap().nonce, "a");
}

#[test]
fn a_stored_request_reads_back() {
    let mut store = SettlementStore::open_in_memory().unwrap();
    store.insert_at("n", &mock_settle_request(), 1).unwrap();
    let row = store.claim_next_at(2).unwrap().unwrap();
    assert_eq!(row.queued_at, 1);
    assert_eq!(row.updated_at, 2);
    let request = row.settle_request().unwrap();
    assert_eq!(request.get("x402Version").unwrap().as_u64(), Some(2));
    assert_eq!(
        request.get("paymentPayload").unwrap().get("test").unwrap().as_bool(),
        Some(true)
    );
}

#[test]
fn failed_and_retried_settlements_keep_their_errors() {
    let mut store = SettlementStore::open_in_memory().unwrap();
    store.insert_at("n", &mock_settle_request(), 1).unwrap();
    let id = store.claim_next_at(2).unwrap().unwrap().id;
    store.record_retry_at(id, "Worker shutdown", 3).unwrap();
    let row = &store.rows()[0];
    assert_eq!(row.status, SettlementStatus::Pending);
    assert_eq!(row.retry_count, 1);
    assert_eq!(row.last_error, Some("Worker shutdown".to_string()));
    store.mark_failed_at(id, "no funds", 4).unwrap();
    let row = &store.rows()[0];
    assert_eq!(row.status, SettlementStatus::Failed);
    assert_eq!(row.last_error, Some("no funds".to_string()));
    assert_eq!(row.updated_at, 4);
    store.mark_failed_at(99, "nobody", 5).unwrap();
    assert_eq!(store.count_by_status(SettlementStatus::Failed).unwrap(), 1);
}

fn row(id: i64, nonce: &str) -> StoredSettlement {
    StoredSettlement {
        id,
        nonce: nonce.to_string(),
        settle_request_json: "{}".to_string(),
        queued_at: 0,
        status: SettlementStatus::InProgress,
        retry_count: 0,
        last_error: None,
        tx_hash: None,
        updated_at: 0,
    }
}

#[test]
fn inconsistent_rows_are_refused() {
    assert!(SettlementStore::open(vec![row(1, "a"), row(4, "b")], 4).is_ok());
    for rows in vec![
        vec![row(1, "a"), row(1, "b")],
        vec![row(2, "a"), row(1, "b")],
        vec![row(1, "a"), row(2, "a")],
    ] {
        match SettlementStore::open(rows, 4) {
            Err(SettlementStoreError::Database(m)) => {
                assert_eq!(m, "settlement rows are inconsistent")
            }
            _ => panic!("expected an error"),
        }
    }
}

#[test]
fn ids_go_on_above_what_is_there() {
    let request = mock_settle_request();
    for (rows, counter, id) in vec![
        (vec![], 0, 1),
        (vec![], -5, 1),
        (vec![], 7, 8),
        (vec![row(5, "a")], 4, 6),
        (vec![row(5, "a")], 9, 10),
        (vec![row(-3, "a"), row(0, "b")], 0, 1),
        (vec![row(-3, "a")], 0, 1),
        (vec![row(-3, "a")], -9, -2),
    ] {
        let n = rows.len();
        let mut store = SettlementStore::open(rows, counter).unwrap();
        assert_eq!(store.rows().len(), n);
        assert_eq!(store.insert_at("new", &request, 1).unwrap(), Some(id));
        assert_eq!(store.insert_at("new", &request, 1).unwrap(), None);
        assert_eq!(store.rows().len(), n + 1);
        assert_eq!(store.insert_at("newer", &request, 1).unwrap(), Some(id + 2));
    }
}

#[test]
fn a_table_without_ids_left_takes_nothing() {
    let mut store = SettlementStore::open(vec![], i64::MAX).unwrap();
    match store.insert_at("n", &mock_settle_request(), 1) {
        Err(e) => assert_eq!(e.to_string(), "Database error: database or disk is full"),
        Ok(_) => panic!("expected an error"),
    }
    let mut store = SettlementStore::open(vec![row(i64::MAX, "n")], 0).unwrap();
    assert!(store.insert_at("n", &mock_settle_request(), 1).is_err());
    assert_eq!(
        SettlementStoreError::Serialization("x".to_string()).to_string(),
        "Serialization error: x"
    );
}

#[test]
fn statuses_have_names() {
    for s in vec![
        SettlementStatus::Pending,
        SettlementStatus::InProgress,
        SettlementStatus::Completed,
        SettlementStatus::Failed,
    ] {
        assert_eq!(SettlementStatus::from_str(s.as_str()), Some(s));
    }
    assert_eq!(SettlementStatus::InProgress.as_str(), "in_progress");
    assert_eq!(SettlementStatus::from_str("other"), None);
}

fn queue(max: usize) -> SettlementQueue {
    let store = SettlementStore::open(vec![row(1, "old")], 1).unwrap();
    SettlementQueue::with_store_and_max_size(store, max, 5).unwrap()
}

#[test]
fn a_queue_recovers_and_bounds_its_settlements() {
    let mut q = queue(2);
    assert_eq!(q.len(), 1);
    assert!(!q.is_empty());
    assert_eq!(q.get_status_counts(), (1, 0, 0, 0));
    assert!(q.push_at(PendingSettlement::new(mock_settle_request(), "n".to_string()), 6).is_ok());
    assert!(q.is_full());
    let refused = q.push_at(PendingSettlement::new(mock_settle_request(), "m".to_string()), 7);
    assert_eq!(refused.unwrap_err().nonce, "m");
    assert_eq!(q.len(), 2);
    assert_eq!(q.max_size(), 2);
    assert_eq!(q.store().rows().len(), 2);
}

#[test]
fn a_nonce_is_queued_once() {
    let mut q = queue(9);
    assert!(q.push(PendingSettlement::new(mock_settle_request(), "old".to_string())).is_ok());
    assert_eq!(q.len(), 1);
    assert!(q.push(PendingSettlement::new(mock_settle_request(), "new".to_string())).is_ok());
    assert_eq!(q.len(), 2);
}

fn settled(success: bool, tx: Option<&str>, reason: Option<&str>) -> SettleResult {
    SettleResult {
        success,
        transaction: tx.map(|s| s.to_string()),
        payer: None,
        error_reason: reason.map(|s| s.to_string()),
    }
}

#[test]
fn a_settlement_is_completed() {
    let mut q = queue(9);
    let mut w = SettlementWorker::new();
    let s = w.claim(&mut q, 6).unwrap();
    let run = w.begin(&mut q, &s, 7).unwrap();
    assert_eq!((run.attempts, run.max_attempts), (1, 5));
    let step = w.process_settlement(&mut q, &run, Ok(settled(true, None, None)), 8);
    assert!(matches!(step, RunStep::Finished));
    assert_eq!(q.store().rows()[0].tx_hash, Some("unknown".to_string()));
    assert_eq!(q.get_status_counts(), (0, 0, 1, 0));
    assert_eq!(w.metrics().get_stats(), (1, 1, 0, 0));
}

#[test]
fn an_error_that_cannot_pass_fails_at_once() {
    let mut q = queue(9);
    let mut w = SettlementWorker::new();
    let s = w.claim(&mut q, 6).unwrap();
    let run = w.begin(&mut q, &s, 7).unwrap();
    let outcome = Ok(settled(false, None, Some("Invalid signature")));
    assert!(matches!(w.process_settlement(&mut q, &run, outcome, 8), RunStep::Finished));
    assert_eq!(q.store().rows()[0].last_error, Some("Invalid signature".to_string()));
    assert_eq!(w.metrics().get_stats(), (1, 0, 1, 0));
}

#[test]
fn a_settlement_is_sent_five_times() {
    let mut q = queue(9);
    let mut w = SettlementWorker::new();
    let s = w.claim(&mut q, 6).unwrap();
    let mut run = w.begin(&mut q, &s, 7).unwrap();
    for _ in 0..4 {
        match w.process_settlement(&mut q, &run, Err("down".to_string()), 8) {
            RunStep::MayRetry(e) => assert!(w.after_pause(&mut q, &mut run, &e, true, 9)),
            RunStep::Finished => panic!("too early"),
        }
    }
    let last = w.process_settlement(&mut q, &run, Err("down".to_string()), 8);
    assert!(matches!(last, RunStep::Finished));
    assert_eq!(q.get_status_counts(), (0, 0, 0, 1));
    assert_eq!(w.metrics().get_stats(), (1, 0, 1, 4));
}

#[test]
fn without_a_pause_left_a_settlement_fails() {
    let mut q = queue(9);
    let mut w = SettlementWorker::new();
    let s = w.claim(&mut q, 6).unwrap();
    let mut run = w.begin(&mut q, &s, 7).unwrap();
    let outcome = Ok(settled(false, None, Some("network congestion")));
    match w.process_settlement(&mut q, &run, outcome, 8) {
        RunStep::MayRetry(e) => assert!(!w.after_pause(&mut q, &mut run, &e, false, 9)),
        RunStep::Finished => panic!("too early"),
    }
    assert_eq!(q.store().rows()[0].last_error, Some("network congestion".to_string()));
    assert_eq!(w.metrics().get_stats(), (1, 0, 1, 1));
}

#[test]
fn a_request_that_cannot_be_read_fails() {
    let mut bad = row(1, "bad");
    bad.settle_request_json = "{".to_string();
    let store = SettlementStore::open(vec![bad], 1).unwrap();
    let mut q = SettlementQueue::with_max_size(store, 5).unwrap();
    let mut w = SettlementWorker::new();
    let s = w.claim(&mut q, 6).unwrap();
    assert!(w.begin(&mut q, &s, 7).is_none());
    let error = q.store().rows()[0].last_error.clone().unwrap();
    assert!(error.starts_with("Deserialization error: EOF"));
    assert_eq!(w.metrics().get_stats(), (1, 0, 1, 0));
}

#[test]
fn a_shutdown_puts_the_settlement_back() {
    let mut q = queue(9);
    let w = SettlementWorker::new();
    let s = w.claim(&mut q, 6).unwrap();
    w.shut_down(&mut q, s.id, 7);
    assert_eq!(q.get_status_counts(), (1, 0, 0, 0));
    assert_eq!(q.store().rows()[0].retry_count, 1);
    assert_eq!(q.store().rows()[0].last_error, Some("Worker shutdown".to_string()));
    let again = SettlementQueue::new(SettlementStore::open_in_memory().unwrap()).unwrap();
    assert_eq!(again.max_size(), 10_000);
}

#[test]
fn settlements_are_queued_now() {
    let mut store = SettlementStore::open_in_memory().unwrap();
    store.insert("n", &mock_settle_request()).unwrap();
    let queued = store.rows()[0].queued_at;
    assert!(queued > 1_600_000_000_000_000_000);
    store.mark_failed(1, "gone").unwrap();
    assert!(store.rows()[0].updated_at >= queued);
    assert_eq!(store.rows()[0].queued_at, queued);
    assert_eq!(store.rows()[0].status, SettlementStatus::Failed);
}

#[test]
fn the_size_of_the_queue_is_read() {
    let set = |v: &str| EnvVars {
        vars: vec![("SETTLEMENT_QUEUE_MAX_SIZE".to_string(), v.to_string())],
    };
    assert_eq!(max_queue_size(&set("7")), 7);
    assert_eq!(max_queue_size(&set("-7")), 10_000);
    assert_eq!(max_queue_size(&EnvVars { vars: vec![] }), 10_000);
}

#[test]
fn finished_settlements_make_room() {
    let store = SettlementStore::open_in_memory().unwrap();
    let mut q = SettlementQueue::with_store_and_max_size(store, 2, 0).unwrap();
    let settle = |n: &str| PendingSettlement::new(mock_settle_request(), n.to_string());
    q.push_at(settle("a"), 1).unwrap();
    q.push_at(settle("b"), 2).unwrap();
    assert!(q.push_at(settle("c"), 3).is_err());
    let first = q.claim_next_at(4).unwrap().unwrap().id;
    assert_eq!(q.len(), 2);
    assert!(q.is_full());
    q.mark_completed_at(first, "0xt", 5).unwrap();
    assert_eq!(q.len(), 1);
    q.push_at(settle("c"), 6).unwrap();
    assert!(q.is_full());
    let second = q.claim_next_at(7).unwrap().unwrap().id;
    q.mark_failed_at(second, "no", 8).unwrap();
    assert_eq!(q.len(), 1);
    let third = q.claim_next_at(9).unwrap().unwrap().id;
    q.record_retry_at(third, "again", 10).unwrap();
    assert_eq!(q.len(), 1);
    q.claim_next_at(11).unwrap();
    q.mark_completed_at(third, "0xu", 12).unwrap();
    assert!(q.is_empty());
    assert_eq!(q.get_status_counts(), (0, 0, 2, 1));
    q.push_at(settle("d"), 13).unwrap();
    assert_eq!(q.get_status_counts(), (1, 0, 2, 1));
}
