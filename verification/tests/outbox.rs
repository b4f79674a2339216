use fulfilment_core::idempotency::handle_create_order;
use fulfilment_core::orders::{CreateOrderRequest, OrderItem};
use fulfilment_core::outbox::{
    claim_batch, enqueue, is_missing_outbox_table, settle_delivery, DeliveryError, DeliverySink,
    LogSink, OutboxEvent, OutboxStatus, StorageError, WorkerConfig,
};
use fulfilment_core::request::RequestId;
use fulfilment_core::store::Store;

fn event(n: usize) -> OutboxEvent {
    OutboxEvent {
        id: format!("evt-{n}"),
        event_type: "order.created".to_string(),
        payload: format!("{{\"n\":{n}}}"),
    }
}

fn filled(n: usize, now: u64) -> Store {
    let mut store = Store::new();
    for i in 0..n {
        enqueue(&mut store, &event(i), now).unwrap();
    }
    store
}

#[test]
fn claim_under_contention_returns_disjoint_batches() {
    let mut store = filled(15, 0);
    let first = claim_batch(&mut store, 10, 5);
    let second = claim_batch(&mut store, 10, 5);
    let third = claim_batch(&mut store, 10, 5);
    assert_eq!(first.len(), 10);
    assert_eq!(second.len(), 5);
    assert_eq!(third.len(), 0);
    for a in &first {
        for b in &second {
            assert_ne!(a.id, b.id);
        }
    }
    for row in first.iter().chain(second.iter()) {
        assert_eq!(row.status, "PROCESSING");
    }
}

#[test]
fn claim_is_fifo_in_table_order() {
    let mut store = filled(3, 0);
    let rows = claim_batch(&mut store, 2, 1);
    assert_eq!(rows.len(), 2);
    assert_eq!(rows[0].id, "evt-0");
    assert_eq!(rows[1].id, "evt-1");
}

#[test]
fn claim_skips_rows_not_yet_available() {
    let mut store = Store::new();
    enqueue(&mut store, &event(0), 10).unwrap();
    let rows = claim_batch(&mut store, 10, 5);
    assert_eq!(rows.len(), 0);
    let rows = claim_batch(&mut store, 10, 10);
    assert_eq!(rows.len(), 1);
}

#[test]
fn duplicate_event_id_is_a_unique_violation() {
    let mut store = Store::new();
    enqueue(&mut store, &event(0), 0).unwrap();
    let err = enqueue(&mut store, &event(0), 1).unwrap_err();
    assert_eq!(err.code.as_deref(), Some("23505"));
    assert_eq!(store.outbox.len(), 1);
}

#[test]
fn delivered_rows_are_marked_sent() {
    let mut store = filled(1, 0);
    let rows = claim_batch(&mut store, 1, 1);
    settle_delivery(&mut store, &rows[0], &Ok(()), 2);
    assert_eq!(store.outbox[0].status, OutboxStatus::Sent);
    assert_eq!(claim_batch(&mut store, 10, 100).len(), 0);
}

#[test]
fn failed_rows_retry_with_backoff() {
    let mut store = filled(1, 0);
    let rows = claim_batch(&mut store, 1, 1);
    assert_eq!(rows[0].attempts, 0);
    settle_delivery(&mut store, &rows[0], &Err(DeliveryError::new("boom")), 10);

    let rec = &store.outbox[0];
    assert_eq!(rec.status, OutboxStatus::Pending);
    assert_eq!(rec.attempts, 1);
    assert!(rec.available_at >= 10 + 1);
    assert_eq!(rec.available_at, 11);
    assert_eq!(rec.last_error.as_deref(), Some("boom"));

    assert_eq!(claim_batch(&mut store, 10, 10).len(), 0);
    let retried = claim_batch(&mut store, 10, 11);
    assert_eq!(retried.len(), 1);
    assert_eq!(retried[0].attempts, 1);
}

#[test]
fn backoff_grows_with_attempts() {
    let mut store = filled(1, 0);
    let rows = claim_batch(&mut store, 1, 1);
    settle_delivery(&mut store, &rows[0], &Err(DeliveryError::new("e1")), 10);
    let rows = claim_batch(&mut store, 1, 11);
    settle_delivery(&mut store, &rows[0], &Err(DeliveryError::new("e2")), 20);
    // the second failure carries attempts = 1, so backoff is max(1, 1) = 1
    assert_eq!(store.outbox[0].available_at, 21);
    assert_eq!(store.outbox[0].attempts, 2);
    let rows = claim_batch(&mut store, 1, 21);
    settle_delivery(&mut store, &rows[0], &Err(DeliveryError::new("e3")), 30);
    // attempts = 2 at claim time, so backoff is 2 seconds
    assert_eq!(store.outbox[0].available_at, 32);
    assert_eq!(store.outbox[0].attempts, 3);
}

#[test]
fn order_create_enqueues_outbox_row() {
    let mut store = Store::new();
    let body = CreateOrderRequest {
        external_id: "ord_outbox_1".to_string(),
        items: vec![OrderItem { sku: "ABC".to_string(), qty: 1 }],
    };
    let (_, resp) =
        handle_create_order(&mut store, None, &RequestId("r1".to_string()), &body, 7).unwrap();
    assert_eq!(store.outbox.len(), 1);
    let rec = &store.outbox[0];
    assert_eq!(rec.event_type, "order.created");
    assert_eq!(rec.status, OutboxStatus::Pending);
    assert_eq!(rec.attempts, 0);
    let expected = format!(
        "{{\"external_id\":\"ord_outbox_1\",\"item_count\":1,\"order_id\":\"{}\",\"total_qty\":1}}",
        resp.id
    );
    assert_eq!(rec.payload, expected);
}

#[test]
fn idempotent_create_does_not_enqueue_outbox_twice() {
    let mut store = Store::new();
    let key = "idem_outbox_1".to_string();
    let body = CreateOrderRequest {
        external_id: "ord_outbox_idem_1".to_string(),
        items: vec![OrderItem { sku: "ABC".to_string(), qty: 1 }],
    };
    let (_, r1) =
        handle_create_order(&mut store, Some(&key), &RequestId("r1".to_string()), &body, 1)
            .unwrap();
    let (_, r2) =
        handle_create_order(&mut store, Some(&key), &RequestId("r2".to_string()), &body, 2)
            .unwrap();
    assert_eq!(r1.id, r2.id);
    assert_eq!(store.outbox.len(), 1);
}

#[test]
fn log_sink_accepts_every_event() {
    let sink = LogSink;
    assert!(sink.deliver("order.created", "{}").is_ok());
}

#[test]
fn worker_defaults_are_two_seconds_and_fifty() {
    let cfg = WorkerConfig::default();
    assert_eq!(cfg.poll_interval_ms, 2000);
    assert_eq!(cfg.batch_size, 50);
}

#[test]
fn missing_table_is_recognised_by_sqlstate() {
    assert!(is_missing_outbox_table(&StorageError { code: Some("42P01".to_string()) }));
    assert!(!is_missing_outbox_table(&StorageError { code: Some("23505".to_string()) }));
    assert!(!is_missing_outbox_table(&StorageError { code: None }));
}

#[test]
fn status_text_roundtrips() {
    assert_eq!(OutboxStatus::Pending.as_str(), "PENDING");
    assert_eq!(OutboxStatus::Processing.as_str(), "PROCESSING");
    assert_eq!(OutboxStatus::Sent.as_str(), "SENT");
    assert_eq!(OutboxStatus::Failed.as_str(), "FAILED");
    assert_eq!(OutboxStatus::from_db("PROCESSING"), OutboxStatus::Processing);
    assert_eq!(OutboxStatus::from_db("SENT"), OutboxStatus::Sent);
    assert_eq!(OutboxStatus::from_db("FAILED"), OutboxStatus::Failed);
    assert_eq!(OutboxStatus::from_db("PENDING"), OutboxStatus::Pending);
    assert_eq!(OutboxStatus::from_db("anything-else"), OutboxStatus::Pending);
}

#[test]
fn tick_claims_delivers_and_settles_a_batch() {
    let mut store = filled(3, 0);
    let n = fulfilment_core::outbox::tick(&mut store, &LogSink, 2, 1);
    assert_eq!(n, 2);
    assert_eq!(store.outbox[0].status, OutboxStatus::Sent);
    assert_eq!(store.outbox[1].status, OutboxStatus::Sent);
    assert_eq!(store.outbox[2].status, OutboxStatus::Pending);
    let n = fulfilment_core::outbox::tick(&mut store, &LogSink, 50, 2);
    assert_eq!(n, 1);
    assert_eq!(store.outbox[2].status, OutboxStatus::Sent);
    let n = fulfilment_core::outbox::tick(&mut store, &LogSink, 50, 3);
    assert_eq!(n, 0);
}

#[test]
fn tick_returns_failed_rows_to_pending() {
    struct RefusingSink;
    impl DeliverySink for RefusingSink {
        fn deliver(&self, _event_type: &str, _payload: &str) -> fulfilment_core::DeliveryResult {
            Err(DeliveryError::new("downstream unavailable"))
        }
    }
    let mut store = filled(1, 0);
    let n = fulfilment_core::outbox::tick(&mut store, &RefusingSink, 10, 10);
    assert_eq!(n, 1);
    assert_eq!(store.outbox[0].status, OutboxStatus::Pending);
    assert_eq!(store.outbox[0].attempts, 1);
    assert_eq!(store.outbox[0].available_at, 11);
    assert_eq!(store.outbox[0].last_error.as_deref(), Some("downstream unavailable"));
}

#[test]
fn a_non_positive_limit_claims_nothing() {
    let mut store = filled(2, 0);
    assert_eq!(claim_batch(&mut store, 0, 5).len(), 0);
    assert_eq!(claim_batch(&mut store, -3, 5).len(), 0);
    assert_eq!(store.outbox[0].status, OutboxStatus::Pending);
    assert_eq!(store.outbox[1].status, OutboxStatus::Pending);
}
