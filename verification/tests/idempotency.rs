use fulfilment_core::digest::hash_request;
use fulfilment_core::idempotency::handle_create_order;
use fulfilment_core::orders::{CreateOrderRequest, OrderItem};
use fulfilment_core::repo::get_order_by_id_tx;
use fulfilment_core::request::RequestId;
use fulfilment_core::store::{IdempotencyRecord, Status, Store};

fn rid(s: &str) -> RequestId {
    RequestId(s.to_string())
}

fn req(external_id: &str, items: &[(&str, i32)]) -> CreateOrderRequest {
    CreateOrderRequest {
        external_id: external_id.to_string(),
        items: items
            .iter()
            .map(|(sku, qty)| OrderItem { sku: sku.to_string(), qty: *qty })
            .collect(),
    }
}

#[test]
fn canonical_hash_matches_the_reference_vector() {
    let h = hash_request(&req("ord_123", &[("ABC", 1)]));
    assert_eq!(h, "ec653308ea44391f824972dd34baa0da197dfd95ab1a1e6a2c77f69e1d8fdff6");
}

#[test]
fn canonical_hash_escapes_like_json() {
    let h = hash_request(&req("a\"b", &[("S\\1\t", 2)]));
    assert_eq!(h, "f42cfbcbe35d3d95800526c7c399748b1fb9b9472c3eac5415db79ee39f4bccd");
}

#[test]
fn same_key_same_body_replays_same_response() {
    let mut store = Store::new();
    let key = "idem_1".to_string();
    let body = req("ord_idem_1", &[("ABC", 2)]);

    let (s1, r1) = handle_create_order(&mut store, Some(&key), &rid("r1"), &body, 10).unwrap();
    let (s2, r2) = handle_create_order(&mut store, Some(&key), &rid("r2"), &body, 20).unwrap();

    assert_eq!(s1, 201);
    assert_eq!(s2, 201);
    assert_eq!(r1.id, r2.id);
    assert_eq!(r1.external_id, r2.external_id);
    assert_eq!(r1.item_count, r2.item_count);
    assert_eq!(r1.total_qty, r2.total_qty);
    assert_eq!(store.orders.len(), 1);
    assert_eq!(store.outbox.len(), 1);
}

#[test]
fn same_key_different_body_returns_409() {
    let mut store = Store::new();
    let key = "idem_conflict_1".to_string();

    let (s1, _) = handle_create_order(
        &mut store,
        Some(&key),
        &rid("r1"),
        &req("ord_c1", &[("ABC", 1)]),
        10,
    )
    .unwrap();
    assert_eq!(s1, 201);

    let err = handle_create_order(
        &mut store,
        Some(&key),
        &rid("r2"),
        &req("ord_c1", &[("ABC", 2)]),
        20,
    )
    .unwrap_err();
    assert_eq!(err.status, 409);
    assert_eq!(err.code, "CONFLICT");
    assert_eq!(err.request_id, "r2");
    assert_eq!(store.orders.len(), 1);
    assert_eq!(store.outbox.len(), 1);
}

#[test]
fn no_idempotency_key_creates_two_distinct_orders() {
    let mut store = Store::new();
    let (s1, r1) =
        handle_create_order(&mut store, None, &rid("r1"), &req("ord_noidem_1", &[("ABC", 1)]), 1)
            .unwrap();
    let (s2, r2) =
        handle_create_order(&mut store, None, &rid("r2"), &req("ord_noidem_2", &[("ABC", 1)]), 2)
            .unwrap();
    assert_eq!(s1, 201);
    assert_eq!(s2, 201);
    assert_ne!(r1.id, r2.id);
    assert_eq!(store.orders.len(), 2);
    assert_eq!(store.outbox.len(), 2);
}

#[test]
fn duplicate_external_id_conflicts() {
    let mut store = Store::new();
    let body = req("ord_dup", &[("ABC", 1)]);
    handle_create_order(&mut store, None, &rid("r1"), &body, 1).unwrap();
    let err = handle_create_order(&mut store, None, &rid("r2"), &body, 2).unwrap_err();
    assert_eq!(err.status, 409);
    assert_eq!(err.code, "CONFLICT");
    assert_eq!(err.message, "external_id already exists");
    assert_eq!(store.orders.len(), 1);
    assert_eq!(store.outbox.len(), 1);
}

#[test]
fn retry_racing_a_running_original_conflicts() {
    let mut store = Store::new();
    let body = req("ord_race", &[("ABC", 1)]);
    let hash = hash_request(&body);
    store.records.push(IdempotencyRecord {
        endpoint: "POST:/api/v1/orders".to_string(),
        key: "idem_race".to_string(),
        request_hash: hash,
        status: Status::InProgress,
        response_status: None,
        response_body: None,
    });
    let key = "idem_race".to_string();
    let err = handle_create_order(&mut store, Some(&key), &rid("r1"), &body, 1).unwrap_err();
    assert_eq!(err.status, 409);
    assert_eq!(err.code, "CONFLICT");
    assert!(err.message.contains("retry shortly"));
    assert_eq!(store.orders.len(), 0);
    assert_eq!(store.outbox.len(), 0);
}

#[test]
fn blank_key_header_runs_without_bookkeeping() {
    let mut store = Store::new();
    let key = "   ".to_string();
    let (s1, _) =
        handle_create_order(&mut store, Some(&key), &rid("r1"), &req("ord_blank", &[("A", 1)]), 1)
            .unwrap();
    assert_eq!(s1, 201);
    assert_eq!(store.records.len(), 0);
}

#[test]
fn key_header_is_trimmed_before_use() {
    let mut store = Store::new();
    let body = req("ord_trim", &[("A", 1)]);
    let key1 = "  idem_t  ".to_string();
    let key2 = "idem_t".to_string();
    let (_, r1) = handle_create_order(&mut store, Some(&key1), &rid("r1"), &body, 1).unwrap();
    let (_, r2) = handle_create_order(&mut store, Some(&key2), &rid("r2"), &body, 2).unwrap();
    assert_eq!(r1.id, r2.id);
    assert_eq!(store.orders.len(), 1);
}

#[test]
fn create_and_get_order_roundtrip() {
    let mut store = Store::new();
    let (_, resp) =
        handle_create_order(&mut store, None, &rid("r1"), &req("ord_db_1", &[("ABC", 2)]), 1)
            .unwrap();
    let got = get_order_by_id_tx(&store, &rid("r2"), &resp.id).unwrap();
    assert_eq!(got.id, resp.id);
    assert_eq!(got.external_id, "ord_db_1");
    assert_eq!(got.item_count, 1);
    assert_eq!(got.total_qty, 2);
}

#[test]
fn get_order_rejects_a_non_uuid_id() {
    let store = Store::new();
    let err = get_order_by_id_tx(&store, &rid("r1"), "not-a-uuid").unwrap_err();
    assert_eq!(err.status, 400);
    assert_eq!(err.code, "VALIDATION_ERROR");
    assert_eq!(err.message, "invalid id (expected UUID)");
}

#[test]
fn get_order_unknown_id_is_not_found() {
    let store = Store::new();
    let err = get_order_by_id_tx(
        &store,
        &rid("r1"),
        "00000000-0000-4000-8000-000000000000",
    )
    .unwrap_err();
    assert_eq!(err.status, 404);
    assert_eq!(err.code, "NOT_FOUND");
}

#[test]
fn invalid_create_body_is_rejected_before_any_write() {
    let mut store = Store::new();
    let key = "idem_invalid".to_string();
    let err =
        handle_create_order(&mut store, Some(&key), &rid("r1"), &req("", &[]), 1).unwrap_err();
    assert_eq!(err.status, 400);
    assert_eq!(err.code, "VALIDATION_ERROR");
    assert_eq!(store.orders.len(), 0);
    assert_eq!(store.outbox.len(), 0);
    assert_eq!(store.records.len(), 0);
}

#[test]
fn replayed_response_body_is_byte_equal() {
    let mut store = Store::new();
    let key = "idem_bytes".to_string();
    let body = req("ord_bytes", &[("ABC", 3)]);
    let (_, r1) = handle_create_order(&mut store, Some(&key), &rid("r1"), &body, 1).unwrap();
    let (_, r2) = handle_create_order(&mut store, Some(&key), &rid("r2"), &body, 2).unwrap();
    let b1 = fulfilment_core::jsonenc::response_json(&r1);
    let b2 = fulfilment_core::jsonenc::response_json(&r2);
    assert_eq!(b1, b2);
    let expected = format!(
        "{{\"id\":\"{}\",\"external_id\":\"ord_bytes\",\"item_count\":1,\"total_qty\":3}}",
        r1.id
    );
    assert_eq!(b1, expected);
}
