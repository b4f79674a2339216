use fulfilment_core::orders::{
    handle_validate_order, validate_order, OrderItem, ValidateOrderRequest,
};
use fulfilment_core::request::RequestId;

fn rid() -> RequestId {
    RequestId("req-1".to_string())
}

fn req(external_id: &str, items: &[(&str, i32)]) -> ValidateOrderRequest {
    ValidateOrderRequest {
        external_id: external_id.to_string(),
        items: items
            .iter()
            .map(|(sku, qty)| OrderItem { sku: sku.to_string(), qty: *qty })
            .collect(),
    }
}

#[test]
fn validate_order_valid_payload_returns_200() {
    let resp = handle_validate_order(&req("ord_123", &[("ABC", 1)]), &rid()).unwrap();
    assert_eq!(resp.normalized.external_id, "ord_123");
    assert_eq!(resp.normalized.item_count, 1);
    assert_eq!(resp.normalized.total_qty, 1);
}

#[test]
fn validate_order_invalid_payload_returns_4xx() {
    let err = handle_validate_order(&req("", &[]), &rid()).unwrap_err();
    assert_eq!(err.status, 400);
    assert_eq!(err.code, "VALIDATION_ERROR");
    assert_eq!(err.request_id, "req-1");
    assert!(!err.request_id.is_empty());
}

#[test]
fn empty_external_id_is_reported_first() {
    let err = validate_order(&req("   ", &[("ABC", 1)]), &rid()).unwrap_err();
    assert_eq!(err.message, "external_id must not be empty");
}

#[test]
fn empty_items_are_reported() {
    let err = validate_order(&req("ord_1", &[]), &rid()).unwrap_err();
    assert_eq!(err.message, "items must not be empty");
}

#[test]
fn blank_sku_is_reported_with_its_index() {
    let err = validate_order(&req("ord_1", &[("ABC", 1), ("  ", 2)]), &rid()).unwrap_err();
    assert_eq!(err.message, "items[1].sku must not be empty");
}

#[test]
fn non_positive_qty_is_reported_with_its_index() {
    let err = validate_order(&req("ord_1", &[("ABC", 0)]), &rid()).unwrap_err();
    assert_eq!(err.message, "items[0].qty must be > 0");
}

#[test]
fn totals_sum_over_all_items() {
    let resp = handle_validate_order(&req("ord_2", &[("A", 2), ("B", 3), ("C", 5)]), &rid())
        .unwrap();
    assert_eq!(resp.normalized.item_count, 3);
    assert_eq!(resp.normalized.total_qty, 10);
}
