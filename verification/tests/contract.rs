use fulfilment_core::error::ApiError;
use fulfilment_core::request::{resolve_request_id, RequestId};

#[test]
fn reuses_inbound_x_request_id() {
    let inbound = "fixed-id-123".to_string();
    let id = resolve_request_id(Some(&inbound));
    assert_eq!(id.0, "fixed-id-123");
}

#[test]
fn generates_x_request_id_when_missing() {
    let id = resolve_request_id(None);
    assert!(!id.0.is_empty());
}

#[test]
fn blank_inbound_id_is_replaced() {
    let inbound = "   ".to_string();
    let id = resolve_request_id(Some(&inbound));
    assert!(!id.0.is_empty());
    assert!(!id.0.trim().is_empty());
}

#[test]
fn inbound_id_is_trimmed() {
    let inbound = "  abc-1  ".to_string();
    let id = resolve_request_id(Some(&inbound));
    assert_eq!(id.0, "abc-1");
}

#[test]
fn unknown_route_returns_json_404_with_request_id() {
    let req_id = RequestId("req-404".to_string());
    let err = ApiError::not_found(&req_id);
    let (status, env) = err.to_envelope();
    assert_eq!(status, 404);
    assert_eq!(env.error.code, "NOT_FOUND");
    assert_eq!(env.error.request_id, "req-404");
    assert!(!env.error.request_id.is_empty());
}

#[test]
fn from_status_maps_the_stable_codes() {
    let req_id = RequestId("r1".to_string());
    let e400 = ApiError::from_status(&req_id, 400);
    assert_eq!((e400.status, e400.code), (400, "BAD_REQUEST"));
    let e404 = ApiError::from_status(&req_id, 404);
    assert_eq!((e404.status, e404.code), (404, "NOT_FOUND"));
    let e500 = ApiError::from_status(&req_id, 500);
    assert_eq!((e500.status, e500.code), (500, "INTERNAL_ERROR"));
    let e418 = ApiError::from_status(&req_id, 418);
    assert_eq!((e418.status, e418.code), (418, "ERROR"));
    assert_eq!(e418.request_id, "r1");
}

#[test]
fn internal_error_leaks_no_detail() {
    let req_id = RequestId("r2".to_string());
    let err = ApiError::internal(&req_id);
    assert_eq!(err.status, 500);
    assert_eq!(err.code, "INTERNAL_ERROR");
    assert_eq!(err.message, "Internal server error");
    assert!(err.details.is_none());
}

#[test]
fn healthz_returns_200() {
    let (status, body) = fulfilment_core::health::healthz_response();
    assert_eq!(status, 200);
    assert_eq!(body, "ok");
}

#[test]
fn readyz_returns_200() {
    let (status, body) = fulfilment_core::health::readyz_response(true);
    assert_eq!(status, 200);
    assert_eq!(body, "ready");
}

#[test]
fn readyz_returns_503_without_a_store() {
    let (status, body) = fulfilment_core::health::readyz_response(false);
    assert_eq!(status, 503);
    assert_eq!(body, "not ready");
}
