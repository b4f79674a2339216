use fulfilment_core::metrics::{should_record, HttpLabels};

#[test]
fn labels_carry_method_route_and_decimal_status() {
    let labels = HttpLabels::new("POST", "/api/v1/orders", 201);
    assert_eq!(labels.method, "POST");
    assert_eq!(labels.route, "/api/v1/orders");
    assert_eq!(labels.status, "201");
}

#[test]
fn zero_status_renders_as_one_digit() {
    let labels = HttpLabels::new("GET", "/healthz", 0);
    assert_eq!(labels.status, "0");
}

#[test]
fn the_scrape_route_is_not_recorded() {
    assert!(!should_record("/metrics"));
    assert!(should_record("/healthz"));
    assert!(should_record("/api/v1/orders"));
}
