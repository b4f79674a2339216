use fulfilment_core::config::{AppConfig, Environment};

fn kv(pairs: &[(&str, &str)]) -> Vec<(String, String)> {
    pairs.iter().map(|(k, v)| (k.to_string(), v.to_string())).collect()
}

#[test]
fn defaults_load_when_env_is_empty() {
    let cfg = AppConfig::from_kv(&Vec::new()).unwrap();
    assert_eq!(cfg.env, Environment::Dev);
    assert_eq!(cfg.service_port, 8080);
}

#[test]
fn invalid_port_fails_fast() {
    let err = AppConfig::from_kv(&kv(&[("SERVICE_PORT", "0")])).unwrap_err();
    let msg = err.message();
    assert!(msg.contains("SERVICE_PORT"));
}

#[test]
fn port_and_env_parse() {
    let cfg = AppConfig::from_kv(&kv(&[("ENV", "prod"), ("SERVICE_PORT", "8081")])).unwrap();
    assert_eq!(cfg.env, Environment::Prod);
    assert_eq!(cfg.service_port, 8081);
    assert!(cfg.otel_exporter_otlp_endpoint.is_none());
}

#[test]
fn port_accepts_plus_and_leading_zeros() {
    let cfg = AppConfig::from_kv(&kv(&[("SERVICE_PORT", "+0080")])).unwrap();
    assert_eq!(cfg.service_port, 80);
}

#[test]
fn unknown_env_is_a_parse_error() {
    let err = AppConfig::from_kv(&kv(&[("ENV", "staging")])).unwrap_err();
    assert!(err.message().contains("ENV"));
    assert!(err.message().contains("failed to parse configuration"));
}

#[test]
fn non_numeric_port_is_a_parse_error() {
    let err = AppConfig::from_kv(&kv(&[("SERVICE_PORT", "eighty")])).unwrap_err();
    assert!(err.message().contains("SERVICE_PORT"));
    assert!(err.message().contains("failed to parse configuration"));
}

#[test]
fn port_above_u16_is_a_parse_error() {
    let err = AppConfig::from_kv(&kv(&[("SERVICE_PORT", "65536")])).unwrap_err();
    assert!(err.message().contains("SERVICE_PORT"));
}

#[test]
fn blank_otel_endpoint_is_invalid() {
    let err = AppConfig::from_kv(&kv(&[("OTEL_EXPORTER_OTLP_ENDPOINT", "   ")])).unwrap_err();
    assert!(err.message().contains("OTEL_EXPORTER_OTLP_ENDPOINT"));
    assert!(err.message().contains("invalid configuration"));
}

#[test]
fn set_otel_endpoint_is_kept() {
    let cfg = AppConfig::from_kv(&kv(&[("OTEL_EXPORTER_OTLP_ENDPOINT", "http://otel:4317")]))
        .unwrap();
    assert_eq!(cfg.otel_exporter_otlp_endpoint.as_deref(), Some("http://otel:4317"));
}

#[test]
fn keys_match_without_regard_to_ascii_case() {
    let cfg = AppConfig::from_kv(&kv(&[("service_port", "9000")])).unwrap();
    assert_eq!(cfg.service_port, 9000);
}

#[test]
fn last_pair_wins() {
    let cfg = AppConfig::from_kv(&kv(&[("SERVICE_PORT", "1"), ("SERVICE_PORT", "2")])).unwrap();
    assert_eq!(cfg.service_port, 2);
}

#[test]
fn dev_config_matches_defaults() {
    let cfg = AppConfig::dev();
    assert_eq!(cfg.env, Environment::Dev);
    assert_eq!(cfg.service_port, 8080);
    assert!(cfg.otel_exporter_otlp_endpoint.is_none());
}
