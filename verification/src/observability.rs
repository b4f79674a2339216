//! What the telemetry host is configured with. Exporter wiring and log
//! subscribers live outside the library; this is the contract they take.

use vstd::prelude::*;

verus! {

/// Telemetry configuration: the service's name, an optional OTLP endpoint
/// for traces, and an optional log filter expression.
#[derive(Debug)]
pub struct ObservabilityConfig {
    pub service_name: String,
    pub otlp_endpoint: Option<String>,
    pub log_filter: Option<String>,
}

} // verus!
