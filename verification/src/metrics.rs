//! HTTP metrics labels: one label set per `(method, route, status)`, with
//! the scrape route excluded to avoid self-induced noise.

use vstd::prelude::*;
use crate::text::{dec_of, dec_string, str_eq};

verus! {

/// The label set of one HTTP observation.
#[derive(Clone, Debug, Hash, PartialEq, Eq)]
pub struct HttpLabels {
    pub method: String,
    pub route: String,
    pub status: String,
}

impl HttpLabels {
    /// Builds the labels for one request: method and matched route as they
    /// are, the status code in decimal.
    pub fn new(method: &str, route: &str, status: u16) -> (r: HttpLabels)
        ensures
            r.method@ == method@,
            r.route@ == route@,
            r.status@ == dec_of(status as int),
    {
        HttpLabels {
            method: method.to_owned(),
            route: route.to_owned(),
            status: dec_string(status as u64),
        }
    }
}

/// Whether a request should be observed: everything but the scrape route.
pub fn should_record(route: &str) -> (r: bool)
    ensures
        r == (route@ != "/metrics"@),
{
    !str_eq(route, "/metrics")
}

} // verus!
