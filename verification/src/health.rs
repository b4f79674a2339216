//! Liveness and readiness answers.

use vstd::prelude::*;

verus! {

/// The liveness answer: the process is up.
pub fn healthz_response() -> (r: (u16, &'static str))
    ensures
        r.0 == 200,
        r.1@ == "ok"@,
{
    (200, "ok")
}

/// The readiness answer, from whether the store answered a probe: ready
/// only with a reachable store.
pub fn readyz_response(store_reachable: bool) -> (r: (u16, &'static str))
    ensures
        store_reachable ==> r.0 == 200 && r.1@ == "ready"@,
        !store_reachable ==> r.0 == 503 && r.1@ == "not ready"@,
{
    if store_reachable {
        (200, "ready")
    } else {
        (503, "not ready")
    }
}

} // verus!
