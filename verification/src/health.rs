//! The health check.

use vstd::prelude::*;

use crate::registry::{utc_now, AppState, Timestamp};
use crate::status::OK;

verus! {

/// The body of the answer to a health check.
#[derive(Debug, PartialEq, Eq)]
pub struct HealthResponse {
    pub status: String,
    pub timestamp: Timestamp,
    /// The number of models in the registry.
    pub models_loaded: usize,
}

/// The answer to a health check that is made at the time `now`.
pub fn health_at(state: &AppState, now: Timestamp) -> (reply: (u16, HealthResponse))
    ensures
        reply.0 == OK,
        reply.1.status@ == "healthy"@,
        reply.1.timestamp == now,
        reply.1.models_loaded == state@.len(),
{
    (OK, HealthResponse { status: "healthy".to_owned(), timestamp: now, models_loaded: state.len() })
}

/// The answer to a health check that is made now.
pub fn health_check(state: &AppState) -> (reply: (u16, HealthResponse))
    ensures
        reply.0 == OK,
        reply.1.status@ == "healthy"@,
        reply.1.models_loaded == state@.len(),
{
    health_at(state, utc_now())
}

} // verus!
