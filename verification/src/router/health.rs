use vstd::prelude::*;

use crate::router::ring::{after_failure, after_success, failure_trips, ConsistentHashRouter, RouterView};
use crate::text::{concat, ends_with, has_suffix};

verus! {

/// The health-check URL of an upstream base URL: `{url}/models` for a `/v1` base,
/// `{url}models` for a base ending in `/`, otherwise `{url}/v1/models`.
pub open spec fn health_url_for(url: Seq<char>) -> Seq<char> {
    if has_suffix(url, "/v1"@) {
        url + "/models"@
    } else if has_suffix(url, "/"@) {
        url + "models"@
    } else {
        url + "/v1/models"@
    }
}

/// The health-check URL of an upstream base URL.
pub fn health_url(url: &str) -> (r: String)
    ensures
        r@ == health_url_for(url@),
{
    if ends_with(url, "/v1") {
        concat(url, "/models")
    } else if ends_with(url, "/") {
        concat(url, "models")
    } else {
        concat(url, "/v1/models")
    }
}

/// What a health probe of a replica observed.
#[derive(Debug, Clone, Copy, PartialEq, Eq, Structural)]
pub enum ProbeOutcome {
    /// The replica answered with this HTTP status code.
    Status(u16),
    /// The request did not complete.
    NetworkError,
}

/// A 2xx status.
pub open spec fn is_success_code(code: u16) -> bool {
    200 <= code <= 299
}

/// A 5xx status.
pub open spec fn is_server_error_code(code: u16) -> bool {
    500 <= code <= 599
}

/// Whether `code` is a success status (2xx).
pub fn is_success_status(code: u16) -> (r: bool)
    ensures
        r == is_success_code(code),
{
    200 <= code && code <= 299
}

/// Whether `code` is a server error status (5xx).
pub fn is_server_error_status(code: u16) -> (r: bool)
    ensures
        r == is_server_error_code(code),
{
    500 <= code && code <= 599
}

/// The router after a probe of replica `id`: a 2xx answer is a success, a 5xx answer or a
/// network failure is a failure, and any other answer changes nothing.
pub open spec fn after_probe(rv: RouterView, id: Seq<char>, outcome: ProbeOutcome) -> RouterView {
    match outcome {
        ProbeOutcome::Status(code) => if is_success_code(code) {
            after_success(rv, id)
        } else if is_server_error_code(code) {
            after_failure(rv, id)
        } else {
            rv
        },
        ProbeOutcome::NetworkError => after_failure(rv, id),
    }
}

/// Whether a probe outcome counts as a failure.
pub open spec fn probe_is_failure(outcome: ProbeOutcome) -> bool {
    match outcome {
        ProbeOutcome::Status(code) => !is_success_code(code) && is_server_error_code(code),
        ProbeOutcome::NetworkError => true,
    }
}

impl ConsistentHashRouter {
    /// Records the outcome of a health probe of replica `id`. Returns whether the replica's
    /// circuit breaker tripped.
    pub fn apply_health_probe(&mut self, id: &str, outcome: ProbeOutcome) -> (tripped: bool)
        ensures
            final(self)@ == after_probe(old(self)@, id@, outcome),
            tripped == (probe_is_failure(outcome) && failure_trips(old(self)@, id@)),
    {
        match outcome {
            ProbeOutcome::Status(code) => {
                if is_success_status(code) {
                    self.record_success(id);
                    false
                } else if is_server_error_status(code) {
                    self.record_failure(id)
                } else {
                    false
                }
            },
            ProbeOutcome::NetworkError => self.record_failure(id),
        }
    }
}

} // verus!
