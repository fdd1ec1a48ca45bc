//! Boundary of the HTTP client collaborator.
//!
//! The network stack and request plumbing live outside the core; this
//! module only names what can go wrong while setting the client up.

use vstd::prelude::*;

verus! {

/// Placeholder for the request path; the real transfer happens in the
/// network collaborator outside the core.
pub fn perform_get_request() {
}

/// How HTTP client setup can fail.
#[derive(Debug, Clone, Copy, PartialEq, Eq, Structural)]
pub enum Error {
    FailedSetup,
}

} // verus!
