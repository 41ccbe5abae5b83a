//! The instant a request was received.

use vstd::prelude::*;

verus! {

#[verifier::external_type_specification]
#[verifier::external_body]
pub struct ExInstant(std::time::Instant);

/// Relies on std::time::Instant::now: an opaque reading of the
/// monotonic clock; nothing is assumed of its value.
#[verifier::external_body]
fn read_clock() -> std::time::Instant {
    std::time::Instant::now()
}

/// The instant a request was received.
///
/// Servers add this to a request's extensions, capturing the moment
/// request headers were received.
pub struct StartInstant(std::time::Instant);

impl StartInstant {
    pub fn now() -> Self {
        StartInstant(read_clock())
    }

    /// Relies on std::time::Instant::elapsed: the time since this
    /// instant was taken; nothing is assumed of its value.
    #[verifier::external_body]
    pub fn elapsed(&self) -> std::time::Duration {
        self.0.elapsed()
    }
}

} // verus!
