//! The idle-shutdown watchdog's threshold rule.
//!
//! The hosting server stamps the time of the last request and periodically
//! measures how long the service has sat idle; the clock and the waiting
//! live with the server. The one decision — has the idle time passed the
//! configured limit — is taken here.

use vstd::prelude::*;

verus! {

/// True exactly when the observed idle time, in whole seconds, has passed
/// the configured limit.
pub fn idle_limit_exceeded(idle_secs: i64, limit_secs: i64) -> (r: bool)
    ensures
        r == (idle_secs > limit_secs),
{
    idle_secs > limit_secs
}

} // verus!
