//! Connection liveness: each connection pings every five seconds and is
//! declared dead after ten seconds without a pong.
//!
//! Time enters as a plain count of milliseconds supplied by the caller, so
//! the liveness decision itself is verified; the surrounding process reads
//! its monotonic clock.

use vstd::prelude::*;

verus! {

/// Milliseconds between pings.
pub const PING_INTERVAL_MS: u64 = 5000;

/// Milliseconds of silence after which a connection counts as dead.
pub const PONG_TIMEOUT_MS: u64 = 10000;

/// The liveness state of one connection: when the last pong arrived, in the
/// caller's monotonic milliseconds.
#[derive(Debug, Clone, Copy, PartialEq, Eq, Structural)]
pub struct HeartbeatState {
    pub last_pong_ms: u64,
}

impl HeartbeatState {
    /// A fresh connection counts as alive now.
    pub fn new(now_ms: u64) -> (r: HeartbeatState)
        ensures
            r.last_pong_ms == now_ms,
    {
        HeartbeatState { last_pong_ms: now_ms }
    }

    /// A pong arrived now.
    pub fn record_pong(&mut self, now_ms: u64)
        ensures
            final(self).last_pong_ms == now_ms,
    {
        self.last_pong_ms = now_ms;
    }

    /// Whether the connection is still alive at `now_ms`: strictly less than
    /// the timeout has elapsed since the last pong. A clock reading from
    /// before the last pong counts as no elapsed time.
    pub fn is_alive(&self, now_ms: u64) -> (r: bool)
        ensures
            r == if now_ms >= self.last_pong_ms {
                now_ms - self.last_pong_ms < PONG_TIMEOUT_MS
            } else {
                true
            },
    {
        if now_ms >= self.last_pong_ms {
            now_ms - self.last_pong_ms < PONG_TIMEOUT_MS
        } else {
            true
        }
    }
}

} // verus!
