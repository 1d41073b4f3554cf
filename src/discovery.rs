use crate::error::Error;
use vstd::prelude::*;

verus! {

/// One answer to a search: where the device's description lies, the target it
/// answered for, and its unique service name.
pub struct DiscoveryResult {
    pub location: String,
    pub search_target: String,
    pub usn: String,
}

/// The window of one search. Every answer that comes before the deadline is
/// passed on, a repeated one too, and a malformed one as a fault; the first
/// event at or after the deadline closes the window for good.
pub struct Survey {
    pub deadline: u64,
    pub closed: bool,
}

impl Survey {
    /// Whether answers are taken at time `now`.
    pub open spec fn open_at(&self, now: u64) -> bool {
        !self.closed && now < self.deadline
    }

    /// A window opened at `start` that lasts `timeout` (both in milliseconds).
    pub fn new(start: u64, timeout: u64) -> (r: Survey)
        ensures
            r.deadline == if start + timeout <= u64::MAX {
                (start + timeout) as u64
            } else {
                u64::MAX
            },
            !r.closed,
    {
        Survey { deadline: start.saturating_add(timeout), closed: false }
    }

    /// Whether answers are still taken at time `now`.
    pub fn is_open(&self, now: u64) -> (r: bool)
        ensures
            r == self.open_at(now),
    {
        !self.closed && now < self.deadline
    }

    /// What to hand the caller for an answer that came at time `now`: the answer
    /// itself while the window is open; nothing once it has closed.
    pub fn on_response(&mut self, now: u64, response: Result<DiscoveryResult, Error>) -> (r: Option<
        Result<DiscoveryResult, Error>,
    >)
        ensures
            final(self).deadline == old(self).deadline,
            old(self).open_at(now) ==> (r == Some(response) && !final(self).closed),
            !old(self).open_at(now) ==> (r is None && final(self).closed),
    {
        if self.is_open(now) {
            Some(response)
        } else {
            self.closed = true;
            None
        }
    }

    /// Records that time `now` has come; the window closes at its deadline.
    pub fn on_tick(&mut self, now: u64) -> (r: bool)
        ensures
            final(self).deadline == old(self).deadline,
            final(self).closed == !old(self).open_at(now),
            r == !final(self).closed,
    {
        if !self.is_open(now) {
            self.closed = true;
        }
        !self.closed
    }
}

} // verus!
