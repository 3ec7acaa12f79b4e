//! A counter of the events seen.
use vstd::prelude::*;

verus! {

/// The number of events recorded, counted modulo 2^64.
pub struct EventCounter {
    count: u64,
}

impl View for EventCounter {
    type V = nat;

    closed spec fn view(&self) -> nat {
        self.count as nat
    }
}

/// The count after one more event.
pub open spec fn next_count(n: nat) -> nat {
    if n >= u64::MAX {
        0
    } else {
        n + 1
    }
}

impl EventCounter {
    /// A counter at zero.
    pub fn new() -> (r: EventCounter)
        ensures
            r@ == 0,
    {
        EventCounter { count: 0 }
    }

    /// Counts an event received.
    pub fn record_event_received(&mut self, _event_type: &str)
        ensures
            final(self)@ == next_count(old(self)@),
    {
        self.count = if self.count == u64::MAX { 0 } else { self.count + 1 };
    }

    /// Counts an event processed, whatever its outcome.
    pub fn record_event_processed(&mut self, _event_type: &str, _success: bool, _duration_ms: u64)
        ensures
            final(self)@ == next_count(old(self)@),
    {
        self.count = if self.count == u64::MAX { 0 } else { self.count + 1 };
    }

    /// Notes a retry attempt; retries are not counted.
    pub fn record_retry_attempt(&self, _attempt: u32, _backoff_ms: u64) {
    }

    /// The number of events counted.
    pub fn get_event_count(&self) -> (r: u64)
        ensures
            r == self@,
    {
        self.count
    }
}

} // verus!
