//! Counters for observability.
use vstd::prelude::*;

verus! {

/// Simple counters for observability. Each starts at zero again behind its greatest value.
#[derive(Debug)]
pub struct Metrics {
    pub messages_sent: u64,
    pub messages_received: u64,
    pub messages_dropped: u64,
}

/// The count behind `n`.
pub open spec fn next_count(n: u64) -> u64 {
    if n == u64::MAX {
        0
    } else {
        (n + 1) as u64
    }
}

impl Metrics {
    /// Nothing was counted yet.
    pub fn new() -> (r: Metrics)
        ensures
            r == (Metrics { messages_sent: 0, messages_received: 0, messages_dropped: 0 }),
    {
        Metrics { messages_sent: 0, messages_received: 0, messages_dropped: 0 }
    }

    /// Counts a message that was sent.
    pub fn inc_sent(&mut self)
        ensures
            *final(self) == (Metrics {
                messages_sent: next_count(old(self).messages_sent),
                ..*old(self)
            }),
    {
        self.messages_sent = self.messages_sent.wrapping_add(1);
    }

    /// Counts a message that was received.
    pub fn inc_received(&mut self)
        ensures
            *final(self) == (Metrics {
                messages_received: next_count(old(self).messages_received),
                ..*old(self)
            }),
    {
        self.messages_received = self.messages_received.wrapping_add(1);
    }

    /// Counts a message that was dropped.
    pub fn inc_dropped(&mut self)
        ensures
            *final(self) == (Metrics {
                messages_dropped: next_count(old(self).messages_dropped),
                ..*old(self)
            }),
    {
        self.messages_dropped = self.messages_dropped.wrapping_add(1);
    }

    /// The counts as they are now.
    pub fn snapshot(&self) -> (r: MetricsSnapshot)
        ensures
            r == (MetricsSnapshot {
                sent: self.messages_sent,
                received: self.messages_received,
                dropped: self.messages_dropped,
            }),
    {
        MetricsSnapshot {
            sent: self.messages_sent,
            received: self.messages_received,
            dropped: self.messages_dropped,
        }
    }
}

/// The counts of one moment.
#[derive(Debug)]
pub struct MetricsSnapshot {
    pub sent: u64,
    pub received: u64,
    pub dropped: u64,
}

/// Counting goes up by one, and starts at zero again behind the greatest value.
pub proof fn law_counts(n: u64)
    ensures
        next_count(n) as nat == (n as nat + 1) % 0x1_0000_0000_0000_0000,
{
}

} // verus!
