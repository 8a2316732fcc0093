//! What the running service decides: when rows are rolled up anew, and how far it has come.
use vstd::prelude::*;

verus! {

/// How long after the account's usage was asked for it is asked for again, in milliseconds.
pub const USAGE_INTERVAL_MS: u64 = 21_600_000;

/// How far the first round has come.
#[derive(Clone, Copy, Debug, PartialEq, Eq, Structural)]
pub enum SyncPhase {
    Scanning,
    Materializing,
    Ready,
    Failed,
}

/// The rounds of the service: until one has come through, the next is still the first.
#[derive(Clone, Copy, Debug, PartialEq, Eq, Structural)]
pub struct SyncRounds {
    pub first: bool,
}

impl SyncRounds {
    /// Before any round.
    pub fn new() -> (r: Self)
        ensures
            r.first,
    {
        SyncRounds { first: true }
    }

    /// The phase to show when a round begins, where it changes.
    pub fn begin(&self) -> (r: Option<SyncPhase>)
        ensures
            r == (if self.first {
                Some(SyncPhase::Scanning)
            } else {
                None
            }),
    {
        if self.first {
            Some(SyncPhase::Scanning)
        } else {
            None
        }
    }

    /// Whether rows are rolled up after a scan: in the first round, and whenever something is new.
    pub fn needs_materialize(&self, inserted_events: usize, inserted_quota_samples: usize) -> (r:
        bool)
        ensures
            r == (self.first || inserted_events > 0 || inserted_quota_samples > 0),
    {
        self.first || inserted_events > 0 || inserted_quota_samples > 0
    }

    /// The phase to show when rows are about to be rolled up, where it changes.
    pub fn materialize(&self) -> (r: Option<SyncPhase>)
        ensures
            r == (if self.first {
                Some(SyncPhase::Materializing)
            } else {
                None
            }),
    {
        if self.first {
            Some(SyncPhase::Materializing)
        } else {
            None
        }
    }

    /// The phase to show once rows were rolled up, or not, where it changes. The first round that
    /// comes through is the last that counts as the first.
    pub fn finish(&mut self, succeeded: bool) -> (r: Option<SyncPhase>)
        ensures
            final(self).first == (old(self).first && !succeeded),
            r == (if !old(self).first {
                None
            } else if succeeded {
                Some(SyncPhase::Ready)
            } else {
                Some(SyncPhase::Failed)
            }),
    {
        if !self.first {
            return None;
        }
        if succeeded {
            self.first = false;
            Some(SyncPhase::Ready)
        } else {
            Some(SyncPhase::Failed)
        }
    }
}

/// Whether the account's usage is asked for with the quota, by how long ago it last was.
pub fn usage_due(elapsed_ms: u64) -> (r: bool)
    ensures
        r == (elapsed_ms >= USAGE_INTERVAL_MS),
{
    elapsed_ms >= USAGE_INTERVAL_MS
}

} // verus!
