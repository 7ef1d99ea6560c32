//! Bounded-concurrency bookkeeping.
//!
//! The scheduler holds the count of object scans in flight against the
//! caller-set ceiling. The caller asks before starting a scan and reports
//! each completion; the count never exceeds the ceiling, which is at least 1.

use vstd::prelude::*;

use crate::ConfigError;

verus! {

/// The in-flight scan count against its ceiling.
pub struct Scheduler {
    limit: usize,
    active: usize,
}

impl Scheduler {
    /// The concurrency ceiling.
    pub closed spec fn limit(self) -> int {
        self.limit as int
    }

    /// The number of scans in flight.
    pub closed spec fn active(self) -> int {
        self.active as int
    }

    /// The ceiling is at least 1 and never exceeded.
    pub closed spec fn wf(self) -> bool {
        1 <= self.limit && self.active <= self.limit
    }

    /// Makes a scheduler with the given ceiling; a ceiling of 0 is a
    /// configuration error, surfaced before any scanning starts.
    pub fn new(max_concurrency: usize) -> (r: Result<Scheduler, ConfigError>)
        ensures
            r is Ok <==> max_concurrency >= 1,
            r matches Ok(s) ==> s.wf() && s.limit() == max_concurrency && s.active() == 0,
    {
        if max_concurrency >= 1 {
            Ok(Scheduler { limit: max_concurrency, active: 0 })
        } else {
            Err(ConfigError { message: String::from_str("max concurrency must be at least 1") })
        }
    }

    /// Whether one more scan may start without crossing the ceiling.
    pub fn can_start(&self) -> (r: bool)
        ensures
            r == (self.active() < self.limit()),
    {
        self.active < self.limit
    }

    /// Accounts for one scan starting.
    pub fn start(&mut self)
        requires
            old(self).wf(),
            old(self).active() < old(self).limit(),
        ensures
            final(self).wf(),
            final(self).active() == old(self).active() + 1,
            final(self).limit() == old(self).limit(),
    {
        self.active = self.active + 1;
    }

    /// Accounts for one scan completing.
    pub fn complete(&mut self)
        requires
            old(self).wf(),
            old(self).active() >= 1,
        ensures
            final(self).wf(),
            final(self).active() == old(self).active() - 1,
            final(self).limit() == old(self).limit(),
    {
        self.active = self.active - 1;
    }

    /// At no point are more scans in flight than the configured ceiling.
    pub proof fn lemma_within_limit(self)
        requires
            self.wf(),
        ensures
            self.active() <= self.limit(),
    {
    }
}

} // verus!
