//! The time span that a stream's packets cover.
use vstd::prelude::*;
use std::time::Duration;

verus! {

/// What `Duration::from_secs` returns for a number of whole seconds.
pub uninterp spec fn duration_from_secs(secs: u64) -> Duration;

/// Calls `Duration::from_secs`, which builds the duration of `secs` whole
/// seconds.  The contract names the result and says nothing more of it.
#[verifier::external_body]
fn from_secs(secs: u64) -> (d: Duration)
    ensures
        d == duration_from_secs(secs),
{
    Duration::from_secs(secs)
}

/// The arrival times of the first and of the last packet of a stream.
#[derive(Debug)]
pub struct PacketsTime {
    first_time: Duration,
    last_time: Duration,
}

impl PacketsTime {
    /// The arrival time of the first packet.
    pub closed spec fn first(&self) -> Duration {
        self.first_time
    }

    /// The arrival time of the last packet.
    pub closed spec fn last(&self) -> Duration {
        self.last_time
    }

    /// A builder whose times are both zero.
    pub fn builder() -> (b: PacketsTimeBuilder)
        ensures
            b.first() == duration_from_secs(0),
            b.last() == duration_from_secs(0),
    {
        PacketsTimeBuilder::new()
    }

    pub fn get_first_time(&self) -> (t: Duration)
        ensures
            t == self.first(),
    {
        self.first_time
    }

    pub fn get_last_time(&self) -> (t: Duration)
        ensures
            t == self.last(),
    {
        self.last_time
    }

    pub fn set_first_time(&mut self, first_time: Duration)
        ensures
            final(self).first() == first_time,
            final(self).last() == old(self).last(),
    {
        self.first_time = first_time;
    }

    pub fn set_last_time(&mut self, last_time: Duration)
        ensures
            final(self).first() == old(self).first(),
            final(self).last() == last_time,
    {
        self.last_time = last_time;
    }

    /// Sets both times back to zero.
    pub fn clear(&mut self)
        ensures
            final(self).first() == duration_from_secs(0),
            final(self).last() == duration_from_secs(0),
    {
        self.first_time = from_secs(0);
        self.last_time = from_secs(0);
    }
}

impl Clone for PacketsTime {
    fn clone(&self) -> (p: PacketsTime)
        ensures
            p.first() == self.first(),
            p.last() == self.last(),
    {
        PacketsTime { first_time: self.first_time, last_time: self.last_time }
    }
}

impl Default for PacketsTime {
    fn default() -> (p: PacketsTime)
        ensures
            p.first() == duration_from_secs(0),
            p.last() == duration_from_secs(0),
    {
        PacketsTimeBuilder::new().build()
    }
}

/// Builds a `PacketsTime` one time at a time.
pub struct PacketsTimeBuilder {
    first_time: Duration,
    last_time: Duration,
}

impl PacketsTimeBuilder {
    /// The first time the builder will give.
    pub closed spec fn first(&self) -> Duration {
        self.first_time
    }

    /// The last time the builder will give.
    pub closed spec fn last(&self) -> Duration {
        self.last_time
    }

    /// A builder whose times are both zero.
    pub fn new() -> (b: PacketsTimeBuilder)
        ensures
            b.first() == duration_from_secs(0),
            b.last() == duration_from_secs(0),
    {
        PacketsTimeBuilder { first_time: from_secs(0), last_time: from_secs(0) }
    }

    pub fn first_time(self, first_time: Duration) -> (b: PacketsTimeBuilder)
        ensures
            b.first() == first_time,
            b.last() == self.last(),
    {
        PacketsTimeBuilder { first_time, last_time: self.last_time }
    }

    pub fn last_time(self, last_time: Duration) -> (b: PacketsTimeBuilder)
        ensures
            b.first() == self.first(),
            b.last() == last_time,
    {
        PacketsTimeBuilder { first_time: self.first_time, last_time }
    }

    /// The `PacketsTime` with the builder's two times.
    pub fn build(self) -> (p: PacketsTime)
        ensures
            p.first() == self.first(),
            p.last() == self.last(),
    {
        PacketsTime { first_time: self.first_time, last_time: self.last_time }
    }
}

} // verus!
