//! Scheduling of the resource collection: the resource manager is collected
//! once per interval of time.
use vstd::prelude::*;

verus! {

/// When the resources are next collected, and how often.
pub struct ResReleaseSys {
    pub collect_time: usize,
    pub collect_interval: usize,
}

impl ResReleaseSys {
    /// Collection is due at time 0, then every 1000 ms.
    pub fn new() -> (r: Self)
        ensures
            r.collect_time == 0,
            r.collect_interval == 1000,
    {
        ResReleaseSys { collect_time: 0, collect_interval: 1000 }
    }

    /// At time `cur_time`: when the collection is due, the next one is set
    /// one interval after `cur_time`, so that collections are at least an
    /// interval apart, and the time to collect at is returned.
    pub fn run(&mut self, cur_time: usize) -> (r: Option<usize>)
        requires
            cur_time >= old(self).collect_time
                ==> cur_time + old(self).collect_interval <= usize::MAX,
        ensures
            cur_time >= old(self).collect_time ==> r == Some(cur_time)
                && final(self).collect_time == cur_time + old(self).collect_interval,
            cur_time < old(self).collect_time ==> r is None
                && final(self).collect_time == old(self).collect_time,
            final(self).collect_interval == old(self).collect_interval,
    {
        if cur_time >= self.collect_time {
            self.collect_time = cur_time + self.collect_interval;
            Some(cur_time)
        } else {
            None
        }
    }
}

} // verus!
