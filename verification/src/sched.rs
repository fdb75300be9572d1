//! The cooperative event scheduler: a deadline-keyed queue of timers and a
//! FIFO of ready events, serviced in firing order.  Time is a logical
//! millisecond counter that the surrounding loop advances.

use vstd::prelude::*;

use crate::events::Event;

verus! {

/// The index of the first entry with the minimal deadline.
pub open spec fn spec_first_min(s: Seq<(u64, Event)>) -> int
    decreases s.len(),
{
    if s.len() <= 1 {
        0
    } else {
        let m = spec_first_min(s.drop_last());
        if s.last().0 < s[m].0 {
            s.len() - 1
        } else {
            m
        }
    }
}

/// `spec_first_min` indeed points at the first minimum.
pub proof fn lemma_first_min(s: Seq<(u64, Event)>)
    requires
        s.len() >= 1,
    ensures
        0 <= spec_first_min(s) < s.len(),
        forall|j: int| 0 <= j < s.len() ==> (#[trigger] s[j]).0 >= s[spec_first_min(s)].0,
        forall|j: int| 0 <= j < spec_first_min(s) ==> (#[trigger] s[j]).0 > s[spec_first_min(s)].0,
    decreases s.len(),
{
    if s.len() > 1 {
        let d = s.drop_last();
        lemma_first_min(d);
        let m = spec_first_min(d);
        let w = spec_first_min(s);
        assert forall|j: int| 0 <= j < s.len() implies (#[trigger] s[j]).0 >= s[w].0 by {
            if j < s.len() - 1 {
                assert(s[j] == d[j]);
                assert(d[j].0 >= d[m].0);
            }
        }
        assert forall|j: int| 0 <= j < w implies (#[trigger] s[j]).0 > s[w].0 by {
            assert(s[j] == d[j]);
            if w == s.len() - 1 {
                assert(d[j].0 >= d[m].0);
            } else {
                assert(d[j].0 > d[m].0);
            }
        }
    }
}

/// The absolute deadline a delay from `now` produces: saturating at the
/// top of the tick range.
pub open spec fn spec_deadline(now: u64, delay: u64) -> u64 {
    if now + delay <= u64::MAX {
        (now + delay) as u64
    } else {
        u64::MAX
    }
}

/// Timers keyed by absolute deadline plus a FIFO of already-ready events.
pub struct EventQueue {
    now: u64,
    timers: Vec<(u64, Event)>,
    ready: Vec<Event>,
}

impl EventQueue {
    pub closed spec fn spec_now(self) -> u64 {
        self.now
    }

    pub closed spec fn spec_timers(self) -> Seq<(u64, Event)> {
        self.timers@
    }

    pub closed spec fn spec_ready(self) -> Seq<Event> {
        self.ready@
    }

    pub fn new(start: u64) -> (r: EventQueue)
        ensures
            r.spec_now() == start,
            r.spec_timers().len() == 0,
            r.spec_ready().len() == 0,
    {
        EventQueue { now: start, timers: Vec::new(), ready: Vec::new() }
    }

    pub fn current_time(&self) -> (r: u64)
        ensures
            r == self.spec_now(),
    {
        self.now
    }

    /// Enqueue an already-ready event at the back of the FIFO.
    pub fn add_event(&mut self, e: Event)
        ensures
            final(self).spec_ready() == old(self).spec_ready().push(e),
            final(self).spec_timers() == old(self).spec_timers(),
            final(self).spec_now() == old(self).spec_now(),
    {
        self.ready.push(e);
    }

    /// Arm a timer `delay` milliseconds from now.  Deadlines saturate at the
    /// top of the tick range rather than wrap.
    pub fn add_timeout(&mut self, e: Event, delay: u64)
        ensures
            final(self).spec_timers().len() == old(self).spec_timers().len() + 1,
            final(self).spec_timers().drop_last() == old(self).spec_timers(),
            final(self).spec_timers().last().1 == e,
            final(self).spec_timers().last().0 == spec_deadline(old(self).spec_now(), delay),
            final(self).spec_ready() == old(self).spec_ready(),
            final(self).spec_now() == old(self).spec_now(),
    {
        let deadline = if delay <= u64::MAX - self.now {
            self.now + delay
        } else {
            u64::MAX
        };
        self.timers.push((deadline, e));
        proof {
            assert(self.timers@.drop_last() =~= old(self).timers@);
        }
    }

    /// Move the clock forward; time never goes back.
    pub fn advance_time(&mut self, t: u64)
        ensures
            final(self).spec_now() == if t >= old(self).spec_now() {
                t
            } else {
                old(self).spec_now()
            },
            final(self).spec_timers() == old(self).spec_timers(),
            final(self).spec_ready() == old(self).spec_ready(),
    {
        if t >= self.now {
            self.now = t;
        }
    }

    /// The earliest armed deadline, if any timer is armed.
    pub fn next_deadline(&self) -> (r: Option<u64>)
        ensures
            match r {
                Some(d) => self.spec_timers().len() > 0 && d == self.spec_timers()[spec_first_min(
                    self.spec_timers(),
                )].0,
                None => self.spec_timers().len() == 0,
            },
    {
        let n = self.timers.len();
        if n == 0 {
            return None;
        }
        let idx = self.first_min_index();
        Some(self.timers[idx].0)
    }

    /// The index of the first timer with the earliest deadline.
    fn first_min_index(&self) -> (r: usize)
        requires
            self.spec_timers().len() >= 1,
        ensures
            r == spec_first_min(self.spec_timers()),
            r < self.spec_timers().len(),
    {
        let n = self.timers.len();
        let mut best: usize = 0;
        let mut i: usize = 1;
        while i < n
            invariant
                1 <= i <= n,
                n == self.timers@.len(),
                best == spec_first_min(self.timers@.take(i as int)),
                best < i,
            decreases n - i,
        {
            proof {
                assert(self.timers@.take(i + 1 as int).drop_last() =~= self.timers@.take(i as int));
            }
            if self.timers[i].0 < self.timers[best].0 {
                best = i;
            }
            i += 1;
        }
        proof {
            assert(self.timers@.take(n as int) =~= self.timers@);
        }
        best
    }

    /// Hand out the next event to service: ready events first, in FIFO
    /// order; otherwise the first timer with the earliest deadline, when
    /// that deadline has been reached.
    pub fn pop_next(&mut self) -> (r: Option<Event>)
        ensures
            old(self).spec_ready().len() > 0 ==> {
                &&& r == Some(old(self).spec_ready()[0])
                &&& final(self).spec_ready() == old(self).spec_ready().drop_first()
                &&& final(self).spec_timers() == old(self).spec_timers()
            },
            (old(self).spec_ready().len() == 0 && old(self).spec_timers().len() > 0
                && old(self).spec_timers()[spec_first_min(old(self).spec_timers())].0
                <= old(self).spec_now()) ==> {
                &&& r == Some(old(self).spec_timers()[spec_first_min(old(self).spec_timers())].1)
                &&& final(self).spec_timers() == old(self).spec_timers().remove(
                    spec_first_min(old(self).spec_timers()),
                )
                &&& final(self).spec_ready() == old(self).spec_ready()
            },
            (old(self).spec_ready().len() == 0 && (old(self).spec_timers().len() == 0
                || old(self).spec_timers()[spec_first_min(old(self).spec_timers())].0
                > old(self).spec_now())) ==> (r is None && final(self).spec_timers()
                == old(self).spec_timers() && final(self).spec_ready() == old(self).spec_ready()),
            final(self).spec_now() == old(self).spec_now(),
    {
        if self.ready.len() > 0 {
            let e = self.ready.remove(0);
            proof {
                assert(self.ready@ =~= old(self).ready@.drop_first());
            }
            return Some(e);
        }
        let n = self.timers.len();
        if n == 0 {
            return None;
        }
        let idx = self.first_min_index();
        if self.timers[idx].0 > self.now {
            return None;
        }
        let (_, e) = self.timers.remove(idx);
        Some(e)
    }
}

} // verus!
