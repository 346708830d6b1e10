//! Wake scheduling for the ticker thread and the subscriber table of the
//! event fan-out. The waiting itself (condition variable, channels) is done
//! by the runtime; the bookkeeping lives here.

use vstd::prelude::*;

verus! {

/// Deadlines are sorted, earliest first.
pub open spec fn ascending(s: Seq<u64>) -> bool {
    forall|i: int, j: int| 0 <= i <= j < s.len() ==> s[i] <= s[j]
}

/// Number of leading deadlines that are at or before `now`.
pub open spec fn due_prefix(s: Seq<u64>, now: u64, k: int) -> bool {
    &&& 0 <= k <= s.len()
    &&& forall|i: int| 0 <= i < k ==> s[i] <= now
    &&& forall|i: int| k <= i < s.len() ==> s[i] > now
}

/// Pending wake deadlines (milliseconds on the runtime's clock). Only used to
/// unblock the ticker at the right time; the work itself is kept in the
/// runtime's timer list.
pub struct TimerWheel {
    pub deadlines: Vec<u64>,
}

/// What the ticker does next.
pub enum WaitStep {
    /// The runtime is stopping: give up.
    Stopped,
    /// These deadlines have passed (earliest first); they were removed.
    Due(Vec<u64>),
    /// Nothing is due: sleep until this deadline (or a wake-up).
    SleepUntil(u64),
    /// No deadline at all: sleep until woken.
    SleepForever,
}

impl TimerWheel {
    pub open spec fn wf(&self) -> bool {
        ascending(self.deadlines@)
    }

    pub fn new() -> (w: TimerWheel)
        ensures
            w.wf(),
            w.deadlines@.len() == 0,
    {
        TimerWheel { deadlines: Vec::new() }
    }

    /// Add a wake deadline.
    pub fn wake_at(&mut self, at: u64)
        requires
            old(self).wf(),
        ensures
            final(self).wf(),
            exists|k: int|
                0 <= k <= old(self).deadlines@.len() && (forall|i: int| 0 <= i < k ==> old(self).deadlines@[i] <= at)
                    && (forall|i: int|
                    k <= i < old(self).deadlines@.len() ==> old(self).deadlines@[i] > at)
                    && final(self).deadlines@ == old(self).deadlines@.take(k).push(at) + old(
                    self,
                ).deadlines@.skip(k),
    {
        let ghost d0 = self.deadlines@;
        let mut k: usize = 0;
        while k < self.deadlines.len() && self.deadlines[k] <= at
            invariant
                k <= self.deadlines@.len(),
                self.deadlines@ == d0,
                ascending(d0),
                forall|i: int| 0 <= i < k ==> d0[i] <= at,
            decreases self.deadlines@.len() - k,
        {
            k = k + 1;
        }
        self.deadlines.insert(k, at);
        proof {
            assert(forall|i: int| k <= i < d0.len() ==> d0[i] > at) by {
                if k < d0.len() {
                    assert(d0[k as int] > at);
                }
            }
            assert(self.deadlines@ =~= d0.take(k as int).push(at) + d0.skip(k as int));
            assert forall|i: int, j: int|
                0 <= i <= j < self.deadlines@.len() implies self.deadlines@[i] <= self.deadlines@[j] by {
                if i < k && j > k {
                    assert(self.deadlines@[j] == d0[j - 1]);
                } else if i > k {
                    assert(self.deadlines@[i] == d0[i - 1]);
                    assert(self.deadlines@[j] == d0[j - 1]);
                }
            }
        }
    }

    /// One round of the ticker: report what is due, or how long to sleep.
    pub fn wait_step(&mut self, stopping: bool, now: u64) -> (step: WaitStep)
        requires
            old(self).wf(),
        ensures
            final(self).wf(),
            stopping ==> step is Stopped && final(self).deadlines@ == old(self).deadlines@,
            !stopping ==> exists|k: int|
                due_prefix(old(self).deadlines@, now, k) && if k > 0 {
                    step matches WaitStep::Due(v) && v@ == old(self).deadlines@.take(k)
                        && final(self).deadlines@ == old(self).deadlines@.skip(k)
                } else if old(self).deadlines@.len() > 0 {
                    step == WaitStep::SleepUntil(old(self).deadlines@[0]) && final(self).deadlines@
                        == old(self).deadlines@
                } else {
                    step is SleepForever && final(self).deadlines@ == old(self).deadlines@
                },
    {
        if stopping {
            return WaitStep::Stopped;
        }
        let ghost d0 = self.deadlines@;
        let mut k: usize = 0;
        while k < self.deadlines.len() && self.deadlines[k] <= now
            invariant
                k <= self.deadlines@.len(),
                self.deadlines@ == d0,
                ascending(d0),
                forall|i: int| 0 <= i < k ==> d0[i] <= now,
            decreases self.deadlines@.len() - k,
        {
            k = k + 1;
        }
        proof {
            assert(forall|i: int| k <= i < d0.len() ==> d0[i] > now) by {
                if k < d0.len() {
                    assert(d0[k as int] > now);
                }
            }
            assert(due_prefix(d0, now, k as int));
        }
        if k > 0 {
            let mut due = self.deadlines.split_off(k);
            std::mem::swap(&mut due, &mut self.deadlines);
            proof {
                assert(due@ =~= d0.take(k as int));
                assert(self.deadlines@ =~= d0.skip(k as int));
            }
            WaitStep::Due(due)
        } else if self.deadlines.len() > 0 {
            WaitStep::SleepUntil(self.deadlines[0])
        } else {
            WaitStep::SleepForever
        }
    }
}

/// Sinks whose number is not among `dead`.
pub open spec fn alive<S>(dead: Seq<u64>) -> spec_fn((u64, S)) -> bool {
    |e: (u64, S)| !dead.contains(e.0)
}

/// Event sinks keyed by a subscription number, in subscription order.
pub struct Fanout<S> {
    /// Number the next subscription gets.
    pub next_id: u64,
    pub sinks: Vec<(u64, S)>,
    /// Sinks dropped because their receiver went away.
    pub dropped: u64,
}

impl<S> Fanout<S> {
    /// Subscription numbers are below `next_id`, increasing.
    pub open spec fn wf(&self) -> bool {
        &&& forall|i: int| 0 <= i < self.sinks@.len() ==> self.sinks@[i].0 < self.next_id
        &&& forall|i: int, j: int|
            0 <= i < j < self.sinks@.len() ==> self.sinks@[i].0 < self.sinks@[j].0
    }

    pub fn new() -> (f: Fanout<S>)
        ensures
            f.wf(),
            f.next_id == 0,
            f.sinks@.len() == 0,
            f.dropped == 0,
    {
        Fanout { next_id: 0, sinks: Vec::new(), dropped: 0 }
    }

    /// Add a sink under the next subscription number.
    pub fn add(&mut self, sink: S) -> (id: u64)
        requires
            old(self).wf(),
            old(self).next_id < u64::MAX,
        ensures
            final(self).wf(),
            id == old(self).next_id,
            final(self).next_id == old(self).next_id + 1,
            final(self).sinks@ == old(self).sinks@.push((id, sink)),
            final(self).dropped == old(self).dropped,
    {
        let id = self.next_id;
        self.sinks.push((id, sink));
        self.next_id = id + 1;
        id
    }

    /// Forget the sinks whose numbers are in `dead` (their receivers hung
    /// up), counting them as dropped.
    pub fn remove_dead(&mut self, dead: &Vec<u64>)
        requires
            old(self).wf(),
            old(self).dropped + dead@.len() <= u64::MAX,
        ensures
            final(self).wf(),
            final(self).next_id == old(self).next_id,
            final(self).sinks@ == old(self).sinks@.filter(alive(dead@)),
            final(self).dropped == old(self).dropped + dead@.len(),
    {
        let ghost s0 = self.sinks@;
        let ghost f = alive::<S>(dead@);
        let len0 = self.sinks.len();
        let mut i: usize = 0;
        let mut n: usize = 0;
        while i < self.sinks.len()
            invariant
                i <= n <= s0.len(),
                s0.len() == len0,
                self.sinks@ == s0.take(n as int).filter(f) + s0.skip(n as int),
                i == s0.take(n as int).filter(f).len(),
                self.next_id == old(self).next_id,
                self.dropped == old(self).dropped,
                old(self).wf(),
                s0 == old(self).sinks@,
                f == alive::<S>(dead@),
                forall|a: int| 0 <= a < i ==> exists|m: int| 0 <= m < n && #[trigger] self.sinks@[a] == s0[m],
                forall|a: int, b: int| 0 <= a < b < i ==> self.sinks@[a].0 < self.sinks@[b].0,
            decreases s0.len() - n,
        {
            proof {
                assert(self.sinks@.len() == i + (s0.len() - n));
                assert(n < len0);
                assert(self.sinks@[i as int] == s0[n as int]);
                assert(s0.take(n + 1).drop_last() =~= s0.take(n as int));
                reveal(Seq::filter);
            }
            let id = self.sinks[i].0;
            let mut found = false;
            let mut j: usize = 0;
            while j < dead.len()
                invariant
                    j <= dead@.len(),
                    found <==> exists|m: int| 0 <= m < j && dead@[m] == id,
                decreases dead@.len() - j,
            {
                if dead[j] == id {
                    found = true;
                }
                j = j + 1;
            }
            let ghost before = self.sinks@;
            if found {
                proof {
                    let m = choose|m: int| 0 <= m < dead@.len() && dead@[m] == id;
                    assert(dead@.contains(id));
                }
                let _gone = self.sinks.remove(i);
                proof {
                    assert(self.sinks@ =~= s0.take(n + 1).filter(f) + s0.skip(n + 1));
                    assert forall|a: int| 0 <= a < i implies exists|m: int|
                        0 <= m < n + 1 && #[trigger] self.sinks@[a] == s0[m] by {
                        assert(self.sinks@[a] == before[a]);
                    }
                }
            } else {
                proof {
                    assert(!dead@.contains(id)) by {
                        if dead@.contains(id) {
                            let m = choose|m: int| 0 <= m < dead@.len() && dead@[m] == id;
                        }
                    }
                    assert(s0.take(n + 1).filter(f) =~= s0.take(n as int).filter(f).push(s0[n as int]));
                    assert(self.sinks@ =~= s0.take(n + 1).filter(f) + s0.skip(n + 1));
                    assert forall|a: int| 0 <= a < i + 1 implies exists|m: int|
                        0 <= m < n + 1 && #[trigger] self.sinks@[a] == s0[m] by {
                        if a == i {
                            assert(self.sinks@[a] == s0[n as int]);
                        }
                    }
                    assert forall|a: int, b: int| 0 <= a < b < i + 1 implies self.sinks@[a].0
                        < self.sinks@[b].0 by {
                        if b == i {
                            let ma = choose|m: int| 0 <= m < n && #[trigger] self.sinks@[a] == s0[m];
                            assert(s0[ma].0 < s0[n as int].0);
                        }
                    }
                }
                i = i + 1;
            }
            n = n + 1;
        }
        proof {
            assert(self.sinks@.len() == i + (s0.len() - n));
            assert(n == s0.len());
            assert(i == self.sinks@.len());
            assert(s0.take(s0.len() as int) =~= s0);
            assert(self.sinks@ =~= s0.filter(f));
            assert forall|a: int| 0 <= a < self.sinks@.len() implies self.sinks@[a].0 < self.next_id by {
                let ma = choose|m: int| 0 <= m < n && #[trigger] self.sinks@[a] == s0[m];
                assert(s0[ma].0 < self.next_id);
            }
        }
        self.dropped = self.dropped + dead.len() as u64;
    }
}


/// A new subscriber gets a number no current sink has, so each sink is
/// served once per event; and it stays served until its own receiver hangs
/// up: dropping the hung-up sinks keeps every other sink, in order.
pub proof fn law_subscriber_served<S>(sinks: Seq<(u64, S)>, next_id: u64, s: S, dead: Seq<u64>)
    requires
        forall|i: int| 0 <= i < sinks.len() ==> sinks[i].0 < next_id,
        forall|i: int, j: int| 0 <= i < j < sinks.len() ==> sinks[i].0 < sinks[j].0,
    ensures
        forall|i: int, j: int|
            0 <= i < j < sinks.push((next_id, s)).len() ==> sinks.push((next_id, s))[i].0 < sinks.push(
                (next_id, s),
            )[j].0,
        !dead.contains(next_id) ==> sinks.push((next_id, s)).filter(alive(dead)).contains((next_id, s)),
        forall|k: int|
            0 <= k < sinks.len() && !dead.contains(#[trigger] sinks[k].0) ==> sinks.push((next_id, s)).filter(
                alive(dead),
            ).contains(sinks[k]),
{
    let t = sinks.push((next_id, s));
    assert forall|i: int, j: int| 0 <= i < j < t.len() implies t[i].0 < t[j].0 by {
        if j == sinks.len() {
            assert(t[i] == sinks[i]);
        } else {
            assert(t[i] == sinks[i] && t[j] == sinks[j]);
        }
    }
    if !dead.contains(next_id) {
        assert(t[sinks.len() as int] == (next_id, s));
        t.lemma_filter_contains(alive(dead), sinks.len() as int);
    }
    assert forall|k: int| 0 <= k < sinks.len() && !dead.contains(#[trigger] sinks[k].0) implies t.filter(
        alive(dead),
    ).contains(sinks[k]) by {
        assert(t[k] == sinks[k]);
        t.lemma_filter_contains(alive(dead), k);
    }
}

} // verus!
