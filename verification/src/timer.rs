use vstd::prelude::*;

verus! {

/// One registered wake request: once the clock reaches `deadline`
/// (a point in time, in milliseconds), `waker` should be invoked.
pub struct TimerEntry<W> {
    pub deadline: u64,
    pub waker: W,
}

/// The decision the timer hands its worker on each turn of the worker
/// loop.  The worker performs the blocking part (invoking a waker,
/// sleeping on a condition variable); the timer itself only decides.
pub enum TimerStep<W> {
    /// Shutdown was requested: the worker should exit.
    Stop,
    /// The earliest registered deadline has passed: invoke this waker.
    Fire(W),
    /// The earliest deadline lies in the future: block until that
    /// instant, or until a new registration arrives, then ask again.
    WaitUntil(u64),
    /// Nothing is registered: block until a registration arrives.
    WaitForWork,
}

/// Holds exactly when `post` is `pre` with `e` placed after every entry
/// whose deadline is no later than `e`'s and before every strictly later
/// one.  This is where `register` puts a new entry, so entries with
/// equal deadlines stand — and fire — in registration order.
pub open spec fn ordered_insert<W>(
    pre: Seq<TimerEntry<W>>,
    post: Seq<TimerEntry<W>>,
    e: TimerEntry<W>,
) -> bool {
    exists|k: int|
        0 <= k <= pre.len() && post == pre.insert(k, e) && (forall|i: int|
            0 <= i < k ==> pre[i].deadline <= e.deadline) && (forall|i: int|
            k <= i < pre.len() ==> pre[i].deadline > e.deadline)
}

/// The pending wake deadlines, kept in ascending deadline order, paired
/// with a shutdown flag.  One value of this type is meant to be shared,
/// behind a mutual-exclusion guard, between registering threads and a
/// single background worker that repeatedly asks for its next step.
pub struct Timer<W> {
    entries: Vec<TimerEntry<W>>,
    shutdown: bool,
}

impl<W> Timer<W> {
    /// The registered, unfired entries, earliest deadline first.
    pub closed spec fn entries_view(&self) -> Seq<TimerEntry<W>> {
        self.entries@
    }

    /// True once shutdown has been requested and not yet observed.
    pub closed spec fn is_shutdown(&self) -> bool {
        self.shutdown
    }

    /// Entries stand in ascending deadline order, so the front entry
    /// always has the smallest deadline among registered, unfired ones.
    pub open spec fn wf(&self) -> bool {
        forall|i: int, j: int|
            0 <= i < j < self.entries_view().len() ==> self.entries_view()[i].deadline
                <= self.entries_view()[j].deadline
    }

    /// An empty timer, not shut down.
    pub fn new() -> (t: Timer<W>)
        ensures
            t.entries_view() =~= Seq::<TimerEntry<W>>::empty(),
            !t.is_shutdown(),
            t.wf(),
    {
        Timer { entries: Vec::new(), shutdown: false }
    }

    /// Enqueues a wake request.  While the timer runs, the entry is
    /// placed in deadline order, after existing entries with the same
    /// deadline.  After shutdown the request is a clean no-op and the
    /// waker is dropped.
    pub fn register(&mut self, deadline: u64, waker: W)
        requires
            old(self).wf(),
        ensures
            final(self).wf(),
            final(self).is_shutdown() == old(self).is_shutdown(),
            old(self).is_shutdown() ==> final(self).entries_view() == old(self).entries_view(),
            !old(self).is_shutdown() ==> ordered_insert(
                old(self).entries_view(),
                final(self).entries_view(),
                TimerEntry { deadline, waker },
            ),
    {
        if self.shutdown {
            return ;
        }
        let ghost pre = self.entries@;
        let mut k: usize = 0;
        while k < self.entries.len() && self.entries[k].deadline <= deadline
            invariant
                k <= self.entries@.len(),
                self.entries@ == pre,
                forall|i: int| 0 <= i < k ==> pre[i].deadline <= deadline,
            decreases self.entries@.len() - k,
        {
            k = k + 1;
        }
        proof {
            assert(k == pre.len() || pre[k as int].deadline > deadline);
        }
        self.entries.insert(k, TimerEntry { deadline, waker });
        proof {
            let e = TimerEntry { deadline, waker };
            let post = self.entries@;
            let ki = k as int;
            assert forall|i: int, j: int|
                0 <= i < j < pre.len() implies pre[i].deadline <= pre[j].deadline by {
                assert(old(self).entries_view()[i].deadline <= old(self).entries_view()[j].deadline);
            }
            assert(post == pre.insert(ki, e));
            pre.insert_ensures(ki, e);
            assert forall|i: int|
                ki <= i < pre.len() implies pre[i].deadline > e.deadline by {
                if i > ki {
                    assert(pre[ki].deadline <= pre[i].deadline);
                }
            }
            assert(ordered_insert(pre, post, e));
            assert forall|i: int, j: int|
                0 <= i < j < post.len() implies post[i].deadline <= post[j].deadline by {
                if i < ki && j < ki {
                    assert(post[i] == pre[i] && post[j] == pre[j]);
                } else if i < ki && j == ki {
                    assert(post[i] == pre[i] && post[j] == e);
                } else if i < ki && j > ki {
                    assert(post[i] == pre[i] && post[j] == pre[j - 1]);
                } else if i == ki && j > ki {
                    assert(post[i] == e && post[j] == pre[j - 1]);
                } else {
                    assert(post[i] == pre[i - 1] && post[j] == pre[j - 1]);
                }
            }
        }
    }

    /// Drops every unfired entry and raises the shutdown flag, so that
    /// the worker's next step is `Stop`.  Safe to call more than once.
    pub fn shutdown_and_empty(&mut self)
        ensures
            final(self).entries_view() =~= Seq::<TimerEntry<W>>::empty(),
            final(self).is_shutdown(),
            final(self).wf(),
    {
        self.entries.clear();
        self.shutdown = true;
    }

    /// Decides the worker's next step at wall-clock time `now`:
    /// acknowledge shutdown; fire the earliest entry once its deadline
    /// has passed; otherwise say how long the worker may block.  Entries
    /// fire earliest deadline first, and never before their deadline.
    pub fn next_step(&mut self, now: u64) -> (step: TimerStep<W>)
        requires
            old(self).wf(),
        ensures
            final(self).wf(),
            !final(self).is_shutdown(),
            old(self).is_shutdown() ==> step is Stop && final(self).entries_view() == old(
                self,
            ).entries_view(),
            !old(self).is_shutdown() && old(self).entries_view().len() == 0 ==> step
                is WaitForWork && final(self).entries_view() == old(self).entries_view(),
            !old(self).is_shutdown() && old(self).entries_view().len() > 0 && old(
                self,
            ).entries_view()[0].deadline <= now ==> step == TimerStep::Fire(
                old(self).entries_view()[0].waker,
            ) && final(self).entries_view() == old(self).entries_view().drop_first(),
            !old(self).is_shutdown() && old(self).entries_view().len() > 0 && old(
                self,
            ).entries_view()[0].deadline > now ==> step == TimerStep::<W>::WaitUntil(
                old(self).entries_view()[0].deadline,
            ) && final(self).entries_view() == old(self).entries_view(),
    {
        if self.shutdown {
            self.shutdown = false;
            return TimerStep::Stop;
        }
        if self.entries.len() == 0 {
            return TimerStep::WaitForWork;
        }
        let front_deadline = self.entries[0].deadline;
        if front_deadline <= now {
            let e = self.entries.remove(0);
            proof {
                assert forall|i: int, j: int|
                    0 <= i < j < self.entries@.len() implies self.entries@[i].deadline
                    <= self.entries@[j].deadline by {
                    assert(self.entries@[i] == old(self).entries_view()[i + 1]);
                    assert(self.entries@[j] == old(self).entries_view()[j + 1]);
                }
                assert(self.entries@ =~= old(self).entries_view().drop_first());
            }
            TimerStep::Fire(e.waker)
        } else {
            TimerStep::WaitUntil(front_deadline)
        }
    }
}

/// The front entry always has the smallest deadline among registered,
/// unfired entries — and the front entry is the only one the worker
/// ever fires, so no entry fires before an earlier-deadline one.
pub proof fn lemma_front_entry_is_earliest<W>(t: Timer<W>)
    requires
        t.wf(),
        t.entries_view().len() > 0,
    ensures
        forall|i: int|
            0 <= i < t.entries_view().len() ==> t.entries_view()[0].deadline <= (
            #[trigger] t.entries_view()[i]).deadline,
{
    assert forall|i: int|
        0 <= i < t.entries_view().len() implies t.entries_view()[0].deadline <= (
    #[trigger] t.entries_view()[i]).deadline by {
        if i > 0 {
            assert(t.entries_view()[0].deadline <= t.entries_view()[i].deadline);
        }
    }
}

/// The timer fires in deadline order: of two registered entries, the
/// one with the strictly earlier deadline stands closer to the front,
/// and the worker only ever fires the front entry.
pub proof fn lemma_earlier_deadline_fires_first<W>(t: Timer<W>, i: int, j: int)
    requires
        t.wf(),
        0 <= i < t.entries_view().len(),
        0 <= j < t.entries_view().len(),
        t.entries_view()[i].deadline < t.entries_view()[j].deadline,
    ensures
        i < j,
{
    if i > j {
        assert(t.entries_view()[j].deadline <= t.entries_view()[i].deadline);
    }
}

} // verus!
