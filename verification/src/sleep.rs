use crate::task::PollState;
use crate::timer::{ordered_insert, Timer, TimerEntry};
use vstd::prelude::*;

verus! {

/// A lazy computation that completes once a target instant has passed.
/// It is built from a whole-second duration and the clock reading taken
/// at construction; the target is their sum.  It registers a wake
/// request with a timer at most once over its lifetime.
pub struct Sleep {
    target: u64,
    registered: bool,
}

impl Sleep {
    /// The instant, in milliseconds, at which this sleep completes.
    pub closed spec fn target_millis(&self) -> u64 {
        self.target
    }

    /// Whether a wake request has already been registered.
    pub closed spec fn is_registered(&self) -> bool {
        self.registered
    }

    /// A sleep of `seconds` whole seconds, measured from the clock
    /// reading `now_millis` taken at construction time.
    pub fn new(seconds: u64, now_millis: u64) -> (s: Sleep)
        requires
            now_millis + seconds * 1000 <= u64::MAX,
        ensures
            s.target_millis() == now_millis + seconds * 1000,
            !s.is_registered(),
    {
        Sleep { target: now_millis + seconds * 1000, registered: false }
    }

    /// Whether the target instant has passed at clock reading
    /// `now_millis`.  A sleep constructed from a zero duration is
    /// elapsed from its construction instant on.
    pub fn is_elapsed(&self, now_millis: u64) -> (b: bool)
        ensures
            b <==> now_millis >= self.target_millis(),
    {
        now_millis >= self.target
    }

    /// One poll at clock reading `now_millis`.  Ready exactly when the
    /// target instant has passed, and then the timer is not touched —
    /// in particular a sleep whose duration already elapsed completes
    /// on its first poll without registering anything.  Otherwise the
    /// sleep is pending: on the first such poll it registers the wake
    /// request `(target, waker)` with the timer, and on every later
    /// one it leaves the timer alone, so at most one entry is ever
    /// registered per sleep.
    pub fn poll_with_timer<W>(&mut self, now_millis: u64, waker: W, timer: &mut Timer<W>) -> (r:
        PollState<()>)
        requires
            old(timer).wf(),
        ensures
            final(timer).wf(),
            final(timer).is_shutdown() == old(timer).is_shutdown(),
            final(self).target_millis() == old(self).target_millis(),
            r is Ready <==> now_millis >= old(self).target_millis(),
            r is Ready ==> final(self).is_registered() == old(self).is_registered() && final(timer).entries_view() == old(timer).entries_view(),
            r is Pending ==> final(self).is_registered(),
            r is Pending && old(self).is_registered() ==> final(timer).entries_view() == old(timer).entries_view(),
            r is Pending && !old(self).is_registered() && !old(timer).is_shutdown()
                ==> ordered_insert(
                old(timer).entries_view(),
                final(timer).entries_view(),
                TimerEntry { deadline: old(self).target_millis(), waker },
            ),
            r is Pending && !old(self).is_registered() && old(timer).is_shutdown() ==> final(timer).entries_view() == old(timer).entries_view(),
    {
        if now_millis >= self.target {
            PollState::Ready(())
        } else {
            if !self.registered {
                timer.register(self.target, waker);
                self.registered = true;
            }
            PollState::Pending
        }
    }
}

} // verus!
