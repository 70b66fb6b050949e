use vstd::prelude::*;

verus! {

/// The outcome of advancing a lazy computation by one step: either the
/// finished value, or a report that the computation cannot progress yet.
pub enum PollState<O> {
    Ready(O),
    Pending,
}

/// A lazy computation that the runtime can drive.  Each call of `poll`
/// advances the computation by one step; it either produces the final
/// value or reports that it is still pending.  Implementors are
/// supplied by the runtime's users.
///
/// The runtime is cooperative: it only ever makes progress through
/// polls, so a body owes it progress on every poll.  That debt is the
/// ghost budget `poll_measure`, which must strictly shrink on every
/// pending poll; it is what lets the drive loops promise that they
/// return.  The runtime's guarantees stand only as far as its bodies
/// keep this promise: a body that breaks it (one waiting on an event
/// that never comes) stalls the drive loop — the runtime does not
/// detect lost wakeups.  An implementation that Verus never sees keeps
/// the default budget of zero, and so promises to complete on its
/// first poll; a verified implementation gives its own budget and
/// proves it.
pub trait Pollable {
    type Output;

    /// How many more pending polls this computation may report.
    open spec fn poll_measure(&self) -> nat {
        0
    }

    fn poll(&mut self) -> (r: PollState<Self::Output>)
        ensures
            r is Pending ==> final(self).poll_measure() < old(self).poll_measure(),
    ;
}

/// The simplest lawful body under the poll protocol: reports pending
/// `remaining` times, then completes with `value` on every later poll.
pub struct Countdown<O> {
    pub remaining: u64,
    pub value: O,
}

impl<O: Copy> Pollable for Countdown<O> {
    type Output = O;

    open spec fn poll_measure(&self) -> nat {
        self.remaining as nat
    }

    fn poll(&mut self) -> (r: PollState<O>)
        ensures
            r is Pending ==> final(self).poll_measure() < old(self).poll_measure(),
            r is Pending <==> old(self).remaining > 0,
            r is Ready ==> r == PollState::Ready::<O>(old(self).value) && *final(self) == *old(
                self,
            ),
            r is Pending ==> final(self).remaining == old(self).remaining - 1 && final(self).value
                == old(self).value,
    {
        if self.remaining == 0 {
            PollState::Ready(self.value)
        } else {
            self.remaining = self.remaining - 1;
            PollState::Pending
        }
    }
}

/// Container for one in-flight lazy computation together with its
/// identity.  The body sits in a slot that is taken out for the duration
/// of a poll and restored afterwards unless the poll completed; a
/// completed task keeps an empty slot, so its body can never be polled
/// again.
pub struct Task<B> {
    pub id: usize,
    pub body: Option<B>,
}

impl<B> Task<B> {
    /// True while the body is present in its slot.
    pub open spec fn has_body(&self) -> bool {
        self.body is Some
    }

    /// Builds a task around a body; the slot starts occupied.
    pub fn new(id: usize, body: B) -> (t: Task<B>)
        ensures
            t.id == id,
            t.body == Some(body),
    {
        Task { id, body: Some(body) }
    }

    /// Takes the body out of its slot for polling.  After the call the
    /// slot is empty, so a second take yields `None`: a completed body
    /// cannot be handed out twice.
    pub fn take_body(&mut self) -> (b: Option<B>)
        ensures
            b == old(self).body,
            final(self).body is None,
            final(self).id == old(self).id,
    {
        self.body.take()
    }

    /// Puts a body back after a poll that did not complete.
    pub fn restore_body(&mut self, body: B)
        ensures
            final(self).body == Some(body),
            final(self).id == old(self).id,
    {
        self.body = Some(body);
    }
}

/// The progress budget left in one task: its body's, or zero once the
/// body has been taken for good.
pub open spec fn task_measure<B: Pollable>(t: Task<B>) -> nat {
    match t.body {
        Some(b) => b.poll_measure(),
        None => 0,
    }
}

/// The combined progress budget of a queue of tasks; the drive loops
/// terminate because each turn shrinks this sum or the queue itself.
pub open spec fn queue_measure<B: Pollable>(q: Seq<Task<B>>) -> nat
    decreases q.len(),
{
    if q.len() == 0 {
        0
    } else {
        task_measure(q[0]) + queue_measure(q.drop_first())
    }
}

/// Appending a task adds exactly its own budget to the queue's.
pub proof fn lemma_queue_measure_push<B: Pollable>(q: Seq<Task<B>>, t: Task<B>)
    ensures
        queue_measure(q.push(t)) == queue_measure(q) + task_measure(t),
    decreases q.len(),
{
    if q.len() == 0 {
        assert(q.push(t).drop_first() =~= Seq::<Task<B>>::empty());
        assert(q.push(t)[0] == t);
        assert(queue_measure(q.push(t)) == task_measure(t) + queue_measure(
            Seq::<Task<B>>::empty(),
        ));
    } else {
        lemma_queue_measure_push(q.drop_first(), t);
        assert(q.push(t).drop_first() =~= q.drop_first().push(t));
        assert(q.push(t)[0] == q[0]);
        assert(queue_measure(q.push(t)) == task_measure(q[0]) + queue_measure(
            q.drop_first().push(t),
        ));
        assert(queue_measure(q) == task_measure(q[0]) + queue_measure(q.drop_first()));
    }
}

} // verus!
