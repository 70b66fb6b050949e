use crate::task::{queue_measure, task_measure, lemma_queue_measure_push, PollState, Pollable, Task};
use std::collections::HashMap;
use std::collections::HashSet;
use vstd::prelude::*;

verus! {

broadcast use vstd::std_specs::hash::group_hash_axioms;

/// Why a task could not be added.
#[derive(Debug)]
pub enum ExecutorError {
    /// The caller-supplied identity is already held by a live task.
    DuplicateId,
}

/// Some task in the queue carries the identity `id`.
pub open spec fn queue_has_id<B>(q: Seq<Task<B>>, id: usize) -> bool {
    exists|i: int| 0 <= i < q.len() && q[i].id == id
}

/// A well-formed ready queue: identities are pairwise distinct and
/// every queued task still holds its body — completed tasks leave the
/// queue, so none of them can ever be polled again.
pub open spec fn queue_wf<B>(q: Seq<Task<B>>) -> bool {
    &&& forall|i: int, j: int| 0 <= i < j < q.len() ==> q[i].id != q[j].id
    &&& forall|i: int| 0 <= i < q.len() ==> q[i].has_body()
}

/// Drives the queue round-robin — take the front task's body out of
/// its slot, poll it once, restore the body and requeue on a pending
/// poll — until the first completion, whose value is returned.  The
/// remaining tasks are dropped.  Returns nothing exactly when the
/// queue was empty to begin with.
#[verifier::loop_isolation(false)]
pub(crate) fn drive_select<B: Pollable>(queue: Vec<Task<B>>) -> (r: Option<B::Output>)
    requires
        queue_wf(queue@),
    ensures
        r is None <==> queue@.len() == 0,
{
    let ghost n0 = queue@.len();
    let mut q = queue;
    while q.len() > 0
        invariant
            queue_wf(q@),
            q@.len() == n0,
        decreases queue_measure(q@) + q@.len(),
    {
        let ghost qpre = q@;
        let mut task = q.remove(0);
        proof {
            assert(q@ =~= qpre.drop_first());
            assert(qpre[0].has_body());
            assert forall|i: int, j: int| 0 <= i < j < q@.len() implies q@[i].id != q@[j].id by {
                assert(qpre[i + 1].id != qpre[j + 1].id);
            }
            assert forall|i: int| 0 <= i < q@.len() implies q@[i].has_body() by {
                assert(qpre[i + 1].has_body());
            }
            assert forall|i: int| 0 <= i < q@.len() implies q@[i].id != qpre[0].id by {
                assert(qpre[0].id != qpre[i + 1].id);
            }
        }
        let body_opt = task.take_body();
        let mut b = body_opt.unwrap();
        match b.poll() {
            PollState::Ready(v) => {
                return Some(v);
            },
            PollState::Pending => {
                proof {
                    assert(b.poll_measure() < task_measure(qpre[0]));
                }
                task.restore_body(b);
                proof {
                    lemma_queue_measure_push(q@, task);
                }
                q.push(task);
            },
        }
    }
    None
}

/// Drives the queue round-robin until every task has completed,
/// recording each completed task's value under its identity; a
/// completed task's body stays out of its slot and the task leaves
/// the queue.  The returned mapping holds exactly one entry per
/// queued task.
#[verifier::loop_isolation(false)]
pub(crate) fn drive_join<B: Pollable>(queue: Vec<Task<B>>) -> (outputs: HashMap<
    usize,
    B::Output,
>)
    requires
        queue_wf(queue@),
    ensures
        forall|id: usize| #[trigger]
            outputs@.dom().contains(id) <==> queue_has_id(queue@, id),
{
    let ghost q0 = queue@;
    let mut q = queue;
    let mut outputs: HashMap<usize, B::Output> = HashMap::new();
    while q.len() > 0
        invariant
            queue_wf(q@),
            forall|id: usize|
                (#[trigger] outputs@.dom().contains(id) || queue_has_id(q@, id)) <==> queue_has_id(
                    q0,
                    id,
                ),
            forall|id: usize| #[trigger]
                outputs@.dom().contains(id) ==> !queue_has_id(q@, id),
        decreases queue_measure(q@) + q@.len(),
    {
        let ghost qpre = q@;
        let mut task = q.remove(0);
        proof {
            assert(q@ =~= qpre.drop_first());
            assert(qpre[0].has_body());
            assert forall|i: int, j: int| 0 <= i < j < q@.len() implies q@[i].id != q@[j].id by {
                assert(qpre[i + 1].id != qpre[j + 1].id);
            }
            assert forall|i: int| 0 <= i < q@.len() implies q@[i].has_body() by {
                assert(qpre[i + 1].has_body());
            }
            assert forall|i: int| 0 <= i < q@.len() implies q@[i].id != qpre[0].id by {
                assert(qpre[0].id != qpre[i + 1].id);
            }
            assert forall|id: usize|
                queue_has_id(qpre, id) <==> (id == qpre[0].id || queue_has_id(q@, id)) by {
                if queue_has_id(qpre, id) {
                    let i = choose|i: int| 0 <= i < qpre.len() && qpre[i].id == id;
                    if i > 0 {
                        assert(q@[i - 1].id == id);
                    }
                }
                if queue_has_id(q@, id) {
                    let i = choose|i: int| 0 <= i < q@.len() && q@[i].id == id;
                    assert(qpre[i + 1].id == id);
                }
                if id == qpre[0].id {
                    assert(qpre[0].id == id);
                }
            }
        }
        let body_opt = task.take_body();
        let mut b = body_opt.unwrap();
        match b.poll() {
            PollState::Ready(v) => {
                outputs.insert(task.id, v);
            },
            PollState::Pending => {
                proof {
                    assert(b.poll_measure() < task_measure(qpre[0]));
                }
                task.restore_body(b);
                proof {
                    lemma_queue_measure_push(q@, task);
                    assert forall|id: usize|
                        queue_has_id(q@.push(task), id) <==> (queue_has_id(q@, id) || id
                            == qpre[0].id) by {
                        if queue_has_id(q@.push(task), id) {
                            let i = choose|i: int|
                                0 <= i < q@.push(task).len() && q@.push(task)[i].id == id;
                            if i < q@.len() {
                                assert(q@[i].id == id);
                            }
                        }
                        if queue_has_id(q@, id) {
                            let i = choose|i: int| 0 <= i < q@.len() && q@[i].id == id;
                            assert(q@.push(task)[i].id == id);
                        }
                        if id == qpre[0].id {
                            assert(q@.push(task)[q@.len() as int].id == id);
                        }
                    }
                }
                q.push(task);
            },
        }
    }
    outputs
}

/// Owns the spawned tasks and their identity registry, and drives the
/// tasks to completion under one of two termination modes: racing to
/// the first value, or gathering every value by task identity.
pub struct Executor<B> {
    task_ids: HashSet<usize>,
    tasks: Vec<Task<B>>,
}

impl<B> Executor<B> {
    /// The set of live task identities.
    pub closed spec fn ids(&self) -> Set<usize> {
        self.task_ids@
    }

    /// The queued tasks, in submission order.
    pub closed spec fn tasks_view(&self) -> Seq<Task<B>> {
        self.tasks@
    }

    /// The queue is well formed and the identity registry holds
    /// exactly the queued identities.
    pub open spec fn wf(&self) -> bool {
        &&& queue_wf(self.tasks_view())
        &&& forall|i: int|
            0 <= i < self.tasks_view().len() ==> self.ids().contains(
                #[trigger] self.tasks_view()[i].id,
            )
        &&& forall|id: usize| #[trigger]
            self.ids().contains(id) ==> queue_has_id(self.tasks_view(), id)
    }

    /// An executor with no tasks.
    pub fn new() -> (e: Executor<B>)
        ensures
            e.wf(),
            e.ids() =~= Set::<usize>::empty(),
            e.tasks_view() =~= Seq::<Task<B>>::empty(),
    {
        let task_ids = HashSet::new();
        let tasks = Vec::new();
        Executor { task_ids, tasks }
    }

    /// Adds a task under the caller-chosen identity `id`.  Exactly when
    /// the identity is already taken, the duplicate is refused and the
    /// executor is left unchanged; otherwise the task is queued and the
    /// identity recorded.
    pub fn add_task(&mut self, task: B, id: usize) -> (r: Result<(), ExecutorError>)
        requires
            old(self).wf(),
        ensures
            final(self).wf(),
            old(self).ids().contains(id) ==> r == Err::<(), ExecutorError>(
                ExecutorError::DuplicateId,
            ) && *final(self) == *old(self),
            !old(self).ids().contains(id) ==> r == Ok::<(), ExecutorError>(())
                && final(self).ids() == old(self).ids().insert(id)
                && final(self).tasks_view() == old(self).tasks_view().push(
                Task { id, body: Some(task) },
            ),
    {
        if self.task_ids.contains(&id) {
            return Err(ExecutorError::DuplicateId);
        }
        let t = Task::new(id, task);
        let ghost pre = self.tasks@;
        self.tasks.push(t);
        self.task_ids.insert(id);
        proof {
            assert(t == (Task { id, body: Some(task) }));
            assert forall|i: int, j: int|
                0 <= i < j < self.tasks@.len() implies self.tasks@[i].id != self.tasks@[j].id by {
                if j < pre.len() {
                    assert(pre[i].id != pre[j].id);
                } else {
                    assert(old(self).ids().contains(pre[i].id));
                }
            }
            assert forall|i: int| 0 <= i < self.tasks@.len() implies self.tasks@[i].has_body() by {
                if i < pre.len() {
                    assert(pre[i].has_body());
                }
            }
            assert forall|idx: usize| #[trigger]
                self.task_ids@.contains(idx) implies queue_has_id(self.tasks@, idx) by {
                if idx == id {
                    assert(self.tasks@[pre.len() as int].id == idx);
                } else {
                    assert(old(self).ids().contains(idx));
                    assert(queue_has_id(pre, idx));
                    let i = choose|i: int| 0 <= i < pre.len() && pre[i].id == idx;
                    assert(self.tasks@[i].id == idx);
                }
            }
        }
        Ok(())
    }

    /// Polls the queued tasks round-robin and returns the first value
    /// any of them completes with; the other tasks are discarded.
    /// Returns nothing exactly when no task was ever added.
    pub fn select(self) -> (r: Option<B::Output>) where B: Pollable
        requires
            self.wf(),
        ensures
            r is None <==> self.tasks_view().len() == 0,
    {
        drive_select(self.tasks)
    }

    /// Polls the queued tasks round-robin until every one of them has
    /// completed, and returns their values keyed by task identity: one
    /// entry for each identity ever added, and no other.
    pub fn join(self) -> (outputs: HashMap<usize, B::Output>) where B: Pollable
        requires
            self.wf(),
        ensures
            outputs@.dom() == self.ids(),
    {
        let outputs = drive_join(self.tasks);
        proof {
            assert(outputs@.dom() =~= self.ids());
        }
        outputs
    }
}

} // verus!
