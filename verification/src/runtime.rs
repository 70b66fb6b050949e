use crate::executor::{drive_join, drive_select, queue_has_id, queue_wf};
use crate::spawner::{Spawner, MAX_TASKS};
use crate::task::{Pollable, Task};
use std::collections::HashMap;
use std::collections::HashSet;
use vstd::prelude::*;

verus! {

broadcast use vstd::std_specs::hash::group_hash_axioms;

/// Why a spawn was refused.
#[derive(Debug)]
pub enum TaskSpawnError {
    /// The caller-supplied identity is already held by a spawned task.
    DuplicateId,
}

/// The runtime: owns the ready queue behind its spawner, the registry
/// of live task identities, and the auto-assignment cursor.  Tasks are
/// spawned first; then one of the two termination modes consumes the
/// runtime and drives every queued task.
pub struct Runtime<B> {
    last_used_task_id: usize,
    task_ids: HashSet<usize>,
    spawner: Spawner<B>,
}

impl<B> Runtime<B> {
    /// The set of identities of spawned tasks.
    pub closed spec fn ids(&self) -> Set<usize> {
        self.task_ids@
    }

    /// The auto-assignment cursor: no identity below it is handed out.
    pub closed spec fn last_used(&self) -> usize {
        self.last_used_task_id
    }

    /// The ready queue, in spawn order.
    pub closed spec fn queue_view(&self) -> Seq<Task<B>> {
        self.spawner.queue@
    }

    /// The queue is well formed and the identity registry holds
    /// exactly the queued identities.
    pub open spec fn wf(&self) -> bool {
        &&& queue_wf(self.queue_view())
        &&& forall|i: int|
            0 <= i < self.queue_view().len() ==> self.ids().contains(
                #[trigger] self.queue_view()[i].id,
            )
        &&& forall|id: usize| #[trigger]
            self.ids().contains(id) ==> queue_has_id(self.queue_view(), id)
    }

    /// A fresh runtime with no tasks; auto-assignment starts at 1.
    pub fn new() -> (rt: Runtime<B>)
        ensures
            rt.wf(),
            rt.ids() =~= Set::<usize>::empty(),
            rt.queue_view() =~= Seq::<Task<B>>::empty(),
            rt.last_used() == 1,
    {
        Runtime { last_used_task_id: 1, task_ids: HashSet::new(), spawner: Spawner::new() }
    }

    /// How many tasks have been spawned and await driving.  The ready
    /// queue is bounded: spawning is allowed only below `MAX_TASKS`.
    pub fn task_count(&self) -> (n: usize)
        ensures
            n == self.queue_view().len(),
    {
        self.spawner.queue.len()
    }

    /// Spawns a task under the smallest identity that is at least the
    /// cursor and not yet taken — so auto-assigned identities never
    /// collide, neither with each other nor with caller-chosen ones —
    /// then advances the cursor to it.  Returns the identity.
    #[verifier::loop_isolation(false)]
    pub fn spawn(&mut self, task: B) -> (id: usize)
        requires
            old(self).wf(),
            old(self).queue_view().len() < MAX_TASKS,
            !old(self).ids().contains(usize::MAX),
        ensures
            final(self).wf(),
            !old(self).ids().contains(id),
            old(self).last_used() <= id,
            forall|j: usize| old(self).last_used() <= j < id ==> old(self).ids().contains(j),
            final(self).ids() == old(self).ids().insert(id),
            final(self).last_used() == id,
            final(self).queue_view() == old(self).queue_view().push(Task { id, body: Some(task) }),
    {
        let mut task_id = self.last_used_task_id;
        while self.task_ids.contains(&task_id)
            invariant
                old(self).last_used() <= task_id,
                forall|j: usize|
                    old(self).last_used() <= j < task_id ==> old(self).ids().contains(j),
            decreases usize::MAX - task_id,
        {
            proof {
                assert(self.task_ids@.contains(task_id));
                assert(task_id != usize::MAX);
            }
            task_id = task_id + 1;
        }
        self.last_used_task_id = task_id;
        self.task_ids.insert(task_id);
        let ghost pre = self.spawner.queue@;
        self.spawner.spawn(task_id, task);
        proof {
            self.lemma_wf_after_push(*old(self), pre, task_id, task);
        }
        task_id
    }

    /// Spawns a task under the caller-chosen identity.  Exactly when
    /// the identity is already taken, the duplicate is refused and the
    /// runtime is left unchanged — the task is dropped, nothing is
    /// queued or recorded; otherwise the task is queued, the identity
    /// recorded and returned, and the cursor left where it was.
    pub fn spawn_with_id(&mut self, id: usize, task: B) -> (r: Result<usize, TaskSpawnError>)
        requires
            old(self).wf(),
            old(self).queue_view().len() < MAX_TASKS,
        ensures
            final(self).wf(),
            old(self).ids().contains(id) ==> r == Err::<usize, TaskSpawnError>(
                TaskSpawnError::DuplicateId,
            ) && *final(self) == *old(self),
            !old(self).ids().contains(id) ==> r == Ok::<usize, TaskSpawnError>(id)
                && final(self).ids() == old(self).ids().insert(id)
                && final(self).last_used() == old(self).last_used()
                && final(self).queue_view() == old(self).queue_view().push(
                Task { id, body: Some(task) },
            ),
    {
        if self.task_ids.contains(&id) {
            return Err(TaskSpawnError::DuplicateId);
        }
        self.task_ids.insert(id);
        let ghost pre = self.spawner.queue@;
        self.spawner.spawn(id, task);
        proof {
            self.lemma_wf_after_push(*old(self), pre, id, task);
        }
        Ok(id)
    }

    /// Restores well-formedness after one task was pushed under a
    /// previously free identity that was recorded at the same time.
    proof fn lemma_wf_after_push(&self, prev: Runtime<B>, pre: Seq<Task<B>>, id: usize, task: B)
        requires
            prev.wf(),
            !prev.ids().contains(id),
            pre == prev.queue_view(),
            self.queue_view() == pre.push(Task { id, body: Some(task) }),
            self.ids() == prev.ids().insert(id),
        ensures
            self.wf(),
    {
        let q = self.queue_view();
        assert forall|i: int, j: int| 0 <= i < j < q.len() implies q[i].id != q[j].id by {
            if j < pre.len() {
                assert(pre[i].id != pre[j].id);
            } else {
                assert(prev.ids().contains(pre[i].id));
            }
        }
        assert forall|i: int| 0 <= i < q.len() implies q[i].has_body() by {
            if i < pre.len() {
                assert(pre[i].has_body());
            }
        }
        assert forall|idx: usize| #[trigger]
            self.ids().contains(idx) implies queue_has_id(q, idx) by {
            if idx == id {
                assert(q[pre.len() as int].id == idx);
            } else {
                assert(prev.ids().contains(idx));
                assert(queue_has_id(pre, idx));
                let i = choose|i: int| 0 <= i < pre.len() && pre[i].id == idx;
                assert(q[i].id == idx);
            }
        }
    }

    /// Drives the spawned tasks round-robin in spawn order and returns
    /// the first value any of them completes with; the other tasks are
    /// discarded.  Returns nothing exactly when nothing was spawned.
    pub fn select(self) -> (r: Option<B::Output>) where B: Pollable
        requires
            self.wf(),
        ensures
            r is None <==> self.queue_view().len() == 0,
    {
        drive_select(self.spawner.queue)
    }

    /// Drives the spawned tasks until every one of them has completed
    /// and returns their values keyed by task identity: exactly one
    /// entry per spawned task.  A runtime that spawned nothing yields
    /// the empty mapping.
    pub fn join(self) -> (outputs: HashMap<usize, B::Output>) where B: Pollable
        requires
            self.wf(),
        ensures
            outputs@.dom() == self.ids(),
    {
        let outputs = drive_join(self.spawner.queue);
        proof {
            assert(outputs@.dom() =~= self.ids());
        }
        outputs
    }
}

/// Auto-assigned identities are pairwise distinct and never collide
/// with identities already recorded — in particular not with ones that
/// earlier caller-chosen spawns registered.  Stated over the identity
/// registry as the spawn operations update it: a spawn picks an
/// identity free in the registry and inserts it, so a second spawn
/// picks a different one, itself free in the first registry.
pub proof fn lemma_spawned_ids_distinct(
    ids0: Set<usize>,
    id1: usize,
    ids1: Set<usize>,
    id2: usize,
)
    requires
        !ids0.contains(id1),
        ids1 == ids0.insert(id1),
        !ids1.contains(id2),
    ensures
        id1 != id2,
        !ids0.contains(id2),
{
    assert(ids1.contains(id1));
}

} // verus!
