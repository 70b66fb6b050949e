use crate::task::Task;
use vstd::prelude::*;

verus! {

/// Capacity of the ready queue.  Exceeding it is a configuration
/// error the runtime treats as fatal, so every submission requires
/// room below this bound.
pub const MAX_TASKS: usize = 1000;

/// Submission endpoint: wraps a user-supplied body into a task and
/// places it at the back of the ready queue it owns.  The runtime
/// hands the whole queue to its drive loop when a termination mode is
/// entered.
pub struct Spawner<B> {
    pub queue: Vec<Task<B>>,
}

impl<B> Spawner<B> {
    /// A spawner with an empty ready queue.
    pub fn new() -> (s: Spawner<B>)
        ensures
            s.queue@ =~= Seq::<Task<B>>::empty(),
    {
        Spawner { queue: Vec::new() }
    }

    /// Builds a task around `task` under identity `id` and enqueues it.
    /// The queue is bounded, so the caller keeps it below `MAX_TASKS`.
    pub fn spawn(&mut self, id: usize, task: B)
        requires
            old(self).queue@.len() < MAX_TASKS,
        ensures
            final(self).queue@ == old(self).queue@.push(Task { id, body: Some(task) }),
    {
        let t = Task::new(id, task);
        self.queue.push(t);
    }
}

} // verus!
