//! The queue of pending tasks: first in, first out.
//!
//! The queue is an ordinary value that its owner constructs and hands to
//! whoever needs it. An owner that shares it between threads keeps it behind
//! a lock; the queue itself holds no global state.

use std::collections::VecDeque;
use vstd::prelude::*;
use crate::error::WarehouseError;
use crate::position::Pos;

verus! {

/// A unit of work: fetch the pod at `target`.
#[derive(Clone, Copy, Debug, PartialEq, Eq, Structural)]
pub struct Task {
    pub target: Pos,
}

impl Task {
    /// The task of fetching the pod at `target`.
    pub fn new(target: Pos) -> (task: Self)
        ensures
            task.target == target,
    {
        Self { target }
    }
}

/// The queue after `task` has joined it at the back.
pub open spec fn enqueued(q: Seq<Task>, task: Task) -> Seq<Task> {
    q.push(task)
}

/// The queue after its front task has left.
pub open spec fn dequeued(q: Seq<Task>) -> Seq<Task> {
    q.drop_first()
}

/// The pending tasks, oldest first.
pub struct TaskQueue {
    tasks: VecDeque<Task>,
}

impl View for TaskQueue {
    type V = Seq<Task>;

    closed spec fn view(&self) -> Seq<Task> {
        self.tasks@
    }
}

impl TaskQueue {
    /// A queue that holds no task.
    pub fn new() -> (queue: Self)
        ensures
            queue@ == Seq::<Task>::empty(),
    {
        Self { tasks: VecDeque::new() }
    }

    /// Appends `task` at the back of the queue.
    pub fn enqueue(&mut self, task: Task)
        ensures
            final(self)@ == enqueued(old(self)@, task),
    {
        self.tasks.push_back(task);
    }

    /// Tells whether the queue holds no task. The queue is left as it is.
    pub fn is_empty(&self) -> (empty: bool)
        ensures
            empty == (self@.len() == 0),
    {
        self.tasks.len() == 0
    }

    /// The number of tasks that wait in the queue.
    pub fn len(&self) -> (n: usize)
        ensures
            n == self@.len(),
    {
        self.tasks.len()
    }

    /// Removes the task at the front of the queue and returns it. An empty
    /// queue stays empty and answers with `EmptyQueue`.
    pub fn dequeue(&mut self) -> (result: Result<Task, WarehouseError>)
        ensures
            old(self)@.len() == 0 ==> result == Err::<Task, WarehouseError>(
                WarehouseError::EmptyQueue,
            ) && final(self)@ == old(self)@,
            old(self)@.len() > 0 ==> result == Ok::<Task, WarehouseError>(old(self)@.first())
                && final(self)@ == dequeued(old(self)@),
    {
        match self.tasks.pop_front() {
            Some(task) => Ok(task),
            None => Err(WarehouseError::EmptyQueue),
        }
    }
}

/// First in, first out, for two tasks: after `a` and then `b` have joined an
/// empty queue, `a` is at the front; once `a` has left, `b` is at the front;
/// once `b` has left too, the queue is empty again.
pub proof fn lemma_fifo_pair(a: Task, b: Task)
    ensures
        enqueued(enqueued(Seq::empty(), a), b).first() == a,
        dequeued(enqueued(enqueued(Seq::empty(), a), b)).first() == b,
        dequeued(dequeued(enqueued(enqueued(Seq::empty(), a), b))) == Seq::<Task>::empty(),
{
}

/// First in, first out, in general: a task that joins a queue which already
/// holds tasks does not change which task leaves next, and it is still the
/// last in line after that task has left. A task that joins an empty queue
/// is the next to leave.
pub proof fn lemma_fifo(q: Seq<Task>, task: Task)
    ensures
        q.len() > 0 ==> enqueued(q, task).first() == q.first(),
        q.len() > 0 ==> dequeued(enqueued(q, task)) == enqueued(dequeued(q), task),
        q.len() == 0 ==> enqueued(q, task).first() == task,
        q.len() == 0 ==> dequeued(enqueued(q, task)) == q,
        enqueued(q, task).len() == q.len() + 1,
{
}

} // verus!
