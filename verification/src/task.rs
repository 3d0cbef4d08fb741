//! The suspend/resume contract between a task and whatever drives it.
//!
//! A task is polled with a waker. It either resolves, or it keeps the waker
//! and stays pending until the waker is used to ask for another poll.

use vstd::prelude::*;

verus! {

/// What one poll of a future yields.
#[derive(Debug)]
pub enum Poll<T> {
    /// The future has resolved to this value.
    Ready(T),
    /// The future is not done; it kept the waker it was polled with.
    Pending,
}

impl<T> Poll<T> {
    pub fn is_ready(&self) -> (ready: bool)
        ensures
            ready == (self is Ready),
    {
        match self {
            Poll::Ready(_) => true,
            Poll::Pending => false,
        }
    }

    pub fn is_pending(&self) -> (pending: bool)
        ensures
            pending == (self is Pending),
    {
        match self {
            Poll::Ready(_) => false,
            Poll::Pending => true,
        }
    }
}

/// The request to poll one task again. It names the task by its number in
/// the scheduler that spawned it; handing it to that scheduler puts the task
/// back on the run queue.
#[derive(Clone, Copy, Debug, PartialEq, Eq, Structural)]
pub struct Waker {
    pub task: usize,
}

/// A value that resolves once, after any number of polls.
pub trait Future {
    type Output;

    /// Whether a poll with `waker` may take the future from `self` to
    /// `after` and yield `polled`. A future that says nothing of its polls
    /// leaves this as it is: every poll may do anything.
    open spec fn polls_to(&self, waker: Waker, after: &Self, polled: Poll<Self::Output>) -> bool {
        true
    }

    /// Polls the future. A pending future keeps `waker`.
    fn poll(&mut self, waker: Waker) -> (polled: Poll<Self::Output>)
        ensures
            old(self).polls_to(waker, final(self), polled),
    ;
}

} // verus!
