//! The cooperative executor.
//!
//! Tasks wait in a bounded first-in-first-out run queue. A task's future sits
//! in the task's slot while the task is idle and is taken out while it is
//! polled; a future that resolves is dropped, so an entry of the queue that
//! names a resolved task is stale and is passed over. A waker names its task,
//! and waking puts the task at the back of the queue.

use crate::scheduler::Scheduler;
use crate::task::{Future, Poll, Waker};
use std::collections::VecDeque;
use vstd::prelude::*;

verus! {

/// How many entries the run queue holds at most.
pub const MAX_QUEUED_TASKS: usize = 1024;

/// Whether polling the tasks that `queue` names, in its order and each with
/// a waker that names it, may take the slots from `before` to `after`: an
/// entry whose slot is empty is passed over; a future that is polled goes
/// where its own `polls_to` allows, back into its slot if it is pending and
/// away if it has resolved.
pub open spec fn drains<F: Future<Output = ()>>(
    queue: Seq<usize>,
    before: Seq<Option<F>>,
    after: Seq<Option<F>>,
) -> bool
    decreases queue.len(),
{
    if queue.len() == 0 {
        after == before
    } else {
        let task = queue[0];
        if task < before.len() && before[task as int] is Some {
            exists|next: F, polled: Poll<()>|
                #[trigger] before[task as int]->Some_0.polls_to(Waker { task }, &next, polled)
                    && drains(
                    queue.drop_first(),
                    before.update(task as int, if polled is Pending { Some(next) } else { None }),
                    after,
                )
        } else {
            drains(queue.drop_first(), before, after)
        }
    }
}

/// Polling leaves alone what it does not reach: the number of slots stays,
/// no empty slot is filled, and a task that is not in the queue keeps its
/// future as it is.
pub proof fn lemma_drains_in_place<F: Future<Output = ()>>(
    queue: Seq<usize>,
    before: Seq<Option<F>>,
    after: Seq<Option<F>>,
)
    requires
        drains(queue, before, after),
    ensures
        after.len() == before.len(),
        forall|task: int| 0 <= task < before.len() && after[task] is Some ==> before[task] is Some,
        forall|task: int|
            0 <= task < before.len() && !queue.contains(task as usize) ==> after[task]
                == before[task],
    decreases queue.len(),
{
    if queue.len() > 0 {
        let first = queue[0];
        let rest = queue.drop_first();
        assert forall|entry: usize| !queue.contains(entry) implies !rest.contains(entry) by {
            if rest.contains(entry) {
                let at = choose|at: int| 0 <= at < rest.len() && rest[at] == entry;
                assert(queue[at + 1] == entry);
            }
        }
        if first < before.len() && before[first as int] is Some {
            let (next, polled) = choose|next: F, polled: Poll<()>|
                #[trigger] before[first as int]->Some_0.polls_to(
                    Waker { task: first },
                    &next,
                    polled,
                ) && drains(
                    rest,
                    before.update(first as int, if polled is Pending { Some(next) } else { None }),
                    after,
                );
            lemma_drains_in_place(
                rest,
                before.update(first as int, if polled is Pending { Some(next) } else { None }),
                after,
            );
            assert(queue[0] == first);
        } else {
            lemma_drains_in_place(rest, before, after);
        }
    }
}

/// The slot of one task.
pub struct Task<F> {
    future: Option<F>,
}

/// The right to spawn tasks on the executor it was made with.
pub struct Spawner {
    sealed: (),
}

/// The scheduler itself: the run queue and the tasks.
pub struct Executor<F> {
    ready_queue: VecDeque<usize>,
    tasks: Vec<Task<F>>,
    open: bool,
}

impl<F> View for Executor<F> {
    type V = Scheduler;

    closed spec fn view(&self) -> Scheduler {
        Scheduler {
            queue: self.ready_queue@,
            idle: Seq::new(self.tasks.len() as nat, |task: int| self.tasks[task].future is Some),
            open: self.open,
        }
    }
}

/// Makes a scheduler without tasks, and the spawner that belongs to it.
pub fn new_executor_and_spawner<F>() -> (made: (Executor<F>, Spawner))
    ensures
        made.0@ == Scheduler::fresh(),
        made.0.slots() == Seq::<Option<F>>::empty(),
{
    let executor = Executor { ready_queue: VecDeque::new(), tasks: Vec::new(), open: true };
    (executor, Spawner { sealed: () })
}

impl Spawner {
    /// Makes a task of `future` and puts it at the back of the run queue.
    pub fn spawn<F>(&self, executor: &mut Executor<F>, future: F)
        requires
            old(executor)@.open,
            old(executor)@.queue.len() < MAX_QUEUED_TASKS,
        ensures
            final(executor)@ == old(executor)@.spawn(),
            final(executor).slots() == old(executor).slots().push(Some(future)),
    {
        let task = executor.tasks.len();
        executor.tasks.push(Task { future: Some(future) });
        executor.ready_queue.push_back(task);
    }
}

impl<F> Executor<F> {
    /// The slots of the tasks: for each task its future, while the task is
    /// idle.
    pub closed spec fn slots(&self) -> Seq<Option<F>> {
        Seq::new(self.tasks.len() as nat, |task: int| self.tasks[task].future)
    }

    /// The model says that a task is idle exactly when its slot holds a
    /// future.
    pub proof fn lemma_idle_slots(&self)
        ensures
            self@.idle.len() == self.slots().len(),
            forall|task: int|
                0 <= task < self.slots().len() ==> self@.idle[task] == (self.slots()[task]
                    is Some),
    {
    }

    /// How many entries the run queue holds.
    pub fn queue_len(&self) -> (len: usize)
        ensures
            len == self@.queue.len(),
    {
        self.ready_queue.len()
    }

    /// How many tasks were spawned.
    pub fn task_count(&self) -> (count: usize)
        ensures
            count == self@.idle.len(),
    {
        self.tasks.len()
    }

    /// Whether tasks can still be spawned.
    pub fn is_open(&self) -> (open: bool)
        ensures
            open == self@.open,
    {
        self.open
    }

    /// Whether the future of `task` sits in its slot.
    pub fn is_idle(&self, task: usize) -> (idle: bool)
        ensures
            idle == self@.runnable(task),
    {
        task < self.tasks.len() && self.tasks[task].future.is_some()
    }

    /// Whether the scheduler is done.
    pub fn is_finished(&self) -> (finished: bool)
        ensures
            finished == self@.finished(),
    {
        if self.ready_queue.len() > 0 || self.open {
            return false;
        }
        let mut task: usize = 0;
        while task < self.tasks.len()
            invariant
                task <= self.tasks.len(),
                forall|seen: int| 0 <= seen < task ==> !self@.idle[seen],
            decreases self.tasks.len() - task,
        {
            if self.tasks[task].future.is_some() {
                assert(self@.idle[task as int]);
                return false;
            }
            task += 1;
        }
        true
    }

    /// The future in the slot of `task`, for whoever brings it news from
    /// the host. The task stays where it is.
    pub fn future_mut(&mut self, task: usize) -> (slot: Option<&mut F>)
        ensures
            final(self)@ == old(self)@,
            match slot {
                Some(future) => {
                    &&& old(self)@.runnable(task)
                    &&& old(self).slots()[task as int] == Some(*future)
                    &&& final(self).slots() == old(self).slots().update(
                        task as int,
                        Some(*final(future)),
                    )
                },
                None => !old(self)@.runnable(task) && final(self).slots() == old(self).slots(),
            },
    {
        if task < self.tasks.len() {
            self.tasks[task].future.as_mut()
        } else {
            None
        }
    }

    /// Gives up the spawner: from now on no task is spawned.
    pub fn close(&mut self, spawner: Spawner)
        ensures
            final(self)@ == old(self)@.close(),
            final(self).slots() == old(self).slots(),
    {
        let _ = spawner;
        self.open = false;
    }

    /// Invokes `waker`: its task goes to the back of the run queue. A waker
    /// of a task that the scheduler does not have does nothing.
    pub fn wake_by_ref(&mut self, waker: &Waker)
        requires
            old(self)@.queue.len() < MAX_QUEUED_TASKS,
        ensures
            final(self)@ == old(self)@.wake(waker.task),
            final(self).slots() == old(self).slots(),
    {
        if waker.task < self.tasks.len() {
            self.ready_queue.push_back(waker.task);
        }
    }

    /// Takes the next task off the run queue and its future out of its slot,
    /// for the caller to poll. Entries that name a task whose future is not
    /// in its slot are dropped on the way: a resolved task is not polled
    /// again.
    pub fn take(&mut self) -> (taken: Option<(Waker, F)>)
        ensures
            final(self)@ == old(self)@.take(),
            match taken {
                Some((waker, future)) => {
                    &&& old(self)@.next() == Some(waker.task)
                    &&& old(self)@.runnable(waker.task)
                    &&& old(self).slots()[waker.task as int] == Some(future)
                    &&& final(self).slots() == old(self).slots().update(waker.task as int, None)
                },
                None => old(self)@.next() is None && final(self).slots() == old(self).slots(),
            },
    {
        while self.ready_queue.len() > 0
            invariant
                self@.take() == old(self)@.take(),
                self@.next() == old(self)@.next(),
                self.slots() == old(self).slots(),
            decreases self.ready_queue.len(),
        {
            let ghost before = self@;
            let ghost slots = self.slots();
            let task = self.ready_queue.pop_front().unwrap();
            if task < self.tasks.len() {
                match self.tasks[task].future.take() {
                    Some(future) => {
                        proof {
                            assert(before.runnable(task));
                            assert(slots[task as int] == Some(future));
                            assert(self@.idle =~= before.idle.update(task as int, false));
                            assert(self.slots() =~= slots.update(task as int, None));
                        }
                        return Some((Waker { task }, future));
                    },
                    None => {
                        assert(self@.idle =~= before.idle);
                        assert(self.slots() =~= slots);
                    },
                }
            } else {
                assert(self@.idle =~= before.idle);
                assert(self.slots() =~= slots);
            }
        }
        None
    }

    /// Ends the poll of a task, given what the poll yielded: a future that
    /// is still pending goes back into the slot, and one that has resolved is
    /// dropped, and the task with it.
    pub fn settle(&mut self, waker: Waker, future: F, polled: Poll<()>)
        ensures
            final(self)@ == old(self)@.settle(waker.task, polled is Pending),
            final(self).slots() == if polled is Pending && waker.task < old(self).slots().len() {
                old(self).slots().update(waker.task as int, Some(future))
            } else {
                old(self).slots()
            },
    {
        match polled {
            Poll::Pending => {
                if waker.task < self.tasks.len() {
                    self.tasks[waker.task].future = Some(future);
                    assert(self@.idle =~= old(self)@.idle.update(waker.task as int, true));
                    assert(self.slots() =~= old(self).slots().update(
                        waker.task as int,
                        Some(future),
                    ));
                }
            },
            Poll::Ready(_) => {},
        }
    }
}

impl<F: Future<Output = ()>> Executor<F> {
    /// Polls the tasks of the run queue, in its order and each with a waker
    /// that names it, until the queue is empty. The result says whether the
    /// scheduler is done; if it is not, it has nothing to do until a task is
    /// woken or spawned.
    pub fn run(&mut self) -> (finished: bool)
        ensures
            drains(old(self)@.queue, old(self).slots(), final(self).slots()),
            final(self)@.queue.len() == 0,
            final(self)@.open == old(self)@.open,
            finished == final(self)@.finished(),
    {
        while self.ready_queue.len() > 0
            invariant
                self@.open == old(self)@.open,
                forall|end: Seq<Option<F>>| #[trigger]
                    drains(self@.queue, self.slots(), end) ==> drains(
                        old(self)@.queue,
                        old(self).slots(),
                        end,
                    ),
            decreases self.ready_queue.len(),
        {
            let ghost queue = self@.queue;
            let ghost slots = self.slots();
            let task = self.ready_queue.pop_front().unwrap();
            assert(self@.queue == queue.drop_first());
            assert(queue[0] == task);
            if task < self.tasks.len() {
                match self.tasks[task].future.take() {
                    Some(future) => {
                        let mut future = future;
                        let ghost before = future;
                        let waker = Waker { task };
                        let polled = future.poll(waker);
                        let ghost after = future;
                        self.settle(waker, future, polled);
                        proof {
                            let settled = slots.update(
                                task as int,
                                if polled is Pending { Some(after) } else { None::<F> },
                            );
                            assert(slots[task as int] == Some(before));
                            assert(self.slots() =~= settled);
                            assert(before.polls_to(waker, &after, polled));
                            assert forall|end: Seq<Option<F>>| #[trigger]
                                drains(self@.queue, self.slots(), end) implies drains(
                                queue,
                                slots,
                                end,
                            ) by {
                                assert(slots[task as int]->Some_0.polls_to(
                                    Waker { task },
                                    &after,
                                    polled,
                                ) && drains(queue.drop_first(), settled, end));
                            }
                        }
                    },
                    None => {
                        assert(self.slots() =~= slots);
                        assert(slots[task as int] is None);
                        assert forall|end: Seq<Option<F>>| #[trigger]
                            drains(self@.queue, self.slots(), end) implies drains(
                            queue,
                            slots,
                            end,
                        ) by {}
                    },
                }
            } else {
                assert(self.slots() =~= slots);
                assert forall|end: Seq<Option<F>>| #[trigger]
                    drains(self@.queue, self.slots(), end) implies drains(queue, slots, end) by {}
            }
        }
        assert(drains(self@.queue, self.slots(), self.slots()));
        self.is_finished()
    }
}

/// Runs `future` as the only task of a new scheduler, until its run queue is
/// empty: the future is polled once. The scheduler that is handed back is
/// done if the future has resolved; if it is still pending, it sits in its
/// slot and the scheduler waits for its waker.
pub fn block_on<F: Future<Output = ()>>(future: F) -> (executor: Executor<F>)
    ensures
        executor@.queue.len() == 0,
        !executor@.open,
        executor.slots().len() == 1,
        executor@.finished() <==> executor.slots()[0] is None,
        drains(seq![0usize], seq![Some(future)], executor.slots()),
{
    let (mut executor, spawner) = new_executor_and_spawner();
    spawner.spawn(&mut executor, future);
    executor.close(spawner);
    proof {
        executor.lemma_idle_slots();
        assert(executor@.queue == seq![0usize]);
        assert(executor.slots() == seq![Some(future)]);
    }
    let _ = executor.run();
    proof {
        executor.lemma_idle_slots();
        lemma_drains_in_place(seq![0usize], seq![Some(future)], executor.slots());
        assert(executor@.idle.len() == 1);
        assert(executor@.idle[0] == (executor.slots()[0] is Some));
    }
    executor
}

} // verus!
