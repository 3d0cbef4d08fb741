//! The scheduler as a value, and what holds of every course it takes.
//!
//! The run queue is first-in-first-out. A task is idle while its future sits
//! in its slot; an entry of the queue that names a task which is not idle is
//! stale and is passed over. The steps of the executor are stated over this
//! model, and so are the laws at the end: no task starves, and tasks that are
//! woken whenever they are left pending all resolve.

use crate::executor::MAX_QUEUED_TASKS;
use vstd::prelude::*;

verus! {

/// A scheduler as a value: the run queue, for each task whether its future
/// sits in its slot, and whether tasks can still be spawned.
#[verifier::ext_equal]
pub struct Scheduler {
    pub queue: Seq<usize>,
    pub idle: Seq<bool>,
    pub open: bool,
}

impl Scheduler {
    /// A scheduler without tasks.
    pub open spec fn fresh() -> Scheduler {
        Scheduler { queue: Seq::empty(), idle: Seq::empty(), open: true }
    }

    /// The scheduler after a spawn: the new task gets the next number and
    /// goes to the back of the queue.
    pub open spec fn spawn(self) -> Scheduler {
        Scheduler {
            queue: self.queue.push(self.idle.len() as usize),
            idle: self.idle.push(true),
            open: self.open,
        }
    }

    /// The scheduler after the waker of `task` was invoked.
    pub open spec fn wake(self, task: usize) -> Scheduler {
        if task < self.idle.len() {
            Scheduler { queue: self.queue.push(task), idle: self.idle, open: self.open }
        } else {
            self
        }
    }

    /// The scheduler after its spawner is gone.
    pub open spec fn close(self) -> Scheduler {
        Scheduler { queue: self.queue, idle: self.idle, open: false }
    }

    /// Whether the future of `task` sits in its slot.
    pub open spec fn runnable(self, task: usize) -> bool {
        task < self.idle.len() && self.idle[task as int]
    }

    /// The scheduler without the stale entries at the front of its queue.
    pub open spec fn skip_stale(self) -> Scheduler
        decreases self.queue.len(),
    {
        if self.queue.len() > 0 && !self.runnable(self.queue[0]) {
            (Scheduler { queue: self.queue.drop_first(), idle: self.idle, open: self.open })
                .skip_stale()
        } else {
            self
        }
    }

    /// The task that is polled next: the first in the queue whose future
    /// sits in its slot.
    pub open spec fn next(self) -> Option<usize> {
        let ahead = self.skip_stale();
        if ahead.queue.len() > 0 {
            Some(ahead.queue[0])
        } else {
            None
        }
    }

    /// The scheduler after the next task has left the queue and its future
    /// has left its slot.
    pub open spec fn take(self) -> Scheduler {
        let ahead = self.skip_stale();
        if ahead.queue.len() > 0 {
            Scheduler {
                queue: ahead.queue.drop_first(),
                idle: ahead.idle.update(ahead.queue[0] as int, false),
                open: ahead.open,
            }
        } else {
            ahead
        }
    }

    /// The scheduler after the poll of `task`: a pending future is back in
    /// its slot, a resolved one is gone.
    pub open spec fn settle(self, task: usize, pending: bool) -> Scheduler {
        if pending && task < self.idle.len() {
            Scheduler {
                queue: self.queue,
                idle: self.idle.update(task as int, true),
                open: self.open,
            }
        } else {
            self
        }
    }

    /// Whether every task has resolved.
    pub open spec fn all_resolved(self) -> bool {
        forall|task: int| 0 <= task < self.idle.len() ==> !self.idle[task]
    }

    /// Whether the scheduler is done: the queue is empty and nothing is left
    /// that could fill it.
    pub open spec fn finished(self) -> bool {
        self.queue.len() == 0 && !self.open && self.all_resolved()
    }
}

/// The queue without its stale front is an end piece of the queue; what was
/// dropped is stale, and what now stands at the front is not.
pub proof fn lemma_skip_stale_is_suffix(scheduler: Scheduler)
    ensures
        scheduler.skip_stale().idle == scheduler.idle,
        scheduler.skip_stale().open == scheduler.open,
        scheduler.skip_stale().queue.len() <= scheduler.queue.len(),
        scheduler.skip_stale().queue == scheduler.queue.skip(
            scheduler.queue.len() - scheduler.skip_stale().queue.len(),
        ),
        forall|at: int|
            0 <= at < scheduler.queue.len() - scheduler.skip_stale().queue.len()
                ==> !scheduler.runnable(#[trigger] scheduler.queue[at]),
        scheduler.skip_stale().queue.len() > 0 ==> scheduler.runnable(
            scheduler.skip_stale().queue[0],
        ),
    decreases scheduler.queue.len(),
{
    if scheduler.queue.len() > 0 && !scheduler.runnable(scheduler.queue[0]) {
        let rest = Scheduler {
            queue: scheduler.queue.drop_first(),
            idle: scheduler.idle,
            open: scheduler.open,
        };
        lemma_skip_stale_is_suffix(rest);
        let kept = rest.skip_stale().queue.len();
        assert(rest.queue.skip(rest.queue.len() - kept) =~= scheduler.queue.skip(
            scheduler.queue.len() - kept,
        ));
        assert forall|at: int| 0 <= at < scheduler.queue.len() - kept implies !scheduler.runnable(
            #[trigger] scheduler.queue[at],
        ) by {
            if at > 0 {
                assert(scheduler.queue[at] == rest.queue[at - 1]);
            }
        }
    } else {
        assert(scheduler.queue.skip(0) =~= scheduler.queue);
    }
}

/// The scheduler polls no task whose future has resolved: the task that is
/// polled next has its future in its slot.
pub proof fn lemma_next_is_runnable(scheduler: Scheduler)
    ensures
        scheduler.next() matches Some(task) ==> scheduler.runnable(task)
            && scheduler.queue.contains(task),
        scheduler.next() is None ==> scheduler.take().queue.len() == 0,
{
    lemma_skip_stale_is_suffix(scheduler);
    if scheduler.next() is Some {
        let dropped = scheduler.queue.len() - scheduler.skip_stale().queue.len();
        assert(scheduler.queue[dropped] == scheduler.next()->Some_0);
    }
}

/// One thing that happens to a scheduler.
pub enum Move {
    /// The next task is polled, and its future is pending or not.
    Poll { pending: bool },
    /// The waker of the task with this number is invoked.
    Wake(usize),
    /// A task is spawned.
    Spawn,
}

impl Scheduler {
    /// The scheduler after the poll of its next task.
    pub open spec fn poll(self, pending: bool) -> Scheduler {
        match self.next() {
            Some(task) => self.take().settle(task, pending),
            None => self.take(),
        }
    }

    /// The scheduler after one move.
    pub open spec fn make(self, one: Move) -> Scheduler {
        match one {
            Move::Poll { pending } => self.poll(pending),
            Move::Wake(task) => self.wake(task),
            Move::Spawn => self.spawn(),
        }
    }

    /// The scheduler after a sequence of moves.
    pub open spec fn play(self, moves: Seq<Move>) -> Scheduler
        decreases moves.len(),
    {
        if moves.len() == 0 {
            self
        } else {
            self.play(moves.drop_last()).make(moves.last())
        }
    }

    /// Whether one of the polls among `moves` is a poll of `task`.
    pub open spec fn polls_task(self, moves: Seq<Move>, task: usize) -> bool
        decreases moves.len(),
    {
        if moves.len() == 0 {
            false
        } else {
            self.polls_task(moves.drop_last(), task) || (moves.last() is Poll && self.play(
                moves.drop_last(),
            ).next() == Some(task))
        }
    }

    /// A scheduler with `count` tasks, all spawned and none polled, that
    /// takes no more.
    pub open spec fn spawned(count: nat) -> Scheduler {
        Scheduler {
            queue: Seq::new(count, |task: int| task as usize),
            idle: Seq::new(count, |task: int| true),
            open: false,
        }
    }

    /// The scheduler after the poll of its next task, where a pending task
    /// is woken before the next poll.
    pub open spec fn turn(self, pending: bool) -> Scheduler {
        match self.next() {
            Some(task) => if pending {
                self.poll(true).wake(task)
            } else {
                self.poll(false)
            },
            None => self,
        }
    }

    /// The scheduler after `turns` polls of tasks of which each resolves at
    /// the last of the polls it still needs, as `left` counts them.
    pub open spec fn drive(self, left: Seq<nat>, turns: nat) -> Scheduler
        decreases turns,
    {
        if turns == 0 {
            self
        } else {
            match self.next() {
                Some(task) => self.turn(left[task as int] > 1).drive(
                    left.update(task as int, (left[task as int] - 1) as nat),
                    (turns - 1) as nat,
                ),
                None => self,
            }
        }
    }
}

/// How many polls `moves` holds.
pub open spec fn polls_among(moves: Seq<Move>) -> nat
    decreases moves.len(),
{
    if moves.len() == 0 {
        0
    } else {
        polls_among(moves.drop_last()) + if moves.last() is Poll { 1nat } else { 0nat }
    }
}

/// The sum of the numbers in `left`.
pub open spec fn total(left: Seq<nat>) -> nat
    decreases left.len(),
{
    if left.len() == 0 {
        0
    } else {
        total(left.drop_last()) + left.last()
    }
}

/// Whether `task` waits at place `at` of the run queue with its future in
/// its slot.
pub open spec fn waits_at(scheduler: Scheduler, task: usize, at: int) -> bool {
    scheduler.runnable(task) && 0 <= at < scheduler.queue.len() && scheduler.queue[at] == task
}

proof fn lemma_waiting_task_moves_up(
    scheduler: Scheduler,
    moves: Seq<Move>,
    task: usize,
    place: int,
)
    requires
        waits_at(scheduler, task, place),
    ensures
        scheduler.polls_task(moves, task) || exists|at: int|
            at + polls_among(moves) <= place && #[trigger] waits_at(
                scheduler.play(moves),
                task,
                at,
            ),
    decreases moves.len(),
{
    if moves.len() == 0 {
        assert(waits_at(scheduler.play(moves), task, place));
    } else {
        let front = moves.drop_last();
        lemma_waiting_task_moves_up(scheduler, front, task, place);
        if !scheduler.polls_task(front, task) {
            let before = scheduler.play(front);
            let at = choose|at: int|
                at + polls_among(front) <= place && #[trigger] waits_at(before, task, at);
            let after = before.make(moves.last());
            assert(after == scheduler.play(moves));
            match moves.last() {
                Move::Poll { pending } => {
                    lemma_skip_stale_is_suffix(before);
                    let dropped = before.queue.len() - before.skip_stale().queue.len();
                    if dropped > at {
                        assert(!before.runnable(before.queue[at]));
                    }
                    assert(dropped <= at);
                    assert(before.skip_stale().queue[0] == before.queue[dropped]);
                    let next = before.queue[dropped];
                    assert(before.next() == Some(next));
                    if next != task {
                        assert(after == before.take().settle(next, pending));
                        assert(before.take().queue == before.skip_stale().queue.drop_first());
                        assert(after.queue == before.take().queue);
                        assert(after.queue[at - dropped - 1] == task);
                        assert(after.idle[task as int] == before.idle[task as int]);
                        assert(waits_at(after, task, at - dropped - 1));
                    }
                },
                Move::Wake(woken) => {
                    assert(waits_at(after, task, at));
                },
                Move::Spawn => {
                    assert(waits_at(after, task, at));
                },
            }
        }
    }
}

/// No task starves. A task that waits in the run queue with its future in
/// its slot is polled before the scheduler has polled more often than there
/// are entries in front of it, whatever those polls yield and whatever is
/// woken or spawned meanwhile.
pub proof fn lemma_no_starvation(scheduler: Scheduler, moves: Seq<Move>, task: usize, place: int)
    requires
        waits_at(scheduler, task, place),
        polls_among(moves) > place,
    ensures
        scheduler.polls_task(moves, task),
{
    lemma_waiting_task_moves_up(scheduler, moves, task, place);
}

proof fn lemma_total_update(left: Seq<nat>, at: int, value: nat)
    requires
        0 <= at < left.len(),
    ensures
        total(left.update(at, value)) == total(left) - left[at] + value,
    decreases left.len(),
{
    let updated = left.update(at, value);
    if at == left.len() - 1 {
        assert(updated.drop_last() =~= left.drop_last());
    } else {
        lemma_total_update(left.drop_last(), at, value);
        assert(updated.drop_last() =~= left.drop_last().update(at, value));
    }
}

proof fn lemma_total_zero(left: Seq<nat>)
    ensures
        total(left) == 0 <==> forall|at: int| 0 <= at < left.len() ==> left[at] == 0,
    decreases left.len(),
{
    if left.len() > 0 {
        lemma_total_zero(left.drop_last());
        if total(left) == 0 {
            assert forall|at: int| 0 <= at < left.len() implies left[at] == 0 by {
                if at < left.len() - 1 {
                    assert(left.drop_last()[at] == 0);
                }
            }
        }
        if forall|at: int| 0 <= at < left.len() ==> left[at] == 0 {
            assert forall|at: int| 0 <= at < left.drop_last().len() implies left.drop_last()[at]
                == 0 by {
                assert(left[at] == 0);
            }
        }
    }
}

/// Whether the scheduler is in step with tasks that still need `left` polls
/// each: a task waits in the queue, once, exactly if it has not resolved.
pub open spec fn in_step(scheduler: Scheduler, left: Seq<nat>) -> bool {
    &&& !scheduler.open
    &&& left.len() <= usize::MAX
    &&& scheduler.idle.len() == left.len()
    &&& scheduler.queue.len() <= left.len()
    &&& scheduler.queue.no_duplicates()
    &&& forall|at: int|
        0 <= at < scheduler.queue.len() ==> scheduler.runnable(#[trigger] scheduler.queue[at])
    &&& forall|task: int|
        0 <= task < left.len() && #[trigger] scheduler.idle[task] ==> scheduler.queue.contains(
            task as usize,
        )
    &&& forall|task: int|
        0 <= task < left.len() ==> (#[trigger] scheduler.idle[task] <==> left[task] > 0)
}

proof fn lemma_turn_keeps_step(scheduler: Scheduler, left: Seq<nat>)
    requires
        in_step(scheduler, left),
        total(left) > 0,
    ensures
        scheduler.next() is Some,
        ({
            let task = scheduler.next()->Some_0 as int;
            &&& 0 <= task < left.len()
            &&& left[task] > 0
            &&& in_step(
                scheduler.turn(left[task] > 1),
                left.update(task, (left[task] - 1) as nat),
            )
            &&& total(left.update(task, (left[task] - 1) as nat)) == total(left) - 1
        }),
{
    lemma_total_zero(left);
    let some = choose|at: int| 0 <= at < left.len() && left[at] != 0;
    assert(scheduler.idle[some]);
    assert(scheduler.queue.contains(some as usize));
    assert(scheduler.runnable(scheduler.queue[0]));
    let first = scheduler.queue[0];
    let task = first as int;
    assert(scheduler.skip_stale() == scheduler);
    assert(scheduler.next() == Some(first));
    assert(scheduler.idle[task]);
    let pending = left[task] > 1;
    let after = scheduler.turn(pending);
    lemma_total_update(left, task, (left[task] - 1) as nat);
    let rest = scheduler.queue.drop_first();
    assert(rest.no_duplicates()) by {
        assert forall|i: int, j: int|
            0 <= i < rest.len() && 0 <= j < rest.len() && i != j implies rest[i] != rest[j] by {
            assert(rest[i] == scheduler.queue[i + 1]);
            assert(rest[j] == scheduler.queue[j + 1]);
        }
    }
    assert(!rest.contains(first)) by {
        if rest.contains(first) {
            let at = choose|at: int| 0 <= at < rest.len() && rest[at] == first;
            assert(scheduler.queue[at + 1] == first);
        }
    }
    assert forall|other: int|
        0 <= other < left.len() && other != task && scheduler.idle[other] implies rest.contains(
        other as usize,
    ) by {
        let at = choose|at: int|
            0 <= at < scheduler.queue.len() && scheduler.queue[at] == other as usize;
        assert(rest[at - 1] == other as usize);
    }
    assert forall|at: int| 0 <= at < rest.len() implies scheduler.runnable(#[trigger] rest[at])
        && rest[at] != first by {
        assert(rest[at] == scheduler.queue[at + 1]);
    }
    if pending {
        assert(after.idle =~= scheduler.idle);
        assert(after.queue == rest.push(first));
        assert forall|other: int|
            0 <= other < left.len() && #[trigger] after.idle[other] implies after.queue.contains(
            other as usize,
        ) by {
            if other == task {
                assert(after.queue[rest.len() as int] == first);
            } else {
                let at = choose|at: int| 0 <= at < rest.len() && rest[at] == other as usize;
                assert(after.queue[at] == other as usize);
            }
        }
        assert forall|at: int| 0 <= at < after.queue.len() implies after.runnable(
            #[trigger] after.queue[at],
        ) by {
            if at < rest.len() {
                assert(after.queue[at] == rest[at]);
            }
        }
        assert(after.queue.no_duplicates()) by {
            let queue = after.queue;
            assert forall|i: int, j: int|
                0 <= i < queue.len() && 0 <= j < queue.len() && i != j implies queue[i]
                != queue[j] by {
                if i < rest.len() {
                    assert(after.queue[i] == rest[i]);
                }
                if j < rest.len() {
                    assert(after.queue[j] == rest[j]);
                }
            }
        }
    } else {
        assert(after.idle =~= scheduler.idle.update(task, false));
        assert(after.queue == rest);
        assert forall|at: int| 0 <= at < after.queue.len() implies after.runnable(
            #[trigger] after.queue[at],
        ) by {
            assert(scheduler.runnable(rest[at]) && rest[at] != first);
        }
    }
}

proof fn lemma_drive_keeps_step(scheduler: Scheduler, left: Seq<nat>, turns: nat)
    requires
        in_step(scheduler, left),
        turns <= total(left),
    ensures
        scheduler.drive(left, turns).queue.len() <= left.len(),
        scheduler.drive(left, turns).finished() <==> turns == total(left),
    decreases turns,
{
    if turns == 0 {
        lemma_total_zero(left);
        if total(left) == 0 {
            if scheduler.queue.len() > 0 {
                assert(scheduler.runnable(scheduler.queue[0]));
            }
        } else {
            let some = choose|at: int| 0 <= at < left.len() && left[at] != 0;
            assert(scheduler.idle[some]);
        }
    } else {
        lemma_turn_keeps_step(scheduler, left);
        let task = scheduler.next()->Some_0 as int;
        lemma_drive_keeps_step(
            scheduler.turn(left[task] > 1),
            left.update(task, (left[task] - 1) as nat),
            (turns - 1) as nat,
        );
    }
}

/// Spawned tasks all resolve. Take any number of tasks that fits the run
/// queue, of which each resolves at the last of the polls it needs and is
/// woken whenever a poll leaves it pending. The scheduler is then done after
/// as many polls as the tasks need together, not before, and its run queue
/// never holds more entries than there are tasks.
pub proof fn lemma_spawned_tasks_all_resolve(needs: Seq<nat>, turns: nat)
    requires
        needs.len() <= MAX_QUEUED_TASKS,
        forall|task: int| 0 <= task < needs.len() ==> needs[task] >= 1,
        turns <= total(needs),
    ensures
        Scheduler::spawned(needs.len()).drive(needs, turns).queue.len() <= needs.len(),
        Scheduler::spawned(needs.len()).drive(needs, turns).finished() <==> turns == total(needs),
{
    let start = Scheduler::spawned(needs.len());
    assert(in_step(start, needs)) by {
        assert forall|task: int|
            0 <= task < needs.len() && #[trigger] start.idle[task] implies start.queue.contains(
            task as usize,
        ) by {
            assert(start.queue[task] == task as usize);
        }
    }
    lemma_drive_keeps_step(start, needs, turns);
}

/// A scheduler on which tasks were spawned one after the other, and whose
/// spawner is then given up, holds them in the order of their spawning.
pub proof fn lemma_spawned_in_order(count: nat)
    requires
        count < usize::MAX,
    ensures
        Scheduler::spawned(count + 1) == (Scheduler {
            open: true,
            ..Scheduler::spawned(count)
        }).spawn().close(),
        Scheduler::spawned(0) == Scheduler::fresh().close(),
{
    let grown = (Scheduler { open: true, ..Scheduler::spawned(count) }).spawn().close();
    assert(grown.queue =~= Scheduler::spawned(count + 1).queue);
    assert(grown.idle =~= Scheduler::spawned(count + 1).idle);
    assert(Scheduler::spawned(0).queue =~= Scheduler::fresh().queue);
    assert(Scheduler::spawned(0).idle =~= Scheduler::fresh().idle);
}

} // verus!
