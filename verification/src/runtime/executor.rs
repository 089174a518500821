//! The executor: a ready queue, an arena of suspended computations, and the
//! loop that drives both against the reactor.
//!
//! Tasks live in an arena and are named by a stable integer id; the ready
//! queue and the reactor's wake table store ids, never the computation
//! itself.  A waker is such an id: firing it re-queues exactly that task,
//! and firing it again while the task is already queued or finished does
//! nothing.

use crate::poll::HostPoll;
use crate::runtime::reactor::{wait_outcome, Reactor, RtError};
use crate::table::{lemma_lookup_some_member, lookup};
use std::collections::VecDeque;
use vstd::prelude::*;
use vstd::std_specs::vec::vec_index_mut;

verus! {

/// What one advance of a suspended computation reports: it ran to
/// completion, or it parked itself and will be re-queued by a waker.
#[derive(Clone, Copy, Debug, PartialEq, Eq, Structural)]
pub enum Step {
    Ready,
    Pending,
}

/// Where a task stands: on the ready queue, parked awaiting a wake, or done.
/// A task is in exactly one of these at any time.
#[derive(Clone, Copy, Debug, PartialEq, Eq, Structural)]
pub enum TaskState {
    Queued,
    Parked,
    Done,
}

/// A suspension-capable computation.  Advancing it may attempt I/O and, on
/// would-block, register `waker` with the reactor before reporting
/// `Pending`; the executor re-advances it when that waker fires.
pub trait Pollable: Sized {
    /// Whether the computation has run to completion.
    spec fn finished(&self) -> bool;

    /// Whether the computation is certain to complete on its first advance,
    /// without ever suspending.
    spec fn immediate(&self) -> bool;

    /// Advances the computation to its next suspension point or to
    /// completion.  `Ready` is reported exactly when the computation has
    /// finished; a computation that never suspends completes here.
    fn poll_task(&mut self, rt: &mut Reactor, waker: usize) -> (s: Step)
        requires
            !old(self).finished(),
        ensures
            (s is Ready) == final(self).finished(),
            old(self).immediate() ==> s is Ready,
    ;
}

const DEFAULT_TASK_QUEUE_SIZE: usize = 4096;

/// The ready queue: ids of runnable tasks, first in, first out.
pub struct TaskQueue {
    queue: VecDeque<usize>,
}

impl TaskQueue {
    /// The queued ids, front first.
    pub closed spec fn ids(&self) -> Seq<usize> {
        self.queue@
    }

    pub fn new() -> (q: Self)
        ensures
            q.ids() == Seq::<usize>::empty(),
    {
        Self::new_with_capacity(DEFAULT_TASK_QUEUE_SIZE)
    }

    pub fn new_with_capacity(capacity: usize) -> (q: Self)
        ensures
            q.ids() == Seq::<usize>::empty(),
    {
        TaskQueue { queue: VecDeque::with_capacity(capacity) }
    }

    pub fn push(&mut self, runnable: usize)
        ensures
            final(self).ids() == old(self).ids().push(runnable),
    {
        self.queue.push_back(runnable);
    }

    pub fn pop(&mut self) -> (r: Option<usize>)
        ensures
            old(self).ids().len() == 0 ==> r is None && final(self).ids() == old(self).ids(),
            old(self).ids().len() > 0 ==> r == Some(old(self).ids()[0]) && final(self).ids() == old(
                self,
            ).ids().drop_first(),
    {
        let r = self.queue.pop_front();
        proof {
            if old(self).ids().len() > 0 {
                assert(final(self).ids() =~= old(self).ids().drop_first());
            }
        }
        r
    }

    pub fn len(&self) -> (n: usize)
        ensures
            n == self.ids().len(),
    {
        self.queue.len()
    }
}

/// Some entry of the wake table points at task `id`.
pub open spec fn waker_points_to(w: Seq<(u64, usize)>, id: usize) -> bool {
    exists|j: int| 0 <= j < w.len() && (#[trigger] w[j]).1 == id
}

/// What firing a batch of wakers does to the task states: each task named
/// by the batch and parked is queued; every other task keeps its state.
pub open spec fn wake_all_effect(s0: Seq<TaskState>, s1: Seq<TaskState>, ids: Seq<usize>) -> bool {
    &&& s1.len() == s0.len()
    &&& forall|id: usize|
        id < s0.len() ==> s1[id as int] == (if ids.contains(id) && s0[id as int] is Parked {
            TaskState::Queued
        } else {
            s0[id as int]
        })
}

/// The executor: the task arena, the ready queue, and the reactor, driven in
/// one loop.
pub struct Executor<T> {
    jobs: Vec<Option<T>>,
    states: Vec<TaskState>,
    tasks: TaskQueue,
    finished: Vec<usize>,
    pub reactor: Reactor,
}

impl<T: Pollable> Executor<T> {
    /// The arena's computations.  A slot is vacant only while its task is
    /// being advanced.
    pub closed spec fn jobs_view(&self) -> Seq<Option<T>> {
        self.jobs@
    }

    /// The arena's task states, by id.
    pub closed spec fn states(&self) -> Seq<TaskState> {
        self.states@
    }

    /// The ready queue's ids, front first.
    pub closed spec fn queue_ids(&self) -> Seq<usize> {
        self.tasks.ids()
    }

    /// The ids of completed tasks, in completion order.
    pub closed spec fn finished_ids(&self) -> Seq<usize> {
        self.finished@
    }

    pub open spec fn task_count(&self) -> nat {
        self.states().len()
    }

    /// The reactor, as a value, for specifications.
    pub closed spec fn reactor_state(&self) -> Reactor {
        self.reactor
    }

    /// The executor's bookkeeping invariant: queue entries name live queued
    /// tasks, no task is queued twice, every queued task is on the queue,
    /// every slot holds its computation, and a task is done exactly when its
    /// computation has finished.
    pub open spec fn wf(&self) -> bool {
        &&& self.jobs_view().len() == self.states().len()
        &&& forall|j: int|
            0 <= j < self.queue_ids().len() ==> (#[trigger] self.queue_ids()[j]) < self.states().len()
                && self.states()[self.queue_ids()[j] as int] is Queued
        &&& forall|j1: int, j2: int|
            0 <= j1 < j2 < self.queue_ids().len() ==> self.queue_ids()[j1] != self.queue_ids()[j2]
        &&& forall|id: usize|
            id < self.states().len() && (#[trigger] self.states()[id as int]) is Queued
                ==> self.queue_ids().contains(id)
        &&& forall|id: int| 0 <= id < self.jobs_view().len() ==> (#[trigger] self.jobs_view()[id]) is Some
        &&& forall|id: int|
            0 <= id < self.states().len() ==> (((#[trigger] self.states()[id]) is Done)
                <==> self.jobs_view()[id].unwrap().finished())
        &&& forall|j: int|
            0 <= j < self.finished_ids().len() ==> (#[trigger] self.finished_ids()[j])
                < self.states().len() && self.states()[self.finished_ids()[j] as int] is Done
    }

    /// Task `id` has the same state and computation in `self` and `other`.
    pub open spec fn same_task(self, other: Self, id: int) -> bool {
        &&& self.states()[id] == other.states()[id]
        &&& self.jobs_view()[id] == other.jobs_view()[id]
    }

    /// Every task on the ready queue is one that completes on its first
    /// advance.
    pub open spec fn all_queued_immediate(self) -> bool {
        forall|j: int|
            0 <= j < self.queue_ids().len() ==> self.jobs_view()[(
            #[trigger] self.queue_ids()[j]) as int].unwrap().immediate()
    }

    pub fn new() -> (ex: Self)
        ensures
            ex.wf(),
            ex.task_count() == 0,
            ex.queue_ids() == Seq::<usize>::empty(),
            ex.finished_ids() == Seq::<usize>::empty(),
            ex.reactor_state().wakers() == Seq::<(u64, usize)>::empty(),
            ex.reactor_state().subs() == Seq::<(u64, crate::poll::Subscription)>::empty(),
    {
        Executor {
            jobs: Vec::new(),
            states: Vec::new(),
            tasks: TaskQueue::new(),
            finished: Vec::new(),
            reactor: Reactor::new(),
        }
    }

    /// Hands a computation to the executor.  The task enters the back of the
    /// ready queue; its id names it from here on and is what its wakers
    /// carry.
    pub fn spawn(&mut self, job: T) -> (id: usize)
        requires
            old(self).wf(),
            !job.finished(),
        ensures
            final(self).wf(),
            id == old(self).task_count(),
            final(self).task_count() == old(self).task_count() + 1,
            final(self).states() == old(self).states().push(TaskState::Queued),
            final(self).jobs_view() == old(self).jobs_view().push(Some(job)),
            final(self).queue_ids() == old(self).queue_ids().push(id),
            final(self).finished_ids() == old(self).finished_ids(),
            final(self).reactor_state() == old(self).reactor_state(),
    {
        let id = self.states.len();
        self.jobs.push(Some(job));
        self.states.push(TaskState::Queued);
        self.tasks.push(id);
        proof {
            assert forall|id2: usize|
                id2 < self.states().len() && (#[trigger] self.states()[id2 as int])
                    is Queued implies self.queue_ids().contains(id2) by {
                if id2 < id {
                    assert(old(self).queue_ids().contains(id2));
                    let j = choose|j: int|
                        0 <= j < old(self).queue_ids().len() && #[trigger] old(self).queue_ids()[j]
                            == id2;
                    assert(self.queue_ids()[j] == id2);
                } else {
                    assert(self.queue_ids()[self.queue_ids().len() - 1] == id2);
                }
            }
        }
        id
    }

    /// Fires a waker: re-queues the parked task it names.  Waking a task
    /// that is already queued, already done, or unknown does nothing, so a
    /// waker may fire any number of times.
    pub fn wake(&mut self, id: usize)
        requires
            old(self).wf(),
        ensures
            final(self).wf(),
            final(self).task_count() == old(self).task_count(),
            final(self).jobs_view() == old(self).jobs_view(),
            final(self).finished_ids() == old(self).finished_ids(),
            final(self).reactor_state() == old(self).reactor_state(),
            id < old(self).task_count() && old(self).states()[id as int] is Parked ==> (final(self).states() == old(self).states().update(id as int, TaskState::Queued)
                && final(self).queue_ids() == old(self).queue_ids().push(id)),
            !(id < old(self).task_count() && old(self).states()[id as int] is Parked) ==> (final(self).states() == old(self).states()
                && final(self).queue_ids() == old(self).queue_ids()),
    {
        if id < self.states.len() {
            let parked = match self.states[id] {
                TaskState::Parked => true,
                _ => false,
            };
            if parked {
                let slot = vec_index_mut(&mut self.states, id);
                *slot = TaskState::Queued;
                self.tasks.push(id);
                proof {
                    assert(!old(self).queue_ids().contains(id)) by {
                        if old(self).queue_ids().contains(id) {
                            let j = choose|j: int|
                                0 <= j < old(self).queue_ids().len() && old(self).queue_ids()[j]
                                    == id;
                            assert(old(self).states()[id as int] is Queued);
                        }
                    }
                    assert forall|id2: usize|
                        id2 < self.states().len() && (#[trigger] self.states()[id2 as int])
                            is Queued implies self.queue_ids().contains(id2) by {
                        if id2 == id {
                            assert(self.queue_ids()[self.queue_ids().len() - 1] == id);
                        } else {
                            assert(old(self).states()[id2 as int] is Queued);
                            let j = choose|j: int|
                                0 <= j < old(self).queue_ids().len() && #[trigger] old(
                                    self,
                                ).queue_ids()[j] == id2;
                            assert(self.queue_ids()[j] == id2);
                        }
                    }
                }
            }
        }
    }

    /// Fires a batch of wakers in order.  Each parked task among them is
    /// re-queued once; every other task keeps its state; nothing else
    /// changes.
    pub fn wake_all(&mut self, ids: &Vec<usize>)
        requires
            old(self).wf(),
        ensures
            final(self).wf(),
            final(self).task_count() == old(self).task_count(),
            final(self).jobs_view() == old(self).jobs_view(),
            final(self).finished_ids() == old(self).finished_ids(),
            final(self).reactor_state() == old(self).reactor_state(),
            wake_all_effect(old(self).states(), final(self).states(), ids@),
    {
        let mut i: usize = 0;
        while i < ids.len()
            invariant
                i <= ids@.len(),
                old(self).wf(),
                self.wf(),
                self.task_count() == old(self).task_count(),
                self.jobs_view() == old(self).jobs_view(),
                self.finished_ids() == old(self).finished_ids(),
                self.reactor_state() == old(self).reactor_state(),
                forall|id: usize|
                    id < old(self).task_count() ==> self.states()[id as int] == (if ids@.take(
                        i as int,
                    ).contains(id) && old(self).states()[id as int] is Parked {
                        TaskState::Queued
                    } else {
                        old(self).states()[id as int]
                    }),
            decreases ids@.len() - i,
        {
            let id = ids[i];
            let ghost pre = *self;
            self.wake(id);
            proof {
                assert(ids@.take(i + 1 as int) =~= ids@.take(i as int).push(id));
                assert(ids@.take(i + 1 as int)[i as int] == id);
                assert(ids@.take(i + 1 as int).contains(id));
                assert forall|id2: usize| id2 < old(self).task_count() implies self.states()[id2 as int]
                    == (if ids@.take(i + 1 as int).contains(id2) && old(
                    self,
                ).states()[id2 as int] is Parked {
                    TaskState::Queued
                } else {
                    old(self).states()[id2 as int]
                }) by {
                    assert(pre.states()[id2 as int] == (if ids@.take(i as int).contains(id2)
                        && old(self).states()[id2 as int] is Parked {
                        TaskState::Queued
                    } else {
                        old(self).states()[id2 as int]
                    }));
                    if ids@.take(i + 1 as int).contains(id2) {
                        let j = choose|j: int|
                            0 <= j < ids@.take(i + 1 as int).len() && #[trigger] ids@.take(
                                i + 1 as int,
                            )[j] == id2;
                        if j < i as int {
                            assert(ids@.take(i as int)[j] == id2);
                            assert(ids@.take(i as int).contains(id2));
                        } else {
                            assert(ids@.take(i + 1 as int)[j] == id);
                            assert(id2 == id);
                        }
                    } else {
                        assert(!ids@.take(i as int).contains(id2)) by {
                            if ids@.take(i as int).contains(id2) {
                                let j = choose|j: int|
                                    0 <= j < ids@.take(i as int).len() && #[trigger] ids@.take(
                                        i as int,
                                    )[j] == id2;
                                assert(ids@.take(i + 1 as int)[j] == id2);
                                assert(ids@.take(i + 1 as int).contains(id2));
                            }
                        }
                        assert(id2 != id);
                    }
                }
            }
            i = i + 1;
        }
        proof {
            assert(ids@.take(ids@.len() as int) =~= ids@);
        }
    }

    /// Pops and advances every task on the ready queue, in order, until the
    /// queue is empty.  A task that completes is marked done and logged; one
    /// that suspends stays parked until a waker re-queues it.  Tasks that
    /// were not on the queue are untouched.  When every queued task
    /// completes on its first advance, all of them finish before this
    /// returns, in queue order.
    pub fn drain(&mut self)
        requires
            old(self).wf(),
        ensures
            final(self).wf(),
            final(self).queue_ids().len() == 0,
            final(self).task_count() == old(self).task_count(),
            forall|id: usize|
                id < old(self).task_count() && !old(self).queue_ids().contains(id) ==> old(
                    self,
                ).same_task(*final(self), id as int),
            old(self).finished_ids().is_prefix_of(final(self).finished_ids()),
            old(self).all_queued_immediate() ==> (final(self).finished_ids() == old(
                self,
            ).finished_ids() + old(self).queue_ids() && (forall|j: int|
                0 <= j < old(self).queue_ids().len() ==> final(self).states()[(#[trigger] old(
                    self,
                ).queue_ids()[j]) as int] is Done)),
    {
        let ghost q0 = self.queue_ids();
        let ghost mut k: int = 0;
        proof {
            assert(q0.skip(0) =~= q0);
            assert(q0.take(0) =~= Seq::<usize>::empty());
            assert(self.finished_ids() =~= old(self).finished_ids() + q0.take(0));
        }
        while self.tasks.len() > 0
            invariant
                old(self).wf(),
                self.wf(),
                0 <= k <= q0.len(),
                q0 == old(self).queue_ids(),
                self.queue_ids() == q0.skip(k),
                self.task_count() == old(self).task_count(),
                forall|id: usize|
                    id < old(self).task_count() && !q0.contains(id) ==> old(self).same_task(
                        *self,
                        id as int,
                    ),
                forall|j: int| k <= j < q0.len() ==> old(self).same_task(*self, q0[j] as int),
                old(self).finished_ids().is_prefix_of(self.finished_ids()),
                old(self).all_queued_immediate() ==> (self.finished_ids() == old(
                    self,
                ).finished_ids() + q0.take(k) && (forall|j: int|
                    0 <= j < k ==> self.states()[(#[trigger] q0[j]) as int] is Done)),
            decreases q0.len() - k,
        {
            let ghost pre = *self;
            let id = self.tasks.pop().unwrap();
            proof {
                assert(id == q0[k]);
                assert(self.queue_ids() =~= q0.skip(k + 1));
                assert(pre.states()[id as int] is Queued);
                assert(!(pre.states()[id as int] is Done));
                assert(!pre.jobs_view()[id as int].unwrap().finished());
            }
            let slot = vec_index_mut(&mut self.states, id);
            *slot = TaskState::Parked;
            let mut job_opt: Option<T> = None;
            core::mem::swap(vec_index_mut(&mut self.jobs, id), &mut job_opt);
            let mut job = job_opt.unwrap();
            let s = job.poll_task(&mut self.reactor, id);
            *vec_index_mut(&mut self.jobs, id) = Some(job);
            match s {
                Step::Ready => {
                    *vec_index_mut(&mut self.states, id) = TaskState::Done;
                    self.finished.push(id);
                },
                Step::Pending => {},
            }
            proof {
                // the popped id appears nowhere else in the queue
                assert forall|j: int| k < j < q0.len() implies q0[j] != id by {
                    assert(pre.queue_ids()[0] == id);
                    assert(pre.queue_ids()[j - k] == q0[j]);
                }
                // well-formedness of the remaining queue and arena
                assert forall|id2: usize|
                    id2 < self.states().len() && (#[trigger] self.states()[id2 as int])
                        is Queued implies self.queue_ids().contains(id2) by {
                    assert(id2 != id);
                    assert(pre.states()[id2 as int] is Queued);
                    let j = choose|j: int|
                        0 <= j < pre.queue_ids().len() && #[trigger] pre.queue_ids()[j] == id2;
                    assert(j != 0);
                    assert(self.queue_ids()[j - 1] == id2);
                }
                assert forall|j: int|
                    0 <= j < self.finished_ids().len() implies (#[trigger] self.finished_ids()[j])
                        < self.states().len() && self.states()[self.finished_ids()[j] as int]
                        is Done by {
                    if j < pre.finished_ids().len() {
                        assert(pre.finished_ids()[j] != id);
                    }
                }
                // progress bookkeeping
                k = k + 1;
                assert(old(self).finished_ids().is_prefix_of(self.finished_ids())) by {
                    assert(old(self).finished_ids().is_prefix_of(pre.finished_ids()));
                    if s is Ready {
                        assert(self.finished_ids() == pre.finished_ids().push(id));
                        assert(self.finished_ids().take(old(self).finished_ids().len() as int)
                            =~= pre.finished_ids().take(old(self).finished_ids().len() as int));
                    }
                }
                if old(self).all_queued_immediate() {
                    assert(pre.jobs_view()[q0[k - 1] as int].unwrap().immediate()) by {
                        assert(old(self).jobs_view()[(q0[k - 1]) as int]
                            == pre.jobs_view()[q0[k - 1] as int]);
                        assert(old(self).queue_ids()[k - 1] == q0[k - 1]);
                    }
                    assert(s is Ready);
                    assert(self.finished_ids() =~= old(self).finished_ids() + q0.take(k)) by {
                        assert(q0.take(k) =~= q0.take(k - 1).push(id));
                    }
                    assert forall|j: int| 0 <= j < k implies self.states()[(#[trigger] q0[j]) as int]
                        is Done by {
                        if j < k - 1 {
                            assert(pre.states()[q0[j] as int] is Done);
                            assert(q0[j] != id);
                        }
                    }
                }
            }
        }
        proof {
            assert(k == q0.len());
            assert(q0.take(k) =~= q0);
        }
    }

    /// Blocks on the reactor until readiness or timeout is reported, then
    /// re-queues every task whose waker fired, and hands back the fired
    /// wakers in firing order.  Every waker fired was stored in the wake
    /// table when the wait began: a parked task that no stored waker points
    /// at cannot be woken here, however long the wait (see
    /// `parked_task_stays_parked`).  On a reactor failure nothing is woken
    /// and every task keeps its state.
    pub fn wait_and_wake<M: HostPoll>(&mut self, mux: &mut M) -> (r: Result<Vec<usize>, RtError>)
        requires
            old(self).wf(),
        ensures
            final(self).wf(),
            final(self).task_count() == old(self).task_count(),
            final(self).jobs_view() == old(self).jobs_view(),
            final(self).finished_ids() == old(self).finished_ids(),
            final(self).reactor_state().subs() == old(self).reactor_state().subs(),
            r matches Ok(w) ==> wake_transition(*old(self), *final(self), w@),
            r matches Err(e) ==> final(self).states() == old(self).states(),
    {
        let ghost r0 = self.reactor;
        let res = self.reactor.wait(mux);
        match res {
            Err(e) => Err(e),
            Ok(woken) => {
                proof {
                    assert(r0 == old(self).reactor_state());
                    let evs = choose|evs: Seq<crate::poll::Event>|
                        wait_outcome(r0, self.reactor.wakers(), woken@, evs);
                    crate::runtime::reactor::lemma_dispatch_woken(
                        r0.wakers(),
                        evs,
                        self.reactor.wakers(),
                        woken@,
                    );
                    assert forall|x: usize| #[trigger] woken@.contains(x) implies waker_points_to(
                        r0.wakers(),
                        x,
                    ) by {
                        let k = choose|k: u64| lookup(r0.wakers(), k) == Some(x);
                        lemma_lookup_some_member(r0.wakers(), k);
                        let w = r0.wakers();
                        let j = choose|j: int| 0 <= j < w.len() && #[trigger] w[j] == (k, x);
                        assert((#[trigger] w[j]).1 == x);
                    }
                }
                let ghost mid = *self;
                self.wake_all(&woken);
                proof {
                    assert(mid.states() == old(self).states());
                    assert(wake_all_effect(mid.states(), self.states(), woken@));
                    assert(wake_transition(*old(self), *self, woken@));
                }
                Ok(woken)
            },
        }
    }

    /// Drives the root computation to completion: advances it, drains the
    /// ready queue, and—only when both are stalled—blocks on the reactor,
    /// up to `max_waits` times.  `Ok(Step::Ready)` reports that the root
    /// finished; `Ok(Step::Pending)` that the wait budget ran out with the
    /// root still suspended (a caller wanting to wait without bound calls
    /// again); a reactor failure is fatal and propagates unchanged.  A root
    /// that never suspends completes without the reactor ever being
    /// consulted.
    pub fn block_on<M: HostPoll>(&mut self, root: &mut T, mux: &mut M, max_waits: usize) -> (r:
        Result<Step, RtError>)
        requires
            old(self).wf(),
            !old(root).finished(),
        ensures
            final(self).wf(),
            r matches Ok(s) ==> ((s is Ready) == final(root).finished()),
            r is Err ==> !final(root).finished(),
            old(root).immediate() ==> (r matches Ok(s) && s is Ready),
    {
        match root.poll_task(&mut self.reactor, usize::MAX) {
            Step::Ready => {
                return Ok(Step::Ready);
            },
            Step::Pending => {},
        }
        let mut waits: usize = 0;
        while waits < max_waits
            invariant
                self.wf(),
                !root.finished(),
                !old(root).immediate(),
                waits <= max_waits,
            decreases max_waits - waits,
        {
            self.drain();
            match root.poll_task(&mut self.reactor, usize::MAX) {
                Step::Ready => {
                    return Ok(Step::Ready);
                },
                Step::Pending => {},
            }
            let waited = self.wait_and_wake(mux);
            match waited {
                Ok(_) => {},
                Err(e) => {
                    return Err(e);
                },
            }
            waits = waits + 1;
        }
        self.drain();
        Ok(Step::Pending)
    }

    /// Where task `id` stands, or nothing for an id never returned by
    /// `spawn`.
    pub fn task_state(&self, id: usize) -> (s: Option<TaskState>)
        ensures
            s == if id < self.task_count() {
                Some(self.states()[id as int])
            } else {
                None::<TaskState>
            },
    {
        if id < self.states.len() {
            Some(self.states[id])
        } else {
            None
        }
    }

    /// The ids of completed tasks, in the order they completed.
    pub fn finished_order(&self) -> (r: &Vec<usize>)
        ensures
            r@ == self.finished_ids(),
    {
        &self.finished
    }

    /// How many tasks have been spawned.
    pub fn num_tasks(&self) -> (n: usize)
        ensures
            n == self.task_count(),
    {
        self.states.len()
    }

    /// A task's computation, for inspection once it is done.
    pub fn job(&self, id: usize) -> (j: &T)
        requires
            self.wf(),
            id < self.task_count(),
        ensures
            *j == self.jobs_view()[id as int].unwrap(),
    {
        match &self.jobs[id] {
            Some(j) => j,
            None => vstd::pervasive::unreached(),
        }
    }
}

/// What one reactor turn does to the arena: every fired waker was stored in
/// the wake table when the wait began, and each task's state is unchanged
/// unless it was parked and its waker fired, in which case it is queued.
pub open spec fn wake_transition<T: Pollable>(
    e0: Executor<T>,
    e1: Executor<T>,
    w: Seq<usize>,
) -> bool {
    &&& forall|x: usize| #[trigger]
        w.contains(x) ==> waker_points_to(e0.reactor_state().wakers(), x)
    &&& wake_all_effect(e0.states(), e1.states(), w)
}

/// A task parked on would-block stays parked until its own readiness is
/// delivered: when a wait fires only wakers that the wake table held, a
/// parked task that no stored waker pointed at is still parked afterwards.
pub proof fn parked_task_stays_parked<T: Pollable>(
    e0: Executor<T>,
    e1: Executor<T>,
    w: Seq<usize>,
    id: usize,
)
    requires
        id < e0.task_count(),
        e0.states()[id as int] is Parked,
        !waker_points_to(e0.reactor_state().wakers(), id),
        wake_transition(e0, e1, w),
    ensures
        e1.states()[id as int] is Parked,
{
    assert(!w.contains(id));
    assert(e1.states()[id as int] == e0.states()[id as int]);
}

} // verus!
