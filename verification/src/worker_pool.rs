//! A fixed set of workers that share one queue of jobs and one pool of
//! connections.
//!
//! The state of the whole set is one value, `PoolState`, and everything that
//! can happen to it is a function from state to state. `WorkerPool` holds that
//! state in memory; the thread of worker `w` asks it what to do next and does
//! the waiting, the store I/O and the engine run itself.

use crate::failure::FailureKind;
use crate::pool::{
    after_acquire, after_return, checkout_of, holds, lemma_acquire, lent, lent_only, wait_left,
    wait_left_after, Checkout, Connection, ConnectionPool, Slot,
};
use crate::tally::{lemma_tally_bound, lemma_tally_none, lemma_tally_update, tally};
use crate::worker::{GraphQLExecutor, PendingResult, Phase, QueuedJob};
use std::collections::VecDeque;
use vstd::prelude::*;

verus! {

/// What a worker that asked for its next job is told.
#[derive(Debug, PartialEq)]
pub enum Take {
    /// This job is the worker's; it now needs a connection.
    Job(QueuedJob),
    /// Nothing is queued: wait for a submission or for shutdown.
    Wait,
    /// Nothing is queued and nothing will be: leave the loop.
    Exit,
}

/// What a worker is told that has waited for a connection.
#[derive(Clone, Copy, Debug, PartialEq, Eq, Structural)]
pub enum Patience {
    /// The wait goes on, for at most so many milliseconds.
    Left(u64),
    /// The wait has run out: the worker gave up the job of this handle.
    Spent(PendingResult),
    /// The worker does not wait for a connection.
    NotWaiting,
}

/// The state of a set of workers with its queue and its connections.
pub struct PoolState {
    /// The workers, by number.
    pub workers: Seq<GraphQLExecutor>,
    /// The jobs that no worker has taken yet, oldest first.
    pub queue: Seq<QueuedJob>,
    /// The slots of the connection pool.
    pub slots: Seq<Slot>,
    /// False once shutdown was signalled.
    pub open: bool,
}

/// What a worker counts for among the engine runs: one where the engine
/// runs on its job, and nothing otherwise.
pub open spec fn running_only() -> spec_fn(GraphQLExecutor) -> nat {
    |worker: GraphQLExecutor|
        if worker.phase is Executing {
            1nat
        } else {
            0nat
        }
}

/// The number of workers on whose job the engine runs.
pub open spec fn executing(workers: Seq<GraphQLExecutor>) -> nat {
    tally(workers, running_only())
}

/// The state that a hand-back leaves a slot in.
pub open spec fn left_as(keep: bool) -> Slot {
    if keep {
        Slot::Idle
    } else {
        Slot::Vacant
    }
}

impl PoolState {
    /// The state right after start: `workers` idle workers, nothing queued.
    pub open spec fn started(workers: nat, slots: Seq<Slot>) -> PoolState {
        PoolState {
            workers: Seq::new(workers, |w: int| GraphQLExecutor { phase: Phase::Idle }),
            queue: Seq::empty(),
            slots,
            open: true,
        }
    }

    /// True when the set has a worker of number `w`.
    pub open spec fn has_worker(self, w: int) -> bool {
        0 <= w < self.workers.len()
    }

    /// What holds of every state that the set can be in: a worker on whose job
    /// the engine runs holds a connection that is checked out, no two hold
    /// the same, and a worker has only left where shutdown was signalled and
    /// the queue was drained.
    pub open spec fn wf(self) -> bool {
        &&& self.slots.len() <= usize::MAX
        &&& forall|w: int|
            0 <= w < self.workers.len() ==> (#[trigger] self.workers[w].connection() matches Some(
                conn,
            ) ==> holds(self.slots, conn))
        &&& forall|a: int, b: int|
            #![trigger self.workers[a], self.workers[b]]
            0 <= a < b < self.workers.len() && self.workers[a].connection() is Some
                ==> self.workers[a].connection() != self.workers[b].connection()
        &&& executing(self.workers) <= lent(self.slots)
        &&& forall|w: int|
            0 <= w < self.workers.len() && (#[trigger] self.workers[w]).phase is Stopped
                ==> !self.open && self.queue.len() == 0
    }

    /// True when shutdown was signalled, the queue is drained and every
    /// worker has left.
    pub open spec fn stopped(self) -> bool {
        &&& !self.open
        &&& self.queue.len() == 0
        &&& forall|w: int| 0 <= w < self.workers.len() ==> (#[trigger] self.workers[w]).phase is Stopped
    }

    /// The number of connections that are checked out and in no worker's
    /// hand: nobody is left to hand them back.
    pub open spec fn stray(self) -> int {
        lent(self.slots) - executing(self.workers)
    }

    /// The state after `job` was offered: it joins the end of the queue, or,
    /// once shutdown was signalled, is refused.
    pub open spec fn submit(self, job: QueuedJob) -> PoolState {
        if self.open {
            PoolState {
                workers: self.workers,
                queue: self.queue.push(job),
                slots: self.slots,
                open: self.open,
            }
        } else {
            self
        }
    }

    /// The state after shutdown was signalled.
    pub open spec fn shutdown(self) -> PoolState {
        PoolState { workers: self.workers, queue: self.queue, slots: self.slots, open: false }
    }

    /// The state after worker `w` asked for its next job: an idle worker gets
    /// the oldest job; where none is queued it leaves once shutdown was
    /// signalled, and waits otherwise.
    pub open spec fn take(self, w: int) -> PoolState {
        if self.has_worker(w) && self.workers[w].phase is Idle {
            if self.queue.len() > 0 {
                PoolState {
                    workers: self.workers.update(w, self.workers[w].assigned(self.queue[0].pending)),
                    queue: self.queue.drop_first(),
                    slots: self.slots,
                    open: self.open,
                }
            } else if !self.open {
                PoolState {
                    workers: self.workers.update(w, self.workers[w].retired()),
                    queue: self.queue,
                    slots: self.slots,
                    open: self.open,
                }
            } else {
                self
            }
        } else {
            self
        }
    }

    /// What worker `w` is told when it asks for its next job; `None` where
    /// there is no such worker or it has a job in hand.
    pub open spec fn taken(self, w: int) -> Option<Take> {
        if !self.has_worker(w) {
            None
        } else {
            match self.workers[w].phase {
                Phase::Idle => Some(
                    if self.queue.len() > 0 {
                        Take::Job(self.queue[0])
                    } else if self.open {
                        Take::Wait
                    } else {
                        Take::Exit
                    },
                ),
                Phase::Stopped => Some(Take::Exit),
                _ => None,
            }
        }
    }

    /// The state after worker `w` asked for a connection: a waiting worker
    /// gets what the connection pool lends, and waits on where it lends none.
    pub open spec fn acquire(self, w: int) -> PoolState {
        if self.has_worker(w) && self.workers[w].phase is Waiting {
            match checkout_of(self.slots) {
                Checkout::Ready(conn) => PoolState {
                    workers: self.workers.update(w, self.workers[w].attached(conn)),
                    queue: self.queue,
                    slots: after_acquire(self.slots),
                    open: self.open,
                },
                Checkout::Fresh(conn) => PoolState {
                    workers: self.workers.update(w, self.workers[w].attached(conn)),
                    queue: self.queue,
                    slots: after_acquire(self.slots),
                    open: self.open,
                },
                Checkout::Exhausted => self,
            }
        } else {
            self
        }
    }

    /// What worker `w` is told when it asks for a connection; `None` where
    /// there is no such worker or it does not wait for one.
    pub open spec fn acquired(self, w: int) -> Option<Checkout> {
        if self.has_worker(w) && self.workers[w].phase is Waiting {
            Some(checkout_of(self.slots))
        } else {
            None
        }
    }

    /// The state after the engine run of worker `w` ended: its connection
    /// went back, as an idle session where `keep` holds and as a vacant slot
    /// otherwise, and the worker is idle.
    pub open spec fn finish(self, w: int, keep: bool) -> PoolState {
        if self.has_worker(w) {
            match self.workers[w].phase {
                Phase::Executing(_, conn) => PoolState {
                    workers: self.workers.update(w, self.workers[w].released()),
                    queue: self.queue,
                    slots: after_return(self.slots, conn, left_as(keep)),
                    open: self.open,
                },
                _ => self,
            }
        } else {
            self
        }
    }

    /// The handle of the job whose engine run ends when worker `w` finishes;
    /// `None` where there is no such worker or no engine runs for it.
    pub open spec fn finished(self, w: int) -> Option<PendingResult> {
        if self.has_worker(w) && self.workers[w].phase is Executing {
            self.workers[w].holding()
        } else {
            None
        }
    }

    /// The state after worker `w` gave up waiting for a connection: the
    /// worker is idle.
    pub open spec fn abandon(self, w: int) -> PoolState {
        if self.has_worker(w) && self.workers[w].phase is Waiting {
            PoolState {
                workers: self.workers.update(w, self.workers[w].released()),
                queue: self.queue,
                slots: self.slots,
                open: self.open,
            }
        } else {
            self
        }
    }

    /// The handle of the job that is dropped when worker `w` gives up;
    /// `None` where there is no such worker or it does not wait.
    pub open spec fn abandoned(self, w: int) -> Option<PendingResult> {
        if self.has_worker(w) && self.workers[w].phase is Waiting {
            self.workers[w].holding()
        } else {
            None
        }
    }

    /// The state after worker `w` has waited `waited` milliseconds for a
    /// connection: it gives up once the wait has run out, and nothing
    /// changes before that.
    pub open spec fn wait_or_abandon(self, w: int, waited: u64) -> PoolState {
        if wait_left_after(waited) == 0 {
            self.abandon(w)
        } else {
            self
        }
    }

    /// What worker `w` is told after it has waited `waited` milliseconds for
    /// a connection.
    pub open spec fn patience(self, w: int, waited: u64) -> Patience {
        match self.abandoned(w) {
            None => Patience::NotWaiting,
            Some(pending) => if wait_left_after(waited) == 0 {
                Patience::Spent(pending)
            } else {
                Patience::Left(wait_left_after(waited))
            },
        }
    }
}

/// One thing that can happen to a set of workers.
pub enum PoolEvent {
    /// A job is offered.
    Submit(QueuedJob),
    /// Shutdown is signalled.
    Shutdown,
    /// A worker asks for its next job.
    Take(int),
    /// A worker asks for a connection.
    Acquire(int),
    /// The engine run of a worker ends; the flag says whether the session is kept.
    Finish(int, bool),
    /// A worker gives up waiting for a connection.
    Abandon(int),
}

impl PoolState {
    /// The state after one event.
    pub open spec fn after(self, event: PoolEvent) -> PoolState {
        match event {
            PoolEvent::Submit(job) => self.submit(job),
            PoolEvent::Shutdown => self.shutdown(),
            PoolEvent::Take(w) => self.take(w),
            PoolEvent::Acquire(w) => self.acquire(w),
            PoolEvent::Finish(w, keep) => self.finish(w, keep),
            PoolEvent::Abandon(w) => self.abandon(w),
        }
    }
}

/// The steps that a worker still owes to the job in its hand: two while it
/// waits for a connection, one while the engine runs.
pub open spec fn steps_owed(worker: GraphQLExecutor) -> nat {
    match worker.phase {
        Phase::Waiting(_) => 2,
        Phase::Executing(_, _) => 1,
        _ => 0,
    }
}

/// What a worker counts for among the steps owed: the steps it owes.
pub open spec fn by_steps_owed() -> spec_fn(GraphQLExecutor) -> nat {
    |worker: GraphQLExecutor| steps_owed(worker)
}

/// The steps that the workers still owe to the jobs in their hands.
pub open spec fn in_hand(workers: Seq<GraphQLExecutor>) -> nat {
    tally(workers, by_steps_owed())
}

/// The steps that the workers have to make until no job is left: three for
/// each job in the queue, and what they owe to the jobs in their hands.
pub open spec fn work_left(s: PoolState) -> nat {
    3 * s.queue.len() + in_hand(s.workers)
}

/// The state right after start is well formed.
pub proof fn lemma_started_wf(workers: nat, slots: Seq<Slot>)
    requires
        slots.len() <= usize::MAX,
    ensures
        PoolState::started(workers, slots).wf(),
{
    lemma_tally_none(PoolState::started(workers, slots).workers, running_only());
}

/// Offering a job keeps the state well formed.
pub proof fn lemma_submit_wf(s: PoolState, job: QueuedJob)
    requires
        s.wf(),
    ensures
        s.submit(job).wf(),
        s.submit(job).stray() == s.stray(),
{
}

/// Signalling shutdown keeps the state well formed.
pub proof fn lemma_shutdown_wf(s: PoolState)
    requires
        s.wf(),
    ensures
        s.shutdown().wf(),
        s.shutdown().stray() == s.stray(),
{
}

/// A step that changes worker `w` only keeps the state well formed, and
/// lets no connection stray, where four things hold of it. The connection
/// that the worker holds after the step is checked out, and was the worker's
/// own or nobody's before. Every connection that was checked out and is not
/// the worker's still is. As many more connections are checked out as more
/// engines run. And the worker has only left where shutdown was signalled
/// and nothing is queued.
proof fn lemma_one_worker_step(s: PoolState, t: PoolState, w: int)
    requires
        s.wf(),
        s.has_worker(w),
        t.workers == s.workers.update(w, t.workers[w]),
        t.open == s.open,
        t.queue.len() <= s.queue.len(),
        t.slots.len() == s.slots.len(),
        t.workers[w].connection() matches Some(conn) ==> holds(t.slots, conn) && (
        s.workers[w].connection() == Some(conn) || !holds(s.slots, conn)),
        forall|i: int|
            0 <= i < s.slots.len() && (#[trigger] s.slots[i]) == Slot::Lent
                && s.workers[w].connection() != Some(Connection { slot: i as usize })
                ==> t.slots[i] == Slot::Lent,
        lent(t.slots) - lent(s.slots) == (if t.workers[w].phase is Executing {
            1int
        } else {
            0int
        }) - (if s.workers[w].phase is Executing {
            1int
        } else {
            0int
        }),
        t.workers[w].phase is Stopped ==> !t.open && t.queue.len() == 0,
    ensures
        t.wf(),
        t.stray() == s.stray(),
{
    lemma_tally_update(s.workers, running_only(), w, t.workers[w]);
    assert forall|v: int| 0 <= v < t.workers.len() implies (
    #[trigger] t.workers[v].connection() matches Some(held) ==> holds(t.slots, held)) by {
        if v != w && s.workers[v].connection() is Some {
            let held = s.workers[v].connection()->0;
            assert(t.workers[v] == s.workers[v]);
            assert(holds(s.slots, held));
            if v < w {
                assert(s.workers[v].connection() != s.workers[w].connection());
            } else {
                assert(s.workers[w].connection() != s.workers[v].connection());
            }
            assert(s.slots[held.slot as int] == Slot::Lent);
        }
    }
    assert forall|a: int, b: int|
        #![trigger t.workers[a], t.workers[b]]
        0 <= a < b < t.workers.len() && t.workers[a].connection()
            is Some implies t.workers[a].connection() != t.workers[b].connection() by {
        if a != w {
            assert(t.workers[a] == s.workers[a]);
            assert(holds(s.slots, s.workers[a].connection()->0));
        }
        if b != w {
            assert(t.workers[b] == s.workers[b]);
            if s.workers[b].connection() is Some {
                assert(holds(s.slots, s.workers[b].connection()->0));
            }
        }
    }
    assert forall|v: int| 0 <= v < t.workers.len() && (#[trigger] t.workers[v]).phase
        is Stopped implies !t.open && t.queue.len() == 0 by {
        if v != w {
            assert(t.workers[v] == s.workers[v]);
        }
    }
}

/// A worker's asking for its next job keeps the state well formed.
pub proof fn lemma_take_wf(s: PoolState, w: int)
    requires
        s.wf(),
    ensures
        s.take(w).wf(),
        s.take(w).stray() == s.stray(),
{
    if s.take(w) != s {
        lemma_one_worker_step(s, s.take(w), w);
    }
}

/// A worker's asking for a connection keeps the state well formed.
pub proof fn lemma_acquire_wf(s: PoolState, w: int)
    requires
        s.wf(),
    ensures
        s.acquire(w).wf(),
        s.acquire(w).stray() == s.stray(),
{
    if s.acquire(w) != s {
        lemma_acquire(s.slots);
        lemma_one_worker_step(s, s.acquire(w), w);
    }
}

/// The end of a worker's engine run keeps the state well formed, and one
/// connection fewer is checked out after it.
pub proof fn lemma_finish_wf(s: PoolState, w: int, keep: bool)
    requires
        s.wf(),
    ensures
        s.finish(w, keep).wf(),
        s.finished(w) is Some ==> lent(s.finish(w, keep).slots) == lent(s.slots) - 1,
        s.finished(w) is Some ==> executing(s.finish(w, keep).workers) == executing(s.workers) - 1,
        s.finish(w, keep).stray() == s.stray(),
{
    if s.finished(w) is Some {
        let conn = s.workers[w].connection()->0;
        assert(s.workers[w].connection() == Some(conn));
        lemma_tally_update(s.slots, lent_only(), conn.slot as int, left_as(keep));
        lemma_one_worker_step(s, s.finish(w, keep), w);
    }
}

/// A worker's giving up its wait keeps the state well formed.
pub proof fn lemma_abandon_wf(s: PoolState, w: int)
    requires
        s.wf(),
    ensures
        s.abandon(w).wf(),
        s.abandon(w).stray() == s.stray(),
{
    if s.abandoned(w) is Some {
        lemma_one_worker_step(s, s.abandon(w), w);
    }
}

/// Every event keeps the state well formed, and changes neither the number
/// of workers nor the capacity.
pub proof fn lemma_after_wf(s: PoolState, event: PoolEvent)
    requires
        s.wf(),
    ensures
        s.after(event).wf(),
        s.after(event).workers.len() == s.workers.len(),
        s.after(event).slots.len() == s.slots.len(),
        s.after(event).stray() == s.stray(),
{
    match event {
        PoolEvent::Submit(job) => lemma_submit_wf(s, job),
        PoolEvent::Shutdown => lemma_shutdown_wf(s),
        PoolEvent::Take(w) => lemma_take_wf(s, w),
        PoolEvent::Acquire(w) => {
            lemma_acquire_wf(s, w);
            lemma_acquire(s.slots);
        },
        PoolEvent::Finish(w, keep) => lemma_finish_wf(s, w, keep),
        PoolEvent::Abandon(w) => lemma_abandon_wf(s, w),
    }
}

/// A fixed-size set of workers with its queue and its connection pool.
///
/// Every set that a program can hold is well formed: `start` makes it so,
/// every method keeps it so, and nothing else can reach its state.
pub struct WorkerPool {
    workers: Vec<GraphQLExecutor>,
    queue: VecDeque<QueuedJob>,
    connections: ConnectionPool,
    open: bool,
}

impl View for WorkerPool {
    type V = PoolState;

    closed spec fn view(&self) -> PoolState {
        PoolState {
            workers: self.workers@,
            queue: self.queue@,
            slots: self.connections@,
            open: self.open,
        }
    }
}

impl WorkerPool {
    /// A set of `worker_count` idle workers over `connections`, with an empty
    /// queue. The number of workers never changes afterwards. A connection
    /// that is checked out of `connections` already stays so: no worker holds
    /// it, and none will hand it back.
    pub fn start(worker_count: usize, connections: ConnectionPool) -> (pool: WorkerPool)
        ensures
            pool@ == PoolState::started(worker_count as nat, connections@),
            pool@.wf(),
    {
        let mut workers: Vec<GraphQLExecutor> = Vec::new();
        let mut made: usize = 0;
        while made < worker_count
            invariant
                made <= worker_count,
                workers@ == Seq::new(made as nat, |w: int| GraphQLExecutor { phase: Phase::Idle }),
            decreases worker_count - made,
        {
            workers.push(GraphQLExecutor::new());
            made = made + 1;
            assert(workers@ =~= Seq::new(
                made as nat,
                |w: int| GraphQLExecutor { phase: Phase::Idle },
            ));
        }
        proof {
            connections.lemma_capacity_fits();
            lemma_started_wf(worker_count as nat, connections@);
        }
        WorkerPool { workers, queue: VecDeque::new(), connections, open: true }
    }

    /// The number of workers.
    pub fn worker_count(&self) -> (count: usize)
        ensures
            count == self@.workers.len(),
    {
        self.workers.len()
    }

    /// The connection pool that the workers share.
    pub fn connections(&self) -> (connections: &ConnectionPool)
        ensures
            connections@ == self@.slots,
    {
        &self.connections
    }

    /// The number of jobs that no worker has taken yet.
    pub fn queued(&self) -> (count: usize)
        ensures
            count == self@.queue.len(),
    {
        self.queue.len()
    }

    /// True until shutdown is signalled.
    pub fn is_open(&self) -> (open: bool)
        ensures
            open == self@.open,
    {
        self.open
    }

    /// Where worker `w` stands, or `None` where there is no such worker.
    pub fn phase(&self, w: usize) -> (phase: Option<Phase>)
        ensures
            self@.has_worker(w as int) ==> phase == Some(self@.workers[w as int].phase),
            !self@.has_worker(w as int) ==> phase is None,
    {
        if w < self.workers.len() {
            Some(self.workers[w].phase)
        } else {
            None
        }
    }

    /// The number of workers on whose job the engine runs. It never exceeds
    /// the number of workers nor the capacity of the connection pool.
    pub fn executing_count(&self) -> (count: usize)
        requires
            self@.wf(),
        ensures
            count == executing(self@.workers),
            count <= self@.workers.len(),
            count <= self@.slots.len(),
    {
        let mut count: usize = 0;
        let mut w: usize = 0;
        while w < self.workers.len()
            invariant
                w <= self.workers@.len(),
                count == executing(self.workers@.take(w as int)),
                count <= w,
            decreases self.workers@.len() - w,
        {
            assert(self.workers@.take(w + 1).drop_last() =~= self.workers@.take(w as int));
            match self.workers[w].phase {
                Phase::Executing(_, _) => {
                    count = count + 1;
                },
                _ => {},
            }
            w = w + 1;
        }
        proof {
            assert(self.workers@.take(w as int) =~= self.workers@);
            lemma_tally_bound(self@.slots, lent_only());
        }
        count
    }

    /// Offers a job. While the set is open the job joins the end of the
    /// queue; once shutdown was signalled it is refused with
    /// `PoolShuttingDown` and nothing changes.
    pub fn submit(&mut self, job: QueuedJob) -> (accepted: Result<(), FailureKind>)
        requires
            old(self)@.wf(),
        ensures
            final(self)@ == old(self)@.submit(job),
            final(self)@.wf(),
            old(self)@.open ==> accepted == Ok::<(), FailureKind>(()),
            !old(self)@.open ==> accepted == Err::<(), FailureKind>(FailureKind::PoolShuttingDown),
    {
        if self.open {
            self.queue.push_back(job);
            Ok(())
        } else {
            Err(FailureKind::PoolShuttingDown)
        }
    }

    /// Signals shutdown: no job is accepted any more. Jobs that are queued or
    /// in hand are still worked off.
    pub fn shutdown(&mut self)
        requires
            old(self)@.wf(),
        ensures
            final(self)@ == old(self)@.shutdown(),
            final(self)@.wf(),
    {
        self.open = false;
    }

    /// True when shutdown was signalled, the queue is drained and every
    /// worker has left its loop.
    pub fn is_stopped(&self) -> (stopped: bool)
        ensures
            stopped == self@.stopped(),
    {
        if self.open || self.queue.len() > 0 {
            return false;
        }
        let mut w: usize = 0;
        while w < self.workers.len()
            invariant
                w <= self.workers@.len(),
                forall|v: int| 0 <= v < w ==> (#[trigger] self.workers@[v]).phase is Stopped,
            decreases self.workers@.len() - w,
        {
            match self.workers[w].phase {
                Phase::Stopped => {},
                _ => {
                    return false;
                },
            }
            w = w + 1;
        }
        true
    }

    /// Worker `w` asks for its next job. An idle worker is given the oldest
    /// queued job; where none is queued it is told to wait, or, once shutdown
    /// was signalled, to leave, and it then counts as stopped. `None`, and no
    /// change, where there is no worker `w` or it has a job in hand.
    pub fn take(&mut self, w: usize) -> (taken: Option<Take>)
        requires
            old(self)@.wf(),
        ensures
            taken == old(self)@.taken(w as int),
            final(self)@ == old(self)@.take(w as int),
            final(self)@.wf(),
    {
        proof {
            lemma_take_wf(self@, w as int);
        }
        if w >= self.workers.len() {
            return None;
        }
        let mut worker = self.workers[w];
        match worker.phase {
            Phase::Idle => {
                match self.queue.pop_front() {
                    Some(job) => {
                        worker.assign(job.pending);
                        self.workers.set(w, worker);
                        Some(Take::Job(job))
                    },
                    None => {
                        if self.open {
                            Some(Take::Wait)
                        } else {
                            worker.stop();
                            self.workers.set(w, worker);
                            Some(Take::Exit)
                        }
                    },
                }
            },
            Phase::Stopped => Some(Take::Exit),
            _ => None,
        }
    }

    /// Worker `w` asks for a connection. A waiting worker is given what the
    /// connection pool answers; with a connection its engine run begins, and
    /// on `Exhausted` it waits on. `None`, and no change, where there is no
    /// worker `w` or it does not wait for a connection.
    pub fn acquire(&mut self, w: usize) -> (checkout: Option<Checkout>)
        requires
            old(self)@.wf(),
        ensures
            checkout == old(self)@.acquired(w as int),
            final(self)@ == old(self)@.acquire(w as int),
            final(self)@.wf(),
    {
        proof {
            lemma_acquire_wf(self@, w as int);
        }
        if w >= self.workers.len() {
            return None;
        }
        let mut worker = self.workers[w];
        match worker.phase {
            Phase::Waiting(_) => {
                let checkout = self.connections.acquire();
                match checkout {
                    Checkout::Ready(conn) => {
                        worker.attach(conn);
                        self.workers.set(w, worker);
                    },
                    Checkout::Fresh(conn) => {
                        worker.attach(conn);
                        self.workers.set(w, worker);
                    },
                    Checkout::Exhausted => {},
                }
                Some(checkout)
            },
            _ => None,
        }
    }

    /// The engine run of worker `w` ended. Its connection goes back whatever
    /// the run ended in: to the available sessions where `keep` holds, and as
    /// a vacant slot otherwise. The worker is idle and the handle of its job
    /// is returned. `None`, and no change, where there is no worker `w` or no
    /// engine runs for it.
    pub fn finish(&mut self, w: usize, keep: bool) -> (ended: Option<PendingResult>)
        requires
            old(self)@.wf(),
        ensures
            ended == old(self)@.finished(w as int),
            final(self)@ == old(self)@.finish(w as int, keep),
            final(self)@.wf(),
            ended is Some ==> lent(final(self)@.slots) == lent(old(self)@.slots) - 1,
    {
        proof {
            lemma_finish_wf(self@, w as int, keep);
        }
        if w >= self.workers.len() {
            return None;
        }
        let mut worker = self.workers[w];
        match worker.finish() {
            Some((pending, conn)) => {
                assert(holds(self.connections@, conn));
                if keep {
                    self.connections.release(conn);
                } else {
                    self.connections.discard(conn);
                }
                self.workers.set(w, worker);
                Some(pending)
            },
            None => None,
        }
    }

    /// Worker `w` has waited `waited` milliseconds for a connection. While
    /// time is left it is told how long to wait on, and nothing changes. Once
    /// the wait has run out it gives up: the worker is idle and the handle of
    /// its job is returned. A worker that does not wait for a connection, or
    /// that does not exist, is told so, and nothing changes.
    pub fn wait_or_abandon(&mut self, w: usize, waited: u64) -> (patience: Patience)
        requires
            old(self)@.wf(),
        ensures
            patience == old(self)@.patience(w as int, waited),
            final(self)@ == old(self)@.wait_or_abandon(w as int, waited),
            final(self)@.wf(),
    {
        match self.phase(w) {
            Some(Phase::Waiting(pending)) => {
                let left = wait_left(waited);
                if left > 0 {
                    Patience::Left(left)
                } else {
                    self.abandon(w);
                    Patience::Spent(pending)
                }
            },
            _ => Patience::NotWaiting,
        }
    }

    /// Worker `w` gives up waiting for a connection. The worker is idle and
    /// the handle of its job is returned. `None`, and no change, where there
    /// is no worker `w` or it does not wait for a connection.
    fn abandon(&mut self, w: usize) -> (dropped: Option<PendingResult>)
        requires
            old(self)@.wf(),
        ensures
            dropped == old(self)@.abandoned(w as int),
            final(self)@ == old(self)@.abandon(w as int),
            final(self)@.wf(),
    {
        proof {
            lemma_abandon_wf(self@, w as int);
        }
        if w >= self.workers.len() {
            return None;
        }
        let mut worker = self.workers[w];
        match worker.give_up() {
            Some(pending) => {
                self.workers.set(w, worker);
                Some(pending)
            },
            None => None,
        }
    }
}

} // verus!
