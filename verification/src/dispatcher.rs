//! The seam between the front end and the workers.
//!
//! The dispatcher turns a request into a job with a pending result, hands the
//! job to the workers, and writes the result once the work on the job has
//! ended. The front end never waits inside the dispatcher: it gets its handle
//! at once and claims the result when it is told that the job is done.

use crate::failure::{FailureKind, JobResult};
use crate::pool::{wait_left_after, Checkout, ConnectionPool, Slot};
use crate::request::{GraphQLData, Outcome};
use crate::worker::{PendingResult, QueuedJob};
use crate::tally::lemma_tally_none;
use crate::worker_pool::{
    by_steps_owed, lemma_abandon_wf, lemma_acquire_wf, lemma_after_wf, lemma_finish_wf,
    lemma_shutdown_wf, lemma_started_wf, lemma_submit_wf, lemma_take_wf, work_left, Patience,
    PoolEvent, PoolState, Take, WorkerPool,
};
use std::collections::HashMap;
use vstd::prelude::*;

verus! {

broadcast use vstd::std_specs::hash::group_hash_axioms;

/// The state of one pending result: written once, and final from then on.
#[derive(Debug, PartialEq, Eq)]
pub enum Resolution {
    /// The work on the job has not ended.
    Pending,
    /// The work on the job ended in this result.
    Resolved(JobResult),
}

/// The state of a dispatcher: its workers, the results that were not claimed
/// yet, and the number of tickets it has handed out.
pub struct DispatchState {
    /// The workers with their queue and connections.
    pub pool: PoolState,
    /// The pending result of every job that was submitted and not claimed.
    pub results: Map<u64, Resolution>,
    /// The number of jobs submitted so far, which is the next ticket.
    pub issued: nat,
}

impl DispatchState {
    /// The state right after start.
    pub open spec fn started(workers: nat, slots: Seq<Slot>) -> DispatchState {
        DispatchState { pool: PoolState::started(workers, slots), results: Map::empty(), issued: 0 }
    }

    /// True while a submission is accepted: shutdown was not signalled and a
    /// ticket is left.
    pub open spec fn accepting(self) -> bool {
        self.pool.open && self.issued < u64::MAX
    }

    /// The handle that the next accepted submission gets.
    pub open spec fn next_handle(self) -> PendingResult {
        PendingResult { ticket: self.issued as u64 }
    }

    /// True when the job of `ticket` waits in the queue.
    pub open spec fn queued(self, ticket: u64) -> bool {
        exists|i: int|
            0 <= i < self.pool.queue.len() && (#[trigger] self.pool.queue[i]).pending.ticket
                == ticket
    }

    /// True when a worker has the job of `ticket` in hand.
    pub open spec fn held(self, ticket: u64) -> bool {
        exists|w: int|
            0 <= w < self.pool.workers.len() && (#[trigger] self.pool.workers[w]).holding() == Some(
                PendingResult { ticket },
            )
    }

    /// True when the result of `ticket` is still to be written.
    pub open spec fn pending(self, ticket: u64) -> bool {
        self.results.contains_key(ticket) && self.results[ticket] is Pending
    }

    /// True when the result of `ticket` was written and not claimed yet.
    pub open spec fn resolved(self, ticket: u64) -> bool {
        self.results.contains_key(ticket) && self.results[ticket] is Resolved
    }

    /// True when `ticket` was handed out and its result was claimed.
    pub open spec fn claimed(self, ticket: u64) -> bool {
        ticket < self.issued && !self.results.contains_key(ticket)
    }

    /// What holds of every state that a dispatcher can be in. The queue holds
    /// the youngest tickets in the order in which they were handed out, so
    /// every job in hand is older than every job in the queue. No two workers
    /// have the same job. A result is pending exactly while its job is in the
    /// queue or in a worker's hand, so that no job is lost and none is worked
    /// twice.
    pub open spec fn wf(self) -> bool {
        &&& self.pool.wf()
        &&& self.pool.queue.len() <= self.issued <= u64::MAX
        &&& forall|i: int|
            0 <= i < self.pool.queue.len() ==> (#[trigger] self.pool.queue[i]).pending.ticket
                == self.issued - self.pool.queue.len() + i
        &&& forall|i: int|
            0 <= i < self.pool.queue.len() ==> self.pending(
                (#[trigger] self.pool.queue[i]).pending.ticket,
            )
        &&& forall|w: int|
            0 <= w < self.pool.workers.len() ==> ((#[trigger] self.pool.workers[w]).holding()
                matches Some(pending) ==> self.pending(pending.ticket) && pending.ticket
                < self.issued - self.pool.queue.len())
        &&& forall|a: int, b: int|
            #![trigger self.pool.workers[a], self.pool.workers[b]]
            0 <= a < b < self.pool.workers.len() && self.pool.workers[a].holding() is Some
                ==> self.pool.workers[a].holding() != self.pool.workers[b].holding()
        &&& forall|t: u64| #[trigger] self.results.contains_key(t) ==> t < self.issued
        &&& forall|t: u64| #[trigger] self.pending(t) ==> self.queued(t) || self.held(t)
    }

    /// The state after `request` was submitted: while the dispatcher accepts,
    /// the request joins the queue under the next ticket and its result is
    /// pending; otherwise nothing changes.
    pub open spec fn submit(self, request: GraphQLData) -> DispatchState {
        if self.accepting() {
            DispatchState {
                pool: self.pool.submit(QueuedJob { request, pending: self.next_handle() }),
                results: self.results.insert(self.next_handle().ticket, Resolution::Pending),
                issued: self.issued + 1,
            }
        } else {
            self
        }
    }

    /// What a submission answers: the new handle, or that the dispatcher is
    /// shutting down.
    pub open spec fn submitted(self) -> Result<PendingResult, FailureKind> {
        if self.accepting() {
            Ok(self.next_handle())
        } else {
            Err(FailureKind::PoolShuttingDown)
        }
    }

    /// The state after shutdown was signalled.
    pub open spec fn shutdown(self) -> DispatchState {
        DispatchState { pool: self.pool.shutdown(), results: self.results, issued: self.issued }
    }

    /// The state after worker `w` asked for its next job.
    pub open spec fn take(self, w: int) -> DispatchState {
        DispatchState { pool: self.pool.take(w), results: self.results, issued: self.issued }
    }

    /// The state after worker `w` asked for a connection.
    pub open spec fn acquire(self, w: int) -> DispatchState {
        DispatchState { pool: self.pool.acquire(w), results: self.results, issued: self.issued }
    }

    /// The state after the work of worker `w` on its job ended in `outcome`:
    /// the connection went back, and the job's result is written.
    pub open spec fn complete(self, w: int, outcome: Outcome) -> DispatchState {
        match self.pool.finished(w) {
            Some(pending) => DispatchState {
                pool: self.pool.finish(w, outcome.keeps_session()),
                results: self.results.insert(pending.ticket, Resolution::Resolved(outcome.result())),
                issued: self.issued,
            },
            None => self,
        }
    }

    /// The state after worker `w` gave up waiting for a connection: its job
    /// failed for want of one.
    pub open spec fn abandon(self, w: int) -> DispatchState {
        match self.pool.abandoned(w) {
            Some(pending) => DispatchState {
                pool: self.pool.abandon(w),
                results: self.results.insert(
                    pending.ticket,
                    Resolution::Resolved(Err(FailureKind::PoolExhausted)),
                ),
                issued: self.issued,
            },
            None => self,
        }
    }

    /// The state after worker `w` has waited `waited` milliseconds for a
    /// connection: once the wait has run out it gives up and its job fails
    /// with `PoolExhausted`, and nothing changes before that.
    pub open spec fn wait_or_abandon(self, w: int, waited: u64) -> DispatchState {
        if wait_left_after(waited) == 0 {
            self.abandon(w)
        } else {
            self
        }
    }

    /// The state after the result of `handle` was asked for: a result that is
    /// written leaves the dispatcher with its reader.
    pub open spec fn claim(self, handle: PendingResult) -> DispatchState {
        if self.resolved(handle.ticket) {
            DispatchState {
                pool: self.pool,
                results: self.results.remove(handle.ticket),
                issued: self.issued,
            }
        } else {
            self
        }
    }

    /// What the reader of `handle` gets: the result where it is written, and
    /// nothing while it is pending or after it was claimed.
    pub open spec fn claimable(self, handle: PendingResult) -> Option<JobResult> {
        if self.resolved(handle.ticket) {
            Some(self.results[handle.ticket]->Resolved_0)
        } else {
            None
        }
    }
}

/// One thing that can happen to a dispatcher.
pub enum Event {
    /// The front end submits a request.
    Submit(GraphQLData),
    /// Shutdown is signalled.
    Shutdown,
    /// A worker asks for its next job.
    Take(int),
    /// A worker asks for a connection.
    Acquire(int),
    /// The work of a worker on its job ends.
    Complete(int, Outcome),
    /// A worker has waited so many milliseconds for a connection.
    Wait(int, u64),
    /// The front end asks for a result.
    Claim(PendingResult),
}

impl DispatchState {
    /// The state after one event.
    pub open spec fn after(self, event: Event) -> DispatchState {
        match event {
            Event::Submit(request) => self.submit(request),
            Event::Shutdown => self.shutdown(),
            Event::Take(w) => self.take(w),
            Event::Acquire(w) => self.acquire(w),
            Event::Complete(w, outcome) => self.complete(w, outcome),
            Event::Wait(w, waited) => self.wait_or_abandon(w, waited),
            Event::Claim(handle) => self.claim(handle),
        }
    }

    /// The state after a run of events, oldest first.
    pub open spec fn run(self, events: Seq<Event>) -> DispatchState
        decreases events.len(),
    {
        if events.len() == 0 {
            self
        } else {
            self.run(events.drop_last()).after(events.last())
        }
    }
}

/// The state right after start is well formed.
pub proof fn lemma_started_dispatch_wf(workers: nat, slots: Seq<Slot>)
    requires
        slots.len() <= usize::MAX,
    ensures
        DispatchState::started(workers, slots).wf(),
{
    lemma_started_wf(workers, slots);
}

/// The number of jobs that a step takes off the front of the queue.
spec fn skipped(took: bool) -> int {
    if took {
        1
    } else {
        0
    }
}

/// One step keeps the rules on tickets, where this holds of it. The step
/// changes the job in the hand of worker `w` at most: the worker keeps its
/// job or lets it go, or, where `took` holds, gets the oldest job of the
/// queue. The queue keeps its other jobs in their order, and what joins it
/// carries the tickets that follow, with results pending. A result stays
/// pending unless `w` let go of its job, and none becomes pending but those
/// of the jobs that joined.
proof fn lemma_step_framed(d: DispatchState, e: DispatchState, w: int, took: bool)
    requires
        d.wf(),
        e.pool.wf(),
        e.issued <= u64::MAX,
        e.pool.workers.len() == d.pool.workers.len(),
        forall|v: int|
            0 <= v < d.pool.workers.len() && v != w ==> (#[trigger] e.pool.workers[v]).holding()
                == d.pool.workers[v].holding(),
        took ==> d.pool.has_worker(w) && d.pool.queue.len() > 0 && d.pool.workers[w].holding()
            is None && e.pool.workers[w].holding() == Some(d.pool.queue[0].pending),
        !took && d.pool.has_worker(w) ==> e.pool.workers[w].holding() is None
            || e.pool.workers[w].holding() == d.pool.workers[w].holding(),
        e.pool.queue.len() >= d.pool.queue.len() - skipped(took),
        e.issued - e.pool.queue.len() == d.issued - d.pool.queue.len() + skipped(took),
        forall|i: int|
            skipped(took) <= i < d.pool.queue.len() ==> e.pool.queue[i - skipped(took)]
                == #[trigger] d.pool.queue[i],
        forall|j: int|
            d.pool.queue.len() - skipped(took) <= j < e.pool.queue.len() ==> (
            #[trigger] e.pool.queue[j]).pending.ticket == e.issued - e.pool.queue.len() + j
                && e.pending(e.pool.queue[j].pending.ticket),
        forall|t: u64| #[trigger] e.results.contains_key(t) ==> t < e.issued,
        forall|t: u64|
            #[trigger] d.pending(t) ==> e.pending(t) || (d.pool.has_worker(w)
                && d.pool.workers[w].holding() == Some(PendingResult { ticket: t })
                && e.pool.workers[w].holding() is None),
        forall|t: u64|
            #[trigger] e.pending(t) ==> t >= d.issued || (d.pending(t) && !(d.pool.has_worker(w)
                && d.pool.workers[w].holding() == Some(PendingResult { ticket: t })
                && e.pool.workers[w].holding() is None)),
    ensures
        e.wf(),
{
    let skip = skipped(took);
    let kept = d.pool.queue.len() - skip;
    assert forall|j: int| 0 <= j < e.pool.queue.len() implies (
    #[trigger] e.pool.queue[j]).pending.ticket == e.issued - e.pool.queue.len() + j && e.pending(
        e.pool.queue[j].pending.ticket,
    ) by {
        if j < kept {
            assert(e.pool.queue[j] == d.pool.queue[j + skip]);
            assert(d.pending(d.pool.queue[j + skip].pending.ticket));
        }
    }
    assert forall|v: int| 0 <= v < e.pool.workers.len() implies ((
    #[trigger] e.pool.workers[v]).holding() matches Some(pending) ==> e.pending(pending.ticket)
        && pending.ticket < e.issued - e.pool.queue.len()) by {
        if e.pool.workers[v].holding() is Some {
            if v == w && took {
                assert(d.pending(d.pool.queue[0].pending.ticket));
            } else {
                assert(d.pool.workers[v].holding() == e.pool.workers[v].holding());
                assert(d.pending(d.pool.workers[v].holding()->0.ticket));
                if v < w && d.pool.has_worker(w) {
                    assert(d.pool.workers[v].holding() != d.pool.workers[w].holding());
                } else if w < v && d.pool.has_worker(w) && d.pool.workers[w].holding() is Some {
                    assert(d.pool.workers[w].holding() != d.pool.workers[v].holding());
                }
            }
        }
    }
    assert forall|a: int, b: int|
        #![trigger e.pool.workers[a], e.pool.workers[b]]
        0 <= a < b < e.pool.workers.len() && e.pool.workers[a].holding()
            is Some implies e.pool.workers[a].holding() != e.pool.workers[b].holding() by {
        if e.pool.workers[b].holding() is Some {
            if took && (a == w || b == w) {
                let other = if a == w {
                    b
                } else {
                    a
                };
                assert(d.pool.workers[other].holding() == e.pool.workers[other].holding());
                assert(d.pool.workers[other].holding()->0.ticket < d.issued - d.pool.queue.len());
                assert(d.pool.queue[0].pending.ticket == d.issued - d.pool.queue.len());
            } else {
                assert(d.pool.workers[a].holding() == e.pool.workers[a].holding());
                assert(d.pool.workers[b].holding() == e.pool.workers[b].holding());
                assert(d.pool.workers[a].holding() != d.pool.workers[b].holding());
            }
        }
    }
    assert forall|t: u64| #[trigger] e.pending(t) implies e.queued(t) || e.held(t) by {
        if t >= d.issued {
            let j = t - (e.issued - e.pool.queue.len());
            assert(e.pool.queue[j].pending.ticket == t);
        } else if d.queued(t) {
            let i = choose|i: int|
                0 <= i < d.pool.queue.len() && (#[trigger] d.pool.queue[i]).pending.ticket == t;
            if i < skip {
                assert(e.pool.workers[w].holding() == Some(PendingResult { ticket: t }));
            } else {
                assert(e.pool.queue[i - skip] == d.pool.queue[i]);
            }
        } else {
            let v = choose|v: int|
                0 <= v < d.pool.workers.len() && (#[trigger] d.pool.workers[v]).holding() == Some(
                    PendingResult { ticket: t },
                );
            assert(e.pool.workers[v].holding() == d.pool.workers[v].holding());
        }
    }
}

/// A submission keeps the state well formed.
pub proof fn lemma_submit_dispatch_wf(d: DispatchState, request: GraphQLData)
    requires
        d.wf(),
    ensures
        d.submit(request).wf(),
{
    if d.accepting() {
        lemma_submit_wf(d.pool, QueuedJob { request, pending: d.next_handle() });
        lemma_step_framed(d, d.submit(request), -1, false);
    }
}

/// Signalling shutdown keeps the state well formed.
pub proof fn lemma_shutdown_dispatch_wf(d: DispatchState)
    requires
        d.wf(),
    ensures
        d.shutdown().wf(),
{
    lemma_shutdown_wf(d.pool);
    lemma_step_framed(d, d.shutdown(), -1, false);
}

/// A worker's asking for its next job keeps the state well formed.
pub proof fn lemma_take_dispatch_wf(d: DispatchState, w: int)
    requires
        d.wf(),
    ensures
        d.take(w).wf(),
{
    lemma_take_wf(d.pool, w);
    let took = d.pool.has_worker(w) && d.pool.workers[w].phase is Idle && d.pool.queue.len() > 0;
    lemma_step_framed(d, d.take(w), w, took);
}

/// A worker's asking for a connection keeps the state well formed.
pub proof fn lemma_acquire_dispatch_wf(d: DispatchState, w: int)
    requires
        d.wf(),
    ensures
        d.acquire(w).wf(),
{
    lemma_acquire_wf(d.pool, w);
    lemma_step_framed(d, d.acquire(w), w, false);
}

/// The end of a worker's work on its job keeps the state well formed.
pub proof fn lemma_complete_dispatch_wf(d: DispatchState, w: int, outcome: Outcome)
    requires
        d.wf(),
    ensures
        d.complete(w, outcome).wf(),
{
    lemma_finish_wf(d.pool, w, outcome.keeps_session());
    lemma_step_framed(d, d.complete(w, outcome), w, false);
}

/// A worker's giving up its wait keeps the state well formed.
pub proof fn lemma_abandon_dispatch_wf(d: DispatchState, w: int)
    requires
        d.wf(),
    ensures
        d.abandon(w).wf(),
{
    lemma_abandon_wf(d.pool, w);
    lemma_step_framed(d, d.abandon(w), w, false);
}

/// Claiming a result keeps the state well formed.
pub proof fn lemma_claim_dispatch_wf(d: DispatchState, handle: PendingResult)
    requires
        d.wf(),
    ensures
        d.claim(handle).wf(),
{
    lemma_step_framed(d, d.claim(handle), -1, false);
}

impl DispatchState {
    /// What an event is to the workers: the event of the worker pool that it
    /// brings about, if any.
    pub open spec fn on_pool(self, event: Event) -> Option<PoolEvent> {
        match event {
            Event::Submit(request) => if self.accepting() {
                Some(PoolEvent::Submit(QueuedJob { request, pending: self.next_handle() }))
            } else {
                None
            },
            Event::Shutdown => Some(PoolEvent::Shutdown),
            Event::Take(w) => Some(PoolEvent::Take(w)),
            Event::Acquire(w) => Some(PoolEvent::Acquire(w)),
            Event::Complete(w, outcome) => Some(PoolEvent::Finish(w, outcome.keeps_session())),
            Event::Wait(w, waited) => if wait_left_after(waited) == 0 {
                Some(PoolEvent::Abandon(w))
            } else {
                None
            },
            Event::Claim(_) => None,
        }
    }
}

/// An event changes the workers as the worker-pool event that it brings about
/// does, and not at all where it brings none about.
pub proof fn lemma_after_on_pool(d: DispatchState, event: Event)
    ensures
        d.after(event).pool == (match d.on_pool(event) {
            Some(pool_event) => d.pool.after(pool_event),
            None => d.pool,
        }),
{
}

/// Every event keeps the state well formed.
pub proof fn lemma_after_dispatch_wf(d: DispatchState, event: Event)
    requires
        d.wf(),
    ensures
        d.after(event).wf(),
        d.after(event).pool.workers.len() == d.pool.workers.len(),
        d.after(event).pool.slots.len() == d.pool.slots.len(),
        d.after(event).pool.stray() == d.pool.stray(),
        d.after(event).issued >= d.issued,
        !d.pool.open ==> !d.after(event).pool.open,
{
    lemma_after_on_pool(d, event);
    if d.on_pool(event) is Some {
        lemma_after_wf(d.pool, d.on_pool(event)->0);
    }
    match event {
        Event::Submit(request) => lemma_submit_dispatch_wf(d, request),
        Event::Shutdown => lemma_shutdown_dispatch_wf(d),
        Event::Take(w) => lemma_take_dispatch_wf(d, w),
        Event::Acquire(w) => lemma_acquire_dispatch_wf(d, w),
        Event::Complete(w, outcome) => lemma_complete_dispatch_wf(d, w, outcome),
        Event::Wait(w, waited) => {
            if wait_left_after(waited) == 0 {
                lemma_abandon_dispatch_wf(d, w);
            }
        },
        Event::Claim(handle) => lemma_claim_dispatch_wf(d, handle),
    }
}

/// Every run of events from a well-formed state ends in a well-formed state.
pub proof fn lemma_run_dispatch_wf(d: DispatchState, events: Seq<Event>)
    requires
        d.wf(),
    ensures
        d.run(events).wf(),
        d.run(events).pool.workers.len() == d.pool.workers.len(),
        d.run(events).pool.slots.len() == d.pool.slots.len(),
        d.run(events).pool.stray() == d.pool.stray(),
        d.run(events).issued >= d.issued,
        !d.pool.open ==> !d.run(events).pool.open,
    decreases events.len(),
{
    if events.len() > 0 {
        lemma_run_dispatch_wf(d, events.drop_last());
        lemma_after_dispatch_wf(d.run(events.drop_last()), events.last());
    }
}

/// Where no work is left, no result is pending: every job that was accepted
/// has its result written.
pub proof fn lemma_no_work_is_drained(d: DispatchState)
    requires
        d.wf(),
        work_left(d.pool) == 0,
    ensures
        forall|t: u64| !d.pending(t),
{
    lemma_tally_none(d.pool.workers, by_steps_owed());
    assert forall|t: u64| !d.pending(t) by {
        if d.held(t) {
            let w = choose|w: int|
                0 <= w < d.pool.workers.len() && (#[trigger] d.pool.workers[w]).holding() == Some(
                    PendingResult { ticket: t },
                );
            assert(d.pool.workers[w].holding() is None);
        }
    }
}

/// In a stopped state no result is pending: every job that was accepted has
/// its result written.
pub proof fn lemma_stopped_is_drained(d: DispatchState)
    requires
        d.wf(),
        d.pool.stopped(),
    ensures
        forall|t: u64| !d.pending(t),
{
    lemma_tally_none(d.pool.workers, by_steps_owed());
    lemma_no_work_is_drained(d);
}

/// The boundary between the non-blocking front end and the workers.
///
/// Every dispatcher that a program can hold is well formed: `new` makes it
/// so, every method keeps it so, and nothing else can reach its state.
pub struct RequestDispatcher {
    pool: WorkerPool,
    results: HashMap<u64, Resolution>,
    issued: u64,
}

impl View for RequestDispatcher {
    type V = DispatchState;

    closed spec fn view(&self) -> DispatchState {
        DispatchState { pool: self.pool@, results: self.results@, issued: self.issued as nat }
    }
}

impl RequestDispatcher {
    /// A dispatcher over `worker_count` idle workers and `connections`, with
    /// nothing submitted yet.
    pub fn new(worker_count: usize, connections: ConnectionPool) -> (dispatcher: RequestDispatcher)
        ensures
            dispatcher@ == DispatchState::started(worker_count as nat, connections@),
            dispatcher@.wf(),
    {
        let pool = WorkerPool::start(worker_count, connections);
        proof {
            lemma_started_dispatch_wf(worker_count as nat, connections@);
        }
        RequestDispatcher { pool, results: HashMap::new(), issued: 0 }
    }

    /// The workers with their queue and their connections.
    pub fn workers(&self) -> (pool: &WorkerPool)
        ensures
            pool@ == self@.pool,
    {
        &self.pool
    }

    /// The number of jobs submitted so far.
    pub fn issued(&self) -> (issued: u64)
        ensures
            issued == self@.issued,
    {
        self.issued
    }

    /// True while a submission is accepted.
    pub fn is_accepting(&self) -> (accepting: bool)
        ensures
            accepting == self@.accepting(),
    {
        self.pool.is_open() && self.issued < u64::MAX
    }

    /// Submits a request. While the dispatcher accepts, the request is queued
    /// as a job under the next ticket and the handle to its pending result is
    /// returned at once. Once shutdown was signalled, or when the tickets are
    /// used up, the submission fails with `PoolShuttingDown`, nothing is
    /// queued and no pending result exists for it.
    pub fn submit(&mut self, request: GraphQLData) -> (handle: Result<PendingResult, FailureKind>)
        requires
            old(self)@.wf(),
        ensures
            handle == old(self)@.submitted(),
            final(self)@ == old(self)@.submit(request),
            final(self)@.wf(),
    {
        proof {
            lemma_submit_dispatch_wf(self@, request);
        }
        if self.issued == u64::MAX {
            return Err(FailureKind::PoolShuttingDown);
        }
        let pending = PendingResult { ticket: self.issued };
        match self.pool.submit(QueuedJob { request, pending }) {
            Ok(_) => {
                self.results.insert(pending.ticket, Resolution::Pending);
                self.issued = self.issued + 1;
                Ok(pending)
            },
            Err(kind) => Err(kind),
        }
    }

    /// Signals shutdown: every later submission fails, and the jobs that are
    /// queued or in hand are still worked off.
    pub fn shutdown(&mut self)
        requires
            old(self)@.wf(),
        ensures
            final(self)@ == old(self)@.shutdown(),
            final(self)@.wf(),
    {
        proof {
            lemma_shutdown_dispatch_wf(self@);
        }
        self.pool.shutdown();
    }

    /// True when shutdown was signalled, the queue is drained and every
    /// worker has left its loop. No result is pending then.
    pub fn is_stopped(&self) -> (stopped: bool)
        requires
            self@.wf(),
        ensures
            stopped == self@.pool.stopped(),
            stopped ==> forall|t: u64| !self@.pending(t),
    {
        let stopped = self.pool.is_stopped();
        proof {
            if stopped {
                lemma_stopped_is_drained(self@);
            }
        }
        stopped
    }

    /// Worker `w` asks for its next job; see `WorkerPool::take`.
    pub fn take(&mut self, w: usize) -> (taken: Option<Take>)
        requires
            old(self)@.wf(),
        ensures
            taken == old(self)@.pool.taken(w as int),
            final(self)@ == old(self)@.take(w as int),
            final(self)@.wf(),
    {
        proof {
            lemma_take_dispatch_wf(self@, w as int);
        }
        self.pool.take(w)
    }

    /// Worker `w` asks for a connection; see `WorkerPool::acquire`.
    pub fn acquire(&mut self, w: usize) -> (checkout: Option<Checkout>)
        requires
            old(self)@.wf(),
        ensures
            checkout == old(self)@.pool.acquired(w as int),
            final(self)@ == old(self)@.acquire(w as int),
            final(self)@.wf(),
    {
        proof {
            lemma_acquire_dispatch_wf(self@, w as int);
        }
        self.pool.acquire(w)
    }

    /// The work of worker `w` on its job ended in `outcome`. The connection
    /// goes back to the pool whatever the outcome, the result of the job is
    /// written, and the worker is idle. Returns the handle whose result was
    /// written. `None`, and no change, where there is no worker `w` or no
    /// engine runs for it.
    pub fn complete(&mut self, w: usize, outcome: Outcome) -> (settled: Option<PendingResult>)
        requires
            old(self)@.wf(),
        ensures
            settled == old(self)@.pool.finished(w as int),
            final(self)@ == old(self)@.complete(w as int, outcome),
            final(self)@.wf(),
    {
        proof {
            lemma_complete_dispatch_wf(self@, w as int, outcome);
        }
        let keep = outcome.session_kept();
        match self.pool.finish(w, keep) {
            Some(pending) => {
                self.results.insert(pending.ticket, Resolution::Resolved(outcome.settle()));
                Some(pending)
            },
            None => None,
        }
    }

    /// Worker `w` has waited `waited` milliseconds for a connection. While
    /// time is left it is told how long to wait on, and nothing changes. Once
    /// the wait has run out it gives up: its job fails with `PoolExhausted`,
    /// the worker is idle, and the handle whose result was written is
    /// returned. A worker that does not wait for a connection, or that does
    /// not exist, is told so, and nothing changes.
    pub fn wait_or_abandon(&mut self, w: usize, waited: u64) -> (patience: Patience)
        requires
            old(self)@.wf(),
        ensures
            patience == old(self)@.pool.patience(w as int, waited),
            final(self)@ == old(self)@.wait_or_abandon(w as int, waited),
            final(self)@.wf(),
    {
        proof {
            if wait_left_after(waited) == 0 {
                lemma_abandon_dispatch_wf(self@, w as int);
            }
        }
        let patience = self.pool.wait_or_abandon(w, waited);
        match patience {
            Patience::Spent(pending) => {
                self.results.insert(
                    pending.ticket,
                    Resolution::Resolved(Err(FailureKind::PoolExhausted)),
                );
            },
            _ => {},
        }
        patience
    }

    /// True when the result of `handle` is written and was not claimed yet.
    pub fn is_resolved(&self, handle: PendingResult) -> (resolved: bool)
        ensures
            resolved == self@.resolved(handle.ticket),
    {
        match self.results.get(&handle.ticket) {
            Some(Resolution::Resolved(_)) => true,
            _ => false,
        }
    }

    /// The result of `handle`, left where it is. `None` while the result is
    /// pending, after it was claimed, and for a handle that this dispatcher
    /// never gave out.
    pub fn peek(&self, handle: PendingResult) -> (result: Option<&JobResult>)
        ensures
            result matches Some(written) ==> self@.claimable(handle) == Some(*written),
            result is None ==> self@.claimable(handle) is None,
    {
        match self.results.get(&handle.ticket) {
            Some(Resolution::Resolved(written)) => Some(written),
            _ => None,
        }
    }

    /// Takes the result of `handle` out of the dispatcher. `None`, and no
    /// change, while the result is pending, after it was claimed, and for a
    /// handle that this dispatcher never gave out.
    pub fn claim(&mut self, handle: PendingResult) -> (result: Option<JobResult>)
        requires
            old(self)@.wf(),
        ensures
            result == old(self)@.claimable(handle),
            final(self)@ == old(self)@.claim(handle),
            final(self)@.wf(),
    {
        proof {
            lemma_claim_dispatch_wf(self@, handle);
        }
        if self.is_resolved(handle) {
            match self.results.remove(&handle.ticket) {
                Some(Resolution::Resolved(result)) => Some(result),
                _ => None,
            }
        } else {
            None
        }
    }
}

} // verus!
