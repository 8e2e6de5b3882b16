//! What holds of the bridge in every state that it can reach.
//!
//! Each statement is about the states of `DispatchState` and the events that
//! move them, which are what `RequestDispatcher` holds and does.

use crate::dispatcher::{
    lemma_after_dispatch_wf, lemma_no_work_is_drained, lemma_run_dispatch_wf,
    lemma_started_dispatch_wf, lemma_stopped_is_drained, DispatchState, Event, Resolution,
};
use crate::failure::FailureKind;
use crate::pool::{
    after_acquire, checkout_of, free, holds, lemma_acquire, lemma_lends, lemma_lowest_none, lends,
    lent, lent_only, wait_left_after, Checkout, Slot,
};
use crate::request::{GraphQLData, Outcome};
use crate::worker::PendingResult;
use crate::tally::{lemma_tally_bound, lemma_tally_none, lemma_tally_update};
use crate::worker_pool::{by_steps_owed, executing, lemma_finish_wf, running_only, work_left};
use vstd::prelude::*;

verus! {

/// The most engine runs that `workers` workers can have going over
/// `capacity` connections: the smaller of the two.
pub open spec fn ceiling(capacity: nat, workers: nat) -> nat {
    if capacity <= workers {
        capacity
    } else {
        workers
    }
}

/// A pool of `capacity` slots that was never used.
pub open spec fn unused(capacity: nat) -> Seq<Slot> {
    Seq::new(capacity, |i: int| Slot::Vacant)
}

/// In a well-formed state no more engines run than there are workers, and no
/// more than there are connections.
pub proof fn law_bounded_concurrency(d: DispatchState)
    requires
        d.wf(),
    ensures
        executing(d.pool.workers) <= ceiling(d.pool.slots.len(), d.pool.workers.len()),
{
    lemma_tally_bound(d.pool.workers, running_only());
    lemma_tally_bound(d.pool.slots, lent_only());
}

/// Whatever is submitted and whatever the workers do, at no point of a run
/// do more engines run at once than the smaller of the pool's capacity and
/// the number of workers.
pub proof fn law_bounded_concurrency_at_every_point(
    workers: nat,
    slots: Seq<Slot>,
    events: Seq<Event>,
)
    requires
        slots.len() <= usize::MAX,
    ensures
        executing(DispatchState::started(workers, slots).run(events).pool.workers) <= ceiling(
            slots.len(),
            workers,
        ),
{
    let start = DispatchState::started(workers, slots);
    lemma_started_dispatch_wf(workers, slots);
    lemma_run_dispatch_wf(start, events);
    law_bounded_concurrency(start.run(events));
}

/// An accepted submission gets a ticket that no earlier job had, and its
/// result is pending from then on: it is neither written nor claimed before
/// any work was done on it.
pub proof fn law_submission_is_pending(d: DispatchState, request: GraphQLData)
    requires
        d.wf(),
        d.accepting(),
    ensures
        d.submitted() == Ok::<PendingResult, FailureKind>(d.next_handle()),
        !d.results.contains_key(d.next_handle().ticket),
        !d.claimed(d.next_handle().ticket),
        d.submit(request).pending(d.next_handle().ticket),
        d.submit(request).queued(d.next_handle().ticket),
{
    let e = d.submit(request);
    let last = d.pool.queue.len() as int;
    assert(e.pool.queue[last].pending == d.next_handle());
}

/// A pending result is written only by the end of the work on its job: by
/// the completion of the worker whose engine ran on it, with the result of
/// that run, or, with `PoolExhausted`, by the worker that waited for a
/// connection for it until the wait had run out. Every other event leaves it
/// pending.
pub proof fn law_result_follows_work(d: DispatchState, event: Event, ticket: u64)
    requires
        d.wf(),
        d.pending(ticket),
    ensures
        ({
            let e = d.after(event);
            let handle = PendingResult { ticket };
            ||| e.pending(ticket)
            ||| (event matches Event::Complete(w, outcome) && d.pool.finished(w) == Some(handle)
                && e.results.contains_key(ticket) && e.results[ticket] == Resolution::Resolved(
                outcome.result(),
            ))
            ||| (event matches Event::Wait(w, waited) && wait_left_after(waited) == 0
                && d.pool.abandoned(w) == Some(handle) && e.results.contains_key(ticket)
                && e.results[ticket] == Resolution::Resolved(Err(FailureKind::PoolExhausted)))
        }),
{
}

/// A result that is written is never written again: every event leaves it as
/// it is, but for the claim of its reader, which takes it away.
pub proof fn law_result_written_once(d: DispatchState, event: Event, ticket: u64)
    requires
        d.wf(),
        d.resolved(ticket),
    ensures
        ({
            let e = d.after(event);
            ||| (e.resolved(ticket) && e.results[ticket] == d.results[ticket])
            ||| (event == Event::Claim(PendingResult { ticket }) && e.claimed(ticket))
        }),
{
}

/// A result that was claimed is gone for good: its ticket is never handed
/// out again and no event writes to it.
pub proof fn law_claimed_stays_claimed(d: DispatchState, event: Event, ticket: u64)
    requires
        d.wf(),
        d.claimed(ticket),
    ensures
        d.after(event).claimed(ticket),
{
}

/// Over any run, a result that is written is still the same result, or was
/// claimed: it is resolved exactly once.
pub proof fn law_result_is_final(d: DispatchState, events: Seq<Event>, ticket: u64)
    requires
        d.wf(),
        d.resolved(ticket),
    ensures
        ({
            let e = d.run(events);
            ||| (e.resolved(ticket) && e.results[ticket] == d.results[ticket])
            ||| e.claimed(ticket)
        }),
    decreases events.len(),
{
    if events.len() > 0 {
        let before = d.run(events.drop_last());
        law_result_is_final(d, events.drop_last(), ticket);
        lemma_run_dispatch_wf(d, events.drop_last());
        if before.resolved(ticket) {
            law_result_written_once(before, events.last(), ticket);
        } else {
            law_claimed_stays_claimed(before, events.last(), ticket);
        }
    }
}

/// No job is lost: while a result is pending, its job waits in the queue or
/// is in the hand of a worker.
pub proof fn law_pending_is_in_flight(d: DispatchState, ticket: u64)
    requires
        d.wf(),
        d.pending(ticket),
    ensures
        d.queued(ticket) || d.held(ticket),
{
}

/// A job is in one place only: never in the queue and in a worker's hand at
/// once, and never in the hands of two workers.
pub proof fn law_job_is_in_one_place(d: DispatchState, ticket: u64, a: int, b: int)
    requires
        d.wf(),
        d.pool.has_worker(a),
        d.pool.has_worker(b),
        d.pool.workers[a].holding() == Some(PendingResult { ticket }),
    ensures
        !d.queued(ticket),
        d.pool.workers[b].holding() == Some(PendingResult { ticket }) ==> a == b,
{
    if a < b {
        assert(d.pool.workers[a].holding() != d.pool.workers[b].holding());
    } else if b < a {
        if d.pool.workers[b].holding() is Some {
            assert(d.pool.workers[b].holding() != d.pool.workers[a].holding());
        }
    }
}

/// True for the events that are steps of a worker.
pub open spec fn is_worker_step(event: Event) -> bool {
    event is Take || event is Acquire || event is Complete || event is Wait
}

/// True when every event of a run is a step of a worker.
pub open spec fn are_worker_steps(events: Seq<Event>) -> bool {
    forall|i: int| 0 <= i < events.len() ==> is_worker_step(#[trigger] events[i])
}

/// The worker that makes a step; no worker for the other events.
pub open spec fn stepping_worker(event: Event) -> int {
    match event {
        Event::Take(w) => w,
        Event::Acquire(w) => w,
        Event::Complete(w, _) => w,
        Event::Wait(w, _) => w,
        _ => -1,
    }
}

/// A step of a worker never adds to the work that is left.
pub proof fn law_workers_add_no_work(d: DispatchState, event: Event)
    requires
        d.wf(),
        is_worker_step(event),
    ensures
        work_left(d.after(event).pool) <= work_left(d.pool),
{
    let w = stepping_worker(event);
    if d.pool.has_worker(w) {
        lemma_tally_update(d.pool.workers, by_steps_owed(), w, d.after(event).pool.workers[w]);
    }
}

/// The workers never get stuck. Where work is left, there is a worker and a
/// connection, and no connection has strayed, some worker can make a step
/// that leaves less work: an engine run can end, whatever it ends in, or a
/// waiting worker gets a connection, or an idle worker gets a job.
pub proof fn law_some_worker_can_go_on(d: DispatchState, outcome: Outcome) -> (event: Event)
    requires
        d.wf(),
        d.pool.stray() == 0,
        d.pool.workers.len() > 0,
        d.pool.slots.len() > 0,
        work_left(d.pool) > 0,
    ensures
        event is Take || event is Acquire || (event matches Event::Complete(_, ended) && ended
            == outcome),
        work_left(d.after(event).pool) < work_left(d.pool),
{
    let workers = d.pool.workers;
    let event = if exists|w: int|
        0 <= w < workers.len() && (#[trigger] workers[w]).phase is Executing {
        Event::Complete(
            choose|w: int| 0 <= w < workers.len() && (#[trigger] workers[w]).phase is Executing,
            outcome,
        )
    } else if exists|w: int| 0 <= w < workers.len() && (#[trigger] workers[w]).phase is Waiting {
        lemma_tally_none(workers, running_only());
        lemma_acquire(d.pool.slots);
        Event::Acquire(
            choose|w: int| 0 <= w < workers.len() && (#[trigger] workers[w]).phase is Waiting,
        )
    } else {
        lemma_tally_none(workers, by_steps_owed());
        assert(forall|w: int| 0 <= w < workers.len() ==> (#[trigger] workers[w]).holding() is None);
        assert(!(workers[0].phase is Stopped));
        Event::Take(0)
    };
    let w = stepping_worker(event);
    lemma_tally_update(workers, by_steps_owed(), w, d.after(event).pool.workers[w]);
    event
}

/// Where no work is left, no result is pending: every job that was accepted
/// has its result written.
pub proof fn law_no_work_nothing_pending(d: DispatchState)
    requires
        d.wf(),
        work_left(d.pool) == 0,
    ensures
        forall|t: u64| !d.pending(t),
{
    lemma_no_work_is_drained(d);
}

/// A run that starts with `event` is the run of the rest from the state
/// after `event`.
pub proof fn lemma_run_from_first(d: DispatchState, event: Event, rest: Seq<Event>)
    ensures
        d.run(seq![event] + rest) == d.after(event).run(rest),
    decreases rest.len(),
{
    let whole = seq![event] + rest;
    if rest.len() == 0 {
        assert(whole.drop_last() =~= Seq::<Event>::empty());
        assert(d.run(whole.drop_last()) == d);
    } else {
        lemma_run_from_first(d, event, rest.drop_last());
        assert(whole.drop_last() =~= seq![event] + rest.drop_last());
        assert(whole.last() == rest.last());
    }
}

/// Every result gets written. From every state in which there is a worker
/// and a connection and no connection has strayed, the workers' own steps,
/// no more of them than work is left, lead to a state in which no result is
/// pending, whatever the engine runs end in.
pub proof fn law_every_result_gets_written(d: DispatchState, outcome: Outcome) -> (events: Seq<
    Event,
>)
    requires
        d.wf(),
        d.pool.stray() == 0,
        d.pool.workers.len() > 0,
        d.pool.slots.len() > 0,
    ensures
        are_worker_steps(events),
        events.len() <= work_left(d.pool),
        forall|t: u64| !d.run(events).pending(t),
    decreases work_left(d.pool),
{
    if work_left(d.pool) == 0 {
        law_no_work_nothing_pending(d);
        Seq::empty()
    } else {
        let event = law_some_worker_can_go_on(d, outcome);
        lemma_after_dispatch_wf(d, event);
        let rest = law_every_result_gets_written(d.after(event), outcome);
        lemma_run_from_first(d, event, rest);
        let events = seq![event] + rest;
        assert forall|i: int| 0 <= i < events.len() implies is_worker_step(
            #[trigger] events[i],
        ) by {
            if i > 0 {
                assert(events[i] == rest[i - 1]);
            }
        }
        events
    }
}

/// The end of an engine run hands the worker's connection back whatever the
/// run ended in, a fault included: the slot is no longer checked out, one
/// more slot is free, and where the session is kept it is among the idle
/// sessions that the next checkout lends.
pub proof fn law_connection_returns(d: DispatchState, w: int, outcome: Outcome)
    requires
        d.wf(),
        d.pool.has_worker(w),
        d.pool.workers[w].phase is Executing,
    ensures
        ({
            let conn = d.pool.workers[w].connection()->0;
            let e = d.complete(w, outcome);
            &&& holds(d.pool.slots, conn)
            &&& !holds(e.pool.slots, conn)
            &&& free(e.pool.slots) == free(d.pool.slots) + 1
            &&& outcome.keeps_session() ==> e.pool.slots[conn.slot as int] == Slot::Idle
            &&& !outcome.keeps_session() ==> e.pool.slots[conn.slot as int] == Slot::Vacant
            &&& e.pool.workers[w].phase is Idle
        }),
{
    let conn = d.pool.workers[w].connection()->0;
    assert(d.pool.workers[w].connection() == Some(conn));
    lemma_finish_wf(d.pool, w, outcome.keeps_session());
}

/// No connection leaks: in every state that a dispatcher over an unused pool
/// can reach, the connections that are checked out are exactly those in the
/// hands of workers whose engines run.
pub proof fn law_no_leak(workers: nat, capacity: nat, events: Seq<Event>)
    requires
        capacity <= usize::MAX,
    ensures
        ({
            let e = DispatchState::started(workers, unused(capacity)).run(events);
            lent(e.pool.slots) == executing(e.pool.workers)
        }),
{
    let start = DispatchState::started(workers, unused(capacity));
    lemma_started_dispatch_wf(workers, unused(capacity));
    lemma_tally_none(unused(capacity), lent_only());
    lemma_tally_none(start.pool.workers, running_only());
    lemma_run_dispatch_wf(start, events);
}

/// After any run, faults included, the pool still lends as many connections
/// in a row as it has slots beyond the engine runs that are going on; once
/// all work has ended, that is its whole capacity.
pub proof fn law_faults_cost_no_capacity(
    workers: nat,
    capacity: nat,
    events: Seq<Event>,
    times: nat,
)
    requires
        capacity <= usize::MAX,
    ensures
        ({
            let e = DispatchState::started(workers, unused(capacity)).run(events);
            lends(e.pool.slots, times) <==> times + executing(e.pool.workers) <= capacity
        }),
{
    let start = DispatchState::started(workers, unused(capacity));
    lemma_started_dispatch_wf(workers, unused(capacity));
    lemma_run_dispatch_wf(start, events);
    law_no_leak(workers, capacity, events);
    lemma_lends(start.run(events).pool.slots, times);
}

/// Jobs leave the queue in the order of their tickets: while a job waits in
/// the queue, every job that was submitted after it waits there too.
pub proof fn law_first_in_first_out(d: DispatchState, first: u64, second: u64)
    requires
        d.wf(),
        first < second < d.issued,
        d.queued(first),
    ensures
        d.queued(second),
{
    let i = choose|i: int|
        0 <= i < d.pool.queue.len() && (#[trigger] d.pool.queue[i]).pending.ticket == first;
    let j = second - (d.issued - d.pool.queue.len());
    assert(d.pool.queue[j].pending.ticket == second);
}

/// Jobs are served in the order of submission: of two requests that were
/// accepted one after the other, whatever happened in between, the later one
/// never leaves the queue while the earlier one still waits in it.
pub proof fn law_submission_order_is_service_order(
    d: DispatchState,
    first: GraphQLData,
    between: Seq<Event>,
    second: GraphQLData,
    later: Seq<Event>,
)
    requires
        d.wf(),
        d.accepting(),
        d.submit(first).run(between).accepting(),
    ensures
        ({
            let earlier = d.next_handle().ticket;
            let middle = d.submit(first).run(between);
            let younger = middle.next_handle().ticket;
            let e = middle.submit(second).run(later);
            &&& earlier < younger
            &&& e.queued(earlier) ==> e.queued(younger)
        }),
{
    let middle = d.submit(first).run(between);
    lemma_after_dispatch_wf(d, Event::Submit(first));
    lemma_run_dispatch_wf(d.submit(first), between);
    lemma_after_dispatch_wf(middle, Event::Submit(second));
    lemma_run_dispatch_wf(middle.submit(second), later);
    let e = middle.submit(second).run(later);
    if e.queued(d.next_handle().ticket) {
        law_first_in_first_out(e, d.next_handle().ticket, middle.next_handle().ticket);
    }
}

/// The job that a worker is given is the oldest in the queue.
pub proof fn law_oldest_is_taken(d: DispatchState, w: int, ticket: u64)
    requires
        d.wf(),
        d.pool.has_worker(w),
        d.pool.workers[w].phase is Idle,
        d.queued(ticket),
    ensures
        d.pool.queue[0].pending.ticket <= ticket,
        d.take(w).pool.workers[w].holding() == Some(d.pool.queue[0].pending),
        d.pool.queue[0].pending.ticket < ticket ==> d.take(w).queued(ticket),
{
    let i = choose|i: int|
        0 <= i < d.pool.queue.len() && (#[trigger] d.pool.queue[i]).pending.ticket == ticket;
    assert(d.pool.queue[0].pending.ticket == d.issued - d.pool.queue.len());
    if i > 0 {
        assert(d.take(w).pool.queue[i - 1] == d.pool.queue[i]);
    }
}

/// Shutdown is final: no event opens the dispatcher again, and every
/// submission after the signal fails with `PoolShuttingDown`, changes
/// nothing and gets no pending result.
pub proof fn law_refused_after_shutdown(d: DispatchState, events: Seq<Event>, request: GraphQLData)
    requires
        d.wf(),
    ensures
        ({
            let e = d.shutdown().run(events);
            &&& !e.pool.open
            &&& e.submitted() == Err::<PendingResult, FailureKind>(FailureKind::PoolShuttingDown)
            &&& e.submit(request) == e
        }),
{
    lemma_after_dispatch_wf(d, Event::Shutdown);
    lemma_run_dispatch_wf(d.shutdown(), events);
}

/// Shutdown drains: a job that was accepted before the signal has its result
/// written before the dispatcher counts as stopped.
pub proof fn law_shutdown_drains(d: DispatchState, request: GraphQLData, events: Seq<Event>)
    requires
        d.wf(),
        d.accepting(),
    ensures
        ({
            let ticket = d.next_handle().ticket;
            let e = d.submit(request).shutdown().run(events);
            e.pool.stopped() ==> e.resolved(ticket) || e.claimed(ticket)
        }),
{
    let ticket = d.next_handle().ticket;
    let accepted = d.submit(request);
    lemma_after_dispatch_wf(d, Event::Submit(request));
    lemma_after_dispatch_wf(accepted, Event::Shutdown);
    lemma_run_dispatch_wf(accepted.shutdown(), events);
    let e = accepted.shutdown().run(events);
    if e.pool.stopped() {
        lemma_stopped_is_drained(e);
        assert(!e.pending(ticket));
    }
}

/// A pool without slots lends nothing: every checkout is answered with
/// `Exhausted` and changes nothing, so that the caller waits.
pub proof fn law_empty_pool_lends_nothing(slots: Seq<Slot>)
    requires
        slots.len() == 0,
    ensures
        checkout_of(slots) == Checkout::Exhausted,
        after_acquire(slots) == slots,
{
    lemma_lowest_none(slots, Slot::Idle);
    lemma_lowest_none(slots, Slot::Vacant);
}

/// Over a pool without slots no engine ever runs: every worker that asks
/// for a connection is told to wait, at every point of every run, and no job
/// is ever completed.
pub proof fn law_zero_capacity_blocks(workers: nat, events: Seq<Event>, w: int)
    ensures
        ({
            let e = DispatchState::started(workers, unused(0)).run(events);
            &&& executing(e.pool.workers) == 0
            &&& e.pool.acquired(w) is Some ==> e.pool.acquired(w) == Some(Checkout::Exhausted)
            &&& e.acquire(w) == e
            &&& e.pool.finished(w) is None
        }),
{
    let start = DispatchState::started(workers, unused(0));
    lemma_started_dispatch_wf(workers, unused(0));
    lemma_run_dispatch_wf(start, events);
    let e = start.run(events);
    law_bounded_concurrency(e);
    law_empty_pool_lends_nothing(e.pool.slots);
    if e.pool.has_worker(w) && e.pool.workers[w].phase is Executing {
        assert(e.pool.workers[w].connection() is Some);
        assert(holds(e.pool.slots, e.pool.workers[w].connection()->0));
    }
}

} // verus!
