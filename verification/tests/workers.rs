use juniper::http::GraphQLRequest;
use wundergraph_bench::failure::FailureKind;
use wundergraph_bench::pool::{Checkout, Connection, ConnectionPool, Slot};
use wundergraph_bench::request::GraphQLData;
use wundergraph_bench::worker::{GraphQLExecutor, PendingResult, Phase, QueuedJob};
use wundergraph_bench::worker_pool::{Patience, Take, WorkerPool};

fn job(ticket: u64) -> QueuedJob {
    QueuedJob {
        request: GraphQLData(GraphQLRequest::new(format!("{{ job{} }}", ticket), None, None)),
        pending: PendingResult { ticket },
    }
}

#[test]
fn worker_goes_through_its_cycle() {
    let mut worker = GraphQLExecutor::new();
    assert_eq!(worker.phase, Phase::Idle);
    let pending = PendingResult { ticket: 7 };
    let conn = Connection { slot: 3 };
    assert!(worker.assign(pending));
    assert_eq!(worker.phase, Phase::Waiting(pending));
    assert!(worker.attach(conn));
    assert_eq!(worker.phase, Phase::Executing(pending, conn));
    assert_eq!(worker.finish(), Some((pending, conn)));
    assert_eq!(worker.phase, Phase::Idle);
    assert!(worker.stop());
    assert_eq!(worker.phase, Phase::Stopped);
}

#[test]
fn worker_refuses_steps_out_of_turn() {
    let mut worker = GraphQLExecutor::new();
    let pending = PendingResult { ticket: 1 };
    assert!(!worker.attach(Connection { slot: 0 }));
    assert_eq!(worker.finish(), None);
    assert_eq!(worker.give_up(), None);
    assert_eq!(worker.phase, Phase::Idle);
    assert!(worker.assign(pending));
    assert!(!worker.assign(PendingResult { ticket: 2 }));
    assert!(!worker.stop());
    assert_eq!(worker.finish(), None);
    assert_eq!(worker.phase, Phase::Waiting(pending));
    assert_eq!(worker.give_up(), Some(pending));
    assert_eq!(worker.phase, Phase::Idle);
    assert!(worker.stop());
    assert!(!worker.assign(pending));
    assert!(!worker.stop());
    assert_eq!(worker.phase, Phase::Stopped);
}

#[test]
fn started_pool_has_idle_workers_and_an_empty_queue() {
    let pool = WorkerPool::start(3, ConnectionPool::new(2));
    assert_eq!(pool.worker_count(), 3);
    assert_eq!(pool.queued(), 0);
    assert!(pool.is_open());
    assert!(!pool.is_stopped());
    assert_eq!(pool.executing_count(), 0);
    assert_eq!(pool.phase(0), Some(Phase::Idle));
    assert_eq!(pool.phase(2), Some(Phase::Idle));
    assert_eq!(pool.phase(3), None);
    assert_eq!(pool.connections().capacity(), 2);
}

#[test]
fn jobs_are_taken_in_the_order_of_submission() {
    let mut pool = WorkerPool::start(2, ConnectionPool::new(2));
    assert_eq!(pool.submit(job(10)), Ok(()));
    assert_eq!(pool.submit(job(11)), Ok(()));
    assert_eq!(pool.submit(job(12)), Ok(()));
    assert_eq!(pool.queued(), 3);
    assert_eq!(pool.take(1), Some(Take::Job(job(10))));
    assert_eq!(pool.take(0), Some(Take::Job(job(11))));
    assert_eq!(pool.queued(), 1);
    assert_eq!(pool.phase(1), Some(Phase::Waiting(PendingResult { ticket: 10 })));
    assert_eq!(pool.phase(0), Some(Phase::Waiting(PendingResult { ticket: 11 })));
}

#[test]
fn idle_worker_waits_while_the_queue_is_empty() {
    let mut pool = WorkerPool::start(1, ConnectionPool::new(1));
    assert_eq!(pool.take(0), Some(Take::Wait));
    assert_eq!(pool.phase(0), Some(Phase::Idle));
    assert_eq!(pool.submit(job(0)), Ok(()));
    assert_eq!(pool.take(0), Some(Take::Job(job(0))));
}

#[test]
fn busy_or_missing_worker_is_given_nothing() {
    let mut pool = WorkerPool::start(1, ConnectionPool::new(1));
    assert_eq!(pool.submit(job(0)), Ok(()));
    assert_eq!(pool.submit(job(1)), Ok(()));
    assert_eq!(pool.take(5), None);
    assert_eq!(pool.acquire(0), None);
    assert_eq!(pool.finish(0, true), None);
    assert_eq!(pool.wait_or_abandon(0, u64::MAX), Patience::NotWaiting);
    assert_eq!(pool.take(0), Some(Take::Job(job(0))));
    assert_eq!(pool.take(0), None);
    assert_eq!(pool.finish(0, true), None);
    assert_eq!(pool.acquire(0), Some(Checkout::Fresh(Connection { slot: 0 })));
    assert_eq!(pool.take(0), None);
    assert_eq!(pool.acquire(0), None);
    assert_eq!(pool.wait_or_abandon(0, u64::MAX), Patience::NotWaiting);
    assert_eq!(pool.queued(), 1);
    assert_eq!(pool.acquire(9), None);
    assert_eq!(pool.finish(9, true), None);
    assert_eq!(pool.wait_or_abandon(9, u64::MAX), Patience::NotWaiting);
}

#[test]
fn engine_runs_are_bounded_by_the_connections() {
    let mut pool = WorkerPool::start(3, ConnectionPool::new(2));
    for ticket in 0..3 {
        assert_eq!(pool.submit(job(ticket)), Ok(()));
    }
    for w in 0..3 {
        assert_eq!(pool.take(w), Some(Take::Job(job(w as u64))));
    }
    assert_eq!(pool.acquire(0), Some(Checkout::Fresh(Connection { slot: 0 })));
    assert_eq!(pool.acquire(1), Some(Checkout::Fresh(Connection { slot: 1 })));
    assert_eq!(pool.acquire(2), Some(Checkout::Exhausted));
    assert_eq!(pool.executing_count(), 2);
    assert_eq!(pool.phase(2), Some(Phase::Waiting(PendingResult { ticket: 2 })));
    assert_eq!(pool.finish(0, true), Some(PendingResult { ticket: 0 }));
    assert_eq!(pool.executing_count(), 1);
    assert_eq!(pool.acquire(2), Some(Checkout::Ready(Connection { slot: 0 })));
    assert_eq!(pool.executing_count(), 2);
}

#[test]
fn engine_runs_are_bounded_by_the_workers() {
    let mut pool = WorkerPool::start(2, ConnectionPool::new(5));
    for ticket in 0..4 {
        assert_eq!(pool.submit(job(ticket)), Ok(()));
    }
    assert_eq!(pool.take(0), Some(Take::Job(job(0))));
    assert_eq!(pool.take(1), Some(Take::Job(job(1))));
    assert_eq!(pool.take(0), None);
    assert_eq!(pool.acquire(0), Some(Checkout::Fresh(Connection { slot: 0 })));
    assert_eq!(pool.acquire(1), Some(Checkout::Fresh(Connection { slot: 1 })));
    assert_eq!(pool.executing_count(), 2);
    assert_eq!(pool.connections().checked_out(), 2);
    assert_eq!(pool.queued(), 2);
}

#[test]
fn finish_hands_the_connection_back_as_told() {
    let mut pool = WorkerPool::start(1, ConnectionPool::new(1));
    assert_eq!(pool.submit(job(0)), Ok(()));
    assert_eq!(pool.submit(job(1)), Ok(()));
    pool.take(0);
    assert_eq!(pool.acquire(0), Some(Checkout::Fresh(Connection { slot: 0 })));
    assert_eq!(pool.connections().slot(0), Some(Slot::Lent));
    assert_eq!(pool.finish(0, false), Some(PendingResult { ticket: 0 }));
    assert_eq!(pool.connections().slot(0), Some(Slot::Vacant));
    assert_eq!(pool.phase(0), Some(Phase::Idle));
    pool.take(0);
    assert_eq!(pool.acquire(0), Some(Checkout::Fresh(Connection { slot: 0 })));
    assert_eq!(pool.finish(0, true), Some(PendingResult { ticket: 1 }));
    assert_eq!(pool.connections().slot(0), Some(Slot::Idle));
    assert_eq!(pool.connections().checked_out(), 0);
}

#[test]
fn waiting_worker_can_give_up() {
    let mut pool = WorkerPool::start(1, ConnectionPool::new(0));
    assert_eq!(pool.submit(job(4)), Ok(()));
    assert_eq!(pool.take(0), Some(Take::Job(job(4))));
    assert_eq!(pool.acquire(0), Some(Checkout::Exhausted));
    assert_eq!(pool.wait_or_abandon(0, 29_999), Patience::Left(1));
    assert_eq!(pool.phase(0), Some(Phase::Waiting(PendingResult { ticket: 4 })));
    assert_eq!(pool.wait_or_abandon(0, 30_000), Patience::Spent(PendingResult { ticket: 4 }));
    assert_eq!(pool.phase(0), Some(Phase::Idle));
    assert_eq!(pool.wait_or_abandon(0, u64::MAX), Patience::NotWaiting);
}

#[test]
fn shut_down_pool_refuses_jobs_and_lets_workers_leave() {
    let mut pool = WorkerPool::start(2, ConnectionPool::new(1));
    assert_eq!(pool.submit(job(0)), Ok(()));
    pool.shutdown();
    assert!(!pool.is_open());
    assert_eq!(pool.submit(job(1)), Err(FailureKind::PoolShuttingDown));
    assert_eq!(pool.queued(), 1);
    assert!(!pool.is_stopped());
    assert_eq!(pool.take(0), Some(Take::Job(job(0))));
    assert_eq!(pool.take(1), Some(Take::Exit));
    assert_eq!(pool.phase(1), Some(Phase::Stopped));
    assert_eq!(pool.take(1), Some(Take::Exit));
    assert!(!pool.is_stopped());
    assert_eq!(pool.acquire(0), Some(Checkout::Fresh(Connection { slot: 0 })));
    assert_eq!(pool.finish(0, true), Some(PendingResult { ticket: 0 }));
    assert!(!pool.is_stopped());
    assert_eq!(pool.take(0), Some(Take::Exit));
    assert!(pool.is_stopped());
}

#[test]
fn pool_without_workers_stops_only_once_nothing_is_queued() {
    let mut idle = WorkerPool::start(0, ConnectionPool::new(1));
    assert!(!idle.is_stopped());
    idle.shutdown();
    assert!(idle.is_stopped());
    let mut loaded = WorkerPool::start(0, ConnectionPool::new(1));
    assert_eq!(loaded.submit(job(0)), Ok(()));
    loaded.shutdown();
    assert!(!loaded.is_stopped());
}
