use wundergraph_bench::pool::{Checkout, Connection, ConnectionPool, Slot};

#[test]
fn new_pool_has_vacant_slots_only() {
    let pool = ConnectionPool::new(3);
    assert_eq!(pool.capacity(), 3);
    assert_eq!(pool.checked_out(), 0);
    assert_eq!(pool.slot(0), Some(Slot::Vacant));
    assert_eq!(pool.slot(2), Some(Slot::Vacant));
    assert_eq!(pool.slot(3), None);
}

#[test]
fn checkouts_open_sessions_up_to_the_capacity() {
    let mut pool = ConnectionPool::new(2);
    assert_eq!(pool.acquire(), Checkout::Fresh(Connection { slot: 0 }));
    assert_eq!(pool.acquire(), Checkout::Fresh(Connection { slot: 1 }));
    assert_eq!(pool.checked_out(), 2);
    assert_eq!(pool.acquire(), Checkout::Exhausted);
    assert_eq!(pool.acquire(), Checkout::Exhausted);
    assert_eq!(pool.checked_out(), 2);
    assert_eq!(pool.capacity(), 2);
}

#[test]
fn released_session_is_lent_again_before_a_new_one_is_opened() {
    let mut pool = ConnectionPool::new(3);
    assert_eq!(pool.acquire(), Checkout::Fresh(Connection { slot: 0 }));
    assert_eq!(pool.acquire(), Checkout::Fresh(Connection { slot: 1 }));
    assert!(pool.release(Connection { slot: 1 }));
    assert_eq!(pool.slot(1), Some(Slot::Idle));
    assert_eq!(pool.checked_out(), 1);
    assert_eq!(pool.acquire(), Checkout::Ready(Connection { slot: 1 }));
    assert_eq!(pool.acquire(), Checkout::Fresh(Connection { slot: 2 }));
    assert_eq!(pool.acquire(), Checkout::Exhausted);
}

#[test]
fn lowest_idle_session_is_lent_first() {
    let mut pool = ConnectionPool::new(3);
    pool.acquire();
    pool.acquire();
    pool.acquire();
    assert!(pool.release(Connection { slot: 2 }));
    assert!(pool.release(Connection { slot: 0 }));
    assert_eq!(pool.acquire(), Checkout::Ready(Connection { slot: 0 }));
    assert_eq!(pool.acquire(), Checkout::Ready(Connection { slot: 2 }));
}

#[test]
fn discarded_slot_is_opened_anew() {
    let mut pool = ConnectionPool::new(1);
    assert_eq!(pool.acquire(), Checkout::Fresh(Connection { slot: 0 }));
    assert!(pool.discard(Connection { slot: 0 }));
    assert_eq!(pool.slot(0), Some(Slot::Vacant));
    assert_eq!(pool.checked_out(), 0);
    assert_eq!(pool.acquire(), Checkout::Fresh(Connection { slot: 0 }));
}

#[test]
fn handing_back_what_is_not_lent_changes_nothing() {
    let mut pool = ConnectionPool::new(2);
    assert!(!pool.release(Connection { slot: 0 }));
    assert!(!pool.discard(Connection { slot: 0 }));
    assert!(!pool.release(Connection { slot: 7 }));
    assert_eq!(pool.slot(0), Some(Slot::Vacant));
    pool.acquire();
    assert!(pool.is_lent(Connection { slot: 0 }));
    assert!(pool.release(Connection { slot: 0 }));
    assert!(!pool.is_lent(Connection { slot: 0 }));
    assert!(!pool.release(Connection { slot: 0 }));
    assert_eq!(pool.slot(0), Some(Slot::Idle));
    assert_eq!(pool.checked_out(), 0);
}

#[test]
fn pool_without_slots_refuses_every_checkout() {
    let mut pool = ConnectionPool::new(0);
    assert_eq!(pool.capacity(), 0);
    for _ in 0..10 {
        assert_eq!(pool.acquire(), Checkout::Exhausted);
    }
    assert_eq!(pool.checked_out(), 0);
    assert_eq!(pool.capacity(), 0);
}

#[test]
fn checkouts_never_exceed_the_capacity() {
    let mut pool = ConnectionPool::new(4);
    let mut lent = Vec::new();
    for round in 0..40usize {
        match pool.acquire() {
            Checkout::Ready(conn) | Checkout::Fresh(conn) => lent.push(conn),
            Checkout::Exhausted => assert_eq!(pool.checked_out(), 4),
        }
        if round % 3 == 2 {
            let conn = lent.remove(0);
            assert!(pool.release(conn));
        }
        assert!(pool.checked_out() <= pool.capacity());
        assert_eq!(pool.checked_out(), lent.len());
    }
}

#[test]
fn checkout_tells_what_was_lent() {
    let ready = Checkout::Ready(Connection { slot: 4 });
    let fresh = Checkout::Fresh(Connection { slot: 5 });
    assert_eq!(ready.connection(), Some(Connection { slot: 4 }));
    assert_eq!(fresh.connection(), Some(Connection { slot: 5 }));
    assert_eq!(Checkout::Exhausted.connection(), None);
    assert!(!ready.needs_session());
    assert!(fresh.needs_session());
    assert!(!Checkout::Exhausted.needs_session());
}
