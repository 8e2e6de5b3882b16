use wundergraph_bench::sizing::{acceptor_count, pool_capacity, worker_count, Sizing};

#[test]
fn capacity_is_eight_connections_per_unit() {
    assert_eq!(pool_capacity(0), Some(0));
    assert_eq!(pool_capacity(1), Some(8));
    assert_eq!(pool_capacity(4), Some(32));
    assert_eq!(pool_capacity(12), Some(96));
}

#[test]
fn capacity_stops_where_32_bits_end() {
    let last = (u32::MAX / 8) as usize;
    assert_eq!(pool_capacity(last), Some(u32::MAX - 7));
    if (last as u64) < usize::MAX as u64 {
        assert_eq!(pool_capacity(last + 1), None);
    }
    assert_eq!(pool_capacity(usize::MAX), None);
}

#[test]
fn workers_are_one_more_than_the_units() {
    assert_eq!(worker_count(0), Some(1));
    assert_eq!(worker_count(4), Some(5));
    assert_eq!(worker_count(usize::MAX - 1), Some(usize::MAX));
    assert_eq!(worker_count(usize::MAX), None);
}

#[test]
fn acceptors_are_two_per_unit() {
    assert_eq!(acceptor_count(0), Some(0));
    assert_eq!(acceptor_count(4), Some(8));
    assert_eq!(acceptor_count(usize::MAX / 2), Some(usize::MAX - 1));
    assert_eq!(acceptor_count(usize::MAX / 2 + 1), None);
}

#[test]
fn sizing_for_four_units() {
    assert_eq!(
        Sizing::for_parallelism(4),
        Some(Sizing { capacity: 32, workers: 5, acceptors: 8 })
    );
}

#[test]
fn sizing_fails_where_one_size_does_not_fit() {
    assert_eq!(Sizing::for_parallelism(usize::MAX), None);
    assert_eq!(Sizing::for_parallelism(usize::MAX / 2 + 1), None);
}

#[test]
fn detected_sizing_is_the_sizing_of_the_machine() {
    let units = num_cpus::get();
    assert_eq!(Sizing::detect(), Sizing::for_parallelism(units));
    let sizing = Sizing::detect().expect("the sizes of this machine fit");
    assert_eq!(sizing.workers, units + 1);
    assert_eq!(sizing.capacity as usize, units * 8);
    assert_eq!(sizing.acceptors, units * 2);
}
