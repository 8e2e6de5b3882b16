//! How large the pools are made for a machine of a given parallelism.

use vstd::prelude::*;

verus! {

/// Connections kept per unit of parallelism: twice a small constant.
pub const CONNECTIONS_PER_UNIT: u32 = 2 * 4;

/// Front-end threads per unit of parallelism.
pub const ACCEPTORS_PER_UNIT: usize = 2;

/// The pool sizes chosen for one machine.
#[derive(Clone, Copy, Debug, PartialEq, Eq, Structural)]
pub struct Sizing {
    /// Most connections that may be checked out at once.
    pub capacity: u32,
    /// Number of blocking workers.
    pub workers: usize,
    /// Number of front-end threads.
    pub acceptors: usize,
}

/// The connection capacity for `parallelism` units, as a mathematical integer.
pub open spec fn capacity_for(parallelism: int) -> int {
    parallelism * CONNECTIONS_PER_UNIT
}

/// The worker count for `parallelism` units: one more than the units, so that
/// a job that is ready can be admitted while every unit waits on the store.
pub open spec fn workers_for(parallelism: int) -> int {
    parallelism + 1
}

/// The number of front-end threads for `parallelism` units.
pub open spec fn acceptors_for(parallelism: int) -> int {
    parallelism * ACCEPTORS_PER_UNIT
}

/// True when all three sizes for `parallelism` fit their machine types.
pub open spec fn sizes_fit(parallelism: int) -> bool {
    &&& capacity_for(parallelism) <= u32::MAX
    &&& workers_for(parallelism) <= usize::MAX
    &&& acceptors_for(parallelism) <= usize::MAX
}

/// The connection capacity for a machine of the given parallelism, or `None`
/// where it does not fit in 32 bits.
pub fn pool_capacity(parallelism: usize) -> (capacity: Option<u32>)
    ensures
        capacity_for(parallelism as int) <= u32::MAX ==> capacity == Some(
            capacity_for(parallelism as int) as u32,
        ),
        capacity_for(parallelism as int) > u32::MAX ==> capacity is None,
{
    if parallelism <= (u32::MAX / CONNECTIONS_PER_UNIT) as usize {
        Some((parallelism as u32) * CONNECTIONS_PER_UNIT)
    } else {
        None
    }
}

/// The number of workers for a machine of the given parallelism, or `None`
/// where it does not fit the machine word.
pub fn worker_count(parallelism: usize) -> (workers: Option<usize>)
    ensures
        workers_for(parallelism as int) <= usize::MAX ==> workers == Some(
            workers_for(parallelism as int) as usize,
        ),
        workers_for(parallelism as int) > usize::MAX ==> workers is None,
{
    if parallelism < usize::MAX {
        Some(parallelism + 1)
    } else {
        None
    }
}

/// The number of front-end threads for a machine of the given parallelism, or
/// `None` where it does not fit the machine word.
pub fn acceptor_count(parallelism: usize) -> (acceptors: Option<usize>)
    ensures
        acceptors_for(parallelism as int) <= usize::MAX ==> acceptors == Some(
            acceptors_for(parallelism as int) as usize,
        ),
        acceptors_for(parallelism as int) > usize::MAX ==> acceptors is None,
{
    if parallelism <= usize::MAX / ACCEPTORS_PER_UNIT {
        Some(parallelism * ACCEPTORS_PER_UNIT)
    } else {
        None
    }
}

/// Calls `num_cpus::get`, which asks the machine for the number of logical
/// cores that this process may use. The answer depends on the machine and on
/// the moment, so nothing is claimed of it.
#[verifier::external_body]
fn available_parallelism() -> (units: usize) {
    num_cpus::get()
}

impl Sizing {
    /// The sizes for `parallelism` units.
    pub open spec fn of(parallelism: int) -> Sizing {
        Sizing {
            capacity: capacity_for(parallelism) as u32,
            workers: workers_for(parallelism) as usize,
            acceptors: acceptors_for(parallelism) as usize,
        }
    }

    /// The sizes for a machine of the given parallelism: `Some` exactly when
    /// all three fit.
    pub fn for_parallelism(parallelism: usize) -> (sizing: Option<Sizing>)
        ensures
            sizes_fit(parallelism as int) ==> sizing == Some(Sizing::of(parallelism as int)),
            !sizes_fit(parallelism as int) ==> sizing is None,
    {
        match (pool_capacity(parallelism), worker_count(parallelism), acceptor_count(parallelism)) {
            (Some(capacity), Some(workers), Some(acceptors)) => Some(
                Sizing { capacity, workers, acceptors },
            ),
            _ => None,
        }
    }

    /// The sizes for the machine that the process runs on. Whatever the
    /// machine reports as its parallelism, the answer is what is chosen for
    /// it: its sizes where they fit, and `None` only where one does not.
    pub fn detect() -> (sizing: Option<Sizing>)
        ensures
            exists|parallelism: usize| sizing == #[trigger] Sizing::chosen(parallelism as int),
            sizing matches Some(found) ==> exists|parallelism: usize|
                sizes_fit(parallelism as int) && found == #[trigger] Sizing::of(parallelism as int),
    {
        let units = available_parallelism();
        let sizing = Sizing::for_parallelism(units);
        assert(sizing == Sizing::chosen(units as int));
        sizing
    }

    /// What is chosen for `parallelism` units: the sizes for them where all
    /// three fit, and nothing where one does not.
    pub open spec fn chosen(parallelism: int) -> Option<Sizing> {
        if sizes_fit(parallelism) {
            Some(Sizing::of(parallelism))
        } else {
            None
        }
    }
}

} // verus!
