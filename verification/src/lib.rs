//! A bridge between a non-blocking front end and a fixed set of blocking
//! workers that run queries over a bounded pool of store connections.
//!
//! The crate holds every decision of the bridge as sequential state: who may
//! check out a connection, which job a worker takes next, when a pending
//! result is resolved, and what the front end answers. Threads, sockets and
//! the store itself stay with the program that drives it: it asks what to do
//! next, does the waiting and the I/O, and reports what came of it.
//!
//! - `pool`: the connection pool, a fixed number of slots.
//! - `worker`: one worker and the job in its hand.
//! - `worker_pool`: the workers with their queue and their connections.
//! - `dispatcher`: submission, pending results, and their resolution.
//! - `request`: the request that is carried, and the outcome of the work on it.
//! - `frontend`: the answer that a result gets.
//! - `sizing`: how many connections, workers and front-end threads a machine gets.
//! - `failure`: the kinds of failure of a job.
//! - `tally`: sums over a sequence, by which connections and engine runs are counted.
//! - `laws`: what holds of the bridge in every state it can reach.

pub mod dispatcher;
pub mod failure;
pub mod frontend;
pub mod laws;
pub mod pool;
pub mod request;
pub mod sizing;
pub mod tally;
pub mod worker;
pub mod worker_pool;
