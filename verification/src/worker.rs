//! One worker of the bridge and the job it works on.
//!
//! A worker handles one job at a time: it takes a job, waits for a
//! connection, runs the engine while it holds the connection, and is idle
//! again once the connection went back.

use crate::pool::Connection;
use crate::request::GraphQLData;
use vstd::prelude::*;

verus! {

/// The handle to the eventual result of one job. Tickets are handed out in
/// the order of submission and never twice.
#[derive(Clone, Copy, Debug, PartialEq, Eq, Structural)]
pub struct PendingResult {
    /// The number of the submission.
    pub ticket: u64,
}

/// One request on its way to a worker, with the handle that its result is
/// written to.
#[derive(Debug, PartialEq)]
pub struct QueuedJob {
    /// The request to execute.
    pub request: GraphQLData,
    /// Where the result goes.
    pub pending: PendingResult,
}

/// Where a worker stands in its cycle.
#[derive(Clone, Copy, Debug, PartialEq, Eq, Structural)]
pub enum Phase {
    /// The worker has no job.
    Idle,
    /// The worker has a job and waits for a connection.
    Waiting(PendingResult),
    /// The worker holds a connection and the engine runs on its job.
    Executing(PendingResult, Connection),
    /// The worker has left its loop for good.
    Stopped,
}

/// One long-lived worker.
#[derive(Clone, Copy, Debug, PartialEq, Eq, Structural)]
pub struct GraphQLExecutor {
    /// Where the worker stands.
    pub phase: Phase,
}

impl GraphQLExecutor {
    /// The job that the worker has in hand, if any.
    pub open spec fn holding(self) -> Option<PendingResult> {
        match self.phase {
            Phase::Waiting(pending) => Some(pending),
            Phase::Executing(pending, _) => Some(pending),
            _ => None,
        }
    }

    /// The connection that the worker holds, if any.
    pub open spec fn connection(self) -> Option<Connection> {
        match self.phase {
            Phase::Executing(_, conn) => Some(conn),
            _ => None,
        }
    }

    /// The worker after it took the job of `pending`; only an idle worker
    /// takes one.
    pub open spec fn assigned(self, pending: PendingResult) -> GraphQLExecutor {
        if self.phase is Idle {
            GraphQLExecutor { phase: Phase::Waiting(pending) }
        } else {
            self
        }
    }

    /// The worker after it got `conn`; only a waiting worker gets one.
    pub open spec fn attached(self, conn: Connection) -> GraphQLExecutor {
        match self.phase {
            Phase::Waiting(pending) => GraphQLExecutor { phase: Phase::Executing(pending, conn) },
            _ => self,
        }
    }

    /// The worker after its job ended, with or without a connection.
    pub open spec fn released(self) -> GraphQLExecutor {
        if self.holding() is Some {
            GraphQLExecutor { phase: Phase::Idle }
        } else {
            self
        }
    }

    /// The worker after it left its loop; only an idle worker leaves.
    pub open spec fn retired(self) -> GraphQLExecutor {
        if self.phase is Idle {
            GraphQLExecutor { phase: Phase::Stopped }
        } else {
            self
        }
    }

    /// A worker without a job.
    pub fn new() -> (worker: GraphQLExecutor)
        ensures
            worker.phase is Idle,
    {
        GraphQLExecutor { phase: Phase::Idle }
    }

    /// Takes the job of `pending`. Answers whether the worker was idle; where
    /// it was not, nothing changes.
    pub fn assign(&mut self, pending: PendingResult) -> (taken: bool)
        ensures
            taken == (old(self).phase is Idle),
            *final(self) == old(self).assigned(pending),
    {
        match self.phase {
            Phase::Idle => {
                self.phase = Phase::Waiting(pending);
                true
            },
            _ => false,
        }
    }

    /// Starts the engine run on `conn`. Answers whether the worker was
    /// waiting for a connection; where it was not, nothing changes.
    pub fn attach(&mut self, conn: Connection) -> (started: bool)
        ensures
            started == (old(self).phase is Waiting),
            *final(self) == old(self).attached(conn),
    {
        match self.phase {
            Phase::Waiting(pending) => {
                self.phase = Phase::Executing(pending, conn);
                true
            },
            _ => false,
        }
    }

    /// Ends the engine run: the worker is idle and hands back its job's
    /// handle and the connection it held. `None`, and no change, where the
    /// engine was not running.
    pub fn finish(&mut self) -> (ended: Option<(PendingResult, Connection)>)
        ensures
            ended == (match old(self).phase {
                Phase::Executing(pending, conn) => Some((pending, conn)),
                _ => None,
            }),
            old(self).phase is Executing ==> *final(self) == old(self).released(),
            !(old(self).phase is Executing) ==> *final(self) == *old(self),
    {
        match self.phase {
            Phase::Executing(pending, conn) => {
                self.phase = Phase::Idle;
                Some((pending, conn))
            },
            _ => None,
        }
    }

    /// Gives up waiting for a connection: the worker is idle and hands back
    /// its job's handle. `None`, and no change, where it was not waiting.
    pub fn give_up(&mut self) -> (dropped: Option<PendingResult>)
        ensures
            dropped == (match old(self).phase {
                Phase::Waiting(pending) => Some(pending),
                _ => None,
            }),
            old(self).phase is Waiting ==> *final(self) == old(self).released(),
            !(old(self).phase is Waiting) ==> *final(self) == *old(self),
    {
        match self.phase {
            Phase::Waiting(pending) => {
                self.phase = Phase::Idle;
                Some(pending)
            },
            _ => None,
        }
    }

    /// Leaves the loop. Answers whether the worker was idle; where it was
    /// not, nothing changes.
    pub fn stop(&mut self) -> (left: bool)
        ensures
            left == (old(self).phase is Idle),
            *final(self) == old(self).retired(),
    {
        match self.phase {
            Phase::Idle => {
                self.phase = Phase::Stopped;
                true
            },
            _ => false,
        }
    }
}

} // verus!
