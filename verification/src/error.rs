//! The failures of a diagnostic run, by the stage at which they arise.

use vstd::prelude::*;

verus! {

/// Why a run could not be prepared.
#[derive(Clone, Copy, Debug, PartialEq, Eq, Structural)]
pub enum SetupError {
    /// No platform offers a device of the requested class.
    NoDevice,
    /// The kernel source did not compile.
    Compilation,
}

/// Why a buffer could not be bound to a kernel argument.
#[derive(Clone, Copy, Debug, PartialEq, Eq, Structural)]
pub enum BindError {
    /// The kernel has no argument slot of that name.
    UnknownSlot,
    /// The caller holds no buffer under that identity.
    UnknownAllocation,
}

/// Why a command was not taken into the queue.
#[derive(Clone, Copy, Debug, PartialEq, Eq, Structural)]
pub enum SubmitError {
    /// An argument slot of the kernel holds no buffer.
    UnboundArgument,
    /// The queue refused the command.
    QueueRejected,
}

/// Why waiting for a command failed.
#[derive(Clone, Copy, Debug, PartialEq, Eq, Structural)]
pub enum WaitError {
    /// No submitted command carries that completion event.
    InvalidHandle,
    /// The device reported that the command failed while it ran.
    ExecutionFault,
}

/// Why a reference count could not be read.
#[derive(Clone, Copy, Debug, PartialEq, Eq, Structural)]
pub enum QueryError {
    /// The driver does not answer the query.
    Unsupported,
    /// The query was made and failed.
    Failed,
}

/// Any failure of a run. All but a failed query end the mode that is running.
#[derive(Clone, Copy, Debug, PartialEq, Eq, Structural)]
pub enum Error {
    Setup(SetupError),
    Bind(BindError),
    Submit(SubmitError),
    Wait(WaitError),
    Query(QueryError),
}

impl Error {
    /// Whether the failure ends the running mode. A failed query does not: it
    /// is reported in place of the count and the run goes on.
    pub open spec fn fatal(self) -> bool {
        !(self is Query)
    }

    pub fn is_fatal(&self) -> (fatal: bool)
        ensures
            fatal == self.fatal(),
    {
        match self {
            Error::Query(_) => false,
            _ => true,
        }
    }
}

} // verus!
