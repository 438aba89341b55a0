//! A ledger for the reference count of device memory buffers.
//!
//! A buffer on a compute device is kept alive by a count of the claims on it:
//! the caller that allocated it, each kernel argument slot that holds it, and
//! each command in flight that the driver keeps it for. The [`tracker`] follows
//! that count through allocation, binding, submission, waiting and release, and
//! shows where a command that is submitted without a completion event leaves a
//! claim that nothing ever takes back. The other modules hold what a diagnostic
//! run needs beside it: the choice of a device, the two modes, and the lines
//! that a run prints.

pub mod config;
pub mod device;
pub mod error;
pub mod laws;
pub mod mode;
pub mod report;
pub mod run;
pub mod state;
pub mod tally;
pub mod tracker;
