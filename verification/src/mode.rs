//! The two modes of the diagnostic run and the points at which it reads the
//! reference count.

use crate::tracker::Completion;
use vstd::prelude::*;

verus! {

/// The name of the kernel that the run submits.
pub const KERNEL_NAME: &'static str = "simple";

/// The name of the kernel's one argument slot, to which the buffer is bound.
pub const ARGUMENT: &'static str = "out";

/// The source text of the kernel: it writes its own index to each element of
/// the buffer.
pub const KERNEL_SOURCE: &'static str =
    "kernel void simple(global float* out) {out[get_global_id(0)] = get_global_id(0);  }";

/// How the run submits its command.
#[derive(Clone, Copy, Debug, PartialEq, Eq, Structural)]
pub enum Mode {
    /// Without a completion event: the run goes on at once, and what the
    /// driver keeps for the command it may keep for good.
    NoEvent,
    /// With a completion event that the run waits on before it goes on.
    Waited,
}

/// A point of the run at which the reference count is read.
#[derive(Clone, Copy, Debug, PartialEq, Eq, Structural)]
pub enum Checkpoint {
    /// After the buffer was allocated.
    Creation,
    /// After the buffer was bound to the kernel's argument.
    SettingArgument,
    /// After the command was submitted without an event.
    EnqueueingKernel,
    /// After the command was submitted with an event and waited for.
    WaitingForKernel,
}

impl Checkpoint {
    /// The words by which a printed line names the checkpoint.
    pub open spec fn label_text(self) -> Seq<char> {
        match self {
            Checkpoint::Creation => "creation"@,
            Checkpoint::SettingArgument => "setting argument"@,
            Checkpoint::EnqueueingKernel => "enqueueing kernel"@,
            Checkpoint::WaitingForKernel => "waiting for kernel"@,
        }
    }

    /// The words by which a printed line names the checkpoint.
    pub fn label(&self) -> (text: &'static str)
        ensures
            text@ == self.label_text(),
    {
        match self {
            Checkpoint::Creation => "creation",
            Checkpoint::SettingArgument => "setting argument",
            Checkpoint::EnqueueingKernel => "enqueueing kernel",
            Checkpoint::WaitingForKernel => "waiting for kernel",
        }
    }
}

impl Mode {
    /// Whether the mode's submissions carry a completion event.
    pub open spec fn completion_spec(&self) -> Completion {
        match self {
            Mode::NoEvent => Completion::Unobserved,
            Mode::Waited => Completion::Event,
        }
    }

    /// The checkpoint at which the mode reads the count for the last time in
    /// an iteration.
    pub open spec fn closing_checkpoint_spec(&self) -> Checkpoint {
        match self {
            Mode::NoEvent => Checkpoint::EnqueueingKernel,
            Mode::Waited => Checkpoint::WaitingForKernel,
        }
    }

    /// Whether the mode's submissions carry a completion event.
    #[verifier::when_used_as_spec(completion_spec)]
    pub fn completion(&self) -> (completion: Completion)
        ensures
            completion == self.completion_spec(),
    {
        match self {
            Mode::NoEvent => Completion::Unobserved,
            Mode::Waited => Completion::Event,
        }
    }

    /// The checkpoint at which the mode reads the count for the last time in
    /// an iteration: after the submission where nothing is waited for, after
    /// the wait where something is.
    #[verifier::when_used_as_spec(closing_checkpoint_spec)]
    pub fn closing_checkpoint(&self) -> (checkpoint: Checkpoint)
        ensures
            checkpoint == self.closing_checkpoint_spec(),
    {
        match self {
            Mode::NoEvent => Checkpoint::EnqueueingKernel,
            Mode::Waited => Checkpoint::WaitingForKernel,
        }
    }
}

} // verus!
