//! The diagnostic run, played on the ledger against a description of the
//! machine.
//!
//! A run prepares a kernel and then, once for each iteration, allocates a
//! buffer, binds it to the kernel's argument, submits the kernel and lets the
//! buffer go, reading the buffer's reference count after each of the first
//! three. The two modes differ in the submission alone.

use crate::config::Config;
use crate::device::{get_device, offers_device};
use crate::error::{Error, QueryError, SetupError, SubmitError, WaitError};
use crate::mode::{Checkpoint, Mode, ARGUMENT};
use crate::report::{reading_line, ref_count_line};
use crate::state::{lemma_same_state, AllocationState, CommandState, SlotState, State};
use crate::tracker::{Access, AllocId, Execution, Response, Tracker};
use vstd::prelude::*;

verus! {

/// How a machine behaves where the lifecycle of a buffer leaves it open.
pub struct Machine {
    /// For each platform, in the order of enumeration, the number of devices
    /// of the wanted class that it lists; `None` where listing them fails.
    pub listings: Vec<Option<usize>>,
    /// Whether the kernel source compiles.
    pub compiles: bool,
    /// Whether the queue takes the commands handed to it.
    pub accepts: bool,
    /// Whether the driver takes a claim on a command's buffers for the time
    /// the command is in flight.
    pub retains: bool,
    /// Whether commands run to their end.
    pub completes: bool,
    /// Whether the driver answers a query for a reference count.
    pub reports: bool,
}

/// One reading of the reference count of the buffer of an iteration.
#[derive(Clone, Copy, Debug, PartialEq, Eq)]
pub struct Observation {
    pub iteration: i32,
    pub checkpoint: Checkpoint,
    pub reading: Result<u128, QueryError>,
}

impl Observation {
    /// The line that the run prints for the reading.
    pub open spec fn text(self) -> Seq<char> {
        reading_line(self.checkpoint.label_text(), self.iteration as int, self.reading)
    }

    /// The line that the run prints for the reading.
    pub fn line(&self) -> (line: String)
        ensures
            line@ == self.text(),
    {
        ref_count_line(self.checkpoint.label(), self.iteration, self.reading)
    }
}

/// What a run leaves: its readings in the order they were made, the failure
/// that ended it, if one did, and the ledger as it stood at the end, where
/// the run got as far as to have one.
pub struct Outcome {
    pub observations: Vec<Observation>,
    pub failure: Option<Error>,
    pub ledger: Option<Tracker>,
}

/// Some platform of the machine lists a device.
pub open spec fn has_offer(listings: Seq<Option<usize>>) -> bool {
    exists|p: int| 0 <= p < listings.len() && offers_device(#[trigger] listings[p])
}

/// The checkpoint of the reading at `position` within an iteration.
pub open spec fn checkpoint_at(mode: Mode, position: int) -> Checkpoint {
    if position == 0 {
        Checkpoint::Creation
    } else if position == 1 {
        Checkpoint::SettingArgument
    } else {
        mode.closing_checkpoint()
    }
}

/// The reference count of an iteration's buffer at the reading at `position`:
/// one for the caller after allocation; two, with the kernel's slot, after
/// binding; and at the last reading two again, or three where the command was
/// not waited for and the driver keeps the buffer for it.
pub open spec fn count_at(mode: Mode, retains: bool, position: int) -> nat {
    if position == 0 {
        1
    } else if position == 1 {
        2
    } else if mode is NoEvent && retains {
        3
    } else {
        2
    }
}

/// The reading at `position` within an iteration: the count, or a failure
/// where the driver does not answer.
pub open spec fn reading_at(mode: Mode, retains: bool, reports: bool, position: int) -> Result<
    u128,
    QueryError,
> {
    if reports {
        Ok(count_at(mode, retains, position) as u128)
    } else {
        Err(QueryError::Unsupported)
    }
}

/// The `k`-th reading of a run: three are made in each iteration.
pub open spec fn observation_at(mode: Mode, retains: bool, reports: bool, k: int) -> Observation {
    Observation {
        iteration: (k / 3) as i32,
        checkpoint: checkpoint_at(mode, k % 3),
        reading: reading_at(mode, retains, reports, k % 3),
    }
}

/// The first `len` readings of a run.
pub open spec fn observations(mode: Mode, retains: bool, reports: bool, len: nat) -> Seq<
    Observation,
> {
    Seq::new(len, |k: int| observation_at(mode, retains, reports, k))
}

/// The failure that ends a run, if any: no device, a kernel that does not
/// compile, and, where there is an iteration to make, a queue that refuses
/// the command or a command that fails while the run waits for it.
pub open spec fn failure_of(mode: Mode, config: Config, machine: Machine) -> Option<Error> {
    if !has_offer(machine.listings@) {
        Some(Error::Setup(SetupError::NoDevice))
    } else if !machine.compiles {
        Some(Error::Setup(SetupError::Compilation))
    } else if config.iterations() == 0 {
        None
    } else if !machine.accepts {
        Some(Error::Submit(SubmitError::QueueRejected))
    } else if mode is Waited && !machine.completes {
        Some(Error::Wait(WaitError::ExecutionFault))
    } else {
        None
    }
}

/// The number of readings that a run makes: none where it cannot be
/// prepared, the first two of the first iteration where the submission or
/// the wait fails, and three for each iteration where nothing fails.
pub open spec fn readings_of(mode: Mode, config: Config, machine: Machine) -> nat {
    match failure_of(mode, config, machine) {
        Some(Error::Setup(_)) => 0,
        Some(_) => 2,
        None => 3 * config.iterations(),
    }
}

/// The buffer of an iteration, held by the run or let go.
pub open spec fn buffer_of(config: Config, owned: bool) -> AllocationState {
    AllocationState { len: config.elem_count as nat, access: Access::ReadWrite, owned }
}

/// The command of iteration `k`: it names the buffer of that iteration alone.
pub open spec fn command_of(mode: Mode, retains: bool, k: int, completed: bool) -> CommandState {
    CommandState { referenced: seq![k], retained: retains, awaitable: mode is Waited, completed }
}

/// The ledger after `n` iterations: every buffer let go by the run, the last
/// one still bound to the kernel, and every command waited for exactly where
/// the mode waits.
pub open spec fn ledger_after(mode: Mode, config: Config, retains: bool, n: nat) -> State {
    State {
        allocations: Seq::new(n, |k: int| buffer_of(config, false)),
        slots: seq![
            SlotState {
                name: ARGUMENT@,
                occupant: if n == 0 {
                    None
                } else {
                    Some(n - 1)
                },
            },
        ],
        commands: Seq::new(n, |k: int| command_of(mode, retains, k, mode is Waited)),
    }
}

/// The ledger of a run that ended in its first iteration, at the submission
/// or, with the command submitted, at the wait: its one buffer is held by
/// the run and bound to the kernel.
pub open spec fn ledger_stopped(
    mode: Mode,
    config: Config,
    retains: bool,
    submitted: bool,
) -> State {
    State {
        allocations: seq![buffer_of(config, true)],
        slots: seq![SlotState { name: ARGUMENT@, occupant: Some(0) }],
        commands: if submitted {
            seq![command_of(mode, retains, 0, false)]
        } else {
            Seq::empty()
        },
    }
}

/// The ledger that a run leaves; none where the run could not be prepared.
pub open spec fn ledger_of(mode: Mode, config: Config, machine: Machine) -> Option<State> {
    match failure_of(mode, config, machine) {
        Some(Error::Setup(_)) => None,
        Some(Error::Submit(_)) => Some(ledger_stopped(mode, config, machine.retains, false)),
        Some(_) => Some(ledger_stopped(mode, config, machine.retains, true)),
        None => Some(ledger_after(mode, config, machine.retains, config.iterations())),
    }
}

impl Outcome {
    /// The lines that the run prints, one for each reading, in order.
    pub fn lines(&self) -> (lines: Vec<String>)
        ensures
            lines.len() == self.observations.len(),
            forall|k: int|
                0 <= k < lines.len() ==> (#[trigger] lines[k])@ == self.observations[k].text(),
    {
        let mut lines: Vec<String> = Vec::new();
        let mut k: usize = 0;
        while k < self.observations.len()
            invariant
                k <= self.observations.len(),
                lines.len() == k,
                forall|j: int| 0 <= j < k ==> (#[trigger] lines[j])@ == self.observations[j].text(),
            decreases self.observations.len() - k,
        {
            lines.push(self.observations[k].line());
            k += 1;
        }
        lines
    }

    /// The outcome is the one that a run in `mode` with these settings has on
    /// the machine.
    pub open spec fn is_outcome_of(self, mode: Mode, config: Config, machine: Machine) -> bool {
        &&& self.failure == failure_of(mode, config, machine)
        &&& self.observations@ == observations(
            mode,
            machine.retains,
            machine.reports,
            readings_of(mode, config, machine),
        )
        &&& match self.ledger {
            Some(tracker) => tracker.wf() && Some(tracker@) == ledger_of(mode, config, machine),
            None => ledger_of(mode, config, machine) is None,
        }
    }
}

/// Prepares the ledger for a run on the machine: a kernel with its one
/// argument slot, empty. Fails where no platform lists a device of the
/// wanted class, and where the kernel does not compile.
pub fn setup(machine: &Machine) -> (result: Result<Tracker, SetupError>)
    ensures
        match result {
            Ok(tracker) => {
                &&& has_offer(machine.listings@)
                &&& machine.compiles
                &&& tracker.wf()
                &&& tracker@ == State::init(seq![ARGUMENT@])
            },
            Err(SetupError::NoDevice) => !has_offer(machine.listings@),
            Err(SetupError::Compilation) => has_offer(machine.listings@) && !machine.compiles,
        },
{
    if get_device(&machine.listings).is_none() {
        return Err(SetupError::NoDevice);
    }
    if !machine.compiles {
        return Err(SetupError::Compilation);
    }
    let names: Vec<&str> = vec![ARGUMENT];
    let tracker = Tracker::new(names.as_slice());
    assert(names@.map_values(|n: &str| n@) =~= seq![ARGUMENT@]);
    Ok(tracker)
}

/// Reads the count of a buffer as the machine lets it be read.
fn read(tracker: &Tracker, machine: &Machine, buffer: AllocId) -> (reading: Result<
    u128,
    QueryError,
>)
    requires
        tracker@.knows(buffer@),
    ensures
        reading == if machine.reports {
            Ok::<u128, QueryError>(tracker@.ref_count(buffer@) as u128)
        } else {
            Err::<u128, QueryError>(QueryError::Unsupported)
        },
        machine.reports ==> tracker@.ref_count(buffer@) <= u128::MAX,
{
    if machine.reports {
        tracker.ref_count(buffer)
    } else {
        Err(QueryError::Unsupported)
    }
}

/// Plays a run in the given mode on the ledger, with the machine behaving as
/// described, and returns what the run would print, how it would end, and
/// what it would leave behind.
pub fn run(mode: Mode, config: &Config, machine: &Machine) -> (outcome: Outcome)
    ensures
        outcome.is_outcome_of(mode, *config, *machine),
{
    let mut observations: Vec<Observation> = Vec::new();
    let mut tracker = match setup(machine) {
        Ok(tracker) => tracker,
        Err(e) => {
            assert(observations@ =~= self::observations(mode, machine.retains, machine.reports, 0));
            return Outcome { observations, failure: Some(Error::Setup(e)), ledger: None };
        },
    };
    proof {
        lemma_same_state(tracker@, ledger_after(mode, *config, machine.retains, 0));
    }
    let mut i: i32 = 0;
    while i < config.iteration_count
        invariant
            0 <= i,
            i <= config.iteration_count || i == 0,
            has_offer(machine.listings@),
            machine.compiles,
            i > 0 ==> machine.accepts && (mode is Waited ==> machine.completes),
            tracker.wf(),
            tracker@ == ledger_after(mode, *config, machine.retains, i as nat),
            observations@ == self::observations(
                mode,
                machine.retains,
                machine.reports,
                (3 * i) as nat,
            ),
        decreases config.iteration_count - i,
    {
        let buffer = tracker.allocate(config.elem_count, Access::ReadWrite);
        let created = read(&tracker, machine, buffer);
        observations.push(
            Observation { iteration: i, checkpoint: Checkpoint::Creation, reading: created },
        );

        proof {
            tracker@.lemma_slot_index(ARGUMENT@, 0);
        }
        tracker.bind(ARGUMENT, buffer).unwrap();
        let bound = read(&tracker, machine, buffer);
        observations.push(
            Observation { iteration: i, checkpoint: Checkpoint::SettingArgument, reading: bound },
        );
        assert(tracker@.occupants() =~= seq![buffer@]);
        assert(tracker@.occupants()[0] == buffer@);

        let response = if machine.accepts {
            Response::Accepted { retained: machine.retains }
        } else {
            Response::Rejected
        };
        let event = match tracker.submit(mode.completion(), response) {
            Ok(event) => event,
            Err(refusal) => {
                proof {
                    assert(observations@ =~= self::observations(
                        mode,
                        machine.retains,
                        machine.reports,
                        2,
                    ));
                    lemma_same_state(
                        tracker@,
                        ledger_stopped(mode, *config, machine.retains, false),
                    );
                }
                return Outcome {
                    observations,
                    failure: Some(Error::Submit(refusal)),
                    ledger: Some(tracker),
                };
            },
        };
        if let Some(event) = event {
            let execution = if machine.completes {
                Execution::Completed
            } else {
                Execution::Faulted
            };
            if let Err(fault) = tracker.wait(event, execution) {
                proof {
                    assert(observations@ =~= self::observations(
                        mode,
                        machine.retains,
                        machine.reports,
                        2,
                    ));
                    lemma_same_state(
                        tracker@,
                        ledger_stopped(mode, *config, machine.retains, true),
                    );
                }
                return Outcome {
                    observations,
                    failure: Some(Error::Wait(fault)),
                    ledger: Some(tracker),
                };
            }
        }
        let closing = read(&tracker, machine, buffer);
        observations.push(
            Observation { iteration: i, checkpoint: mode.closing_checkpoint(), reading: closing },
        );
        tracker.release(buffer);
        proof {
            assert(observations@ =~= self::observations(
                mode,
                machine.retains,
                machine.reports,
                (3 * (i + 1)) as nat,
            ));
            lemma_same_state(
                tracker@,
                ledger_after(mode, *config, machine.retains, (i + 1) as nat),
            );
        }
        i += 1;
    }
    Outcome { observations, failure: None, ledger: Some(tracker) }
}

/// The run that submits without a completion event. Where the driver keeps
/// the buffer for the command, the count read after the submission is three,
/// and nothing takes that claim back.
pub fn leak(config: &Config, machine: &Machine) -> (outcome: Outcome)
    ensures
        outcome.is_outcome_of(Mode::NoEvent, *config, *machine),
{
    run(Mode::NoEvent, config, machine)
}

/// The run that submits with a completion event and waits on it. The count
/// read after the wait is what it was after binding, whatever the driver
/// kept for the command.
pub fn no_leak(config: &Config, machine: &Machine) -> (outcome: Outcome)
    ensures
        outcome.is_outcome_of(Mode::Waited, *config, *machine),
{
    run(Mode::Waited, config, machine)
}

} // verus!
