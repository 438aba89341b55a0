//! What holds of the reference counts whatever the ledger is used for, of the
//! runs whatever the machine does, and of the numerals in the printed lines.

use crate::config::Config;
use crate::error::QueryError;
use crate::mode::Mode;
use crate::report::{decimal, digit_value, numeral_value};
use crate::run::{failure_of, ledger_after, observations, readings_of, Machine};
use crate::state::{holding, keeping, stranding, CommandState, Op, SlotState, State};
use crate::tally::{
    lemma_tally_le, lemma_tally_positive, lemma_tally_push, lemma_tally_update, lemma_tally_zero,
    one_if, tally,
};
use crate::tracker::Completion;
use vstd::prelude::*;

verus! {

/// The reference count of a buffer is the number of claims on it: one of the
/// caller while it holds the buffer, one of each slot that the buffer is
/// bound to, and one of each command in flight that the driver keeps it for.
/// The buffer is given back exactly when no claim is left, and a buffer that
/// was never allocated has none.
pub proof fn law_count_is_claims(s: State, a: int)
    ensures
        s.ref_count(a) == one_if(s.owned(a)) + s.bindings(a) + s.in_flight(a),
        s.bindings(a) <= s.slots.len(),
        s.stranded(a) <= s.in_flight(a) <= s.commands.len(),
        s.reclaimed(a) <==> s.knows(a) && !s.owned(a) && s.bindings(a) == 0 && s.in_flight(a) == 0,
        s.wf() && !s.knows(a) ==> s.ref_count(a) == 0,
{
    lemma_tally_le(s.slots, holding(a));
    lemma_tally_le(s.commands, keeping(a));
    lemma_stranded_le_in_flight(s.commands, a);
    if s.wf() && !s.knows(a) {
        assert forall|c: int| 0 <= c < s.commands.len() implies !keeping(a)(
            #[trigger] s.commands[c],
        ) by {
            let r = s.commands[c].referenced;
            if r.contains(a) {
                let j = choose|j: int| 0 <= j < r.len() && r[j] == a;
                assert(s.knows(s.commands[c].referenced[j]));
            }
        }
        lemma_tally_zero(s.slots, holding(a));
        lemma_tally_zero(s.commands, keeping(a));
    }
}

/// Every operation leaves the ledger well formed.
pub proof fn law_step_keeps_wf(s: State, op: Op)
    requires
        s.wf(),
        s.enabled(op),
    ensures
        s.apply(op).wf(),
{
    match op {
        Op::Allocate { len, access } => s.lemma_allocate(len, access),
        Op::Bind { slot, alloc } => s.lemma_bind(slot, alloc),
        Op::Submit { completion, retained } => s.lemma_submit(completion, retained),
        Op::Complete { event } => s.lemma_complete(event),
        Op::Release { alloc } => s.lemma_release(alloc),
    }
}

/// A submission with a completion event, followed by a successful wait on
/// that event, leaves every reference count where it was before the
/// submission, whether the driver kept the buffers for the command or not.
pub proof fn law_wait_restores_counts(s: State, retained: bool, b: int)
    requires
        s.wf(),
        s.fully_bound(),
    ensures
        s.submit(Completion::Event, retained).awaitable(s.next_event()),
        s.submit(Completion::Event, retained).complete(s.next_event()).ref_count(b) == s.ref_count(
            b,
        ),
{
    let t = s.submit(Completion::Event, retained);
    let e = s.next_event();
    s.lemma_submit(Completion::Event, retained);
    t.lemma_complete(e);
    assert(t.ref_count(b) == s.ref_count(b) + one_if(retained && s.occupants().contains(b)));
}

/// A submission lowers no reference count, with or without an event, and
/// whatever the driver does with the buffers: each count stays or rises by
/// one.
pub proof fn law_submit_never_lowers(s: State, completion: Completion, retained: bool, b: int)
    requires
        s.wf(),
        s.fully_bound(),
    ensures
        s.ref_count(b) <= s.submit(completion, retained).ref_count(b) <= s.ref_count(b) + 1,
        s.submit(completion, retained).ref_count(b) == s.ref_count(b) + 1 <==> retained
            && s.occupants().contains(b),
{
    s.lemma_submit(completion, retained);
    assert(s.submit(completion, retained).ref_count(b) == s.ref_count(b) + one_if(
        retained && s.occupants().contains(b),
    ));
}

/// The claim that the driver takes for a command without an event is
/// stranded: no operation of the ledger takes it back, so the count of the
/// buffer stays raised for as long as the ledger is kept.
pub proof fn law_stranded_claim_stays(s: State, op: Op, b: int)
    requires
        s.wf(),
        s.enabled(op),
    ensures
        s.apply(op).stranded(b) >= s.stranded(b),
        s.apply(op).ref_count(b) >= s.apply(op).stranded(b),
{
    let t = s.apply(op);
    match op {
        Op::Submit { completion, retained } => {
            lemma_tally_push(s.commands, stranding(b), t.commands.last());
        },
        Op::Complete { event } => {
            lemma_tally_update(s.commands, stranding(b), event, t.commands[event]);
        },
        _ => {},
    }
    lemma_stranded_le_in_flight(t.commands, b);
}

/// The stranded claims on a buffer are among the claims in flight on it.
proof fn lemma_stranded_le_in_flight(commands: Seq<CommandState>, b: int)
    ensures
        tally(commands, stranding(b)) <= tally(commands, keeping(b)),
    decreases commands.len(),
{
    if commands.len() > 0 {
        lemma_stranded_le_in_flight(commands.drop_last(), b);
    }
}

/// Binding buffer `a` to a slot and then another buffer `b` to the same slot
/// takes one from the count of `a` and adds one to the count of `b`. Buffer
/// `a` is given back exactly where the slot was the last to hold it.
pub proof fn law_rebind(s: State, slot: int, a: int, b: int)
    requires
        s.wf(),
        0 <= slot < s.slots.len(),
        s.knows(a),
        s.knows(b),
        a != b,
    ensures
        s.bind(slot, a).bind(slot, b).ref_count(a) == s.bind(slot, a).ref_count(a) - 1,
        s.bind(slot, a).bind(slot, b).ref_count(b) == s.bind(slot, a).ref_count(b) + 1,
        s.bind(slot, a).bind(slot, b).reclaimed(a) <==> s.bind(slot, a).ref_count(a) == 1,
{
    s.lemma_bind(slot, a);
    s.bind(slot, a).lemma_bind(slot, b);
}

/// A buffer that a command in flight is kept for is not given back: its count
/// is at least one until the completion of the command is observed.
pub proof fn law_in_flight_keeps_alive(s: State, c: int, b: int)
    requires
        0 <= c < s.commands.len(),
        s.commands[c].holds(b),
    ensures
        s.ref_count(b) >= 1,
        !s.reclaimed(b),
{
    lemma_tally_positive(s.commands, keeping(b), c);
}

/// In a run that waits and does not fail, every iteration reads after the
/// wait what it read after binding: what the submission added to the count is
/// taken back in full.
pub proof fn law_waited_run_restores(config: Config, machine: Machine, i: int)
    requires
        failure_of(Mode::Waited, config, machine) is None,
        0 <= i < config.iterations(),
    ensures
        readings_of(Mode::Waited, config, machine) == 3 * config.iterations(),
        ({
            let readings = observations(
                Mode::Waited,
                machine.retains,
                machine.reports,
                readings_of(Mode::Waited, config, machine),
            );
            &&& readings[3 * i + 1].iteration == i
            &&& readings[3 * i + 2].iteration == i
            &&& readings[3 * i + 2].reading == readings[3 * i + 1].reading
        }),
{
}

/// In a run that does not wait and does not fail, on a machine that lets the
/// count be read, no iteration reads less after the submission than after
/// binding; it reads more exactly where the driver keeps the buffer for the
/// command.
pub proof fn law_unobserved_run_never_falls(config: Config, machine: Machine, i: int)
    requires
        failure_of(Mode::NoEvent, config, machine) is None,
        0 <= i < config.iterations(),
        machine.reports,
    ensures
        readings_of(Mode::NoEvent, config, machine) == 3 * config.iterations(),
        ({
            let readings = observations(
                Mode::NoEvent,
                machine.retains,
                machine.reports,
                readings_of(Mode::NoEvent, config, machine),
            );
            &&& readings[3 * i + 1].iteration == i
            &&& readings[3 * i + 2].iteration == i
            &&& readings[3 * i + 1].reading matches Ok(bound)
            &&& readings[3 * i + 2].reading matches Ok(submitted)
            &&& submitted >= bound
            &&& submitted > bound <==> machine.retains
        }),
{
}

/// Every iteration of a run, in either mode, reads one after it allocated
/// its buffer, where the machine lets the count be read.
pub proof fn law_run_allocates_at_one(mode: Mode, config: Config, machine: Machine, i: int)
    requires
        failure_of(mode, config, machine) is None,
        0 <= i < config.iterations(),
        machine.reports,
    ensures
        observations(
            mode,
            machine.retains,
            machine.reports,
            readings_of(mode, config, machine),
        )[3 * i].reading == Ok::<u128, QueryError>(1),
{
}

/// Among the commands of a run, only the command of a buffer's own iteration
/// can keep that buffer alive.
proof fn lemma_run_commands(mode: Mode, config: Config, retains: bool, n: nat, b: int)
    ensures
        tally(ledger_after(mode, config, retains, n).commands, keeping(b)) == one_if(
            0 <= b < n && retains && mode is NoEvent,
        ),
        tally(ledger_after(mode, config, retains, n).commands, stranding(b)) == one_if(
            0 <= b < n && retains && mode is NoEvent,
        ),
    decreases n,
{
    let commands = ledger_after(mode, config, retains, n).commands;
    if n > 0 {
        let rest = ledger_after(mode, config, retains, (n - 1) as nat).commands;
        lemma_run_commands(mode, config, retains, (n - 1) as nat, b);
        assert(commands.drop_last() =~= rest);
        assert(commands.last().referenced[0] == n - 1);
    }
}

/// What a run leaves behind. After `n` iterations nothing but the kernel's
/// slot holds the last buffer, and nothing holds the buffers before it, with
/// one exception: where the run did not wait and the driver kept each buffer
/// for its command, every buffer carries one claim more, which is stranded.
/// The buffers before the last, let go by the run and bound nowhere, then
/// stay alive on that claim alone; in every other case they are given back.
pub proof fn law_run_leaves(mode: Mode, config: Config, retains: bool, n: nat, b: int)
    requires
        0 <= b < n,
    ensures
        ({
            let s = ledger_after(mode, config, retains, n);
            let kept = one_if(mode is NoEvent && retains);
            &&& s.wf()
            &&& !s.owned(b)
            &&& s.bindings(b) == one_if(b == n - 1)
            &&& s.stranded(b) == kept
            &&& s.ref_count(b) == s.bindings(b) + kept
            &&& s.reclaimed(b) <==> b < n - 1 && kept == 0
        }),
{
    let s = ledger_after(mode, config, retains, n);
    lemma_run_commands(mode, config, retains, n, b);
    lemma_tally_push(Seq::<SlotState>::empty(), holding(b), s.slots[0]);
}

/// The numeral of a number reads back as that number, and it begins with a
/// zero only where the number is zero.
pub proof fn law_decimal_reads_back(n: nat)
    ensures
        decimal(n).len() >= 1,
        numeral_value(decimal(n)) == n,
        decimal(n)[0] == '0' <==> n == 0,
    decreases n,
{
    let numeral = decimal(n);
    if n < 10 {
        assert(numeral.drop_last() =~= Seq::<char>::empty());
        assert(numeral_value(numeral.drop_last()) == 0);
        assert(digit_value(numeral.last()) == n);
    } else {
        law_decimal_reads_back(n / 10);
        assert(numeral.drop_last() =~= decimal(n / 10));
        assert(digit_value(numeral.last()) == n % 10);
        assert(numeral[0] == decimal(n / 10)[0]);
    }
}

} // verus!
