//! The abstract state of the ledger and its transitions.
//!
//! Everything here is ghost: a value of [`State`] says who holds what, and
//! the reference count of a buffer is defined from that, not stored. Buffers
//! and events are named by their positions, as integers.

use crate::tally::{lemma_tally_push, lemma_tally_update, lemma_tally_zero, one_if, tally};
use crate::tracker::{Access, Completion};
use vstd::prelude::*;

verus! {

/// A buffer as the ledger sees it.
pub struct AllocationState {
    /// Size in elements.
    pub len: nat,
    pub access: Access,
    /// Whether the caller that allocated it still holds it.
    pub owned: bool,
}

/// An argument slot of the kernel.
pub struct SlotState {
    pub name: Seq<char>,
    /// The buffer bound to the slot, if any.
    pub occupant: Option<int>,
}

/// A command that was taken into the queue.
pub struct CommandState {
    /// The buffers bound to the kernel's slots when it was submitted.
    pub referenced: Seq<int>,
    /// Whether the driver took a claim on those buffers for the time the
    /// command is in flight.
    pub retained: bool,
    /// Whether the command carries a completion event.
    pub awaitable: bool,
    /// Whether its completion has been observed by a successful wait.
    pub completed: bool,
}

impl CommandState {
    /// The command still keeps buffer `a` alive.
    pub open spec fn holds(self, a: int) -> bool {
        self.retained && !self.completed && self.referenced.contains(a)
    }
}

/// The condition that a slot holds buffer `a`.
pub open spec fn holding(a: int) -> spec_fn(SlotState) -> bool {
    |slot: SlotState| slot.occupant == Some(a)
}

/// The condition that a command still keeps buffer `a` alive.
pub open spec fn keeping(a: int) -> spec_fn(CommandState) -> bool {
    |command: CommandState| command.holds(a)
}

/// The condition that a command keeps buffer `a` alive with no event by which
/// its completion could be observed.
pub open spec fn stranding(a: int) -> spec_fn(CommandState) -> bool {
    |command: CommandState| command.holds(a) && !command.awaitable
}

/// One if the slot holds buffer `a`, zero if not.
pub open spec fn slot_weight(slot: SlotState, a: int) -> nat {
    one_if(slot.occupant == Some(a))
}

/// One if the command still keeps buffer `a` alive, zero if not.
pub open spec fn command_weight(command: CommandState, a: int) -> nat {
    one_if(command.holds(a))
}

/// One operation on the ledger, together with what the device answered to it.
pub enum Op {
    /// A buffer of `len` elements is allocated.
    Allocate { len: nat, access: Access },
    /// Buffer `alloc` is bound to slot `slot`.
    Bind { slot: int, alloc: int },
    /// A command is submitted; `retained` says whether the driver keeps the
    /// kernel's buffers for it.
    Submit { completion: Completion, retained: bool },
    /// The command of event `event` is waited for, and completes.
    Complete { event: int },
    /// The caller lets go of buffer `alloc`.
    Release { alloc: int },
}

/// The state of the ledger: the buffers in order of allocation, the slots of
/// the kernel, and the commands in order of submission.
pub struct State {
    pub allocations: Seq<AllocationState>,
    pub slots: Seq<SlotState>,
    pub commands: Seq<CommandState>,
}

impl State {
    /// Buffer `a` was allocated in this ledger.
    pub open spec fn knows(self, a: int) -> bool {
        0 <= a < self.allocations.len()
    }

    /// The caller still holds buffer `a`.
    pub open spec fn owned(self, a: int) -> bool {
        self.knows(a) && self.allocations[a].owned
    }

    /// Slots and commands name only buffers that were allocated, and only a
    /// command with an event can have been waited for.
    pub open spec fn wf(self) -> bool {
        &&& forall|i: int|
            0 <= i < self.slots.len() ==> match (#[trigger] self.slots[i]).occupant {
                Some(a) => self.knows(a),
                None => true,
            }
        &&& forall|c: int, j: int|
            0 <= c < self.commands.len() && 0 <= j < self.commands[c].referenced.len()
                ==> self.knows(#[trigger] self.commands[c].referenced[j])
        &&& forall|c: int|
            0 <= c < self.commands.len() && (#[trigger] self.commands[c]).completed
                ==> self.commands[c].awaitable
    }

    /// The number of slots that hold buffer `a`.
    pub open spec fn bindings(self, a: int) -> nat {
        tally(self.slots, holding(a))
    }

    /// The number of commands in flight that keep buffer `a` alive.
    pub open spec fn in_flight(self, a: int) -> nat {
        tally(self.commands, keeping(a))
    }

    /// The number of claims on buffer `a` that no wait can take back: those
    /// of commands that were submitted without an event.
    pub open spec fn stranded(self, a: int) -> nat {
        tally(self.commands, stranding(a))
    }

    /// The reference count of buffer `a`: one for the caller while it holds
    /// the buffer, one for each slot the buffer is bound to, and one for each
    /// command in flight that the driver keeps it for.
    pub open spec fn ref_count(self, a: int) -> nat {
        one_if(self.owned(a)) + self.bindings(a) + self.in_flight(a)
    }

    /// Nothing holds buffer `a` any more: its memory is given back.
    pub open spec fn reclaimed(self, a: int) -> bool {
        self.knows(a) && self.ref_count(a) == 0
    }

    /// The kernel has a slot of that name.
    pub open spec fn has_slot(self, name: Seq<char>) -> bool {
        exists|i: int| 0 <= i < self.slots.len() && (#[trigger] self.slots[i]).name == name
    }

    /// `i` is the first slot of that name.
    pub open spec fn is_slot_index(self, name: Seq<char>, i: int) -> bool {
        &&& 0 <= i < self.slots.len()
        &&& self.slots[i].name == name
        &&& forall|j: int| 0 <= j < i ==> (#[trigger] self.slots[j]).name != name
    }

    /// The first slot of that name, where there is one.
    pub open spec fn slot_index(self, name: Seq<char>) -> int {
        choose|i: int| self.is_slot_index(name, i)
    }

    /// Every slot of the kernel holds a buffer.
    pub open spec fn fully_bound(self) -> bool {
        forall|i: int| 0 <= i < self.slots.len() ==> (#[trigger] self.slots[i]).occupant is Some
    }

    /// The buffers bound to the slots, in slot order.
    pub open spec fn occupants(self) -> Seq<int> {
        Seq::new(self.slots.len(), |i: int| self.slots[i].occupant.unwrap())
    }

    /// Event `e` belongs to a submitted command.
    pub open spec fn awaitable(self, e: int) -> bool {
        0 <= e < self.commands.len() && self.commands[e].awaitable
    }

    /// A kernel with the given slots, all empty; no buffer and no command.
    pub open spec fn init(names: Seq<Seq<char>>) -> State {
        State {
            allocations: Seq::empty(),
            slots: Seq::new(names.len(), |i: int| SlotState { name: names[i], occupant: None }),
            commands: Seq::empty(),
        }
    }

    /// The identity that the next allocation gets.
    pub open spec fn next_alloc(self) -> int {
        self.allocations.len() as int
    }

    /// The identity that the event of the next submission gets.
    pub open spec fn next_event(self) -> int {
        self.commands.len() as int
    }

    /// A new buffer, held by the caller alone.
    pub open spec fn allocate(self, len: nat, access: Access) -> State {
        State {
            allocations: self.allocations.push(AllocationState { len, access, owned: true }),
            ..self
        }
    }

    /// Slot `i` lets go of what it held and takes buffer `a`.
    pub open spec fn bind(self, i: int, a: int) -> State {
        State {
            slots: self.slots.update(i, SlotState { name: self.slots[i].name, occupant: Some(a) }),
            ..self
        }
    }

    /// A command on the buffers now bound enters the queue.
    pub open spec fn submit(self, completion: Completion, retained: bool) -> State {
        State {
            commands: self.commands.push(
                CommandState {
                    referenced: self.occupants(),
                    retained,
                    awaitable: completion is Event,
                    completed: false,
                },
            ),
            ..self
        }
    }

    /// The completion of the command of event `e` is observed.
    pub open spec fn complete(self, e: int) -> State {
        State {
            commands: self.commands.update(
                e,
                CommandState { completed: true, ..self.commands[e] },
            ),
            ..self
        }
    }

    /// The caller lets go of buffer `a`.
    pub open spec fn release(self, a: int) -> State {
        State {
            allocations: self.allocations.update(
                a,
                AllocationState { owned: false, ..self.allocations[a] },
            ),
            ..self
        }
    }

    /// The operation can be carried out in this state.
    pub open spec fn enabled(self, op: Op) -> bool {
        match op {
            Op::Allocate { .. } => true,
            Op::Bind { slot, alloc } => 0 <= slot < self.slots.len() && self.owned(alloc),
            Op::Submit { .. } => self.fully_bound(),
            Op::Complete { event } => self.awaitable(event),
            Op::Release { alloc } => self.owned(alloc),
        }
    }

    /// The state after the operation.
    pub open spec fn apply(self, op: Op) -> State {
        match op {
            Op::Allocate { len, access } => self.allocate(len, access),
            Op::Bind { slot, alloc } => self.bind(slot, alloc),
            Op::Submit { completion, retained } => self.submit(completion, retained),
            Op::Complete { event } => self.complete(event),
            Op::Release { alloc } => self.release(alloc),
        }
    }
}

/// Two states with the same buffers, slots and commands are one state.
pub proof fn lemma_same_state(s: State, t: State)
    requires
        s.allocations =~= t.allocations,
        s.slots =~= t.slots,
        s.commands =~= t.commands,
    ensures
        s == t,
{
}

impl State {
    /// The first slot of a name is the one that `slot_index` gives.
    pub proof fn lemma_slot_index(self, name: Seq<char>, i: int)
        requires
            self.is_slot_index(name, i),
        ensures
            self.has_slot(name),
            self.slot_index(name) == i,
    {
        let k = self.slot_index(name);
        assert(self.is_slot_index(name, k));
    }

    /// A fresh kernel is well formed, and cannot be submitted unless it has
    /// no slot at all.
    pub proof fn lemma_init(names: Seq<Seq<char>>)
        ensures
            State::init(names).wf(),
            State::init(names).slots.len() == names.len(),
            State::init(names).fully_bound() <==> names.len() == 0,
    {
        if names.len() > 0 {
            assert(State::init(names).slots[0].occupant is None);
        }
    }

    /// A new buffer has count one, and no other count changes.
    pub proof fn lemma_allocate(self, len: nat, access: Access)
        requires
            self.wf(),
        ensures
            self.allocate(len, access).wf(),
            self.allocate(len, access).owned(self.next_alloc()),
            self.allocate(len, access).ref_count(self.next_alloc()) == 1,
            forall|b: int|
                b != self.next_alloc() ==> #[trigger] self.allocate(len, access).ref_count(b)
                    == self.ref_count(b),
    {
        let a = self.next_alloc();
        assert forall|c: int| 0 <= c < self.commands.len() implies !(
        #[trigger] self.commands[c]).holds(a) by {
            let r = self.commands[c].referenced;
            if r.contains(a) {
                let j = choose|j: int| 0 <= j < r.len() && r[j] == a;
                assert(self.knows(self.commands[c].referenced[j]));
            }
        }
        lemma_tally_zero(self.slots, holding(a));
        lemma_tally_zero(self.commands, keeping(a));
    }

    /// Binding takes one from the count of the buffer that the slot held and
    /// adds one to the count of the buffer it takes.
    pub proof fn lemma_bind(self, i: int, a: int)
        requires
            self.wf(),
            0 <= i < self.slots.len(),
            self.knows(a),
        ensures
            self.bind(i, a).wf(),
            forall|b: int| #[trigger]
                self.bind(i, a).ref_count(b) + slot_weight(self.slots[i], b) == self.ref_count(b)
                    + one_if(b == a),
    {
        let t = self.bind(i, a);
        assert forall|b: int| #[trigger]
            t.ref_count(b) + slot_weight(self.slots[i], b) == self.ref_count(b) + one_if(
                b == a,
            ) by {
            lemma_tally_update(self.slots, holding(b), i, t.slots[i]);
        }
    }

    /// Submission adds one to the count of each buffer bound to the kernel
    /// where the driver keeps them for the command, and changes no count
    /// where it does not.
    pub proof fn lemma_submit(self, completion: Completion, retained: bool)
        requires
            self.wf(),
            self.fully_bound(),
        ensures
            self.submit(completion, retained).wf(),
            forall|b: int| #[trigger]
                self.submit(completion, retained).ref_count(b) == self.ref_count(b) + one_if(
                    retained && self.occupants().contains(b),
                ),
    {
        let t = self.submit(completion, retained);
        assert forall|b: int| #[trigger]
            t.ref_count(b) == self.ref_count(b) + one_if(
                retained && self.occupants().contains(b),
            ) by {
            lemma_tally_push(self.commands, keeping(b), t.commands.last());
        }
    }

    /// Observing the completion of a command takes back what the command
    /// added to the counts.
    pub proof fn lemma_complete(self, e: int)
        requires
            self.wf(),
            self.awaitable(e),
        ensures
            self.complete(e).wf(),
            forall|b: int| #[trigger]
                self.complete(e).ref_count(b) + command_weight(self.commands[e], b)
                    == self.ref_count(b),
    {
        let t = self.complete(e);
        assert forall|b: int| #[trigger]
            t.ref_count(b) + command_weight(self.commands[e], b) == self.ref_count(b) by {
            lemma_tally_update(self.commands, keeping(b), e, t.commands[e]);
        }
    }

    /// Release takes one from the count of the buffer and changes no other.
    pub proof fn lemma_release(self, a: int)
        requires
            self.wf(),
            self.owned(a),
        ensures
            self.release(a).wf(),
            !self.release(a).owned(a),
            self.release(a).ref_count(a) + 1 == self.ref_count(a),
            forall|b: int|
                b != a ==> #[trigger] self.release(a).ref_count(b) == self.ref_count(b),
    {
    }
}

} // verus!
