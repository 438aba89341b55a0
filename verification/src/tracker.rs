//! The ledger: an executable record of buffers, kernel slots and commands,
//! whose every operation is tied to a transition of [`State`].
//!
//! The ledger makes no call to a device. What the device or its driver did in
//! answer to an operation — whether it kept the buffers for a command, whether
//! it refused the command, whether the command failed — is told to the ledger
//! by the caller, who has seen it.

use crate::error::{BindError, QueryError, SubmitError, WaitError};
use crate::state::{
    command_weight, holding, keeping, lemma_same_state, slot_weight, stranding, AllocationState,
    CommandState, SlotState, State,
};
use crate::tally::{lemma_tally_take, one_if, tally};
use vstd::prelude::*;

verus! {

/// The identity of a buffer: its position in the order of allocation.
#[derive(Clone, Copy, Debug, PartialEq, Eq, Structural)]
pub struct AllocId(pub usize);

impl View for AllocId {
    type V = int;

    open spec fn view(&self) -> int {
        self.0 as int
    }
}

/// The identity of a completion event: the position of its command in the
/// order of submission.
#[derive(Clone, Copy, Debug, PartialEq, Eq, Structural)]
pub struct EventId(pub usize);

impl View for EventId {
    type V = int;

    open spec fn view(&self) -> int {
        self.0 as int
    }
}

/// How the device may access a buffer.
#[derive(Clone, Copy, Debug, PartialEq, Eq, Structural)]
pub enum Access {
    ReadWrite,
    ReadOnly,
    WriteOnly,
}

/// Whether a submission carries a completion event.
#[derive(Clone, Copy, Debug, PartialEq, Eq, Structural)]
pub enum Completion {
    /// No event: nothing can be waited on, and the caller goes on at once.
    Unobserved,
    /// An event that the caller can wait on.
    Event,
}

/// What the queue did with a command that was handed to it.
#[derive(Clone, Copy, Debug, PartialEq, Eq, Structural)]
pub enum Response {
    /// The queue refused the command.
    Rejected,
    /// The queue took the command. `retained` says whether the driver took a
    /// claim on the kernel's buffers for the time the command is in flight.
    Accepted { retained: bool },
}

/// What the device reported of a command that was waited for.
#[derive(Clone, Copy, Debug, PartialEq, Eq, Structural)]
pub enum Execution {
    /// The command ran to its end.
    Completed,
    /// The command failed while it ran.
    Faulted,
}

#[derive(Clone, Copy)]
struct Allocation {
    len: usize,
    access: Access,
    owned: bool,
}

impl View for Allocation {
    type V = AllocationState;

    closed spec fn view(&self) -> AllocationState {
        AllocationState { len: self.len as nat, access: self.access, owned: self.owned }
    }
}

struct Slot {
    name: String,
    occupant: Option<AllocId>,
}

impl View for Slot {
    type V = SlotState;

    closed spec fn view(&self) -> SlotState {
        SlotState {
            name: self.name@,
            occupant: match self.occupant {
                Some(a) => Some(a@),
                None => None,
            },
        }
    }
}

struct Command {
    referenced: Vec<AllocId>,
    retained: bool,
    awaitable: bool,
    completed: bool,
}

impl View for Command {
    type V = CommandState;

    closed spec fn view(&self) -> CommandState {
        CommandState {
            referenced: self.referenced@.map_values(|a: AllocId| a@),
            retained: self.retained,
            awaitable: self.awaitable,
            completed: self.completed,
        }
    }
}

/// The ledger of one kernel and one queue.
pub struct Tracker {
    allocations: Vec<Allocation>,
    slots: Vec<Slot>,
    commands: Vec<Command>,
}

impl View for Tracker {
    type V = State;

    closed spec fn view(&self) -> State {
        State {
            allocations: self.allocations@.map_values(|a: Allocation| a@),
            slots: self.slots@.map_values(|s: Slot| s@),
            commands: self.commands@.map_values(|c: Command| c@),
        }
    }
}

impl Tracker {
    /// The state of the ledger is well formed.
    pub open spec fn wf(&self) -> bool {
        self@.wf()
    }

    /// A ledger for a kernel with the given argument slots, all empty.
    pub fn new(slot_names: &[&str]) -> (tracker: Tracker)
        ensures
            tracker.wf(),
            tracker@ == State::init(slot_names@.map_values(|n: &str| n@)),
    {
        let mut slots: Vec<Slot> = Vec::new();
        let mut i: usize = 0;
        while i < slot_names.len()
            invariant
                i <= slot_names.len(),
                slots.len() == i,
                forall|j: int|
                    0 <= j < i ==> (#[trigger] slots[j])@ == (SlotState {
                        name: slot_names[j]@,
                        occupant: None,
                    }),
            decreases slot_names.len() - i,
        {
            slots.push(Slot { name: slot_names[i].to_owned(), occupant: None });
            i += 1;
        }
        let tracker = Tracker { allocations: Vec::new(), slots, commands: Vec::new() };
        proof {
            let names = slot_names@.map_values(|n: &str| n@);
            State::lemma_init(names);
            lemma_same_state(tracker@, State::init(names));
        }
        tracker
    }

    /// Allocates a buffer of `len` elements. The caller holds it, and nothing
    /// else does: its count is one.
    pub fn allocate(&mut self, len: usize, access: Access) -> (id: AllocId)
        requires
            old(self).wf(),
        ensures
            final(self).wf(),
            id@ == old(self)@.next_alloc(),
            final(self)@ == old(self)@.allocate(len as nat, access),
            final(self)@.owned(id@),
            final(self)@.ref_count(id@) == 1,
            forall|b: int|
                b != id@ ==> #[trigger] final(self)@.ref_count(b) == old(self)@.ref_count(b),
    {
        let id = AllocId(self.allocations.len());
        self.allocations.push(Allocation { len, access, owned: true });
        proof {
            old(self)@.lemma_allocate(len as nat, access);
            assert(self@.allocations =~= old(self)@.allocate(len as nat, access).allocations);
        }
        id
    }

    /// The first slot of the given name.
    fn find_slot(&self, name: &str) -> (found: Option<usize>)
        ensures
            match found {
                Some(i) => self@.is_slot_index(name@, i as int),
                None => !self@.has_slot(name@),
            },
    {
        let wanted = name.to_owned();
        let mut i: usize = 0;
        while i < self.slots.len()
            invariant
                i <= self.slots.len(),
                wanted@ == name@,
                forall|j: int| 0 <= j < i ==> (#[trigger] self@.slots[j]).name != name@,
            decreases self.slots.len() - i,
        {
            if self.slots[i].name == wanted {
                return Some(i);
            }
            i += 1;
        }
        None
    }

    /// Binds buffer `alloc` to the slot named `slot`. The slot lets go of the
    /// buffer it held, whose count falls by one, and the count of `alloc`
    /// rises by one.
    pub fn bind(&mut self, slot: &str, alloc: AllocId) -> (result: Result<(), BindError>)
        requires
            old(self).wf(),
        ensures
            final(self).wf(),
            match result {
                Ok(()) => {
                    &&& old(self)@.has_slot(slot@)
                    &&& old(self)@.owned(alloc@)
                    &&& final(self)@ == old(self)@.bind(old(self)@.slot_index(slot@), alloc@)
                    &&& forall|b: int| #[trigger]
                        final(self)@.ref_count(b) + slot_weight(
                            old(self)@.slots[old(self)@.slot_index(slot@)],
                            b,
                        ) == old(self)@.ref_count(b) + one_if(b == alloc@)
                },
                Err(BindError::UnknownSlot) => {
                    &&& !old(self)@.has_slot(slot@)
                    &&& final(self)@ == old(self)@
                },
                Err(BindError::UnknownAllocation) => {
                    &&& old(self)@.has_slot(slot@)
                    &&& !old(self)@.owned(alloc@)
                    &&& final(self)@ == old(self)@
                },
            },
    {
        let i = match self.find_slot(slot) {
            Some(i) => i,
            None => {
                return Err(BindError::UnknownSlot);
            },
        };
        proof {
            old(self)@.lemma_slot_index(slot@, i as int);
        }
        if !self.is_owned(alloc) {
            return Err(BindError::UnknownAllocation);
        }
        self.slots[i].occupant = Some(alloc);
        proof {
            old(self)@.lemma_bind(i as int, alloc@);
            assert(self@.slots =~= old(self)@.bind(i as int, alloc@).slots);
        }
        Ok(())
    }

    /// Whether the caller holds buffer `alloc`.
    pub fn is_owned(&self, alloc: AllocId) -> (owned: bool)
        ensures
            owned == self@.owned(alloc@),
    {
        alloc.0 < self.allocations.len() && self.allocations[alloc.0].owned
    }

    /// The buffers bound to the slots, in slot order, or `None` where a slot
    /// is empty.
    fn bound_buffers(&self) -> (bound: Option<Vec<AllocId>>)
        ensures
            match bound {
                Some(ids) => self@.fully_bound() && ids@.map_values(|a: AllocId| a@)
                    == self@.occupants(),
                None => !self@.fully_bound(),
            },
    {
        let mut ids: Vec<AllocId> = Vec::new();
        let mut i: usize = 0;
        while i < self.slots.len()
            invariant
                i <= self.slots.len(),
                ids.len() == i,
                forall|j: int| 0 <= j < i ==> (#[trigger] self@.slots[j]).occupant == Some(ids[j]@),
            decreases self.slots.len() - i,
        {
            match self.slots[i].occupant {
                Some(a) => {
                    ids.push(a);
                },
                None => {
                    assert(self@.slots[i as int].occupant is None);
                    return None;
                },
            }
            i += 1;
        }
        Some(ids)
    }

    /// Records a command on the buffers now bound to the kernel, as the queue
    /// answered it. Where the driver keeps the buffers for the command, the
    /// count of each rises by one; with an event, a successful
    /// [`wait`](Tracker::wait) takes that back, and without one nothing does.
    ///
    /// A kernel with an empty slot cannot be submitted, and a command that
    /// the queue refused is not recorded.
    pub fn submit(&mut self, completion: Completion, response: Response) -> (result: Result<
        Option<EventId>,
        SubmitError,
    >)
        requires
            old(self).wf(),
        ensures
            final(self).wf(),
            match result {
                Ok(event) => {
                    &&& old(self)@.fully_bound()
                    &&& response matches Response::Accepted { retained }
                    &&& final(self)@ == old(self)@.submit(completion, retained)
                    &&& match completion {
                        Completion::Event => event matches Some(e) && e@ == old(self)@.next_event()
                            && final(self)@.awaitable(e@),
                        Completion::Unobserved => event is None,
                    }
                    &&& forall|b: int| #[trigger]
                        final(self)@.ref_count(b) == old(self)@.ref_count(b) + one_if(
                            retained && old(self)@.occupants().contains(b),
                        )
                },
                Err(SubmitError::UnboundArgument) => {
                    &&& !old(self)@.fully_bound()
                    &&& final(self)@ == old(self)@
                },
                Err(SubmitError::QueueRejected) => {
                    &&& old(self)@.fully_bound()
                    &&& response is Rejected
                    &&& final(self)@ == old(self)@
                },
            },
    {
        let referenced = match self.bound_buffers() {
            Some(ids) => ids,
            None => {
                return Err(SubmitError::UnboundArgument);
            },
        };
        let retained = match response {
            Response::Accepted { retained } => retained,
            Response::Rejected => {
                return Err(SubmitError::QueueRejected);
            },
        };
        let event = EventId(self.commands.len());
        let awaitable = match completion {
            Completion::Event => true,
            Completion::Unobserved => false,
        };
        self.commands.push(Command { referenced, retained, awaitable, completed: false });
        proof {
            old(self)@.lemma_submit(completion, retained);
            assert(self@.commands =~= old(self)@.submit(completion, retained).commands);
        }
        if awaitable {
            Ok(Some(event))
        } else {
            Ok(None)
        }
    }

    /// Records that the command of `event` was waited for, as the device
    /// answered. After a successful wait the command keeps no buffer alive:
    /// every count that its submission raised is back where it was.
    pub fn wait(&mut self, event: EventId, execution: Execution) -> (result: Result<(), WaitError>)
        requires
            old(self).wf(),
        ensures
            final(self).wf(),
            match result {
                Ok(()) => {
                    &&& old(self)@.awaitable(event@)
                    &&& execution is Completed
                    &&& final(self)@ == old(self)@.complete(event@)
                    &&& forall|b: int| #[trigger]
                        final(self)@.ref_count(b) + command_weight(old(self)@.commands[event@], b)
                            == old(self)@.ref_count(b)
                },
                Err(WaitError::InvalidHandle) => {
                    &&& !old(self)@.awaitable(event@)
                    &&& final(self)@ == old(self)@
                },
                Err(WaitError::ExecutionFault) => {
                    &&& old(self)@.awaitable(event@)
                    &&& execution is Faulted
                    &&& final(self)@ == old(self)@
                },
            },
    {
        if event.0 >= self.commands.len() || !self.commands[event.0].awaitable {
            return Err(WaitError::InvalidHandle);
        }
        match execution {
            Execution::Faulted => {
                return Err(WaitError::ExecutionFault);
            },
            Execution::Completed => {},
        }
        self.commands[event.0].completed = true;
        proof {
            old(self)@.lemma_complete(event@);
            assert(self@.commands =~= old(self)@.complete(event@).commands);
        }
        Ok(())
    }

    /// The caller lets go of buffer `alloc`: its count falls by one. Returns
    /// whether the caller held it; where not, nothing changes.
    pub fn release(&mut self, alloc: AllocId) -> (released: bool)
        requires
            old(self).wf(),
        ensures
            final(self).wf(),
            released == old(self)@.owned(alloc@),
            released ==> {
                &&& final(self)@ == old(self)@.release(alloc@)
                &&& final(self)@.ref_count(alloc@) + 1 == old(self)@.ref_count(alloc@)
                &&& forall|b: int|
                    b != alloc@ ==> #[trigger] final(self)@.ref_count(b) == old(self)@.ref_count(b)
            },
            !released ==> final(self)@ == old(self)@,
    {
        if !self.is_owned(alloc) {
            return false;
        }
        self.allocations[alloc.0].owned = false;
        proof {
            old(self)@.lemma_release(alloc@);
            assert(self@.allocations =~= old(self)@.release(alloc@).allocations);
        }
        true
    }

    /// Whether the command names buffer `alloc`.
    fn references(command: &Command, alloc: AllocId) -> (found: bool)
        ensures
            found == command@.referenced.contains(alloc@),
    {
        let mut j: usize = 0;
        while j < command.referenced.len()
            invariant
                j <= command.referenced.len(),
                forall|k: int| 0 <= k < j ==> (#[trigger] command@.referenced[k]) != alloc@,
            decreases command.referenced.len() - j,
        {
            if command.referenced[j].0 == alloc.0 {
                assert(command@.referenced[j as int] == alloc@);
                return true;
            }
            j += 1;
        }
        false
    }

    /// The reference count of buffer `alloc`: one while the caller holds it,
    /// one for each slot it is bound to, and one for each command in flight
    /// that the driver keeps it for. Fails for an identity that no allocation
    /// of this ledger gave out.
    pub fn ref_count(&self, alloc: AllocId) -> (result: Result<u128, QueryError>)
        ensures
            match result {
                Ok(count) => self@.knows(alloc@) && count == self@.ref_count(alloc@),
                Err(e) => e == QueryError::Failed && !self@.knows(alloc@),
            },
    {
        if alloc.0 >= self.allocations.len() {
            return Err(QueryError::Failed);
        }
        let mut count: u128 = if self.allocations[alloc.0].owned {
            1
        } else {
            0
        };
        let ghost own: nat = count as nat;
        let mut i: usize = 0;
        while i < self.slots.len()
            invariant
                i <= self.slots.len(),
                own <= 1,
                count == own + tally(self@.slots.take(i as int), holding(alloc@)),
                count <= own + i,
            decreases self.slots.len() - i,
        {
            proof {
                lemma_tally_take(self@.slots, holding(alloc@), i as int);
            }
            match self.slots[i].occupant {
                Some(a) => {
                    if a.0 == alloc.0 {
                        count += 1;
                    }
                },
                None => {},
            }
            i += 1;
        }
        assert(self@.slots.take(i as int) =~= self@.slots);
        let ghost bound: nat = tally(self@.slots, holding(alloc@));
        let mut c: usize = 0;
        while c < self.commands.len()
            invariant
                c <= self.commands.len(),
                own + bound <= 1 + usize::MAX,
                count == own + bound + tally(self@.commands.take(c as int), keeping(alloc@)),
                count <= own + bound + c,
            decreases self.commands.len() - c,
        {
            proof {
                lemma_tally_take(self@.commands, keeping(alloc@), c as int);
            }
            let command = &self.commands[c];
            if command.retained && !command.completed && Self::references(command, alloc) {
                count += 1;
            }
            c += 1;
        }
        assert(self@.commands.take(c as int) =~= self@.commands);
        Ok(count)
    }

    /// The number of claims on buffer `alloc` that no wait can take back:
    /// those that the driver took for commands submitted without an event.
    pub fn stranded(&self, alloc: AllocId) -> (count: u128)
        ensures
            count == self@.stranded(alloc@),
    {
        let mut count: u128 = 0;
        let mut c: usize = 0;
        while c < self.commands.len()
            invariant
                c <= self.commands.len(),
                count == tally(self@.commands.take(c as int), stranding(alloc@)),
                count <= c,
            decreases self.commands.len() - c,
        {
            proof {
                lemma_tally_take(self@.commands, stranding(alloc@), c as int);
            }
            let command = &self.commands[c];
            if command.retained && !command.completed && !command.awaitable && Self::references(
                command,
                alloc,
            ) {
                count += 1;
            }
            c += 1;
        }
        assert(self@.commands.take(c as int) =~= self@.commands);
        count
    }

    /// Whether the memory of buffer `alloc` has been given back: it was
    /// allocated here, and nothing holds it any more.
    pub fn is_reclaimed(&self, alloc: AllocId) -> (reclaimed: bool)
        ensures
            reclaimed == self@.reclaimed(alloc@),
    {
        match self.ref_count(alloc) {
            Ok(count) => count == 0,
            Err(_) => false,
        }
    }

    /// The size of buffer `alloc` in elements, where it was allocated here.
    pub fn len_of(&self, alloc: AllocId) -> (len: Option<usize>)
        ensures
            match len {
                Some(n) => self@.knows(alloc@) && n == self@.allocations[alloc@].len,
                None => !self@.knows(alloc@),
            },
    {
        if alloc.0 < self.allocations.len() {
            Some(self.allocations[alloc.0].len)
        } else {
            None
        }
    }

    /// The access that buffer `alloc` was allocated for, where it was
    /// allocated here.
    pub fn access_of(&self, alloc: AllocId) -> (access: Option<Access>)
        ensures
            match access {
                Some(a) => self@.knows(alloc@) && a == self@.allocations[alloc@].access,
                None => !self@.knows(alloc@),
            },
    {
        if alloc.0 < self.allocations.len() {
            Some(self.allocations[alloc.0].access)
        } else {
            None
        }
    }

    /// The buffer bound to the slot named `slot`; `None` where the kernel has
    /// no such slot and where the slot is empty.
    pub fn occupant(&self, slot: &str) -> (occupant: Option<AllocId>)
        ensures
            match occupant {
                Some(a) => self@.has_slot(slot@) && self@.slots[self@.slot_index(
                    slot@,
                )].occupant == Some(a@),
                None => !self@.has_slot(slot@) || self@.slots[self@.slot_index(slot@)].occupant
                    is None,
            },
    {
        match self.find_slot(slot) {
            Some(i) => {
                proof {
                    self@.lemma_slot_index(slot@, i as int);
                }
                self.slots[i].occupant
            },
            None => None,
        }
    }
}

} // verus!
