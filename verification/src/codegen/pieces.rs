//! The pieces of the emitted text that do not depend on the transition
//! table: each as a function that says what the text is, and a function
//! that writes it.

use vstd::prelude::*;
use crate::text::Text;
use crate::codegen::names::{lines, write_lines};

verus! {

/// The first lines of the emitted text.
pub open spec fn header_text(p: Text) -> Text {
    "// "@
        + p
        + " state machine\n\n"@
}

/// Writes: the first lines of the emitted text.
pub fn write_header(out: &mut String, p: &str)
    ensures
        final(out)@ == old(out)@ + header_text(p@),
{
    let ghost start = out@;
    out.append("// ");
    out.append(p);
    out.append(" state machine\n\n");
    assert(out@ =~= start + header_text(p@));
}

/// The enumeration of the states.
pub open spec fn state_enum_text(p: Text, variants: Seq<Text>) -> Text {
    "/// The states of the machine.\n#[derive(Debug, Clone, Copy, PartialEq, Eq)]\npub enum "@
        + p
        + "State {\n"@
        + lines("    "@, variants, ",\n"@, variants.len() as int)
        + "}\n\n"@
}

/// Writes: the enumeration of the states.
pub fn write_state_enum(out: &mut String, p: &str, variants: &Vec<String>)
    ensures
        final(out)@ == old(out)@ + state_enum_text(p@, variants.deep_view()),
{
    let ghost start = out@;
    out.append("/// The states of the machine.\n#[derive(Debug, Clone, Copy, PartialEq, Eq)]\npub enum ");
    out.append(p);
    out.append("State {\n");
    write_lines(out, "    ", variants, ",\n");
    out.append("}\n\n");
    assert(out@ =~= start + state_enum_text(p@, variants.deep_view()));
}

/// The enumeration of the events.
pub open spec fn event_enum_text(p: Text, variants: Seq<Text>) -> Text {
    "/// The events to which the machine responds.\n#[derive(Debug, Clone, Copy, PartialEq, Eq)]\npub enum "@
        + p
        + "Event {\n"@
        + lines("    "@, variants, ",\n"@, variants.len() as int)
        + "}\n\n"@
}

/// Writes: the enumeration of the events.
pub fn write_event_enum(out: &mut String, p: &str, variants: &Vec<String>)
    ensures
        final(out)@ == old(out)@ + event_enum_text(p@, variants.deep_view()),
{
    let ghost start = out@;
    out.append("/// The events to which the machine responds.\n#[derive(Debug, Clone, Copy, PartialEq, Eq)]\npub enum ");
    out.append(p);
    out.append("Event {\n");
    write_lines(out, "    ", variants, ",\n");
    out.append("}\n\n");
    assert(out@ =~= start + event_enum_text(p@, variants.deep_view()));
}

/// The trait with the guards and actions that the host supplies.
pub open spec fn actions_trait_text(p: Text, guards: Seq<Text>, actions: Seq<Text>) -> Text {
    "/// What the host supplies: the guards and the actions.\npub trait "@
        + p
        + "Actions {\n"@
        + lines("    fn "@, guards, "(&self) -> bool;\n"@, guards.len() as int)
        + lines("    fn "@, actions, "(&mut self);\n"@, actions.len() as int)
        + "}\n\n"@
}

/// Writes: the trait with the guards and actions that the host supplies.
pub fn write_actions_trait(out: &mut String, p: &str, guards: &Vec<String>, actions: &Vec<String>)
    ensures
        final(out)@ == old(out)@ + actions_trait_text(p@, guards.deep_view(), actions.deep_view()),
{
    let ghost start = out@;
    out.append("/// What the host supplies: the guards and the actions.\npub trait ");
    out.append(p);
    out.append("Actions {\n");
    write_lines(out, "    fn ", guards, "(&self) -> bool;\n");
    write_lines(out, "    fn ", actions, "(&mut self);\n");
    out.append("}\n\n");
    assert(out@ =~= start + actions_trait_text(p@, guards.deep_view(), actions.deep_view()));
}

/// The type of the dispatcher.
pub open spec fn machine_struct_text(p: Text) -> Text {
    "/// The machine.\npub struct "@
        + p
        + "Fsm<A: "@
        + p
        + "Actions> {\n    state: "@
        + p
        + "State,\n    actions: A,\n}\n\n"@
}

/// Writes: the type of the dispatcher.
pub fn write_machine_struct(out: &mut String, p: &str)
    ensures
        final(out)@ == old(out)@ + machine_struct_text(p@),
{
    let ghost start = out@;
    out.append("/// The machine.\npub struct ");
    out.append(p);
    out.append("Fsm<A: ");
    out.append(p);
    out.append("Actions> {\n    state: ");
    out.append(p);
    out.append("State,\n    actions: A,\n}\n\n");
    assert(out@ =~= start + machine_struct_text(p@));
}

/// The constructor: it runs the entry actions of the initial state.
pub open spec fn constructor_text(p: Text, initial: Text, entry: Seq<Text>) -> Text {
    "    /// Creates the machine in its initial state and runs the entry\n    /// actions of that state.\n    pub fn new(mut actions: A) -> Self {\n"@
        + lines("        actions."@, entry, "();\n"@, entry.len() as int)
        + "        Self { state: "@
        + p
        + "State::"@
        + initial
        + ", actions }\n    }\n\n"@
}

/// Writes: the constructor: it runs the entry actions of the initial state.
pub fn write_constructor(out: &mut String, p: &str, initial: &str, entry: &Vec<String>)
    ensures
        final(out)@ == old(out)@ + constructor_text(p@, initial@, entry.deep_view()),
{
    let ghost start = out@;
    out.append("    /// Creates the machine in its initial state and runs the entry\n    /// actions of that state.\n    pub fn new(mut actions: A) -> Self {\n");
    write_lines(out, "        actions.", entry, "();\n");
    out.append("        Self { state: ");
    out.append(p);
    out.append("State::");
    out.append(initial);
    out.append(", actions }\n    }\n\n");
    assert(out@ =~= start + constructor_text(p@, initial@, entry.deep_view()));
}

/// The method that tells the current state.
pub open spec fn state_getter_text(p: Text) -> Text {
    "    /// The current state.\n    pub fn state(&self) -> "@
        + p
        + "State {\n        self.state\n    }\n\n"@
}

/// Writes: the method that tells the current state.
pub fn write_state_getter(out: &mut String, p: &str)
    ensures
        final(out)@ == old(out)@ + state_getter_text(p@),
{
    let ghost start = out@;
    out.append("    /// The current state.\n    pub fn state(&self) -> ");
    out.append(p);
    out.append("State {\n        self.state\n    }\n\n");
    assert(out@ =~= start + state_getter_text(p@));
}

/// The pattern of an arm of the dispatcher.
pub open spec fn arm_head_text(p: Text, state: Text, event: Text) -> Text {
    "            ("@
        + p
        + "State::"@
        + state
        + ", "@
        + p
        + "Event::"@
        + event
        + ") => {\n"@
}

/// Writes: the pattern of an arm of the dispatcher.
pub fn write_arm_head(out: &mut String, p: &str, state: &str, event: &str)
    ensures
        final(out)@ == old(out)@ + arm_head_text(p@, state@, event@),
{
    let ghost start = out@;
    out.append("            (");
    out.append(p);
    out.append("State::");
    out.append(state);
    out.append(", ");
    out.append(p);
    out.append("Event::");
    out.append(event);
    out.append(") => {\n");
    assert(out@ =~= start + arm_head_text(p@, state@, event@));
}

/// The statement that changes the state.
pub open spec fn state_change_text(p: Text, target: Text) -> Text {
    "                    self.state = "@
        + p
        + "State::"@
        + target
        + ";\n"@
}

/// Writes: the statement that changes the state.
pub fn write_state_change(out: &mut String, p: &str, target: &str)
    ensures
        final(out)@ == old(out)@ + state_change_text(p@, target@),
{
    let ghost start = out@;
    out.append("                    self.state = ");
    out.append(p);
    out.append("State::");
    out.append(target);
    out.append(";\n");
    assert(out@ =~= start + state_change_text(p@, target@));
}

/// The head of the dispatch method.
pub open spec fn process_head_text(p: Text) -> Text {
    "    /// Takes one event through the machine and tells whether a\n    /// transition fired.\n    pub fn process(&mut self, event: "@
        + p
        + "Event) -> bool {\n        match (self.state, event) {\n"@
}

/// Writes: the head of the dispatch method.
pub fn write_process_head(out: &mut String, p: &str)
    ensures
        final(out)@ == old(out)@ + process_head_text(p@),
{
    let ghost start = out@;
    out.append("    /// Takes one event through the machine and tells whether a\n    /// transition fired.\n    pub fn process(&mut self, event: ");
    out.append(p);
    out.append("Event) -> bool {\n        match (self.state, event) {\n");
    assert(out@ =~= start + process_head_text(p@));
}

/// The head of the implementation block.
pub open spec fn impl_head_text(p: Text) -> Text {
    "impl<A: "@
        + p
        + "Actions> "@
        + p
        + "Fsm<A> {\n"@
}

/// Writes: the head of the implementation block.
pub fn write_impl_head(out: &mut String, p: &str)
    ensures
        final(out)@ == old(out)@ + impl_head_text(p@),
{
    let ghost start = out@;
    out.append("impl<A: ");
    out.append(p);
    out.append("Actions> ");
    out.append(p);
    out.append("Fsm<A> {\n");
    assert(out@ =~= start + impl_head_text(p@));
}

/// The active object: the dispatcher behind a bounded queue.
pub open spec fn active_object_text(p: Text) -> Text {
    "\n/// How many events the queue holds at most.\npub const EVENT_QUEUE_SIZE: usize = 8;\n\n/// The machine behind a bounded queue of events.\npub struct "@
        + p
        + "ActiveObject<A: "@
        + p
        + "Actions> {\n    fsm: "@
        + p
        + "Fsm<A>,\n    queue: std::collections::VecDeque<"@
        + p
        + "Event>,\n}\n\nimpl<A: "@
        + p
        + "Actions> "@
        + p
        + "ActiveObject<A> {\n    /// Creates the active object with an empty queue.\n    pub fn new(actions: A) -> Self {\n        Self { fsm: "@
        + p
        + "Fsm::new(actions), queue: std::collections::VecDeque::new() }\n    }\n\n    /// The current state.\n    pub fn state(&self) -> "@
        + p
        + "State {\n        self.fsm.state()\n    }\n\n    /// Posts an event without blocking. Returns false and drops the\n    /// event if the queue is full.\n    pub fn post(&mut self, event: "@
        + p
        + "Event) -> bool {\n        if self.queue.len() < EVENT_QUEUE_SIZE {\n            self.queue.push_back(event);\n            true\n        } else {\n            false\n        }\n    }\n\n    /// Takes the oldest event, if there is one, through the machine.\n    pub fn run_once(&mut self) -> bool {\n        match self.queue.pop_front() {\n            Some(event) => {\n                self.fsm.process(event);\n                true\n            }\n            None => false,\n        }\n    }\n\n    /// Takes all pending events through the machine and returns how\n    /// many there were.\n    pub fn run_all(&mut self) -> u32 {\n        let mut count = 0;\n        while self.run_once() {\n            count += 1;\n        }\n        count\n    }\n}\n"@
}

/// Writes: the active object: the dispatcher behind a bounded queue.
pub fn write_active_object(out: &mut String, p: &str)
    ensures
        final(out)@ == old(out)@ + active_object_text(p@),
{
    let ghost start = out@;
    out.append("\n/// How many events the queue holds at most.\npub const EVENT_QUEUE_SIZE: usize = 8;\n\n/// The machine behind a bounded queue of events.\npub struct ");
    out.append(p);
    out.append("ActiveObject<A: ");
    out.append(p);
    out.append("Actions> {\n    fsm: ");
    out.append(p);
    out.append("Fsm<A>,\n    queue: std::collections::VecDeque<");
    out.append(p);
    out.append("Event>,\n}\n\nimpl<A: ");
    out.append(p);
    out.append("Actions> ");
    out.append(p);
    out.append("ActiveObject<A> {\n    /// Creates the active object with an empty queue.\n    pub fn new(actions: A) -> Self {\n        Self { fsm: ");
    out.append(p);
    out.append("Fsm::new(actions), queue: std::collections::VecDeque::new() }\n    }\n\n    /// The current state.\n    pub fn state(&self) -> ");
    out.append(p);
    out.append("State {\n        self.fsm.state()\n    }\n\n    /// Posts an event without blocking. Returns false and drops the\n    /// event if the queue is full.\n    pub fn post(&mut self, event: ");
    out.append(p);
    out.append("Event) -> bool {\n        if self.queue.len() < EVENT_QUEUE_SIZE {\n            self.queue.push_back(event);\n            true\n        } else {\n            false\n        }\n    }\n\n    /// Takes the oldest event, if there is one, through the machine.\n    pub fn run_once(&mut self) -> bool {\n        match self.queue.pop_front() {\n            Some(event) => {\n                self.fsm.process(event);\n                true\n            }\n            None => false,\n        }\n    }\n\n    /// Takes all pending events through the machine and returns how\n    /// many there were.\n    pub fn run_all(&mut self) -> u32 {\n        let mut count = 0;\n        while self.run_once() {\n            count += 1;\n        }\n        count\n    }\n}\n");
    assert(out@ =~= start + active_object_text(p@));
}

/// The interrupt-driven machine: the dispatcher behind a queue of fixed capacity.
pub open spec fn interrupt_queue_text(p: Text) -> Text {
    "\n/// How many events the queue holds at most.\npub const EVENT_QUEUE_SIZE: usize = 8;\n\n/// The machine behind a queue of fixed capacity, fed from interrupt\n/// handlers.\npub struct "@
        + p
        + "Machine<A: "@
        + p
        + "Actions> {\n    fsm: "@
        + p
        + "Fsm<A>,\n    queue: [Option<"@
        + p
        + "Event>; EVENT_QUEUE_SIZE],\n    head: usize,\n    len: usize,\n}\n\nimpl<A: "@
        + p
        + "Actions> "@
        + p
        + "Machine<A> {\n    /// Creates the machine with an empty queue.\n    pub fn new(actions: A) -> Self {\n        Self { fsm: "@
        + p
        + "Fsm::new(actions), queue: [None; EVENT_QUEUE_SIZE], head: 0, len: 0 }\n    }\n\n    /// The current state.\n    pub fn state(&self) -> "@
        + p
        + "State {\n        self.fsm.state()\n    }\n\n    /// The number of pending events.\n    pub fn queue_len(&self) -> usize {\n        self.len\n    }\n\n    /// Posts an event in bounded time, without allocating. A full queue\n    /// hands the event back.\n    pub fn post(&mut self, event: "@
        + p
        + "Event) -> Result<(), "@
        + p
        + "Event> {\n        if self.len == EVENT_QUEUE_SIZE {\n            return Err(event);\n        }\n        let tail = (self.head + self.len) % EVENT_QUEUE_SIZE;\n        self.queue[tail] = Some(event);\n        self.len += 1;\n        Ok(())\n    }\n\n    /// Takes the oldest event, if there is one, through the machine.\n    pub fn process_one(&mut self) -> bool {\n        if self.len == 0 {\n            return false;\n        }\n        let event = self.queue[self.head].take();\n        self.head = (self.head + 1) % EVENT_QUEUE_SIZE;\n        self.len -= 1;\n        if let Some(event) = event {\n            self.fsm.process(event);\n        }\n        true\n    }\n\n    /// Takes all pending events through the machine and returns how\n    /// many there were.\n    pub fn process_all(&mut self) -> u32 {\n        let mut count = 0;\n        while self.process_one() {\n            count += 1;\n        }\n        count\n    }\n}\n"@
}

/// Writes: the interrupt-driven machine: the dispatcher behind a queue of fixed capacity.
pub fn write_interrupt_queue(out: &mut String, p: &str)
    ensures
        final(out)@ == old(out)@ + interrupt_queue_text(p@),
{
    let ghost start = out@;
    out.append("\n/// How many events the queue holds at most.\npub const EVENT_QUEUE_SIZE: usize = 8;\n\n/// The machine behind a queue of fixed capacity, fed from interrupt\n/// handlers.\npub struct ");
    out.append(p);
    out.append("Machine<A: ");
    out.append(p);
    out.append("Actions> {\n    fsm: ");
    out.append(p);
    out.append("Fsm<A>,\n    queue: [Option<");
    out.append(p);
    out.append("Event>; EVENT_QUEUE_SIZE],\n    head: usize,\n    len: usize,\n}\n\nimpl<A: ");
    out.append(p);
    out.append("Actions> ");
    out.append(p);
    out.append("Machine<A> {\n    /// Creates the machine with an empty queue.\n    pub fn new(actions: A) -> Self {\n        Self { fsm: ");
    out.append(p);
    out.append("Fsm::new(actions), queue: [None; EVENT_QUEUE_SIZE], head: 0, len: 0 }\n    }\n\n    /// The current state.\n    pub fn state(&self) -> ");
    out.append(p);
    out.append("State {\n        self.fsm.state()\n    }\n\n    /// The number of pending events.\n    pub fn queue_len(&self) -> usize {\n        self.len\n    }\n\n    /// Posts an event in bounded time, without allocating. A full queue\n    /// hands the event back.\n    pub fn post(&mut self, event: ");
    out.append(p);
    out.append("Event) -> Result<(), ");
    out.append(p);
    out.append("Event> {\n        if self.len == EVENT_QUEUE_SIZE {\n            return Err(event);\n        }\n        let tail = (self.head + self.len) % EVENT_QUEUE_SIZE;\n        self.queue[tail] = Some(event);\n        self.len += 1;\n        Ok(())\n    }\n\n    /// Takes the oldest event, if there is one, through the machine.\n    pub fn process_one(&mut self) -> bool {\n        if self.len == 0 {\n            return false;\n        }\n        let event = self.queue[self.head].take();\n        self.head = (self.head + 1) % EVENT_QUEUE_SIZE;\n        self.len -= 1;\n        if let Some(event) = event {\n            self.fsm.process(event);\n        }\n        true\n    }\n\n    /// Takes all pending events through the machine and returns how\n    /// many there were.\n    pub fn process_all(&mut self) -> u32 {\n        let mut count = 0;\n        while self.process_one() {\n            count += 1;\n        }\n        count\n    }\n}\n");
    assert(out@ =~= start + interrupt_queue_text(p@));
}

} // verus!
