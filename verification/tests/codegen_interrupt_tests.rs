//! The code emitted for an interrupt-driven machine, compiled and run.
//!
//! The items of this file are the text that `generate` returns for the
//! model in `MOTOR`; the first test holds the two against each other.

#![allow(dead_code, unused_mut)]

use oxidate::codegen::{generate, CodegenTarget};
use oxidate::parse_fsm;

const MOTOR: &str = r#"
    fsm Motor {
        [*] --> Idle
        state Idle { entry / power_off }
        state Running {
            entry / power_on
            set_speed / apply_speed
        }
        state Fault { entry / sound_alarm }
        Idle --> Running : start
        Running --> Idle : stop
        Running --> Fault : overheat / cut_power
        Fault --> Idle : reset [cooled_down]
    }
"#;

const MOTOR_CODE: &str = r#"// Motor state machine

/// The states of the machine.
#[derive(Debug, Clone, Copy, PartialEq, Eq)]
pub enum MotorState {
    Idle,
    Running,
    Fault,
}

/// The events to which the machine responds.
#[derive(Debug, Clone, Copy, PartialEq, Eq)]
pub enum MotorEvent {
    Overheat,
    Reset,
    SetSpeed,
    Start,
    Stop,
}

/// What the host supplies: the guards and the actions.
pub trait MotorActions {
    fn cooled_down(&self) -> bool;
    fn power_off(&mut self);
    fn power_on(&mut self);
    fn sound_alarm(&mut self);
    fn cut_power(&mut self);
    fn apply_speed(&mut self);
}

/// The machine.
pub struct MotorFsm<A: MotorActions> {
    state: MotorState,
    actions: A,
}

impl<A: MotorActions> MotorFsm<A> {
    /// Creates the machine in its initial state and runs the entry
    /// actions of that state.
    pub fn new(mut actions: A) -> Self {
        actions.power_off();
        Self { state: MotorState::Idle, actions }
    }

    /// The current state.
    pub fn state(&self) -> MotorState {
        self.state
    }

    /// Takes one event through the machine and tells whether a
    /// transition fired.
    pub fn process(&mut self, event: MotorEvent) -> bool {
        match (self.state, event) {
            (MotorState::Idle, MotorEvent::Start) => {
                if true {
                    self.state = MotorState::Running;
                    self.actions.power_on();
                    return true;
                }
                false
            }
            (MotorState::Running, MotorEvent::Overheat) => {
                if true {
                    self.actions.cut_power();
                    self.state = MotorState::Fault;
                    self.actions.sound_alarm();
                    return true;
                }
                false
            }
            (MotorState::Running, MotorEvent::SetSpeed) => {
                if true {
                    self.actions.apply_speed();
                    return true;
                }
                false
            }
            (MotorState::Running, MotorEvent::Stop) => {
                if true {
                    self.state = MotorState::Idle;
                    self.actions.power_off();
                    return true;
                }
                false
            }
            (MotorState::Fault, MotorEvent::Reset) => {
                if self.actions.cooled_down() {
                    self.state = MotorState::Idle;
                    self.actions.power_off();
                    return true;
                }
                false
            }
            _ => false,
        }
    }
}

/// How many events the queue holds at most.
pub const EVENT_QUEUE_SIZE: usize = 8;

/// The machine behind a queue of fixed capacity, fed from interrupt
/// handlers.
pub struct MotorMachine<A: MotorActions> {
    fsm: MotorFsm<A>,
    queue: [Option<MotorEvent>; EVENT_QUEUE_SIZE],
    head: usize,
    len: usize,
}

impl<A: MotorActions> MotorMachine<A> {
    /// Creates the machine with an empty queue.
    pub fn new(actions: A) -> Self {
        Self { fsm: MotorFsm::new(actions), queue: [None; EVENT_QUEUE_SIZE], head: 0, len: 0 }
    }

    /// The current state.
    pub fn state(&self) -> MotorState {
        self.fsm.state()
    }

    /// The number of pending events.
    pub fn queue_len(&self) -> usize {
        self.len
    }

    /// Posts an event in bounded time, without allocating. A full queue
    /// hands the event back.
    pub fn post(&mut self, event: MotorEvent) -> Result<(), MotorEvent> {
        if self.len == EVENT_QUEUE_SIZE {
            return Err(event);
        }
        let tail = (self.head + self.len) % EVENT_QUEUE_SIZE;
        self.queue[tail] = Some(event);
        self.len += 1;
        Ok(())
    }

    /// Takes the oldest event, if there is one, through the machine.
    pub fn process_one(&mut self) -> bool {
        if self.len == 0 {
            return false;
        }
        let event = self.queue[self.head].take();
        self.head = (self.head + 1) % EVENT_QUEUE_SIZE;
        self.len -= 1;
        if let Some(event) = event {
            self.fsm.process(event);
        }
        true
    }

    /// Takes all pending events through the machine and returns how
    /// many there were.
    pub fn process_all(&mut self) -> u32 {
        let mut count = 0;
        while self.process_one() {
            count += 1;
        }
        count
    }
}
"#;

// Motor state machine

/// The states of the machine.
#[derive(Debug, Clone, Copy, PartialEq, Eq)]
pub enum MotorState {
    Idle,
    Running,
    Fault,
}

/// The events to which the machine responds.
#[derive(Debug, Clone, Copy, PartialEq, Eq)]
pub enum MotorEvent {
    Overheat,
    Reset,
    SetSpeed,
    Start,
    Stop,
}

/// What the host supplies: the guards and the actions.
pub trait MotorActions {
    fn cooled_down(&self) -> bool;
    fn power_off(&mut self);
    fn power_on(&mut self);
    fn sound_alarm(&mut self);
    fn cut_power(&mut self);
    fn apply_speed(&mut self);
}

/// The machine.
pub struct MotorFsm<A: MotorActions> {
    state: MotorState,
    actions: A,
}

impl<A: MotorActions> MotorFsm<A> {
    /// Creates the machine in its initial state and runs the entry
    /// actions of that state.
    pub fn new(mut actions: A) -> Self {
        actions.power_off();
        Self { state: MotorState::Idle, actions }
    }

    /// The current state.
    pub fn state(&self) -> MotorState {
        self.state
    }

    /// Takes one event through the machine and tells whether a
    /// transition fired.
    pub fn process(&mut self, event: MotorEvent) -> bool {
        match (self.state, event) {
            (MotorState::Idle, MotorEvent::Start) => {
                if true {
                    self.state = MotorState::Running;
                    self.actions.power_on();
                    return true;
                }
                false
            }
            (MotorState::Running, MotorEvent::Overheat) => {
                if true {
                    self.actions.cut_power();
                    self.state = MotorState::Fault;
                    self.actions.sound_alarm();
                    return true;
                }
                false
            }
            (MotorState::Running, MotorEvent::SetSpeed) => {
                if true {
                    self.actions.apply_speed();
                    return true;
                }
                false
            }
            (MotorState::Running, MotorEvent::Stop) => {
                if true {
                    self.state = MotorState::Idle;
                    self.actions.power_off();
                    return true;
                }
                false
            }
            (MotorState::Fault, MotorEvent::Reset) => {
                if self.actions.cooled_down() {
                    self.state = MotorState::Idle;
                    self.actions.power_off();
                    return true;
                }
                false
            }
            _ => false,
        }
    }
}

/// How many events the queue holds at most.
pub const EVENT_QUEUE_SIZE: usize = 8;

/// The machine behind a queue of fixed capacity, fed from interrupt
/// handlers.
pub struct MotorMachine<A: MotorActions> {
    fsm: MotorFsm<A>,
    queue: [Option<MotorEvent>; EVENT_QUEUE_SIZE],
    head: usize,
    len: usize,
}

impl<A: MotorActions> MotorMachine<A> {
    /// Creates the machine with an empty queue.
    pub fn new(actions: A) -> Self {
        Self { fsm: MotorFsm::new(actions), queue: [None; EVENT_QUEUE_SIZE], head: 0, len: 0 }
    }

    /// The current state.
    pub fn state(&self) -> MotorState {
        self.fsm.state()
    }

    /// The number of pending events.
    pub fn queue_len(&self) -> usize {
        self.len
    }

    /// Posts an event in bounded time, without allocating. A full queue
    /// hands the event back.
    pub fn post(&mut self, event: MotorEvent) -> Result<(), MotorEvent> {
        if self.len == EVENT_QUEUE_SIZE {
            return Err(event);
        }
        let tail = (self.head + self.len) % EVENT_QUEUE_SIZE;
        self.queue[tail] = Some(event);
        self.len += 1;
        Ok(())
    }

    /// Takes the oldest event, if there is one, through the machine.
    pub fn process_one(&mut self) -> bool {
        if self.len == 0 {
            return false;
        }
        let event = self.queue[self.head].take();
        self.head = (self.head + 1) % EVENT_QUEUE_SIZE;
        self.len -= 1;
        if let Some(event) = event {
            self.fsm.process(event);
        }
        true
    }

    /// Takes all pending events through the machine and returns how
    /// many there were.
    pub fn process_all(&mut self) -> u32 {
        let mut count = 0;
        while self.process_one() {
            count += 1;
        }
        count
    }
}

struct Rig {
    cool: bool,
    log: Vec<&'static str>,
}

impl MotorActions for Rig {
    fn cooled_down(&self) -> bool {
        self.cool
    }
    fn power_off(&mut self) {
        self.log.push("power_off");
    }
    fn power_on(&mut self) {
        self.log.push("power_on");
    }
    fn sound_alarm(&mut self) {
        self.log.push("sound_alarm");
    }
    fn apply_speed(&mut self) {
        self.log.push("apply_speed");
    }
    fn cut_power(&mut self) {
        self.log.push("cut_power");
    }
}

fn first_difference_motor(a: &str, b: &str) -> Option<(usize, String, String)> {
    let x: Vec<&str> = a.split('\n').collect();
    let y: Vec<&str> = b.split('\n').collect();
    for i in 0..x.len().max(y.len()) {
        let l = x.get(i).copied().unwrap_or("<end>");
        let r = y.get(i).copied().unwrap_or("<end>");
        if l != r {
            return Some((i + 1, l.to_string(), r.to_string()));
        }
    }
    None
}

#[test]
fn emitted_interrupt_machine_is_the_code_of_this_file() {
    let model = parse_fsm(MOTOR).unwrap().remove(0);
    let text = generate(&model, CodegenTarget::Rtic).unwrap();
    assert_eq!(first_difference_motor(&text, MOTOR_CODE), None);
}

#[test]
fn emitted_full_queue_hands_the_event_back() {
    let mut machine = MotorMachine::new(Rig { cool: false, log: Vec::new() });
    for _ in 0..EVENT_QUEUE_SIZE {
        assert_eq!(machine.post(MotorEvent::SetSpeed), Ok(()));
    }
    assert_eq!(machine.post(MotorEvent::Start), Err(MotorEvent::Start));
    assert_eq!(machine.queue_len(), 8);
    assert_eq!(machine.process_all(), 8);
    assert_eq!(machine.queue_len(), 0);
    assert_eq!(machine.state(), MotorState::Idle);
    assert!(!machine.process_one());
}

#[test]
fn emitted_recovery_waits_for_its_guard() {
    let mut machine = MotorMachine::new(Rig { cool: false, log: Vec::new() });
    for e in [MotorEvent::Start, MotorEvent::SetSpeed, MotorEvent::Overheat, MotorEvent::Reset] {
        assert_eq!(machine.post(e), Ok(()));
    }
    assert_eq!(machine.process_all(), 4);
    assert_eq!(machine.state(), MotorState::Fault);
    assert_eq!(
        machine.fsm.actions.log,
        vec!["power_off", "power_on", "apply_speed", "cut_power", "sound_alarm"]
    );
    machine.fsm.actions.cool = true;
    assert_eq!(machine.post(MotorEvent::Reset), Ok(()));
    assert!(machine.process_one());
    assert_eq!(machine.state(), MotorState::Idle);
}

#[test]
fn generation_needs_a_valid_model() {
    let model = parse_fsm("fsm M { state A  A --> <<Nowhere>> : go }").unwrap().remove(0);
    assert_eq!(
        generate(&model, CodegenTarget::Standard).unwrap_err(),
        vec![
            "No initial state defined".to_string(),
            "Transition target state '<<Nowhere>>' not found".to_string()
        ]
    );
}
