//! The code emitted for an active object, compiled and run.
//!
//! The items of this file are the text that `generate` returns for the
//! model in `LIGHT`; the first test holds the two against each other.

#![allow(dead_code, unused_mut)]

use oxidate::codegen::{generate, CodegenTarget};
use oxidate::machine::Dispatcher;
use oxidate::parse_fsm;

const LIGHT: &str = r#"
    fsm TrafficLight {
        [*] --> Red
        state Red { entry / enter_red  exit / exit_red }
        state Green { entry / enter_green  exit / exit_green }
        state Yellow { entry / enter_yellow  exit / exit_yellow }
        Red --> Green : TimerExpired
        Green --> Yellow : TimerExpired
        Yellow --> Red : TimerExpired
    }
"#;

const LIGHT_CODE: &str = r#"// TrafficLight state machine

/// The states of the machine.
#[derive(Debug, Clone, Copy, PartialEq, Eq)]
pub enum TrafficLightState {
    Red,
    Green,
    Yellow,
}

/// The events to which the machine responds.
#[derive(Debug, Clone, Copy, PartialEq, Eq)]
pub enum TrafficLightEvent {
    TimerExpired,
}

/// What the host supplies: the guards and the actions.
pub trait TrafficLightActions {
    fn enter_red(&mut self);
    fn exit_red(&mut self);
    fn enter_green(&mut self);
    fn exit_green(&mut self);
    fn enter_yellow(&mut self);
    fn exit_yellow(&mut self);
}

/// The machine.
pub struct TrafficLightFsm<A: TrafficLightActions> {
    state: TrafficLightState,
    actions: A,
}

impl<A: TrafficLightActions> TrafficLightFsm<A> {
    /// Creates the machine in its initial state and runs the entry
    /// actions of that state.
    pub fn new(mut actions: A) -> Self {
        actions.enter_red();
        Self { state: TrafficLightState::Red, actions }
    }

    /// The current state.
    pub fn state(&self) -> TrafficLightState {
        self.state
    }

    /// Takes one event through the machine and tells whether a
    /// transition fired.
    pub fn process(&mut self, event: TrafficLightEvent) -> bool {
        match (self.state, event) {
            (TrafficLightState::Red, TrafficLightEvent::TimerExpired) => {
                if true {
                    self.actions.exit_red();
                    self.state = TrafficLightState::Green;
                    self.actions.enter_green();
                    return true;
                }
                false
            }
            (TrafficLightState::Green, TrafficLightEvent::TimerExpired) => {
                if true {
                    self.actions.exit_green();
                    self.state = TrafficLightState::Yellow;
                    self.actions.enter_yellow();
                    return true;
                }
                false
            }
            (TrafficLightState::Yellow, TrafficLightEvent::TimerExpired) => {
                if true {
                    self.actions.exit_yellow();
                    self.state = TrafficLightState::Red;
                    self.actions.enter_red();
                    return true;
                }
                false
            }
            _ => false,
        }
    }
}

/// How many events the queue holds at most.
pub const EVENT_QUEUE_SIZE: usize = 8;

/// The machine behind a bounded queue of events.
pub struct TrafficLightActiveObject<A: TrafficLightActions> {
    fsm: TrafficLightFsm<A>,
    queue: std::collections::VecDeque<TrafficLightEvent>,
}

impl<A: TrafficLightActions> TrafficLightActiveObject<A> {
    /// Creates the active object with an empty queue.
    pub fn new(actions: A) -> Self {
        Self { fsm: TrafficLightFsm::new(actions), queue: std::collections::VecDeque::new() }
    }

    /// The current state.
    pub fn state(&self) -> TrafficLightState {
        self.fsm.state()
    }

    /// Posts an event without blocking. Returns false and drops the
    /// event if the queue is full.
    pub fn post(&mut self, event: TrafficLightEvent) -> bool {
        if self.queue.len() < EVENT_QUEUE_SIZE {
            self.queue.push_back(event);
            true
        } else {
            false
        }
    }

    /// Takes the oldest event, if there is one, through the machine.
    pub fn run_once(&mut self) -> bool {
        match self.queue.pop_front() {
            Some(event) => {
                self.fsm.process(event);
                true
            }
            None => false,
        }
    }

    /// Takes all pending events through the machine and returns how
    /// many there were.
    pub fn run_all(&mut self) -> u32 {
        let mut count = 0;
        while self.run_once() {
            count += 1;
        }
        count
    }
}
"#;

// TrafficLight state machine

/// The states of the machine.
#[derive(Debug, Clone, Copy, PartialEq, Eq)]
pub enum TrafficLightState {
    Red,
    Green,
    Yellow,
}

/// The events to which the machine responds.
#[derive(Debug, Clone, Copy, PartialEq, Eq)]
pub enum TrafficLightEvent {
    TimerExpired,
}

/// What the host supplies: the guards and the actions.
pub trait TrafficLightActions {
    fn enter_red(&mut self);
    fn exit_red(&mut self);
    fn enter_green(&mut self);
    fn exit_green(&mut self);
    fn enter_yellow(&mut self);
    fn exit_yellow(&mut self);
}

/// The machine.
pub struct TrafficLightFsm<A: TrafficLightActions> {
    state: TrafficLightState,
    actions: A,
}

impl<A: TrafficLightActions> TrafficLightFsm<A> {
    /// Creates the machine in its initial state and runs the entry
    /// actions of that state.
    pub fn new(mut actions: A) -> Self {
        actions.enter_red();
        Self { state: TrafficLightState::Red, actions }
    }

    /// The current state.
    pub fn state(&self) -> TrafficLightState {
        self.state
    }

    /// Takes one event through the machine and tells whether a
    /// transition fired.
    pub fn process(&mut self, event: TrafficLightEvent) -> bool {
        match (self.state, event) {
            (TrafficLightState::Red, TrafficLightEvent::TimerExpired) => {
                if true {
                    self.actions.exit_red();
                    self.state = TrafficLightState::Green;
                    self.actions.enter_green();
                    return true;
                }
                false
            }
            (TrafficLightState::Green, TrafficLightEvent::TimerExpired) => {
                if true {
                    self.actions.exit_green();
                    self.state = TrafficLightState::Yellow;
                    self.actions.enter_yellow();
                    return true;
                }
                false
            }
            (TrafficLightState::Yellow, TrafficLightEvent::TimerExpired) => {
                if true {
                    self.actions.exit_yellow();
                    self.state = TrafficLightState::Red;
                    self.actions.enter_red();
                    return true;
                }
                false
            }
            _ => false,
        }
    }
}

/// How many events the queue holds at most.
pub const EVENT_QUEUE_SIZE: usize = 8;

/// The machine behind a bounded queue of events.
pub struct TrafficLightActiveObject<A: TrafficLightActions> {
    fsm: TrafficLightFsm<A>,
    queue: std::collections::VecDeque<TrafficLightEvent>,
}

impl<A: TrafficLightActions> TrafficLightActiveObject<A> {
    /// Creates the active object with an empty queue.
    pub fn new(actions: A) -> Self {
        Self { fsm: TrafficLightFsm::new(actions), queue: std::collections::VecDeque::new() }
    }

    /// The current state.
    pub fn state(&self) -> TrafficLightState {
        self.fsm.state()
    }

    /// Posts an event without blocking. Returns false and drops the
    /// event if the queue is full.
    pub fn post(&mut self, event: TrafficLightEvent) -> bool {
        if self.queue.len() < EVENT_QUEUE_SIZE {
            self.queue.push_back(event);
            true
        } else {
            false
        }
    }

    /// Takes the oldest event, if there is one, through the machine.
    pub fn run_once(&mut self) -> bool {
        match self.queue.pop_front() {
            Some(event) => {
                self.fsm.process(event);
                true
            }
            None => false,
        }
    }

    /// Takes all pending events through the machine and returns how
    /// many there were.
    pub fn run_all(&mut self) -> u32 {
        let mut count = 0;
        while self.run_once() {
            count += 1;
        }
        count
    }
}

struct Recorder {
    log: Vec<&'static str>,
}

impl TrafficLightActions for Recorder {
    fn enter_red(&mut self) {
        self.log.push("enter:Red");
    }
    fn exit_red(&mut self) {
        self.log.push("exit:Red");
    }
    fn enter_green(&mut self) {
        self.log.push("enter:Green");
    }
    fn exit_green(&mut self) {
        self.log.push("exit:Green");
    }
    fn enter_yellow(&mut self) {
        self.log.push("enter:Yellow");
    }
    fn exit_yellow(&mut self) {
        self.log.push("exit:Yellow");
    }
}

fn first_difference_light(a: &str, b: &str) -> Option<(usize, String, String)> {
    let x: Vec<&str> = a.split('\n').collect();
    let y: Vec<&str> = b.split('\n').collect();
    for i in 0..x.len().max(y.len()) {
        let l = x.get(i).copied().unwrap_or("<end>");
        let r = y.get(i).copied().unwrap_or("<end>");
        if l != r {
            return Some((i + 1, l.to_string(), r.to_string()));
        }
    }
    None
}

#[test]
fn emitted_active_object_is_the_code_of_this_file() {
    let model = parse_fsm(LIGHT).unwrap().remove(0);
    let text = generate(&model, CodegenTarget::Embassy).unwrap();
    assert_eq!(first_difference_light(&text, LIGHT_CODE), None);
}

#[test]
fn emitted_dispatcher_returns_to_red_after_three_events() {
    let mut fsm = TrafficLightFsm::new(Recorder { log: Vec::new() });
    assert_eq!(fsm.state(), TrafficLightState::Red);
    for _ in 0..3 {
        assert!(fsm.process(TrafficLightEvent::TimerExpired));
    }
    assert_eq!(fsm.state(), TrafficLightState::Red);
    assert_eq!(
        fsm.actions.log,
        vec![
            "enter:Red",
            "exit:Red",
            "enter:Green",
            "exit:Green",
            "enter:Yellow",
            "exit:Yellow",
            "enter:Red"
        ]
    );
}

#[test]
fn emitted_dispatcher_agrees_with_the_library() {
    let model = parse_fsm(LIGHT).unwrap().remove(0);
    let mut reference = Dispatcher::new(model).unwrap();
    let mut fsm = TrafficLightFsm::new(Recorder { log: Vec::new() });
    for _ in 0..5 {
        reference.dispatch("TimerExpired", &vec![]);
        fsm.process(TrafficLightEvent::TimerExpired);
    }
    let expected: Vec<String> = reference
        .actions
        .iter()
        .map(|a| a.name.replace("enter_", "enter:").replace("exit_", "exit:"))
        .collect();
    let got: Vec<String> = fsm.actions.log.iter().map(|s| s.to_lowercase()).collect();
    assert_eq!(got, expected);
    assert_eq!(format!("{:?}", fsm.state()), reference.state().as_str());
}

#[test]
fn emitted_queue_refuses_events_when_full() {
    let mut object = TrafficLightActiveObject::new(Recorder { log: Vec::new() });
    for _ in 0..EVENT_QUEUE_SIZE {
        assert!(object.post(TrafficLightEvent::TimerExpired));
    }
    assert!(!object.post(TrafficLightEvent::TimerExpired));
    assert_eq!(object.run_all(), 8);
    assert_eq!(object.state(), TrafficLightState::Yellow);
    assert!(!object.run_once());
    assert!(object.post(TrafficLightEvent::TimerExpired));
    assert!(object.post(TrafficLightEvent::TimerExpired));
    assert_eq!(object.run_all(), 2);
    assert_eq!(object.state(), TrafficLightState::Green);
}
