//! The code emitted for synchronous dispatch, compiled and run.
//!
//! The items of this file are the text that `generate` returns for the
//! model in `DOOR`; the first test holds the two against each other.

#![allow(dead_code, unused_mut, non_snake_case)]

use oxidate::codegen::{generate, generate_rust_code, CodegenTarget};
use oxidate::machine::Dispatcher;
use oxidate::parse_fsm;

const DOOR: &str = r#"
    fsm door_lock {
        [*] --> Locked
        state Locked { tick / count }
        state Unlocked { entry / enter_unlocked }
        choice Check { [is_open] -> Open / warn  [else] -> Locked }
        Locked --> Unlocked : unlock [is_valid_code] / play_success_sound(1)
        Locked --> Locked : unlock [else] / play_error_sound
        Unlocked --> <<Check>> : lock [attempts > 3]
        Unlocked --> Open : open
    }
"#;

const DOOR_CODE: &str = r#"// DoorLock state machine

/// The states of the machine.
#[derive(Debug, Clone, Copy, PartialEq, Eq)]
pub enum DoorLockState {
    Locked,
    Unlocked,
    Open,
}

/// The events to which the machine responds.
#[derive(Debug, Clone, Copy, PartialEq, Eq)]
pub enum DoorLockEvent {
    Lock,
    Open,
    Tick,
    Unlock,
}

/// What the host supplies: the guards and the actions.
pub trait DoorLockActions {
    fn is_valid_code(&self) -> bool;
    fn attempts___3(&self) -> bool;
    fn is_open(&self) -> bool;
    fn enter_unlocked(&mut self);
    fn count(&mut self);
    fn play_success_sound(&mut self);
    fn play_error_sound(&mut self);
    fn warn(&mut self);
}

/// The machine.
pub struct DoorLockFsm<A: DoorLockActions> {
    state: DoorLockState,
    actions: A,
}

impl<A: DoorLockActions> DoorLockFsm<A> {
    /// Creates the machine in its initial state and runs the entry
    /// actions of that state.
    pub fn new(mut actions: A) -> Self {
        Self { state: DoorLockState::Locked, actions }
    }

    /// The current state.
    pub fn state(&self) -> DoorLockState {
        self.state
    }

    /// Takes one event through the machine and tells whether a
    /// transition fired.
    pub fn process(&mut self, event: DoorLockEvent) -> bool {
        match (self.state, event) {
            (DoorLockState::Locked, DoorLockEvent::Tick) => {
                if true {
                    self.actions.count();
                    return true;
                }
                false
            }
            (DoorLockState::Locked, DoorLockEvent::Unlock) => {
                if self.actions.is_valid_code() {
                    self.actions.play_success_sound();
                    self.state = DoorLockState::Unlocked;
                    self.actions.enter_unlocked();
                    return true;
                }
                if true {
                    self.actions.play_error_sound();
                    self.state = DoorLockState::Locked;
                    return true;
                }
                false
            }
            (DoorLockState::Unlocked, DoorLockEvent::Lock) => {
                if self.actions.attempts___3() && self.actions.is_open() {
                    self.actions.warn();
                    self.state = DoorLockState::Open;
                    return true;
                }
                if self.actions.attempts___3() {
                    self.state = DoorLockState::Locked;
                    return true;
                }
                false
            }
            (DoorLockState::Unlocked, DoorLockEvent::Open) => {
                if true {
                    self.state = DoorLockState::Open;
                    return true;
                }
                false
            }
            _ => false,
        }
    }
}
"#;

// DoorLock state machine

/// The states of the machine.
#[derive(Debug, Clone, Copy, PartialEq, Eq)]
pub enum DoorLockState {
    Locked,
    Unlocked,
    Open,
}

/// The events to which the machine responds.
#[derive(Debug, Clone, Copy, PartialEq, Eq)]
pub enum DoorLockEvent {
    Lock,
    Open,
    Tick,
    Unlock,
}

/// What the host supplies: the guards and the actions.
pub trait DoorLockActions {
    fn is_valid_code(&self) -> bool;
    fn attempts___3(&self) -> bool;
    fn is_open(&self) -> bool;
    fn enter_unlocked(&mut self);
    fn count(&mut self);
    fn play_success_sound(&mut self);
    fn play_error_sound(&mut self);
    fn warn(&mut self);
}

/// The machine.
pub struct DoorLockFsm<A: DoorLockActions> {
    state: DoorLockState,
    actions: A,
}

impl<A: DoorLockActions> DoorLockFsm<A> {
    /// Creates the machine in its initial state and runs the entry
    /// actions of that state.
    pub fn new(mut actions: A) -> Self {
        Self { state: DoorLockState::Locked, actions }
    }

    /// The current state.
    pub fn state(&self) -> DoorLockState {
        self.state
    }

    /// Takes one event through the machine and tells whether a
    /// transition fired.
    pub fn process(&mut self, event: DoorLockEvent) -> bool {
        match (self.state, event) {
            (DoorLockState::Locked, DoorLockEvent::Tick) => {
                if true {
                    self.actions.count();
                    return true;
                }
                false
            }
            (DoorLockState::Locked, DoorLockEvent::Unlock) => {
                if self.actions.is_valid_code() {
                    self.actions.play_success_sound();
                    self.state = DoorLockState::Unlocked;
                    self.actions.enter_unlocked();
                    return true;
                }
                if true {
                    self.actions.play_error_sound();
                    self.state = DoorLockState::Locked;
                    return true;
                }
                false
            }
            (DoorLockState::Unlocked, DoorLockEvent::Lock) => {
                if self.actions.attempts___3() && self.actions.is_open() {
                    self.actions.warn();
                    self.state = DoorLockState::Open;
                    return true;
                }
                if self.actions.attempts___3() {
                    self.state = DoorLockState::Locked;
                    return true;
                }
                false
            }
            (DoorLockState::Unlocked, DoorLockEvent::Open) => {
                if true {
                    self.state = DoorLockState::Open;
                    return true;
                }
                false
            }
            _ => false,
        }
    }
}

struct Host {
    valid_code: bool,
    many_attempts: bool,
    open: bool,
    log: Vec<&'static str>,
}

fn host(valid_code: bool, many_attempts: bool, open: bool) -> Host {
    Host { valid_code, many_attempts, open, log: Vec::new() }
}

impl DoorLockActions for Host {
    fn is_valid_code(&self) -> bool {
        self.valid_code
    }
    fn attempts___3(&self) -> bool {
        self.many_attempts
    }
    fn is_open(&self) -> bool {
        self.open
    }
    fn enter_unlocked(&mut self) {
        self.log.push("enter_unlocked");
    }
    fn count(&mut self) {
        self.log.push("count");
    }
    fn play_success_sound(&mut self) {
        self.log.push("play_success_sound");
    }
    fn play_error_sound(&mut self) {
        self.log.push("play_error_sound");
    }
    fn warn(&mut self) {
        self.log.push("warn");
    }
}

fn first_difference_door(a: &str, b: &str) -> Option<(usize, String, String)> {
    let x: Vec<&str> = a.split('\n').collect();
    let y: Vec<&str> = b.split('\n').collect();
    for i in 0..x.len().max(y.len()) {
        let l = x.get(i).copied().unwrap_or("<end>");
        let r = y.get(i).copied().unwrap_or("<end>");
        if l != r {
            return Some((i + 1, l.to_string(), r.to_string()));
        }
    }
    None
}

#[test]
fn emitted_dispatcher_is_the_code_of_this_file() {
    let model = parse_fsm(DOOR).unwrap().remove(0);
    let text = generate(&model, CodegenTarget::Standard).unwrap();
    assert_eq!(first_difference_door(&text, DOOR_CODE), None);
    assert!(model.validate().is_ok());
    assert_eq!(generate_rust_code(&model), text);
}

#[test]
fn emitted_guard_rejection_fires_only_the_error_action() {
    let mut fsm = DoorLockFsm::new(host(false, false, false));
    assert!(fsm.process(DoorLockEvent::Unlock));
    assert_eq!(fsm.state(), DoorLockState::Locked);
    assert_eq!(fsm.actions.log, vec!["play_error_sound"]);

    let mut fsm = DoorLockFsm::new(host(true, false, false));
    assert!(fsm.process(DoorLockEvent::Unlock));
    assert_eq!(fsm.state(), DoorLockState::Unlocked);
    assert_eq!(fsm.actions.log, vec!["play_success_sound", "enter_unlocked"]);
}

#[test]
fn emitted_internal_transition_keeps_the_state() {
    let mut fsm = DoorLockFsm::new(host(true, false, false));
    assert!(fsm.process(DoorLockEvent::Tick));
    assert_eq!(fsm.state(), DoorLockState::Locked);
    assert_eq!(fsm.actions.log, vec!["count"]);
    assert!(!fsm.process(DoorLockEvent::Open));
    assert!(!fsm.process(DoorLockEvent::Lock));
    assert_eq!(fsm.actions.log, vec!["count"]);
}

#[test]
fn emitted_choice_point_is_a_chain_of_guards() {
    let mut fsm = DoorLockFsm::new(host(true, true, true));
    fsm.process(DoorLockEvent::Unlock);
    assert!(fsm.process(DoorLockEvent::Lock));
    assert_eq!(fsm.state(), DoorLockState::Open);
    assert_eq!(fsm.actions.log, vec!["play_success_sound", "enter_unlocked", "warn"]);

    let mut fsm = DoorLockFsm::new(host(true, true, false));
    fsm.process(DoorLockEvent::Unlock);
    assert!(fsm.process(DoorLockEvent::Lock));
    assert_eq!(fsm.state(), DoorLockState::Locked);

    let mut fsm = DoorLockFsm::new(host(true, false, true));
    fsm.process(DoorLockEvent::Unlock);
    assert!(!fsm.process(DoorLockEvent::Lock));
    assert_eq!(fsm.state(), DoorLockState::Unlocked);
}

#[test]
fn emitted_dispatcher_agrees_with_the_library_on_every_host() {
    let events = ["tick", "unlock", "lock", "unlock", "open", "lock", "tick"];
    for bits in 0..8u8 {
        let (valid, many, open) = (bits & 1 != 0, bits & 2 != 0, bits & 4 != 0);
        let mut truths = Vec::new();
        if valid {
            truths.push("is_valid_code".to_string());
        }
        if many {
            truths.push("attempts > 3".to_string());
        }
        if open {
            truths.push("is_open".to_string());
        }
        let model = parse_fsm(DOOR).unwrap().remove(0);
        let mut reference = Dispatcher::new(model).unwrap();
        let mut fsm = DoorLockFsm::new(host(valid, many, open));
        for e in events {
            reference.dispatch(e, &truths);
            let event = match e {
                "tick" => DoorLockEvent::Tick,
                "unlock" => DoorLockEvent::Unlock,
                "lock" => DoorLockEvent::Lock,
                _ => DoorLockEvent::Open,
            };
            fsm.process(event);
            assert_eq!(format!("{:?}", fsm.state()), reference.state().as_str());
        }
        let expected: Vec<&str> = reference.actions.iter().map(|a| a.name.as_str()).collect();
        assert_eq!(fsm.actions.log, expected);
    }
}
