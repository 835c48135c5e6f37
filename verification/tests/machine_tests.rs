//! Tests of the machine at run time: dispatch and the bounded queue.

use oxidate::machine::{ActiveObject, Dispatcher, Outcome};
use oxidate::parse_fsm;

fn machine(source: &str) -> Dispatcher {
    let model = parse_fsm(source).unwrap().remove(0);
    assert!(model.validate().is_ok());
    Dispatcher::new(model).unwrap()
}

fn names(d: &Dispatcher) -> Vec<&str> {
    d.actions.iter().map(|a| a.name.as_str()).collect()
}

const TRAFFIC_LIGHT: &str = r#"
    fsm TrafficLight {
        [*] --> Red
        state Red { entry / enter_red  exit / exit_red }
        state Green { entry / enter_green  exit / exit_green }
        state Yellow { entry / enter_yellow  exit / exit_yellow }
        Red --> Green : TimerExpired
        Green --> Yellow : TimerExpired
        Yellow --> Red : TimerExpired
    }
"#;

#[test]
fn three_dispatches_return_to_red() {
    let mut d = machine(TRAFFIC_LIGHT);
    assert_eq!(d.state(), "Red");
    for _ in 0..3 {
        assert_eq!(d.dispatch("TimerExpired", &vec![]), Outcome::Transitioned);
    }
    assert_eq!(d.state(), "Red");
    assert_eq!(
        names(&d),
        vec![
            "enter_red", "exit_red", "enter_green", "exit_green", "enter_yellow", "exit_yellow",
            "enter_red"
        ]
    );
    assert_eq!(d.dispatch("Unknown", &vec![]), Outcome::NotHandled);
    assert_eq!(d.state(), "Red");
    assert_eq!(names(&d).len(), 7);
}

const DOOR: &str = r#"
    fsm Door {
        [*] --> Locked
        state Locked { exit / exit_locked }
        state Unlocked { entry / enter_unlocked }
        Locked --> Unlocked : Unlock [is_valid_code] / play_success_sound
    }
"#;

#[test]
fn a_false_guard_rejects_the_event() {
    let mut d = machine(DOOR);
    assert_eq!(d.dispatch("Unlock", &vec![]), Outcome::Rejected);
    assert_eq!(d.state(), "Locked");
    assert!(d.actions.is_empty());
    assert_eq!(d.dispatch("Unlock", &vec!["other".to_string()]), Outcome::Rejected);
    assert_eq!(d.dispatch("Unlock", &vec!["is_valid_code".to_string()]), Outcome::Transitioned);
    assert_eq!(d.state(), "Unlocked");
    assert_eq!(names(&d), vec!["exit_locked", "play_success_sound", "enter_unlocked"]);
}

#[test]
fn internal_transitions_come_first_and_keep_the_state() {
    let mut d = machine(
        r#"fsm M {
            [*] --> A
            state A {
                entry / in_a
                exit / out_a
                tick [busy] / count_busy
                tick / count
            }
            A --> B : tick
            A --> B : go [never]
            A --> B : go / second(1, 2)
            state B { entry / in_b }
        }"#,
    );
    assert_eq!(d.dispatch("tick", &vec![]), Outcome::Internal);
    assert_eq!(d.dispatch("tick", &vec!["busy".to_string()]), Outcome::Internal);
    assert_eq!(d.state(), "A");
    assert_eq!(names(&d), vec!["in_a", "count", "count_busy"]);
    assert_eq!(d.dispatch("go", &vec![]), Outcome::Transitioned);
    assert_eq!(d.state(), "B");
    assert_eq!(names(&d), vec!["in_a", "count", "count_busy", "out_a", "second", "in_b"]);
    assert_eq!(d.actions[4].params, vec!["1", "2"]);
}

#[test]
fn choice_points_take_the_first_branch_that_holds() {
    let source = r#"fsm Form {
        [*] --> Check
        state Check { exit / leave_check }
        state Warning { entry / warn }
        state Error { entry / fail }
        choice Validate {
            [is_ok] -> Success
            [is_warning] -> Warning / log_warning()
            [else] -> Error
        }
        choice Strict { [is_ok] -> Success }
        Check --> <<Validate>> : Done / submit
        Check --> <<Strict>> : Sure
    }"#;
    let mut d = machine(source);
    assert_eq!(d.dispatch("Done", &vec!["is_warning".to_string(), "is_ok".to_string()]), Outcome::Transitioned);
    assert_eq!(d.state(), "Success");
    assert_eq!(names(&d), vec!["leave_check", "submit"]);

    let mut d = machine(source);
    assert_eq!(d.dispatch("Done", &vec!["is_warning".to_string()]), Outcome::Transitioned);
    assert_eq!(d.state(), "Warning");
    assert_eq!(names(&d), vec!["leave_check", "submit", "log_warning", "warn"]);

    let mut d = machine(source);
    assert_eq!(d.dispatch("Done", &vec![]), Outcome::Transitioned);
    assert_eq!(d.state(), "Error");
    assert_eq!(names(&d), vec!["leave_check", "submit", "fail"]);

    let mut d = machine(source);
    assert_eq!(d.dispatch("Sure", &vec![]), Outcome::Rejected);
    assert_eq!(d.state(), "Check");
    assert!(d.actions.is_empty());
}

#[test]
fn no_dispatcher_without_an_initial_state() {
    let model = parse_fsm("fsm M { state A }").unwrap().remove(0);
    assert!(Dispatcher::new(model).is_none());
}

#[test]
fn a_full_queue_refuses_the_third_post() {
    let mut a = ActiveObject::new(machine(TRAFFIC_LIGHT), 2);
    assert!(a.post("TimerExpired"));
    assert!(a.post("TimerExpired"));
    assert!(!a.post("TimerExpired"));
    assert_eq!(a.queue.len(), 2);
    assert_eq!(a.run_all(&vec![]), 2);
    assert!(a.queue.is_empty());
    assert_eq!(a.dispatcher.state(), "Yellow");
    assert_eq!(a.run_all(&vec![]), 0);
    assert!(!a.run_once(&vec![]));
    assert!(a.post("TimerExpired"));
    assert!(a.run_once(&vec![]));
    assert_eq!(a.dispatcher.state(), "Red");
}

#[test]
fn a_full_queue_hands_the_event_back() {
    let mut a = ActiveObject::new(machine(TRAFFIC_LIGHT), 1);
    assert_eq!(a.post_or_return("TimerExpired".to_string()), Ok(()));
    assert_eq!(a.post_or_return("Second".to_string()), Err("Second".to_string()));
    assert_eq!(a.queue.len(), 1);
    let mut none = ActiveObject::new(machine(TRAFFIC_LIGHT), 0);
    assert!(!none.post("TimerExpired"));
    assert_eq!(none.capacity, 0);
}

#[test]
fn a_false_guard_falls_back_to_the_error_action() {
    let source = r#"
        fsm Door {
            [*] --> Locked
            state Locked
            state Unlocked { entry / enter_unlocked }
            Locked --> Unlocked : Unlock [is_valid_code] / play_success_sound
            Locked --> Locked : Unlock [else] / play_error_sound
        }
    "#;
    let mut d = machine(source);
    assert_eq!(d.dispatch("Unlock", &vec![]), Outcome::Transitioned);
    assert_eq!(d.state(), "Locked");
    assert_eq!(names(&d), vec!["play_error_sound"]);

    let mut d = machine(source);
    assert_eq!(d.dispatch("Unlock", &vec!["is_valid_code".to_string()]), Outcome::Transitioned);
    assert_eq!(d.state(), "Unlocked");
    assert_eq!(names(&d), vec!["play_success_sound", "enter_unlocked"]);
}

#[test]
fn the_table_groups_rows_by_state_and_event() {
    let source = r#"fsm Form {
        [*] --> Check
        state Check { Done [quiet] / hush }
        choice Validate {
            [is_ok] -> Success
            [else] -> Error / log
        }
        Check --> <<Validate>> : Done [ready] / submit
        Check --> Check : Again
        Error --> Check : Again [else]
    }"#;
    let model = parse_fsm(source).unwrap().remove(0);
    let table = oxidate::table::transition_table(&model);
    let keys: Vec<(&str, &str, usize)> =
        table.iter().map(|e| (e.state.as_str(), e.event.as_str(), e.rows.len())).collect();
    assert_eq!(keys, vec![("Check", "Again", 1), ("Check", "Done", 3), ("Error", "Again", 1)]);
    let done = &table[1].rows;
    assert_eq!(done[0].kind, oxidate::table::RowKind::Internal);
    assert_eq!(done[0].guards, vec!["quiet"]);
    assert_eq!(done[0].target, "Check");
    assert_eq!(done[1].kind, oxidate::table::RowKind::External);
    assert_eq!(done[1].guards, vec!["ready", "is_ok"]);
    assert_eq!(done[1].target, "Success");
    assert_eq!(done[1].actions.len(), 1);
    assert_eq!(done[2].guards, vec!["ready"]);
    assert_eq!(done[2].target, "Error");
    let acts: Vec<&str> = done[2].actions.iter().map(|a| a.name.as_str()).collect();
    assert_eq!(acts, vec!["submit", "log"]);
    assert!(table[2].rows[0].guards.is_empty());
}

#[test]
fn a_fault_rule_declared_first_wins_over_the_normal_rule() {
    let source = r#"
        fsm Motor {
            [*] --> Running
            state Running
            state Fault { entry / sound_alarm  entry / cut_power }
            Running --> Fault : SensorReading [over_threshold] / count_fault
            Running --> Running : SensorReading / set_speed
            Fault --> Running : Recover [cooled_down]
        }
    "#;
    // Below the threshold the normal rule applies.
    let mut d = machine(source);
    assert_eq!(d.dispatch("SensorReading", &vec![]), Outcome::Transitioned);
    assert_eq!(d.state(), "Running");
    assert_eq!(names(&d), vec!["set_speed"]);
    // Above it both rules match, and the fault rule wins.
    let mut d = machine(source);
    assert_eq!(d.dispatch("SensorReading", &vec!["over_threshold".to_string()]), Outcome::Transitioned);
    assert_eq!(d.state(), "Fault");
    assert_eq!(names(&d), vec!["count_fault", "sound_alarm", "cut_power"]);
    // Recovery waits for its guard and rejects in silence before.
    assert_eq!(d.dispatch("Recover", &vec![]), Outcome::Rejected);
    assert_eq!(d.state(), "Fault");
    assert_eq!(names(&d).len(), 3);
    assert_eq!(d.dispatch("Recover", &vec!["cooled_down".to_string()]), Outcome::Transitioned);
    assert_eq!(d.state(), "Running");
}
