//! Tests of the model: builders, labels, validation and event collection.

use oxidate::fsm::{
    Action, ChoicePoint, Event, FsmContext, FsmDefinition, Guard, State, StateType, Timer,
    TimerMode, Transition, TransitionKind,
};

#[test]
fn test_fsm_definition_new() {
    let fsm = FsmDefinition::new("TestMachine");
    assert_eq!(fsm.name, "TestMachine");
    assert!(fsm.initial_state.is_none());
    assert!(fsm.states.is_empty());
    assert!(fsm.transitions.is_empty());
}

#[test]
fn test_state_new() {
    let state = State::new("Idle", StateType::Simple);
    assert_eq!(state.name, "Idle");
    assert_eq!(state.state_type, StateType::Simple);
    assert!(state.description.is_none());
    assert!(state.entry_action().is_none());
    assert!(state.exit_action().is_none());
}

#[test]
fn test_transition_label() {
    // Transition with event only
    let t1 = Transition {
        source: "A".to_string(),
        target: "B".to_string(),
        event: Some(Event { name: "Click".to_string() }),
        guard: None,
        action: None,
        kind: TransitionKind::External,
    };
    assert!(t1.label().contains("Click"));

    // Transition with guard
    let t2 = Transition {
        source: "A".to_string(),
        target: "B".to_string(),
        event: Some(Event { name: "Submit".to_string() }),
        guard: Some(Guard { expression: "is_valid".to_string() }),
        action: None,
        kind: TransitionKind::External,
    };
    assert!(t2.label().contains("Submit"));
    assert!(t2.label().contains("[is_valid]"));

    // Transition with action
    let t3 = Transition {
        source: "A".to_string(),
        target: "B".to_string(),
        event: Some(Event { name: "Go".to_string() }),
        guard: None,
        action: Some(Action { name: "do_it".to_string(), params: vec![] }),
        kind: TransitionKind::External,
    };
    assert!(t3.label().contains("Go"));
    assert!(t3.label().contains("do_it"));
}

#[test]
fn test_fsm_validation_no_initial_state() {
    let fsm = FsmDefinition::new("Test");
    let result = fsm.validate();
    assert!(result.is_err());
    let errors = result.unwrap_err();
    assert!(errors.iter().any(|e| e.contains("initial state")));
}

#[test]
fn test_fsm_validation_missing_state() {
    let mut fsm = FsmDefinition::new("Test");
    fsm.initial_state = Some("NonExistent".to_string());

    let result = fsm.validate();
    assert!(result.is_err());
    let errors = result.unwrap_err();
    assert!(errors.iter().any(|e| e.contains("NonExistent")));
}

#[test]
fn test_fsm_validation_valid() {
    let mut fsm = FsmDefinition::new("Test");
    fsm.initial_state = Some("Idle".to_string());
    fsm.states.push(State::new("Idle", StateType::Simple));
    fsm.states.push(State::new("Active", StateType::Simple));
    fsm.transitions.push(Transition {
        source: "Idle".to_string(),
        target: "Active".to_string(),
        event: Some(Event { name: "Start".to_string() }),
        guard: None,
        action: None,
        kind: TransitionKind::External,
    });

    let result = fsm.validate();
    assert!(result.is_ok());
}

#[test]
fn test_fsm_collect_events() {
    let mut fsm = FsmDefinition::new("Test");
    fsm.transitions.push(Transition {
        source: "A".to_string(),
        target: "B".to_string(),
        event: Some(Event { name: "Event1".to_string() }),
        guard: None,
        action: None,
        kind: TransitionKind::External,
    });
    fsm.transitions.push(Transition {
        source: "B".to_string(),
        target: "C".to_string(),
        event: Some(Event { name: "Event2".to_string() }),
        guard: None,
        action: None,
        kind: TransitionKind::External,
    });
    fsm.transitions.push(Transition {
        source: "C".to_string(),
        target: "A".to_string(),
        event: Some(Event { name: "Event1".to_string() }), // Duplicate
        guard: None,
        action: None,
        kind: TransitionKind::External,
    });

    let events = fsm.collect_events();
    assert_eq!(events.len(), 2); // Should be deduplicated
}

#[test]
fn label_is_exact() {
    let full = Transition::new("A", "B")
        .with_event(Event::new("Submit"))
        .with_guard(Guard::new("is_valid"))
        .with_action(Action::new("process").with_params(vec!["x".to_string()]));
    assert_eq!(full.label(), "Submit [is_valid] / process");
    assert_eq!(Transition::new("A", "B").label(), "");
    assert_eq!(Transition::new("A", "B").with_guard(Guard::new("g")).label(), "[g]");
    assert_eq!(Transition::new("A", "B").with_action(Action::new("act")).label(), "/ act");
    assert_eq!(
        Transition::new("A", "B").with_event(Event::new("E")).with_action(Action::new("a")).label(),
        "E / a"
    );
}

#[test]
fn builders_set_what_they_name() {
    let t = Transition::new("A", "B");
    assert_eq!(t.source, "A");
    assert_eq!(t.target, "B");
    assert!(t.event.is_none() && t.guard.is_none() && t.action.is_none());
    assert_eq!(t.kind, TransitionKind::External);

    let a = Action::new("run").with_params(vec!["1".to_string(), "two".to_string()]);
    assert_eq!(a.name, "run");
    assert_eq!(a.params, vec!["1".to_string(), "two".to_string()]);

    let timer = Timer::new("t", 250, Event::new("Tick"));
    assert_eq!(timer.mode, TimerMode::OneShot);
    assert!(timer.auto_start_state.is_none());
    let timer = timer.periodic().auto_start_in("Running");
    assert_eq!(timer.name, "t");
    assert_eq!(timer.duration_ms, 250);
    assert_eq!(timer.event.name, "Tick");
    assert_eq!(timer.mode, TimerMode::Periodic);
    assert_eq!(timer.auto_start_state, Some("Running".to_string()));

    let c = ChoicePoint::new("Check").add_branch("ok", "Good").add_else("Bad");
    assert_eq!(c.name, "Check");
    assert_eq!(c.branches.len(), 2);
    assert_eq!(c.branches[0].guard.expression, "ok");
    assert_eq!(c.branches[0].target, "Good");
    assert_eq!(c.branches[1].guard.expression, "else");
    assert_eq!(c.branches[1].target, "Bad");
    assert!(c.branches[1].action.is_none());

    let ctx: FsmContext<u32> = FsmContext::new("Idle");
    assert_eq!(ctx.data, 0);
    assert_eq!(ctx.current_state, "Idle");
    assert!(ctx.history.is_empty());
    let ctx = FsmContext::with_data("Busy", 7u8);
    assert_eq!(ctx.data, 7);
    assert_eq!(ctx.current_state, "Busy");

    assert!(State::new("C", StateType::Composite).is_composite());
    assert!(!State::new("S", StateType::Final).is_composite());
}

#[test]
fn clones_are_equal_in_every_field() {
    let mut fsm = FsmDefinition::new("M");
    fsm.initial_state = Some("A".to_string());
    let mut a = State::new("A", StateType::Simple);
    a.description = Some("first".to_string());
    a.entry_actions.push(Action::new("enter").with_params(vec!["p".to_string()]));
    a.internal_transitions.push(Transition::new("A", "A").with_event(Event::new("Tick")));
    fsm.states.push(a);
    fsm.transitions.push(Transition::new("A", "B").with_event(Event::new("Go")));
    fsm.timers.push(Timer::new("t", 5, Event::new("Tick")));
    fsm.choice_points.push(ChoicePoint::new("C").add_else("A"));
    let copy = fsm.clone();
    assert_eq!(format!("{:?}", copy), format!("{:?}", fsm));
}

#[test]
fn validation_reports_every_problem_in_order() {
    let mut fsm = FsmDefinition::new("Test");
    fsm.states.push(State::new("Idle", StateType::Simple));
    fsm.transitions.push(Transition::new("Idle", "Missing"));
    fsm.transitions.push(Transition::new("Ghost", "Idle"));
    let errors = fsm.validate().unwrap_err();
    assert_eq!(
        errors,
        vec![
            "No initial state defined".to_string(),
            "Transition target state 'Missing' not found".to_string(),
            "Transition source state 'Ghost' not found".to_string(),
        ]
    );

    fsm.initial_state = Some("Nowhere".to_string());
    let errors = fsm.validate().unwrap_err();
    assert_eq!(errors[0], "Initial state 'Nowhere' not found");
    assert_eq!(errors.len(), 3);
}

#[test]
fn validation_counts_two_problems_for_missing_initial_and_dangling_target() {
    let mut fsm = FsmDefinition::new("Test");
    fsm.states.push(State::new("A", StateType::Simple));
    fsm.transitions.push(Transition::new("A", "Nowhere"));
    let errors = fsm.validate().unwrap_err();
    assert!(errors.len() >= 2);
    assert_ne!(errors[0], errors[1]);
}

#[test]
fn validation_accepts_pseudostate_and_known_choice_points() {
    let mut fsm = FsmDefinition::new("Test");
    fsm.initial_state = Some("A".to_string());
    fsm.states.push(State::new("A", StateType::Simple));
    fsm.choice_points.push(ChoicePoint::new("Pick").add_else("A"));
    fsm.transitions.push(Transition::new("[*]", "A"));
    fsm.transitions.push(Transition::new("A", "[*]"));
    fsm.transitions.push(Transition::new("A", "<<Pick>>"));
    assert!(fsm.validate().is_ok());

    fsm.transitions.push(Transition::new("A", "<<Other>>"));
    let errors = fsm.validate().unwrap_err();
    assert_eq!(errors, vec!["Transition target state '<<Other>>' not found".to_string()]);
}

#[test]
fn collected_events_are_sorted_and_unique() {
    let mut fsm = FsmDefinition::new("Test");
    let mut s = State::new("A", StateType::Simple);
    s.internal_transitions.push(Transition::new("A", "A").with_event(Event::new("beta")));
    s.internal_transitions.push(Transition::new("A", "A").with_event(Event::new("Zeta")));
    fsm.states.push(s);
    fsm.transitions.push(Transition::new("A", "B").with_event(Event::new("gamma")));
    fsm.transitions.push(Transition::new("B", "A").with_event(Event::new("alpha")));
    fsm.transitions.push(Transition::new("B", "C"));
    fsm.transitions.push(Transition::new("C", "A").with_event(Event::new("gamma")));
    fsm.transitions.push(Transition::new("C", "B").with_event(Event::new("alphabet")));
    fsm.events.push(Event::new("ignored"));
    let names: Vec<String> = fsm.collect_events().into_iter().map(|e| e.name).collect();
    assert_eq!(names, vec!["Zeta", "alpha", "alphabet", "beta", "gamma"]);
    assert!(FsmDefinition::new("Empty").collect_events().is_empty());
}

#[test]
fn validation_rejects_a_branch_after_else() {
    let mut fsm = FsmDefinition::new("Test");
    fsm.initial_state = Some("A".to_string());
    fsm.states.push(State::new("A", StateType::Simple));
    fsm.choice_points.push(ChoicePoint::new("Good").add_branch("x", "A").add_else("A"));
    fsm.choice_points.push(ChoicePoint::new("OnlyElse").add_else("A"));
    assert!(fsm.validate().is_ok());
    fsm.choice_points.push(ChoicePoint::new("Bad").add_else("A").add_branch("x", "A"));
    assert_eq!(
        fsm.validate().unwrap_err(),
        vec!["Choice point 'Bad' has a branch after 'else'".to_string()]
    );
}

#[test]
fn nested_machines_are_copied_with_their_state() {
    let mut inner = FsmDefinition::new("Inner");
    inner.initial_state = Some("A".to_string());
    inner.states.push(State::new("A", StateType::Simple));
    let mut deepest = State::new("B", StateType::Composite);
    deepest.sub_fsm = Some(FsmDefinition::new("Deepest"));
    inner.states.push(deepest);
    let mut outer = State::new("Outer", StateType::Composite);
    assert!(outer.sub_fsm.is_none());
    outer.sub_fsm = Some(inner);
    assert!(outer.is_composite());
    let copy = outer.clone();
    assert_eq!(format!("{:?}", copy), format!("{:?}", outer));
    let nested = copy.sub_fsm.as_ref().unwrap();
    assert_eq!(nested.name, "Inner");
    assert_eq!(nested.states[1].sub_fsm.as_ref().unwrap().name, "Deepest");
    // A nested machine is a machine of its own: validation of the outer
    // machine does not look into it.
    let mut fsm = FsmDefinition::new("M");
    fsm.initial_state = Some("Outer".to_string());
    fsm.states.push(outer);
    assert!(fsm.validate().is_ok());
    assert!(fsm.states[0].sub_fsm.as_ref().unwrap().states[1].sub_fsm.as_ref().unwrap().validate().is_err());
}
