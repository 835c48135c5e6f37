//! Tests of the parser.

use oxidate::fsm::{StateType, TimerMode, TransitionKind};
use oxidate::parser::{parse_fsm, FsmParser, ParseError};
use oxidate::parser::tree::Item;

#[test]
fn test_parse_simple_fsm() {
    let source = r#"
        fsm Simple {
            [*] --> Idle
            state Idle
            state Running
            Idle --> Running : Start
        }
    "#;

    let fsms = parse_fsm(source).expect("Should parse successfully");
    assert_eq!(fsms.len(), 1);

    let fsm = &fsms[0];
    assert_eq!(fsm.name, "Simple");
    assert_eq!(fsm.initial_state, Some("Idle".to_string()));
    assert_eq!(fsm.states.len(), 2);
    // Only external transitions count (initial is a pseudo-transition)
    assert_eq!(fsm.transitions.len(), 1); // Idle->Running
}

#[test]
fn test_parse_state_with_description() {
    let source = r#"
        fsm Test {
            [*] --> Active
            state Active: "The system is active"
        }
    "#;

    let fsms = parse_fsm(source).expect("Should parse successfully");
    let fsm = &fsms[0];
    let active = fsm.states.iter().find(|s| s.name == "Active").unwrap();
    assert!(active.description.as_ref().unwrap().contains("active"));
}

#[test]
fn test_parse_state_with_entry_exit() {
    let source = r#"
        fsm Test {
            [*] --> Active
            state Active {
                entry / on_enter()
                exit / on_exit()
            }
        }
    "#;

    let fsms = parse_fsm(source).expect("Should parse successfully");
    let fsm = &fsms[0];
    let active = fsm.states.iter().find(|s| s.name == "Active").unwrap();

    assert!(active.entry_action().is_some());
    assert_eq!(active.entry_action().as_ref().unwrap().name, "on_enter");

    assert!(active.exit_action().is_some());
    assert_eq!(active.exit_action().as_ref().unwrap().name, "on_exit");
}

#[test]
fn test_parse_transition_with_event() {
    let source = r#"
        fsm Test {
            [*] --> A
            A --> B : ButtonPress
        }
    "#;

    let fsms = parse_fsm(source).expect("Should parse successfully");
    let fsm = &fsms[0];

    let transition = fsm.transitions.iter()
        .find(|t| t.source == "A" && t.target == "B")
        .unwrap();

    assert!(transition.event.is_some());
    assert_eq!(transition.event.as_ref().unwrap().name, "ButtonPress");
}

#[test]
fn test_parse_transition_with_guard() {
    let source = r#"
        fsm Test {
            [*] --> A
            A --> B : Submit [is_valid]
        }
    "#;

    let fsms = parse_fsm(source).expect("Should parse successfully");
    let fsm = &fsms[0];

    let transition = fsm.transitions.iter()
        .find(|t| t.source == "A" && t.target == "B")
        .unwrap();

    assert!(transition.guard.is_some());
    assert_eq!(transition.guard.as_ref().unwrap().expression, "is_valid");
}

#[test]
fn test_parse_transition_with_action() {
    let source = r#"
        fsm Test {
            [*] --> A
            A --> B : Go / do_something()
        }
    "#;

    let fsms = parse_fsm(source).expect("Should parse successfully");
    let fsm = &fsms[0];

    let transition = fsm.transitions.iter()
        .find(|t| t.source == "A" && t.target == "B")
        .unwrap();

    assert!(transition.action.is_some());
    assert_eq!(transition.action.as_ref().unwrap().name, "do_something");
}

#[test]
fn test_parse_full_transition() {
    let source = r#"
        fsm Test {
            [*] --> A
            A --> B : Submit [is_valid] / process()
        }
    "#;

    let fsms = parse_fsm(source).expect("Should parse successfully");
    let fsm = &fsms[0];

    let transition = fsm.transitions.iter()
        .find(|t| t.source == "A" && t.target == "B")
        .unwrap();

    assert!(transition.event.is_some());
    assert!(transition.guard.is_some());
    assert!(transition.action.is_some());
}

#[test]
fn test_parse_timer() {
    let source = r#"
        fsm Test {
            timer timeout = 5000 -> Expired
            timer heartbeat = 1000 -> Tick periodic
            [*] --> Idle
        }
    "#;

    let fsms = parse_fsm(source).expect("Should parse successfully");
    let fsm = &fsms[0];

    assert_eq!(fsm.timers.len(), 2);

    let timeout = fsm.timers.iter().find(|t| t.name == "timeout").unwrap();
    assert_eq!(timeout.duration_ms, 5000);
    assert_eq!(timeout.event.name, "Expired");
    assert_eq!(timeout.mode, TimerMode::OneShot);

    let heartbeat = fsm.timers.iter().find(|t| t.name == "heartbeat").unwrap();
    assert_eq!(heartbeat.duration_ms, 1000);
    assert_eq!(heartbeat.mode, TimerMode::Periodic);
}

#[test]
fn test_parse_choice_point() {
    let source = r#"
        fsm Test {
            [*] --> Check
            
            choice Validate {
                [is_ok] -> Success
                [is_warning] -> Warning / log_warning()
                [else] -> Error
            }
            
            Check --> <<Validate>> : Done
        }
    "#;

    let fsms = parse_fsm(source).expect("Should parse successfully");
    let fsm = &fsms[0];

    assert_eq!(fsm.choice_points.len(), 1);
    let choice = &fsm.choice_points[0];
    assert_eq!(choice.name, "Validate");
    assert_eq!(choice.branches.len(), 3);
}

#[test]
fn test_parse_self_transition() {
    let source = r#"
        fsm Test {
            [*] --> Active
            Active --> Active : Tick / update()
        }
    "#;

    let fsms = parse_fsm(source).expect("Should parse successfully");
    let fsm = &fsms[0];

    let self_trans = fsm.transitions.iter()
        .find(|t| t.source == "Active" && t.target == "Active")
        .unwrap();

    assert!(self_trans.event.is_some());
    assert_eq!(self_trans.event.as_ref().unwrap().name, "Tick");
}

#[test]
fn test_parse_multiple_fsms() {
    let source = r#"
        fsm First {
            [*] --> A
        }
        
        fsm Second {
            [*] --> B
        }
    "#;

    let fsms = parse_fsm(source).expect("Should parse successfully");
    assert_eq!(fsms.len(), 2);
    assert_eq!(fsms[0].name, "First");
    assert_eq!(fsms[1].name, "Second");
}

#[test]
fn test_parse_comments() {
    let source = r#"
        // This is a comment
        fsm Test {
            /* Multi-line
               comment */
            [*] --> Idle // Inline comment
            state Idle
        }
    "#;

    let fsms = parse_fsm(source).expect("Should parse successfully");
    assert_eq!(fsms.len(), 1);
    assert_eq!(fsms[0].states.len(), 1);
}

#[test]
fn test_parse_error_invalid_syntax() {
    let source = "fsm { }"; // Missing name
    let result = parse_fsm(source);
    assert!(result.is_err());
}

#[test]
fn test_parse_empty_fsm() {
    let source = r#"
        fsm Empty {
        }
    "#;

    let fsms = parse_fsm(source).expect("Should parse successfully");
    assert_eq!(fsms.len(), 1);
    assert_eq!(fsms[0].name, "Empty");
    assert!(fsms[0].states.is_empty());
}

#[test]
fn test_implicit_state_creation() {
    let source = r#"
        fsm Test {
            [*] --> A
            A --> B : Go
            B --> C : Next
        }
    "#;

    let fsms = parse_fsm(source).expect("Should parse successfully");
    let fsm = &fsms[0];

    // States A, B, C should be created implicitly from transitions
    assert!(fsm.states.iter().any(|s| s.name == "A"));
    assert!(fsm.states.iter().any(|s| s.name == "B"));
    assert!(fsm.states.iter().any(|s| s.name == "C"));
}

fn syntax_error(source: &str) -> (usize, String) {
    match parse_fsm(source) {
        Err(ParseError::SyntaxError { line, message }) => (line, message),
        other => panic!("expected a syntax error, got {:?}", other),
    }
}

#[test]
fn syntax_errors_name_line_and_expectation() {
    assert_eq!(syntax_error("fsm { }"), (1, "expected a name".to_string()));
    assert_eq!(syntax_error("machine X { }"), (1, "expected 'fsm'".to_string()));
    assert_eq!(syntax_error("fsm X\n[*] --> A"), (2, "expected '{'".to_string()));
    assert_eq!(syntax_error("fsm X {\n  A B\n}"), (2, "expected '->' or '-->'".to_string()));
    assert_eq!(syntax_error("fsm X {\n\n  A --> \n}"), (4, "expected a target state".to_string()));
    assert_eq!(syntax_error("fsm X {\n timer t 5 -> E }"), (2, "expected '='".to_string()));
    assert_eq!(syntax_error("fsm X {\n timer t = x -> E }"), (2, "expected a number".to_string()));
    assert_eq!(syntax_error("fsm X { A --> B : e [g }"), (1, "expected ']'".to_string()));
    assert_eq!(syntax_error("fsm X { A --> B : e / f(a }"), (1, "expected ',' or ')'".to_string()));
    assert_eq!(syntax_error("fsm X { A --> B : e / f(a,) }"), (1, "expected a parameter".to_string()));
    assert_eq!(syntax_error("fsm X { A --> <<C : e }"), (1, "expected '>>'".to_string()));
    assert_eq!(syntax_error("fsm X { state S : \"open"), (1, "expected a closing quote".to_string()));
    assert_eq!(syntax_error("fsm X { state S {\n entry on_enter } }"), (2, "expected '/'".to_string()));
    assert_eq!(syntax_error("fsm X {\n state S {\n  42 } }"), (3, "expected a state body item or '}'".to_string()));
    assert_eq!(syntax_error("fsm X {\n choice C { x } }"), (2, "expected a choice branch or '}'".to_string()));
    assert_eq!(syntax_error("fsm X {\n 42 }"), (2, "expected a declaration or '}'".to_string()));
    assert_eq!(syntax_error("fsm X {\n"), (2, "expected a declaration or '}'".to_string()));
    assert_eq!(syntax_error("fsm X { } /* open"), (1, "expected 'fsm'".to_string()));
}

#[test]
fn empty_text_has_no_machines() {
    assert!(parse_fsm("").unwrap().is_empty());
    assert!(parse_fsm("  // nothing here\n/* at all */ ").unwrap().is_empty());
}

#[test]
fn parsing_twice_gives_equal_models() {
    let source = r#"
        fsm Door {
            [*] --> Locked
            state Locked : Door is secured {
                entry / engage_lock
                exit / disengage_lock
            }
            timer alarm = 3000 -> timeout periodic
            choice Check { [ok] -> Unlocked [else] -> Locked / beep(1, two) }
            Locked --> <<Check>> : key [attempts > 3] / count(attempts)
            Unlocked --> Locked : lock_cmd
        }
    "#;
    let first = parse_fsm(source).unwrap();
    let second = parse_fsm(source).unwrap();
    assert_eq!(format!("{:?}", first), format!("{:?}", second));
}

#[test]
fn states_and_transitions_are_counted_exactly() {
    let source = r#"
        fsm Count {
            [*] -> A
            state A
            state B : second
            state C { entry / go }
            A -> B : x
            B -> D : y
            D -> A : x
            C -> <<Pick>> : z
            A -> [*]
        }
    "#;
    let fsm = &parse_fsm(source).unwrap()[0];
    let names: Vec<&str> = fsm.states.iter().map(|s| s.name.as_str()).collect();
    // Three declared states and one that only a transition names.
    assert_eq!(names, vec!["A", "B", "C", "D"]);
    assert_eq!(fsm.transitions.len(), 5);
    assert!(fsm.transitions.iter().all(|t| t.kind == TransitionKind::External));
    assert!(fsm.states.iter().all(|s| s.state_type == StateType::Simple));
    let events: Vec<String> = fsm.collect_events().into_iter().map(|e| e.name).collect();
    assert_eq!(events, vec!["x", "y", "z"]);
    assert_eq!(fsm.transitions[3].target, "<<Pick>>");
    assert_eq!(fsm.transitions[4].target, "[*]");
}

#[test]
fn state_bodies_are_read_in_order() {
    let source = r#"
        fsm Body {
            state S : Insert coins {
                entry / first
                entry / second(1, "two", three)
                exit / leave
                start_timer blink
                stop_timer blink
                coin [enough] / add(coin)
                tick / count
            }
        }
    "#;
    let fsm = &parse_fsm(source).unwrap()[0];
    let s = &fsm.states[0];
    assert_eq!(s.description.as_deref(), Some("Insert coins"));
    let entries: Vec<&str> = s.entry_actions.iter().map(|a| a.name.as_str()).collect();
    assert_eq!(entries, vec!["first", "second", "start_timer_blink"]);
    assert_eq!(s.entry_actions[1].params, vec!["1", "\"two\"", "three"]);
    assert_eq!(s.entry_actions[2].params, vec!["blink"]);
    let exits: Vec<&str> = s.exit_actions.iter().map(|a| a.name.as_str()).collect();
    assert_eq!(exits, vec!["leave", "stop_timer_blink"]);
    assert_eq!(s.internal_transitions.len(), 2);
    let t = &s.internal_transitions[0];
    assert_eq!(t.source, "S");
    assert_eq!(t.target, "S");
    assert_eq!(t.kind, TransitionKind::Internal);
    assert_eq!(t.event.as_ref().unwrap().name, "coin");
    assert_eq!(t.guard.as_ref().unwrap().expression, "enough");
    assert_eq!(t.action.as_ref().unwrap().name, "add");
    assert_eq!(t.action.as_ref().unwrap().params, vec!["coin"]);
    assert!(s.internal_transitions[1].guard.is_none());
    assert_eq!(s.internal_transitions[1].label(), "tick / count");
}

#[test]
fn a_second_declaration_merges_into_the_first() {
    let source = r#"
        fsm Merge {
            A --> B
            state A : first { entry / one  tick / a }
            state A { entry / two  exit / out  tock / b }
        }
    "#;
    let fsm = &parse_fsm(source).unwrap()[0];
    assert_eq!(fsm.states.len(), 2);
    let a = &fsm.states[0];
    assert_eq!(a.name, "A");
    assert!(a.description.is_none());
    let entries: Vec<&str> = a.entry_actions.iter().map(|x| x.name.as_str()).collect();
    assert_eq!(entries, vec!["one", "two"]);
    assert_eq!(a.exit_actions.len(), 1);
    assert_eq!(a.internal_transitions.len(), 1);
    assert_eq!(a.internal_transitions[0].event.as_ref().unwrap().name, "tock");
}

#[test]
fn guards_and_descriptions_are_trimmed() {
    let source = "fsm T {\n state S :   Stop - Wait for green   \n state G : Go! {\n }\n A --> B : ev [  attempts > 3  ]\n B --> A : [day_mode] / act\n [*] --> A\n}";
    let fsm = &parse_fsm(source).unwrap()[0];
    assert_eq!(fsm.states[0].description.as_deref(), Some("Stop - Wait for green"));
    assert_eq!(fsm.states[1].description.as_deref(), Some("Go!"));
    assert_eq!(fsm.transitions[0].guard.as_ref().unwrap().expression, "attempts > 3");
    assert!(fsm.transitions[1].event.is_none());
    assert_eq!(fsm.transitions[1].guard.as_ref().unwrap().expression, "day_mode");
    assert_eq!(fsm.transitions[1].label(), "[day_mode] / act");
    assert_eq!(fsm.initial_state.as_deref(), Some("A"));
}

#[test]
fn durations_that_do_not_fit_fall_back() {
    let source = "fsm T { timer a = 4294967295 -> E timer b = 4294967296 -> E timer c = 007 -> E timer d = 99999999999999999999999 -> E }";
    let fsm = &parse_fsm(source).unwrap()[0];
    let durations: Vec<u32> = fsm.timers.iter().map(|t| t.duration_ms).collect();
    assert_eq!(durations, vec![4294967295, 1000, 7, 1000]);
}

#[test]
fn parser_gives_declarations_in_source_order() {
    let blocks = FsmParser::parse("fsm A { [*] -> S timer t = 1 -> E choice C { } state S S -> S }").unwrap();
    assert_eq!(blocks.len(), 1);
    assert_eq!(blocks[0].name, "A");
    let kinds: Vec<&str> = blocks[0]
        .items
        .iter()
        .map(|i| match i {
            Item::Initial(_) => "initial",
            Item::Timer(_) => "timer",
            Item::Choice(_) => "choice",
            Item::State(_) => "state",
            Item::Transition(_) => "transition",
        })
        .collect();
    assert_eq!(kinds, vec!["initial", "timer", "choice", "state", "transition"]);
}

#[test]
fn parsed_models_validate() {
    let source = r#"
        fsm VendingMachine {
            [*] --> Idle
            state Idle : Insert coins {
                entry / display_welcome
                exit / clear_display
            }
            state AcceptingCoins : Accepting payment {
                entry / show_balance
                coin_inserted / add_to_balance
            }
            choice Enough { [sufficient_funds] -> Dispensing [else] -> AcceptingCoins }
            Idle --> AcceptingCoins : coin_inserted
            AcceptingCoins --> AcceptingCoins : coin_inserted / add_coin
            AcceptingCoins --> <<Enough>> : select_product
            AcceptingCoins --> Idle : cancel / return_coins
        }
    "#;
    let fsm = &parse_fsm(source).unwrap()[0];
    assert!(fsm.validate().is_ok());
    assert_eq!(fsm.states.len(), 2);
    let events: Vec<String> = fsm.collect_events().into_iter().map(|e| e.name).collect();
    assert_eq!(events, vec!["cancel", "coin_inserted", "select_product"]);
}

const DEFAULT_EXAMPLE: &str = r#"// Oxidate - FSM Definition Example
// Syntax: Mermaid-like state diagram DSL

fsm TrafficLight {
    // Initial state
    [*] --> Red
    
    // State definitions
    state Red : Stop - Wait for green
    state Yellow : Caution - Prepare to stop
    state Green : Go - Proceed with caution
    
    // Transitions
    Red --> Green : timer_expired
    Green --> Yellow : timer_expired
    Yellow --> Red : timer_expired
}
"#;

const TRAFFIC_LIGHT_EXAMPLE: &str = r#"// Traffic Light State Machine
fsm TrafficLight {
    [*] --> Red
    
    state Red : Stop - Wait for green {
        entry / activate_red_light
        exit / deactivate_red_light
    }
    
    state Yellow : Caution {
        entry / activate_yellow_light
        exit / deactivate_yellow_light
    }
    
    state Green : Go! {
        entry / activate_green_light
        exit / deactivate_green_light
    }
    
    Red --> Green : timer_expired [day_mode]
    Red --> Yellow : timer_expired [night_mode]
    Green --> Yellow : timer_expired
    Yellow --> Red : timer_expired
}
"#;

const DOOR_LOCK_EXAMPLE: &str = r#"// Smart Door Lock State Machine
fsm DoorLock {
    [*] --> Locked
    
    state Locked : Door is secured {
        entry / engage_lock
        exit / disengage_lock
    }
    
    state Unlocked : Door can be opened {
        entry / notify_unlocked
    }
    
    state Open : Door is open {
        entry / start_open_timer
        exit / stop_open_timer
    }
    
    state Alarming : Security alert! {
        entry / sound_alarm
        exit / silence_alarm
    }
    
    Locked --> Unlocked : valid_key
    Locked --> Alarming : invalid_key [attempts > 3]
    Unlocked --> Locked : lock_cmd
    Unlocked --> Open : door_opened
    Open --> Unlocked : door_closed
    Open --> Alarming : timeout [held_too_long]
    Alarming --> Locked : reset_alarm
}
"#;

const VENDING_MACHINE_EXAMPLE: &str = r#"// Vending Machine State Machine
fsm VendingMachine {
    [*] --> Idle
    
    state Idle : Insert coins {
        entry / display_welcome
        exit / clear_display
    }
    
    state AcceptingCoins : Accepting payment {
        entry / show_balance
        coin_inserted / add_to_balance
    }
    
    state Dispensing : Delivering product {
        entry / dispense_product
        exit / update_inventory
    }
    
    state ReturningChange : Giving change {
        entry / calculate_change
        exit / dispense_change
    }
    
    Idle --> AcceptingCoins : coin_inserted
    AcceptingCoins --> AcceptingCoins : coin_inserted / add_coin
    AcceptingCoins --> Dispensing : select_product [sufficient_funds]
    AcceptingCoins --> Idle : cancel / return_coins
    Dispensing --> ReturningChange : dispensed [has_change]
    Dispensing --> Idle : dispensed [no_change]
    ReturningChange --> Idle : change_returned
}
"#;

#[test]
fn example_descriptions_parse() {
    let fsm = &parse_fsm(DEFAULT_EXAMPLE).unwrap()[0];
    assert_eq!(fsm.name, "TrafficLight");
    assert_eq!(fsm.initial_state.as_deref(), Some("Red"));
    assert_eq!(fsm.states.len(), 3);
    assert_eq!(fsm.transitions.len(), 3);
    assert_eq!(fsm.states[0].description.as_deref(), Some("Stop - Wait for green"));
    assert!(fsm.validate().is_ok());

    let fsm = &parse_fsm(TRAFFIC_LIGHT_EXAMPLE).unwrap()[0];
    assert_eq!(fsm.states.len(), 3);
    assert_eq!(fsm.transitions.len(), 4);
    assert_eq!(fsm.states[2].name, "Green");
    assert_eq!(fsm.states[2].description.as_deref(), Some("Go!"));
    assert_eq!(fsm.states[2].entry_action().unwrap().name, "activate_green_light");
    assert_eq!(fsm.transitions[1].label(), "timer_expired [night_mode]");
    assert!(fsm.validate().is_ok());

    let fsm = &parse_fsm(DOOR_LOCK_EXAMPLE).unwrap()[0];
    assert_eq!(fsm.states.len(), 4);
    assert_eq!(fsm.transitions.len(), 7);
    assert_eq!(fsm.transitions[1].guard.as_ref().unwrap().expression, "attempts > 3");
    assert_eq!(fsm.states[3].description.as_deref(), Some("Security alert!"));
    assert!(fsm.validate().is_ok());

    let fsm = &parse_fsm(VENDING_MACHINE_EXAMPLE).unwrap()[0];
    assert_eq!(fsm.states.len(), 4);
    assert_eq!(fsm.transitions.len(), 7);
    assert_eq!(fsm.states[1].internal_transitions.len(), 1);
    assert_eq!(fsm.states[1].internal_transitions[0].label(), "coin_inserted / add_to_balance");
    let events: Vec<String> = fsm.collect_events().into_iter().map(|e| e.name).collect();
    assert_eq!(events, vec!["cancel", "change_returned", "coin_inserted", "dispensed", "select_product"]);
    assert!(fsm.validate().is_ok());
}
