//! Tests of the simulator and of the helpers for drawing and editing.

use oxidate::diagram::{classify_by_name, classify_transition, format_label_text, TransitionType};
use oxidate::editor::{add_new_fsm, create_new_fsms, extract_fsm_sources, to_snake_case};
use oxidate::export::{export_file_header, export_file_name, export_mod_content, export_readme};
use oxidate::parser::ParseError;
use oxidate::CodegenTarget;
use oxidate::simulator::Simulator;
use oxidate::{parse_fsm, Event, FsmDefinition, Guard, State, StateType, Transition};

#[test]
fn snake_case_of_names() {
    assert_eq!(to_snake_case("TrafficLight"), "traffic_light");
    assert_eq!(to_snake_case("DoorLock"), "door_lock");
    assert_eq!(to_snake_case("already_snake"), "already_snake");
    assert_eq!(to_snake_case("ABC"), "a_b_c");
    assert_eq!(to_snake_case("x"), "x");
    assert_eq!(to_snake_case(""), "");
    assert_eq!(to_snake_case("ÉtatÉ"), "état_é");
}

#[test]
fn transitions_are_classified() {
    let plain = Transition::new("A", "B").with_event(Event::new("Go"));
    assert_eq!(classify_transition(&plain, false), TransitionType::Forward);
    assert_eq!(classify_transition(&plain, true), TransitionType::Return);
    let guarded = Transition::new("A", "B").with_event(Event::new("Go")).with_guard(Guard::new("g"));
    assert_eq!(classify_transition(&guarded, true), TransitionType::Conditional);
    let timed = Transition::new("A", "B").with_event(Event::new("TimerExpired")).with_guard(Guard::new("g"));
    assert_eq!(classify_transition(&timed, false), TransitionType::Timer);
    let timeout = Transition::new("A", "B").with_event(Event::new("on_TIMEOUT"));
    assert_eq!(classify_transition(&timeout, true), TransitionType::Timer);
    let none = Transition::new("A", "B");
    assert_eq!(classify_transition(&none, false), TransitionType::Forward);
    assert_eq!(classify_transition(&none.with_guard(Guard::new("g")), false), TransitionType::Conditional);

    assert_eq!(classify_by_name("lease_expired", false, false), TransitionType::Timer);
    assert_eq!(classify_by_name("time", true, true), TransitionType::Conditional);
    assert_eq!(classify_by_name("", false, true), TransitionType::Return);
    assert_eq!(TransitionType::default(), TransitionType::Forward);
}

#[test]
fn labels_are_laid_out() {
    assert_eq!(format_label_text("start"), "start");
    assert_eq!(format_label_text("exactly_15_byte"), "exactly_15_byte");
    assert_eq!(format_label_text("Submit [is_valid]"), "Submit\n[is_valid]");
    assert_eq!(format_label_text("  ev  [g] / act"), "ev\n[g] / act");
    assert_eq!(format_label_text("[g]"), "\n[g]");
    assert_eq!(format_label_text("connection_lost_timeout"), "connection\nlost_timeout");
    assert_eq!(
        format_label_text("select_product_now_please [sufficient_funds]"),
        "select\nproduct_now\nplease\n[sufficient_funds]"
    );
    assert_eq!(format_label_text("averyveryverylongname"), "averyveryverylongname");
    assert_eq!(format_label_text("a_averyveryverylongname_b"), "a\naveryveryverylongname\nb");
    assert_eq!(format_label_text("trailing_underscore_"), "trailing\nunderscore_");
}

#[test]
fn sources_are_cut_into_blocks() {
    let source = "// first\n\nfsm A {\n  [*] --> X\n}\nnoise\n// second\nfsm B {\n  state S {\r\n  }\n}\n";
    assert_eq!(
        extract_fsm_sources(source),
        vec!["// first\n\nfsm A {\n  [*] --> X\n}", "// second\nfsm B {\n  state S {\n  }\n}"]
    );
    assert!(extract_fsm_sources("").is_empty());
    assert!(extract_fsm_sources("// only a comment\n").is_empty());
    assert_eq!(extract_fsm_sources("fsm Open {\n state S"), vec!["fsm Open {\n state S"]);
    assert_eq!(extract_fsm_sources("fsm One { }"), vec!["fsm One { }"]);
}

#[test]
fn cut_blocks_parse_one_by_one() {
    let source = "// a\nfsm A {\n [*] --> X\n}\n\n// b\nfsm B {\n [*] --> Y\n}\n";
    let blocks = extract_fsm_sources(source);
    assert_eq!(blocks.len(), 2);
    let all = parse_fsm(source).unwrap();
    for (block, fsm) in blocks.iter().zip(all.iter()) {
        let alone = parse_fsm(block).unwrap();
        assert_eq!(alone.len(), 1);
        assert_eq!(format!("{:?}", alone[0]), format!("{:?}", fsm));
    }
}

#[test]
fn new_machines_are_written_and_parse() {
    assert_eq!(create_new_fsms(""), None);
    assert_eq!(create_new_fsms(" , ;\n 9lives, _x"), None);
    let text = create_new_fsms("door lock, 9x; pump\n").unwrap();
    assert!(text.starts_with("// State Machines - Created with Oxidate FSM Visualizer\n\n// Doorlock State Machine\n\nfsm Doorlock {\n    [*] -> Idle\n"));
    assert!(text.contains("}\n\n// Pump State Machine\n\nfsm Pump {\n"));
    assert!(text.ends_with("    Error -> Idle : reset\n}"));
    let fsms = parse_fsm(&text).unwrap();
    assert_eq!(fsms.len(), 2);
    assert_eq!(fsms[0].name, "Doorlock");
    assert_eq!(fsms[1].name, "Pump");
    assert_eq!(fsms[0].states.len(), 3);
    assert_eq!(fsms[0].transitions.len(), 4);
    assert!(fsms[0].validate().is_ok());

    assert_eq!(add_new_fsm("fsm A { }", " - "), None);
    let more = add_new_fsm("fsm A { }", "second one").unwrap();
    assert!(more.starts_with("fsm A { }\n\n// Secondone State Machine\n\nfsm Secondone {\n"));
    assert!(more.ends_with("    Active -> Idle : stop\n}"));
    let fsms = parse_fsm(&more).unwrap();
    assert_eq!(fsms.len(), 2);
    assert_eq!(fsms[1].states.len(), 2);
    assert_eq!(fsms[1].transitions.len(), 2);
}

fn traffic_light() -> FsmDefinition {
    let source = r#"
        fsm TrafficLight {
            [*] --> Red
            state Red { tick / count }
            Red --> Green : TimerExpired
            Green --> Yellow : TimerExpired [dry] / slow_down
            Yellow --> Red : TimerExpired
        }
    "#;
    parse_fsm(source).unwrap().remove(0)
}

#[test]
fn three_steps_return_to_red() {
    let fsm = traffic_light();
    let mut sim = Simulator::new();
    sim.sim_reset_to_initial(&fsm);
    assert_eq!(sim.current_state.as_deref(), Some("Red"));
    for _ in 0..3 {
        sim.sim_post_event("TimerExpired");
    }
    sim.sim_post_event("   ");
    assert_eq!(sim.queued_events.len(), 3);
    sim.sim_step(&fsm);
    assert_eq!(sim.current_state.as_deref(), Some("Green"));
    let fired = sim.last_fired.as_ref().unwrap();
    assert_eq!(fired.transition_index, Some(0));
    assert_eq!((fired.from.as_str(), fired.to.as_str(), fired.label.as_str()), ("Red", "Green", "TimerExpired"));
    sim.sim_step(&fsm);
    assert_eq!(sim.current_state.as_deref(), Some("Yellow"));
    assert_eq!(sim.last_fired.as_ref().unwrap().label, "TimerExpired [dry] / slow_down");
    sim.sim_step(&fsm);
    assert_eq!(sim.current_state.as_deref(), Some("Red"));
    sim.sim_step(&fsm);
    assert_eq!(
        sim.log,
        vec![
            "reset → Red",
            "Red --TimerExpired--> Green",
            "Green --TimerExpired--> Yellow",
            "Yellow --TimerExpired--> Red",
        ]
    );
}

#[test]
fn internal_and_unhandled_events() {
    let fsm = traffic_light();
    let mut sim = Simulator::default();
    // A simulation that stands nowhere resets first, which drops the queue.
    sim.sim_post_event("tick");
    sim.sim_step(&fsm);
    assert_eq!(sim.current_state.as_deref(), Some("Red"));
    assert!(sim.queued_events.is_empty());
    assert!(sim.last_fired.is_none());

    sim.sim_post_event("tick");
    sim.sim_post_event("unknown");
    sim.sim_step(&fsm);
    assert_eq!(sim.current_state.as_deref(), Some("Red"));
    let fired = sim.last_fired.as_ref().unwrap();
    assert_eq!(fired.transition_index, None);
    assert_eq!(fired.label, "tick / count");
    sim.sim_step(&fsm);
    assert_eq!(
        sim.log,
        vec!["reset → Red", "Red --tick--> Red (internal)", "Red: no transition for event 'unknown'"]
    );
}

#[test]
fn reset_without_initial_state() {
    let mut fsm = FsmDefinition::new("M");
    let mut sim = Simulator::new();
    sim.sim_reset_to_initial(&fsm);
    assert!(sim.current_state.is_none());
    fsm.states.push(State::new("Only", StateType::Simple));
    sim.sim_reset_to_initial(&fsm);
    assert_eq!(sim.current_state.as_deref(), Some("Only"));
    assert_eq!(sim.log, vec!["reset → <no states>", "reset → Only (fallback)"]);
}

#[test]
fn errors_have_a_text() {
    let e = parse_fsm("fsm X {\n\n  A --> \n}").unwrap_err();
    assert_eq!(e.to_text(), "Invalid syntax at line 4: expected a target state");
    assert_eq!(
        ParseError::SyntaxError { line: 1203, message: "m".to_string() }.to_text(),
        "Invalid syntax at line 1203: m"
    );
    assert_eq!(ParseError::UnknownState("Q".to_string()).to_text(), "Unknown state reference: Q");
}

fn level_of(levels: &[(String, usize)], name: &str) -> Option<usize> {
    let found: Vec<usize> = levels.iter().filter(|(n, _)| n == name).map(|(_, l)| *l).collect();
    assert!(found.len() <= 1, "{} has more than one level", name);
    found.first().copied()
}

#[test]
fn levels_are_distances_from_the_start() {
    let source = r#"
        fsm Levels {
            [*] --> A
            state Lonely
            state Far
            A --> B : x
            A --> C : x
            B --> D : x
            C --> D : y
            D --> A : back
            D --> D : again
            A --> <<Pick>> : choose
            D --> [*] : done
            Far --> A : in
            A --> E : skip
            D --> E : late
        }
    "#;
    let fsm = &oxidate::parse_fsm(source).unwrap()[0];
    let levels = oxidate::levels::calculate_state_levels(fsm);
    assert_eq!(level_of(&levels, "A"), Some(0));
    assert_eq!(level_of(&levels, "B"), Some(1));
    assert_eq!(level_of(&levels, "C"), Some(1));
    assert_eq!(level_of(&levels, "E"), Some(1));
    assert_eq!(level_of(&levels, "D"), Some(2));
    assert_eq!(level_of(&levels, "Lonely"), Some(3));
    assert_eq!(level_of(&levels, "Far"), Some(3));
    assert_eq!(level_of(&levels, "<<Pick>>"), None);
    assert_eq!(level_of(&levels, "[*]"), None);
    assert_eq!(levels.len(), 7);
}

#[test]
fn levels_without_an_initial_state() {
    assert!(oxidate::levels::calculate_state_levels(&FsmDefinition::new("Empty")).is_empty());
    let mut fsm = FsmDefinition::new("M");
    fsm.states.push(State::new("First", StateType::Simple));
    fsm.states.push(State::new("Second", StateType::Simple));
    fsm.transitions.push(Transition::new("Second", "First"));
    let levels = oxidate::levels::calculate_state_levels(&fsm);
    assert_eq!(level_of(&levels, "First"), Some(0));
    assert_eq!(level_of(&levels, "Second"), Some(1));
    // An initial state that is not declared still is the start.
    fsm.initial_state = Some("Ghost".to_string());
    let levels = oxidate::levels::calculate_state_levels(&fsm);
    assert_eq!(level_of(&levels, "Ghost"), Some(0));
    assert_eq!(level_of(&levels, "First"), Some(1));
    assert_eq!(level_of(&levels, "Second"), Some(1));
}

#[test]
fn export_texts() {
    assert_eq!(export_file_name("TrafficLight"), "traffic_light.rs");
    assert_eq!(
        export_file_header("TrafficLight", CodegenTarget::Embassy),
        "//! Auto-generated code for TrafficLight FSM\n//! DO NOT EDIT - Generated by Oxidate\n//! Target: Embassy\n\n"
    );
    let names = vec!["TrafficLight".to_string(), "Door".to_string()];
    assert_eq!(
        export_mod_content(&names),
        "//! Auto-generated FSM code\n//! DO NOT EDIT - Generated by Oxidate\n\npub mod traffic_light;\npub mod door;\n\n// Re-exports\npub use traffic_light::*;\npub use door::*;\n"
    );
    assert_eq!(
        export_readme(&names, CodegenTarget::Standard),
        "# Auto-generated FSM Code\n\nGenerated by Oxidate FSM Visualizer\n\n## Files\n\n- `mod.rs` - Module declarations\n- `traffic_light.rs` - TrafficLight state machine\n- `door.rs` - Door state machine\n\n## Usage\n\nAdd to your `lib.rs` or `main.rs`:\n\n```rust\nmod autogen;\nuse autogen::*;\n```\n\n## Target: Standard\n"
    );
    assert_eq!(
        export_readme(&vec![], CodegenTarget::Rtic),
        "# Auto-generated FSM Code\n\nGenerated by Oxidate FSM Visualizer\n\n## Files\n\n- `mod.rs` - Module declarations\n\n\n## Usage\n\nAdd to your `lib.rs` or `main.rs`:\n\n```rust\nmod autogen;\nuse autogen::*;\n```\n\n## Target: Rtic\n"
    );
}

#[test]
fn white_space_is_the_unicode_property() {
    for code in 0..=0x10FFFFu32 {
        if let Some(c) = char::from_u32(code) {
            assert_eq!(oxidate::text::white(c), c.is_whitespace(), "U+{:04X}", code);
        }
    }
    assert_eq!(format_label_text("\u{a0}ev\u{3000}\t[g]"), "ev\n[g]");
    assert_eq!(oxidate::editor::trim_string("\u{2003} a b \r\n"), "a b");
}

#[test]
fn snake_case_from_marked_characters() {
    let marks = vec![('T', Some('t')), ('o', None), ('P', Some('p')), ('_', None), ('X', Some('y'))];
    assert_eq!(oxidate::editor::snake_from(&marks), "to_p__y");
    assert_eq!(oxidate::editor::snake_from(&vec![]), "");
    assert_eq!(oxidate::editor::snake_from(&vec![('a', None)]), "a");
}

#[test]
fn machines_from_given_names() {
    assert_eq!(oxidate::editor::machines_from(&vec![]), None);
    assert_eq!(oxidate::editor::machines_from(&vec![None, None]), None);
    let text = oxidate::editor::machines_from(&vec![None, Some("B".to_string())]).unwrap();
    // The second place of the list begins with an empty line even where
    // the first gave nothing.
    assert!(text.starts_with(
        "// State Machines - Created with Oxidate FSM Visualizer\n\n\n\n// B State Machine\n\nfsm B {\n    [*] -> Idle\n\n    state Idle {\n        entry / initialize\n    }\n    \n    state Active {"
    ));
    assert_eq!(
        oxidate::editor::append_machine("x", "N"),
        "x\n\n// N State Machine\n\nfsm N {\n    [*] -> Idle\n\n    state Idle {\n        entry / initialize\n    }\n    \n    state Active {\n        entry / on_activate\n        exit / on_deactivate\n    }\n\n    Idle -> Active : start\n    Active -> Idle : stop\n}"
    );
}
