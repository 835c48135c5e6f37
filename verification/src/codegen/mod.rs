//! The code generator: from a valid model to the source text of a
//! machine in Rust.
//!
//! Every target emits the same core: an enumeration of the states, an
//! enumeration of the events, a trait with one method for each guard and
//! each action that the host supplies, and a dispatcher that holds the
//! current state and the host's implementation of the trait. The
//! dispatcher is the transition table of the model written out: one arm
//! for each state and event, and in it the rows of the table in order.
//! The other targets add a bounded queue before the dispatcher.
//!
//! The parameters of actions are not part of the emitted calls.

use vstd::prelude::*;
use crate::text::Text;
use crate::fsm::{Action, ActionView, Event, FsmDefinition, FsmView};
use crate::fsm::validation::is_valid;
use crate::machine::entry_of;
use crate::fsm::state_index;
use crate::table::{EntryView, RowView, TableEntry, is_event_list, table_for, table_of};

pub mod names;
pub mod pieces;
pub mod render;

use crate::codegen::names::{
    distinct, distinct_names, ident, ident_string, pascal_case, pascal_string,
};

verus! {

/// The architecture for which code is emitted.
#[derive(Debug, Clone, Copy, PartialEq, Eq, Structural)]
pub enum CodegenTarget {
    /// Synchronous dispatch: one call takes one event through the machine.
    Standard,
    /// Active object: a bounded queue before the dispatcher; posting
    /// reports whether the event was taken.
    Embassy,
    /// Interrupt and queue driven: as the active object, but a full queue
    /// hands the event back.
    Rtic,
}

/// The names of the first `n` actions.
pub open spec fn action_names(actions: Seq<ActionView>, n: int) -> Seq<Text>
    decreases n,
{
    if n <= 0 {
        Seq::empty()
    } else {
        action_names(actions, n - 1).push(actions[n - 1].name)
    }
}

/// The first `n` names as identifiers.
pub open spec fn idents(names: Seq<Text>, n: int) -> Seq<Text>
    decreases n,
{
    if n <= 0 {
        Seq::empty()
    } else {
        idents(names, n - 1).push(ident(names[n - 1]))
    }
}

/// The names of the first `n` states in Pascal case.
pub open spec fn state_variants(m: FsmView, n: int) -> Seq<Text>
    decreases n,
{
    if n <= 0 {
        Seq::empty()
    } else {
        state_variants(m, n - 1).push(pascal_case(m.states[n - 1].name))
    }
}

/// The first `n` event names in Pascal case.
pub open spec fn event_variants(events: Seq<Text>, n: int) -> Seq<Text>
    decreases n,
{
    if n <= 0 {
        Seq::empty()
    } else {
        event_variants(events, n - 1).push(pascal_case(events[n - 1]))
    }
}

/// The names of the entry and exit actions of the first `n` states.
pub open spec fn state_action_names(m: FsmView, n: int) -> Seq<Text>
    decreases n,
{
    if n <= 0 {
        Seq::empty()
    } else {
        state_action_names(m, n - 1) + action_names(
            m.states[n - 1].entry_actions,
            m.states[n - 1].entry_actions.len() as int,
        ) + action_names(m.states[n - 1].exit_actions, m.states[n - 1].exit_actions.len() as int)
    }
}

/// The names of the actions of the first `n` rows.
pub open spec fn row_action_names(rows: Seq<RowView>, n: int) -> Seq<Text>
    decreases n,
{
    if n <= 0 {
        Seq::empty()
    } else {
        row_action_names(rows, n - 1) + action_names(
            rows[n - 1].actions,
            rows[n - 1].actions.len() as int,
        )
    }
}

/// The guards of the first `n` rows.
pub open spec fn row_guards(rows: Seq<RowView>, n: int) -> Seq<Text>
    decreases n,
{
    if n <= 0 {
        Seq::empty()
    } else {
        row_guards(rows, n - 1) + rows[n - 1].guards
    }
}

/// The names of the actions of the first `n` entries of the table.
pub open spec fn table_action_names(table: Seq<EntryView>, n: int) -> Seq<Text>
    decreases n,
{
    if n <= 0 {
        Seq::empty()
    } else {
        table_action_names(table, n - 1) + row_action_names(
            table[n - 1].rows,
            table[n - 1].rows.len() as int,
        )
    }
}

/// The guards of the first `n` entries of the table.
pub open spec fn table_guards(table: Seq<EntryView>, n: int) -> Seq<Text>
    decreases n,
{
    if n <= 0 {
        Seq::empty()
    } else {
        table_guards(table, n - 1) + row_guards(table[n - 1].rows, table[n - 1].rows.len() as int)
    }
}

/// The methods for the guards: the guards of the table as identifiers,
/// each once.
pub open spec fn guard_methods(table: Seq<EntryView>) -> Seq<Text> {
    let all = table_guards(table, table.len() as int);
    let ids = idents(all, all.len() as int);
    distinct(ids, ids.len() as int)
}

/// The methods for the actions: the entry and exit actions of the states
/// and the actions of the table as identifiers, each once.
pub open spec fn action_methods(m: FsmView, table: Seq<EntryView>) -> Seq<Text> {
    let all = state_action_names(m, m.states.len() as int) + table_action_names(
        table,
        table.len() as int,
    );
    let ids = idents(all, all.len() as int);
    distinct(ids, ids.len() as int)
}

/// Appends the names of the actions to `out`.
pub fn push_action_names(out: &mut Vec<String>, actions: &Vec<Action>)
    ensures
        final(out).deep_view() == old(out).deep_view() + action_names(
            actions.deep_view(),
            actions.len() as int,
        ),
{
    let ghost start = out.deep_view();
    let mut i: usize = 0;
    assert(start + action_names(actions.deep_view(), 0) =~= start);
    while i < actions.len()
        invariant
            i <= actions.len(),
            out.deep_view() == start + action_names(actions.deep_view(), i as int),
        decreases actions.len() - i,
    {
        assert(actions.deep_view()[i as int] == actions[i as int]@);
        let ghost before = out.deep_view();
        out.push(actions[i].name.clone());
        assert(out.deep_view() =~= before.push(actions[i as int]@.name));
        i += 1;
        assert(out.deep_view() =~= start + action_names(actions.deep_view(), i as int));
    }
}

/// Appends copies of the names `more` to `out`.
pub fn push_names(out: &mut Vec<String>, more: &Vec<String>)
    ensures
        final(out).deep_view() == old(out).deep_view() + more.deep_view(),
{
    let ghost start = out.deep_view();
    let mut i: usize = 0;
    assert(start + more.deep_view().take(0) =~= start);
    while i < more.len()
        invariant
            i <= more.len(),
            out.deep_view() == start + more.deep_view().take(i as int),
        decreases more.len() - i,
    {
        let ghost before = out.deep_view();
        out.push(more[i].clone());
        assert(out.deep_view() =~= before.push(more[i as int]@));
        i += 1;
        assert(more.deep_view().take(i as int) =~= more.deep_view().take(i - 1).push(more[i - 1]@));
        assert(out.deep_view() =~= start + more.deep_view().take(i as int));
    }
    assert(more.deep_view().take(more.len() as int) =~= more.deep_view());
}

/// The names as identifiers.
pub fn idents_of(names: &Vec<String>) -> (out: Vec<String>)
    ensures
        out.deep_view() == idents(names.deep_view(), names.len() as int),
        out.len() == names.len(),
{
    let mut out: Vec<String> = Vec::new();
    assert(out.deep_view() =~= Seq::<Text>::empty());
    let mut i: usize = 0;
    while i < names.len()
        invariant
            i <= names.len(),
            out.len() == i,
            out.deep_view() == idents(names.deep_view(), i as int),
        decreases names.len() - i,
    {
        assert(names.deep_view()[i as int] == names[i as int]@);
        let ghost before = out.deep_view();
        let id = ident_string(names[i].as_str());
        out.push(id);
        assert(out.deep_view() =~= before.push(ident(names[i as int]@)));
        i += 1;
    }
    out
}

/// The identifiers of the actions, in order.
pub fn action_idents(actions: &Vec<Action>) -> (out: Vec<String>)
    ensures
        out.deep_view() == idents(
            action_names(actions.deep_view(), actions.len() as int),
            actions.len() as int,
        ),
{
    let mut all: Vec<String> = Vec::new();
    assert(all.deep_view() =~= Seq::<Text>::empty());
    push_action_names(&mut all, actions);
    assert(all.deep_view() =~= action_names(actions.deep_view(), actions.len() as int));
    proof {
        lemma_action_names_len(actions.deep_view(), actions.len() as int);
    }
    idents_of(&all)
}

/// There are as many names as actions.
pub proof fn lemma_action_names_len(actions: Seq<ActionView>, n: int)
    requires
        0 <= n,
    ensures
        action_names(actions, n).len() == n,
    decreases n,
{
    if n > 0 {
        lemma_action_names_len(actions, n - 1);
    }
}

/// The names of the states in Pascal case.
pub fn state_variant_names(fsm: &FsmDefinition) -> (out: Vec<String>)
    ensures
        out.deep_view() == state_variants(fsm@, fsm@.states.len() as int),
{
    let mut out: Vec<String> = Vec::new();
    assert(out.deep_view() =~= Seq::<Text>::empty());
    let mut i: usize = 0;
    while i < fsm.states.len()
        invariant
            i <= fsm.states.len(),
            out.deep_view() == state_variants(fsm@, i as int),
        decreases fsm.states.len() - i,
    {
        assert(fsm@.states[i as int] == fsm.states[i as int]@);
        let ghost before = out.deep_view();
        let v = pascal_string(fsm.states[i].name.as_str());
        out.push(v);
        assert(out.deep_view() =~= before.push(pascal_case(fsm@.states[i as int].name)));
        i += 1;
    }
    out
}

/// The names of the events in Pascal case.
pub fn event_variant_names(events: &Vec<Event>) -> (out: Vec<String>)
    ensures
        out.deep_view() == event_variants(events.deep_view(), events.len() as int),
{
    let mut out: Vec<String> = Vec::new();
    assert(out.deep_view() =~= Seq::<Text>::empty());
    let mut i: usize = 0;
    while i < events.len()
        invariant
            i <= events.len(),
            out.deep_view() == event_variants(events.deep_view(), i as int),
        decreases events.len() - i,
    {
        assert(events.deep_view()[i as int] == events[i as int]@);
        let ghost before = out.deep_view();
        let v = pascal_string(events[i].name.as_str());
        out.push(v);
        assert(out.deep_view() =~= before.push(pascal_case(events[i as int]@)));
        i += 1;
    }
    out
}

/// The methods for the guards of the table.
pub fn guard_method_names(table: &Vec<TableEntry>) -> (out: Vec<String>)
    ensures
        out.deep_view() == guard_methods(table.deep_view()),
{
    let ghost tv = table.deep_view();
    let mut all: Vec<String> = Vec::new();
    assert(all.deep_view() =~= Seq::<Text>::empty());
    let mut k: usize = 0;
    while k < table.len()
        invariant
            k <= table.len(),
            tv == table.deep_view(),
            all.deep_view() == table_guards(tv, k as int),
        decreases table.len() - k,
    {
        let entry = &table[k];
        assert(tv[k as int] == entry@);
        let ghost rows = entry@.rows;
        let ghost start = all.deep_view();
        let mut r: usize = 0;
        assert(start + row_guards(rows, 0) =~= start);
        while r < entry.rows.len()
            invariant
                r <= entry.rows.len(),
                rows == entry.rows.deep_view(),
                all.deep_view() == start + row_guards(rows, r as int),
            decreases entry.rows.len() - r,
        {
            assert(rows[r as int] == entry.rows[r as int]@);
            push_names(&mut all, &entry.rows[r].guards);
            r += 1;
            assert(all.deep_view() =~= start + row_guards(rows, r as int));
        }
        k += 1;
    }
    let ids = idents_of(&all);
    distinct_names(&ids)
}

/// The methods for the actions of the machine and of the table.
pub fn action_method_names(fsm: &FsmDefinition, table: &Vec<TableEntry>) -> (out: Vec<String>)
    ensures
        out.deep_view() == action_methods(fsm@, table.deep_view()),
{
    let ghost m = fsm@;
    let ghost tv = table.deep_view();
    let mut all: Vec<String> = Vec::new();
    assert(all.deep_view() =~= Seq::<Text>::empty());
    let mut i: usize = 0;
    while i < fsm.states.len()
        invariant
            i <= fsm.states.len(),
            m == fsm@,
            all.deep_view() == state_action_names(m, i as int),
        decreases fsm.states.len() - i,
    {
        assert(m.states[i as int] == fsm.states[i as int]@);
        push_action_names(&mut all, &fsm.states[i].entry_actions);
        push_action_names(&mut all, &fsm.states[i].exit_actions);
        i += 1;
    }
    let ghost first = all.deep_view();
    let mut k: usize = 0;
    assert(first + table_action_names(tv, 0) =~= first);
    while k < table.len()
        invariant
            k <= table.len(),
            tv == table.deep_view(),
            all.deep_view() == first + table_action_names(tv, k as int),
        decreases table.len() - k,
    {
        let entry = &table[k];
        assert(tv[k as int] == entry@);
        let ghost rows = entry@.rows;
        let ghost start = all.deep_view();
        let mut r: usize = 0;
        assert(start + row_action_names(rows, 0) =~= start);
        while r < entry.rows.len()
            invariant
                r <= entry.rows.len(),
                rows == entry.rows.deep_view(),
                all.deep_view() == start + row_action_names(rows, r as int),
            decreases entry.rows.len() - r,
        {
            assert(rows[r as int] == entry.rows[r as int]@);
            push_action_names(&mut all, &entry.rows[r].actions);
            r += 1;
            assert(all.deep_view() =~= start + row_action_names(rows, r as int));
        }
        k += 1;
        assert(all.deep_view() =~= first + table_action_names(tv, k as int));
    }
    let ids = idents_of(&all);
    distinct_names(&ids)
}

/// The initial state of a machine that has one.
pub open spec fn initial_of(m: FsmView) -> Text {
    match m.initial_state {
        Some(n) => n,
        None => Seq::empty(),
    }
}

/// The identifiers of the entry actions of the initial state.
pub open spec fn initial_calls(m: FsmView) -> Seq<Text> {
    let entry = entry_of(m, initial_of(m));
    idents(action_names(entry, entry.len() as int), entry.len() as int)
}

/// The text that every target emits: the states, the events, the trait
/// of the host, and the dispatcher.
pub open spec fn core_text(m: FsmView, events: Seq<Text>) -> Text {
    let p = pascal_case(m.name);
    let table = table_of(m, events, m.states.len() as int);
    pieces::header_text(p) + pieces::state_enum_text(p, state_variants(m, m.states.len() as int))
        + pieces::event_enum_text(p, event_variants(events, events.len() as int))
        + pieces::actions_trait_text(p, guard_methods(table), action_methods(m, table))
        + pieces::machine_struct_text(p) + pieces::impl_head_text(p) + pieces::constructor_text(
        p,
        pascal_case(initial_of(m)),
        initial_calls(m),
    ) + pieces::state_getter_text(p) + render::process_text(p, m, table) + "}\n"@
}

/// What a target adds to the core.
pub open spec fn target_text(m: FsmView, target: CodegenTarget) -> Text {
    match target {
        CodegenTarget::Standard => Seq::empty(),
        CodegenTarget::Embassy => pieces::active_object_text(pascal_case(m.name)),
        CodegenTarget::Rtic => pieces::interrupt_queue_text(pascal_case(m.name)),
    }
}

/// The text emitted for a machine with the event list `events`.
pub open spec fn code_text(m: FsmView, events: Seq<Text>, target: CodegenTarget) -> Text {
    core_text(m, events) + target_text(m, target)
}

/// Whether `text` is the code of the machine for the target.
pub open spec fn is_code(m: FsmView, target: CodegenTarget, text: Text) -> bool {
    exists|events: Seq<Text>|
        #![trigger is_event_list(m, events)]
        is_event_list(m, events) && text == code_text(m, events, target)
}

/// A machine has one text for each target.
pub proof fn lemma_code_unique(m: FsmView, target: CodegenTarget, a: Text, b: Text)
    requires
        is_code(m, target, a),
        is_code(m, target, b),
    ensures
        a == b,
{
    let ea = choose|events: Seq<Text>|
        #![trigger is_event_list(m, events)]
        is_event_list(m, events) && a == code_text(m, events, target);
    let eb = choose|events: Seq<Text>|
        #![trigger is_event_list(m, events)]
        is_event_list(m, events) && b == code_text(m, events, target);
    assert forall|n: Text| ea.contains(n) <==> eb.contains(n) by {
        assert(ea.contains(n) <==> crate::fsm::events::uses_event(m, n));
        assert(eb.contains(n) <==> crate::fsm::events::uses_event(m, n));
    }
    crate::fsm::events::lemma_sorted_unique(ea, eb);
}

/// Emits the source text of the machine for the given target. The model
/// has passed validation.
pub fn generate_rust_code_with_target(fsm: &FsmDefinition, target: CodegenTarget) -> (out: String)
    requires
        is_valid(fsm@),
    ensures
        is_code(fsm@, target, out@),
{
    let ghost m = fsm@;
    let events = fsm.collect_events();
    let ghost es = events.deep_view();
    assert(is_event_list(m, es));
    let table = table_for(fsm, &events);
    let p = pascal_string(fsm.name.as_str());
    let states = state_variant_names(fsm);
    let variants = event_variant_names(&events);
    let guards = guard_method_names(&table);
    let actions = action_method_names(fsm, &table);
    let initial = match &fsm.initial_state {
        Some(n) => n.clone(),
        None => String::new(),
    };
    assert(initial@ == initial_of(m));
    let i = state_index(fsm, &initial);
    let entry = if i < fsm.states.len() {
        assert(m.states[i as int] == fsm.states[i as int]@);
        action_idents(&fsm.states[i].entry_actions)
    } else {
        let none: Vec<String> = Vec::new();
        assert(none.deep_view() =~= Seq::<Text>::empty());
        none
    };
    assert(entry.deep_view() == initial_calls(m));
    let start = pascal_string(initial.as_str());
    let mut out = String::new();
    pieces::write_header(&mut out, p.as_str());
    pieces::write_state_enum(&mut out, p.as_str(), &states);
    pieces::write_event_enum(&mut out, p.as_str(), &variants);
    pieces::write_actions_trait(&mut out, p.as_str(), &guards, &actions);
    pieces::write_machine_struct(&mut out, p.as_str());
    pieces::write_impl_head(&mut out, p.as_str());
    pieces::write_constructor(&mut out, p.as_str(), start.as_str(), &entry);
    pieces::write_state_getter(&mut out, p.as_str());
    render::write_process(&mut out, p.as_str(), fsm, &table);
    out.append("}\n");
    assert(out@ =~= core_text(m, es));
    match target {
        CodegenTarget::Standard => {},
        CodegenTarget::Embassy => {
            pieces::write_active_object(&mut out, p.as_str());
        },
        CodegenTarget::Rtic => {
            pieces::write_interrupt_queue(&mut out, p.as_str());
        },
    }
    assert(out@ =~= code_text(m, es, target));
    out
}

/// Emits the source text of the machine for synchronous dispatch. The
/// model has passed validation.
pub fn generate_rust_code(fsm: &FsmDefinition) -> (out: String)
    requires
        is_valid(fsm@),
    ensures
        is_code(fsm@, CodegenTarget::Standard, out@),
{
    generate_rust_code_with_target(fsm, CodegenTarget::Standard)
}

/// Validates the model and emits the source text of the machine for the
/// given target, or returns the problems of the model.
pub fn generate(fsm: &FsmDefinition, target: CodegenTarget) -> (r: Result<String, Vec<String>>)
    ensures
        match r {
            Ok(text) => is_valid(fsm@) && is_code(fsm@, target, text@),
            Err(list) => !is_valid(fsm@) && list.deep_view() == crate::fsm::validation::problems(
                fsm@,
            ),
        },
{
    match fsm.validate() {
        Ok(()) => Ok(generate_rust_code_with_target(fsm, target)),
        Err(list) => Err(list),
    }
}

} // verus!
