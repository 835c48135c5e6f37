//! From the declarations of an `fsm` block to the model of the machine.
//!
//! The declarations are applied one by one, in source order. A state that
//! is named before it is declared, as the initial state or as an end of a
//! transition, is added as a simple state at that point.

use vstd::prelude::*;
use crate::text::{Text, to_chars};
use crate::fsm::{
    Action, FsmDefinition, FsmView, State, StateType, StateView, Transition, find_state, initial_marker, state_index,
};
use crate::fsm::validation::declares_state;
use crate::parser::grammar::{BlockView, ItemView, plain_state};
use crate::parser::tree::{Block, Item};
use crate::lists::{empty_list, push_item};

verus! {

broadcast use crate::fsm::lemma_states_view;

/// A machine with a name and nothing else.
pub open spec fn empty_machine(name: Text) -> FsmView {
    FsmView {
        name,
        description: None,
        initial_state: None,
        states: Seq::empty(),
        transitions: Seq::empty(),
        events: Seq::empty(),
        choice_points: Seq::empty(),
        timers: Seq::empty(),
    }
}

/// Whether an end of a transition names a state: it is neither the
/// pseudostate `[*]` nor a reference to a choice point.
pub open spec fn names_state(name: Text) -> bool {
    name != initial_marker() && !(name.len() >= 2 && name[0] == '<' && name[1] == '<')
}

/// The machine with a simple state called `name`, added at the end unless
/// a state of that name is there.
pub open spec fn with_state_named(m: FsmView, name: Text) -> FsmView {
    if declares_state(m, name) {
        m
    } else {
        FsmView { states: m.states.push(plain_state(name)), ..m }
    }
}

/// The machine with the state that an end of a transition names, if it
/// names one.
pub open spec fn with_endpoint(m: FsmView, name: Text) -> FsmView {
    if names_state(name) {
        with_state_named(m, name)
    } else {
        m
    }
}

/// A state after a further declaration of it: the new description and
/// internal transitions replace the old ones, the new entry and exit
/// actions follow the old ones.
pub open spec fn merged_state(old: StateView, new: StateView) -> StateView {
    StateView {
        description: new.description,
        entry_actions: old.entry_actions + new.entry_actions,
        exit_actions: old.exit_actions + new.exit_actions,
        internal_transitions: new.internal_transitions,
        ..old
    }
}

/// The machine after the declaration `st` of a state: merged into the
/// state of that name, or added at the end.
pub open spec fn with_state(m: FsmView, st: StateView) -> FsmView {
    let i = find_state(m.states, st.name, 0);
    if 0 <= i < m.states.len() {
        FsmView { states: m.states.update(i, merged_state(m.states[i], st)), ..m }
    } else {
        FsmView { states: m.states.push(st), ..m }
    }
}

/// The machine after one more declaration.
pub open spec fn apply_item(m: FsmView, item: ItemView) -> FsmView {
    match item {
        ItemView::Initial(n) => with_state_named(FsmView { initial_state: Some(n), ..m }, n),
        ItemView::Timer(t) => FsmView { timers: m.timers.push(t), ..m },
        ItemView::Choice(c) => FsmView { choice_points: m.choice_points.push(c), ..m },
        ItemView::State(st) => with_state(m, st),
        ItemView::Transition(t) => {
            let ends = with_endpoint(with_endpoint(m, t.source), t.target);
            FsmView { transitions: ends.transitions.push(t), ..ends }
        },
    }
}

/// The machine after the first `n` of the declarations `items`.
pub open spec fn apply_items(m: FsmView, items: Seq<ItemView>, n: int) -> FsmView
    decreases n,
{
    if n <= 0 {
        m
    } else {
        apply_item(apply_items(m, items, n - 1), items[n - 1])
    }
}

/// The machine that a block describes.
pub open spec fn build(b: BlockView) -> FsmView {
    apply_items(empty_machine(b.name), b.items, b.items.len() as int)
}

/// The machines that a list of blocks describes, one for one.
pub open spec fn build_all(bs: Seq<BlockView>) -> Seq<FsmView> {
    Seq::new(bs.len(), |i: int| build(bs[i]))
}

/// Whether an end of a transition names a state.
pub fn is_state_name(name: &String) -> (b: bool)
    ensures
        b == names_state(name@),
{
    let chars = to_chars(name.as_str());
    if chars.len() == 3 && chars[0] == '[' && chars[1] == '*' && chars[2] == ']' {
        assert(chars@ =~= initial_marker());
        return false;
    }
    !(chars.len() >= 2 && chars[0] == '<' && chars[1] == '<')
}

/// Adds a simple state called `name` unless the machine has one.
pub fn ensure_state(fsm: &mut FsmDefinition, name: &String)
    ensures
        final(fsm)@ == with_state_named(old(fsm)@, name@),
{
    if !fsm.has_state(name) {
        push_item(&mut fsm.states, State::new(name.as_str(), StateType::Simple));
    }
}

/// Adds the state that an end of a transition names, if it names one.
pub fn ensure_endpoint(fsm: &mut FsmDefinition, name: &String)
    ensures
        final(fsm)@ == with_endpoint(old(fsm)@, name@),
{
    if is_state_name(name) {
        ensure_state(fsm, name);
    }
}

/// The actions of `first` followed by those of `second`.
pub fn join_actions(first: &Vec<Action>, second: &Vec<Action>) -> (out: Vec<Action>)
    ensures
        out.deep_view() == first.deep_view() + second.deep_view(),
{
    let mut out = crate::fsm::copy_actions(first);
    let mut i: usize = 0;
    while i < second.len()
        invariant
            i <= second.len(),
            out.deep_view() == first.deep_view() + second.deep_view().take(i as int),
        decreases second.len() - i,
    {
        let a = second[i].clone();
        push_item(&mut out, a);
        i += 1;
        assert(second.deep_view().take(i as int) =~= second.deep_view().take(i - 1).push(
            second[i - 1]@,
        ));
        assert(out.deep_view() =~= first.deep_view() + second.deep_view().take(i as int));
    }
    assert(second.deep_view().take(second.len() as int) =~= second.deep_view());
    out
}

/// Applies the declaration `st` of a state.
pub fn declare_state(fsm: &mut FsmDefinition, st: &State)
    ensures
        final(fsm)@ == with_state(old(fsm)@, st@),
{
    let i = state_index(fsm, &st.name);
    if i < fsm.states.len() {
        let ghost before = fsm@;
        assert(before.states[i as int] == fsm.states[i as int]@);
        let merged = State {
            name: fsm.states[i].name.clone(),
            description: crate::fsm::copy_opt_string(&st.description),
            state_type: fsm.states[i].state_type,
            entry_actions: join_actions(&fsm.states[i].entry_actions, &st.entry_actions),
            exit_actions: join_actions(&fsm.states[i].exit_actions, &st.exit_actions),
            internal_transitions: crate::fsm::copy_transitions(&st.internal_transitions),
            sub_fsm: match &fsm.states[i].sub_fsm {
                Some(sub) => Some(sub.clone()),
                None => None,
            },
        };
        fsm.states.set(i, merged);
        assert(fsm@.states =~= before.states.update(
            i as int,
            merged_state(before.states[i as int], st@),
        ));
    } else {
        push_item(&mut fsm.states, st.clone());
    }
}

/// Applies one declaration.
pub fn apply(fsm: &mut FsmDefinition, item: &Item)
    ensures
        final(fsm)@ == apply_item(old(fsm)@, item@),
{
    match item {
        Item::Initial(n) => {
            fsm.initial_state = Some(n.clone());
            ensure_state(fsm, n);
        },
        Item::Timer(t) => {
            push_item(&mut fsm.timers, t.clone());
        },
        Item::Choice(c) => {
            push_item(&mut fsm.choice_points, c.clone());
        },
        Item::State(st) => {
            declare_state(fsm, st);
        },
        Item::Transition(t) => {
            ensure_endpoint(fsm, &t.source);
            ensure_endpoint(fsm, &t.target);
            push_item(&mut fsm.transitions, t.clone());
        },
    }
}

/// Builds the machine that a block describes.
pub fn lower(block: &Block) -> (fsm: FsmDefinition)
    ensures
        fsm@ == build(block@),
{
    let mut fsm = FsmDefinition::new(block.name.as_str());
    let mut i: usize = 0;
    while i < block.items.len()
        invariant
            i <= block.items.len(),
            fsm@ == apply_items(empty_machine(block.name@), block@.items, i as int),
        decreases block.items.len() - i,
    {
        assert(block@.items[i as int] == block.items[i as int]@);
        apply(&mut fsm, &block.items[i]);
        i += 1;
    }
    fsm
}

/// Builds the machines that a list of blocks describes.
pub fn lower_all(blocks: &Vec<Block>) -> (out: Vec<FsmDefinition>)
    ensures
        out.deep_view() == build_all(blocks.deep_view()),
{
    let mut out: Vec<FsmDefinition> = empty_list();
    let mut i: usize = 0;
    while i < blocks.len()
        invariant
            i <= blocks.len(),
            out.deep_view() == build_all(blocks.deep_view()).take(i as int),
        decreases blocks.len() - i,
    {
        let fsm = lower(&blocks[i]);
        push_item(&mut out, fsm);
        i += 1;
        assert(out.deep_view() =~= build_all(blocks.deep_view()).take(i as int));
    }
    assert(build_all(blocks.deep_view()).take(blocks.len() as int) =~= build_all(
        blocks.deep_view(),
    ));
    out
}

} // verus!
