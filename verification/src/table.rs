//! The transition table of a machine: for each state and event the cases
//! to try, in order.
//!
//! A case is a row: the guards that must hold, the actions due if they
//! do, and the state in which the machine stands afterwards. The rows for
//! a state and an event are the internal transitions of the state that
//! wait for the event, in order, then the transitions of the machine that
//! leave the state on the event, in order. A transition into a choice
//! point gives one row for each branch of the choice point: the guard of
//! the branch joins that of the transition, and its action follows that of
//! the transition. The guard `else` always holds and so asks for nothing.

use vstd::prelude::*;
use crate::text::Text;
use crate::fsm::{
    Action, ActionView, ChoiceBranchView, ChoicePointView, Event, FsmDefinition, FsmView, Guard,
    Transition, TransitionView, choice_ref, find_state, state_index,
};
use crate::fsm::events::{strictly_sorted, uses_event};
use crate::lists::{empty_list, push_item};

verus! {

/// Whether a row keeps the state or leaves it.
#[derive(Debug, Clone, Copy, PartialEq, Eq, Structural)]
pub enum RowKind {
    /// Handled inside the state: neither exit nor entry actions run.
    Internal,
    /// Leaves the state: its exit actions run first, the entry actions of
    /// the target last.
    External,
}

/// One case of the table.
#[derive(Debug)]
pub struct TableRow {
    /// Whether the row keeps the state or leaves it.
    pub kind: RowKind,
    /// The guard expressions that must all hold for the row to fire.
    pub guards: Vec<String>,
    /// The actions of the row, in order.
    pub actions: Vec<Action>,
    /// The state afterwards.
    pub target: String,
}

/// The cases for one state and one event.
#[derive(Debug)]
pub struct TableEntry {
    /// The state.
    pub state: String,
    /// The event.
    pub event: String,
    /// The rows to try, in order. There is at least one.
    pub rows: Vec<TableRow>,
}

/// A `TableRow` as contracts see it.
pub struct RowView {
    pub kind: RowKind,
    pub guards: Seq<Text>,
    pub actions: Seq<ActionView>,
    pub target: Text,
}

/// A `TableEntry` as contracts see it.
pub struct EntryView {
    pub state: Text,
    pub event: Text,
    pub rows: Seq<RowView>,
}

impl DeepView for TableRow {
    type V = RowView;

    open spec fn deep_view(&self) -> RowView {
        RowView {
            kind: self.kind,
            guards: self.guards.deep_view(),
            actions: self.actions.deep_view(),
            target: self.target@,
        }
    }
}

impl View for TableRow {
    type V = RowView;

    open spec fn view(&self) -> RowView {
        self.deep_view()
    }
}

impl DeepView for TableEntry {
    type V = EntryView;

    open spec fn deep_view(&self) -> EntryView {
        EntryView { state: self.state@, event: self.event@, rows: self.rows.deep_view() }
    }
}

impl View for TableEntry {
    type V = EntryView;

    open spec fn view(&self) -> EntryView {
        self.deep_view()
    }
}

/// The guard that always holds.
pub open spec fn else_guard() -> Text {
    seq!['e', 'l', 's', 'e']
}

/// What a guard asks for: the expression, or nothing where there is no
/// guard or the guard is `else`.
pub open spec fn guard_list(g: Option<Text>) -> Seq<Text> {
    match g {
        Some(e) => if e == else_guard() {
            Seq::empty()
        } else {
            seq![e]
        },
        None => Seq::empty(),
    }
}

/// An optional action as a list of actions.
pub open spec fn action_list(a: Option<ActionView>) -> Seq<ActionView> {
    match a {
        Some(x) => seq![x],
        None => Seq::empty(),
    }
}

/// Whether a transition waits for `event`.
pub open spec fn waits_for(t: TransitionView, event: Text) -> bool {
    t.event == Some(event)
}

/// The row of an internal transition of the state `state`.
pub open spec fn internal_row(state: Text, t: TransitionView) -> RowView {
    RowView {
        kind: RowKind::Internal,
        guards: guard_list(t.guard),
        actions: action_list(t.action),
        target: state,
    }
}

/// The rows of the first `n` of the internal transitions `ts` of the
/// state `state`, as far as they wait for `event`.
pub open spec fn internal_rows(state: Text, ts: Seq<TransitionView>, event: Text, n: int) -> Seq<
    RowView,
>
    decreases n,
{
    if n <= 0 {
        Seq::empty()
    } else if waits_for(ts[n - 1], event) {
        internal_rows(state, ts, event, n - 1).push(internal_row(state, ts[n - 1]))
    } else {
        internal_rows(state, ts, event, n - 1)
    }
}

/// The row of a transition that ends in a state.
pub open spec fn plain_row(t: TransitionView) -> RowView {
    RowView {
        kind: RowKind::External,
        guards: guard_list(t.guard),
        actions: action_list(t.action),
        target: t.target,
    }
}

/// The row of a transition that ends in the branch `b` of a choice point.
pub open spec fn branch_row(t: TransitionView, b: ChoiceBranchView) -> RowView {
    RowView {
        kind: RowKind::External,
        guards: guard_list(t.guard) + guard_list(Some(b.guard)),
        actions: action_list(t.action) + action_list(b.action),
        target: b.target,
    }
}

/// The rows of a transition into a choice point for the first `n` of its
/// branches.
pub open spec fn branch_rows(t: TransitionView, bs: Seq<ChoiceBranchView>, n: int) -> Seq<RowView>
    decreases n,
{
    if n <= 0 {
        Seq::empty()
    } else {
        branch_rows(t, bs, n - 1).push(branch_row(t, bs[n - 1]))
    }
}

/// The first index from `from` on of a choice point to which `target`
/// refers; the number of choice points if there is none.
pub open spec fn find_choice(cs: Seq<ChoicePointView>, target: Text, from: int) -> int
    decreases cs.len() - from,
{
    if from < 0 || from >= cs.len() {
        cs.len() as int
    } else if choice_ref(cs[from].name) == target {
        from
    } else {
        find_choice(cs, target, from + 1)
    }
}

/// The rows of one transition: one row, or one for each branch where the
/// transition ends in a choice point of the machine.
pub open spec fn transition_rows(m: FsmView, t: TransitionView) -> Seq<RowView> {
    let c = find_choice(m.choice_points, t.target, 0);
    if 0 <= c < m.choice_points.len() {
        branch_rows(t, m.choice_points[c].branches, m.choice_points[c].branches.len() as int)
    } else {
        seq![plain_row(t)]
    }
}

/// The rows of the first `n` transitions of the machine, as far as they
/// leave `state` on `event`.
pub open spec fn external_rows(m: FsmView, state: Text, event: Text, n: int) -> Seq<RowView>
    decreases n,
{
    if n <= 0 {
        Seq::empty()
    } else if m.transitions[n - 1].source == state && waits_for(m.transitions[n - 1], event) {
        external_rows(m, state, event, n - 1) + transition_rows(m, m.transitions[n - 1])
    } else {
        external_rows(m, state, event, n - 1)
    }
}

/// The internal transitions of the state called `state`; none if there is
/// no such state.
pub open spec fn internal_of(m: FsmView, state: Text) -> Seq<TransitionView> {
    let i = find_state(m.states, state, 0);
    if 0 <= i < m.states.len() {
        m.states[i].internal_transitions
    } else {
        Seq::empty()
    }
}

/// The rows for a state and an event: the internal ones first.
pub open spec fn rows_for(m: FsmView, state: Text, event: Text) -> Seq<RowView> {
    internal_rows(state, internal_of(m, state), event, internal_of(m, state).len() as int)
        + external_rows(m, state, event, m.transitions.len() as int)
}

/// The entries of the state `state` for the first `n` of the events
/// `events`: one for each event for which the state has a row.
pub open spec fn state_entries(m: FsmView, state: Text, events: Seq<Text>, n: int) -> Seq<EntryView>
    decreases n,
{
    if n <= 0 {
        Seq::empty()
    } else {
        let rows = rows_for(m, state, events[n - 1]);
        if rows.len() > 0 {
            state_entries(m, state, events, n - 1).push(
                EntryView { state, event: events[n - 1], rows },
            )
        } else {
            state_entries(m, state, events, n - 1)
        }
    }
}

/// The entries of the first `k` states of the machine for the events
/// `events`.
pub open spec fn table_of(m: FsmView, events: Seq<Text>, k: int) -> Seq<EntryView>
    decreases k,
{
    if k <= 0 {
        Seq::empty()
    } else {
        table_of(m, events, k - 1) + state_entries(
            m,
            m.states[k - 1].name,
            events,
            events.len() as int,
        )
    }
}

/// Whether `events` is the event list of the machine: its events, each
/// once, sorted by name.
pub open spec fn is_event_list(m: FsmView, events: Seq<Text>) -> bool {
    strictly_sorted(events) && forall|n: Text| events.contains(n) <==> uses_event(m, n)
}

/// Whether `table` is the transition table of the machine: the entries
/// of its states, in the order of the states, each for the events of the
/// machine in the order of their names.
pub open spec fn is_table(m: FsmView, table: Seq<EntryView>) -> bool {
    exists|events: Seq<Text>|
        #![trigger is_event_list(m, events)]
        is_event_list(m, events) && table == table_of(m, events, m.states.len() as int)
}

/// What a guard asks for.
pub fn guards_of(g: &Option<Guard>) -> (out: Vec<String>)
    ensures
        out.deep_view() == guard_list(g.deep_view()),
{
    let mut out: Vec<String> = empty_list();
    match g {
        Some(guard) => {
            let mut other = String::new();
            other.push('e');
            other.push('l');
            other.push('s');
            other.push('e');
            assert(other@ =~= else_guard());
            if guard.expression != other {
                push_item(&mut out, guard.expression.clone());
                assert(out.deep_view() =~= seq![guard.expression@]);
            }
        },
        None => {},
    }
    out
}

/// An optional action as a list of actions.
pub fn actions_of(a: &Option<Action>) -> (out: Vec<Action>)
    ensures
        out.deep_view() == action_list(a.deep_view()),
{
    let mut out: Vec<Action> = empty_list();
    match a {
        Some(action) => {
            push_item(&mut out, action.clone());
            assert(out.deep_view() =~= seq![action@]);
        },
        None => {},
    }
    out
}

/// Whether a transition waits for `event`.
pub fn is_waiting(t: &Transition, event: &String) -> (b: bool)
    ensures
        b == waits_for(t@, event@),
{
    assert(t@.event == t.event.deep_view());
    match &t.event {
        Some(e) => e.name == *event,
        None => false,
    }
}

/// Appends the rows of the transition `t` to `rows`.
pub fn push_transition_rows(rows: &mut Vec<TableRow>, fsm: &FsmDefinition, t: &Transition)
    ensures
        final(rows).deep_view() == old(rows).deep_view() + transition_rows(fsm@, t@),
{
    let ghost before = rows.deep_view();
    let ghost cs = fsm@.choice_points;
    let mut c: usize = 0;
    while c < fsm.choice_points.len()
        invariant
            c <= fsm.choice_points.len(),
            cs == fsm@.choice_points,
            rows.deep_view() == before,
            before == old(rows).deep_view(),
            find_choice(cs, t@.target, 0) == find_choice(cs, t@.target, c as int),
        decreases fsm.choice_points.len() - c,
    {
        let point = &fsm.choice_points[c];
        assert(cs[c as int] == point@);
        let mut reference = String::new();
        reference.push('<');
        reference.push('<');
        reference.append(point.name.as_str());
        reference.push('>');
        reference.push('>');
        assert(reference@ =~= choice_ref(point@.name));
        if reference == t.target {
            let ghost bs = point@.branches;
            assert(find_choice(cs, t@.target, 0) == c);
            let mut b: usize = 0;
            assert(before + branch_rows(t@, bs, 0) =~= before);
            while b < point.branches.len()
                invariant
                    b <= point.branches.len(),
                    bs == point@.branches,
                    cs == fsm@.choice_points,
                    c < cs.len(),
                    cs[c as int] == point@,
                    find_choice(cs, t@.target, 0) == c,
                    before == old(rows).deep_view(),
                    rows.deep_view() == before + branch_rows(t@, bs, b as int),
                decreases point.branches.len() - b,
            {
                let branch = &point.branches[b];
                assert(bs[b as int] == branch@);
                let mut guards = guards_of(&t.guard);
                let ghost g0 = guards.deep_view();
                let more = guards_of(&Some(Guard { expression: branch.guard.expression.clone() }));
                let mut k: usize = 0;
                while k < more.len()
                    invariant
                        k <= more.len(),
                        guards.deep_view() == g0 + more.deep_view().take(k as int),
                    decreases more.len() - k,
                {
                    push_item(&mut guards, more[k].clone());
                    k += 1;
                    assert(more.deep_view().take(k as int) =~= more.deep_view().take(k - 1).push(
                        more[k - 1]@,
                    ));
                    assert(guards.deep_view() =~= g0 + more.deep_view().take(k as int));
                }
                assert(more.deep_view().take(more.len() as int) =~= more.deep_view());
                let mut actions = actions_of(&t.action);
                let ghost a0 = actions.deep_view();
                match &branch.action {
                    Some(a) => {
                        push_item(&mut actions, a.clone());
                    },
                    None => {},
                }
                assert(branch@.action == branch.action.deep_view());
                assert(actions.deep_view() =~= a0 + action_list(branch@.action));
                assert(t@.guard == t.guard.deep_view());
                assert(t@.action == t.action.deep_view());
                let row = TableRow {
                    kind: RowKind::External,
                    guards,
                    actions,
                    target: branch.target.clone(),
                };
                assert(row@ == branch_row(t@, bs[b as int]));
                let ghost r0 = rows.deep_view();
                push_item(rows, row);
                b += 1;
                assert(rows.deep_view() =~= before + branch_rows(t@, bs, b as int));
            }
            assert(bs.len() == point.branches.len());
            assert(fsm@.choice_points[c as int].branches == bs);
            assert(transition_rows(fsm@, t@) == branch_rows(t@, bs, bs.len() as int));
            return ;
        }
        c += 1;
    }
    assert(t@.guard == t.guard.deep_view());
    assert(t@.action == t.action.deep_view());
    let row = TableRow {
        kind: RowKind::External,
        guards: guards_of(&t.guard),
        actions: actions_of(&t.action),
        target: t.target.clone(),
    };
    assert(row@ == plain_row(t@));
    push_item(rows, row);
    assert(rows.deep_view() =~= before + seq![plain_row(t@)]);
}

/// The rows for a state and an event.
pub fn rows_of(fsm: &FsmDefinition, state: &String, event: &String) -> (rows: Vec<TableRow>)
    ensures
        rows.deep_view() == rows_for(fsm@, state@, event@),
{
    let ghost m = fsm@;
    let mut rows: Vec<TableRow> = empty_list();
    let si = state_index(fsm, state);
    if si < fsm.states.len() {
        assert(m.states[si as int] == fsm.states[si as int]@);
        let inner = &fsm.states[si].internal_transitions;
        let ghost ts = inner.deep_view();
        let mut i: usize = 0;
        while i < inner.len()
            invariant
                i <= inner.len(),
                ts == inner.deep_view(),
                rows.deep_view() == internal_rows(state@, ts, event@, i as int),
            decreases inner.len() - i,
        {
            let t = &inner[i];
            assert(ts[i as int] == t@);
            if is_waiting(t, event) {
                assert(t@.guard == t.guard.deep_view());
                assert(t@.action == t.action.deep_view());
                let row = TableRow {
                    kind: RowKind::Internal,
                    guards: guards_of(&t.guard),
                    actions: actions_of(&t.action),
                    target: state.clone(),
                };
                assert(row@ == internal_row(state@, t@));
                push_item(&mut rows, row);
            }
            i += 1;
        }
    }
    let ghost inner_rows = rows.deep_view();
    assert(inner_rows == internal_rows(
        state@,
        internal_of(m, state@),
        event@,
        internal_of(m, state@).len() as int,
    ));
    let mut x: usize = 0;
    assert(inner_rows + external_rows(m, state@, event@, 0) =~= inner_rows);
    while x < fsm.transitions.len()
        invariant
            x <= fsm.transitions.len(),
            m == fsm@,
            rows.deep_view() == inner_rows + external_rows(m, state@, event@, x as int),
        decreases fsm.transitions.len() - x,
    {
        let t = &fsm.transitions[x];
        assert(m.transitions[x as int] == t@);
        let ghost r0 = rows.deep_view();
        if t.source == *state && is_waiting(t, event) {
            push_transition_rows(&mut rows, fsm, t);
            assert(rows.deep_view() =~= inner_rows + external_rows(m, state@, event@, x + 1));
        }
        x += 1;
    }
    rows
}

/// The table of a machine for a given list of events.
pub fn table_for(fsm: &FsmDefinition, events: &Vec<Event>) -> (table: Vec<TableEntry>)
    ensures
        table.deep_view() == table_of(fsm@, events.deep_view(), fsm@.states.len() as int),
{
    let ghost m = fsm@;
    let ghost es = events.deep_view();
    let mut table: Vec<TableEntry> = empty_list();
    let mut k: usize = 0;
    while k < fsm.states.len()
        invariant
            k <= fsm.states.len(),
            m == fsm@,
            es == events.deep_view(),
            table.deep_view() == table_of(m, es, k as int),
        decreases fsm.states.len() - k,
    {
        let state = &fsm.states[k].name;
        assert(m.states[k as int] == fsm.states[k as int]@);
        let ghost t0 = table.deep_view();
        let mut n: usize = 0;
        assert(t0 + state_entries(m, state@, es, 0) =~= t0);
        while n < events.len()
            invariant
                n <= events.len(),
                m == fsm@,
                es == events.deep_view(),
                table.deep_view() == t0 + state_entries(m, state@, es, n as int),
            decreases events.len() - n,
        {
            let event = &events[n].name;
            assert(es[n as int] == event@);
            let rows = rows_of(fsm, state, event);
            if rows.len() > 0 {
                let entry = TableEntry { state: state.clone(), event: event.clone(), rows };
                push_item(&mut table, entry);
                assert(table.deep_view() =~= t0 + state_entries(m, state@, es, n + 1));
            }
            n += 1;
        }
        k += 1;
    }
    table
}

/// The transition table of a machine.
pub fn transition_table(fsm: &FsmDefinition) -> (table: Vec<TableEntry>)
    ensures
        is_table(fsm@, table.deep_view()),
{
    let events = fsm.collect_events();
    assert(is_event_list(fsm@, events.deep_view()));
    table_for(fsm, &events)
}

/// A machine has one transition table: whatever list of its events the
/// table is built for, it is the same table.
pub proof fn lemma_table_unique(m: FsmView, a: Seq<EntryView>, b: Seq<EntryView>)
    requires
        is_table(m, a),
        is_table(m, b),
    ensures
        a == b,
{
    let ea = choose|events: Seq<Text>|
        #![trigger is_event_list(m, events)]
        is_event_list(m, events) && a == table_of(m, events, m.states.len() as int);
    let eb = choose|events: Seq<Text>|
        #![trigger is_event_list(m, events)]
        is_event_list(m, events) && b == table_of(m, events, m.states.len() as int);
    assert forall|n: Text| ea.contains(n) <==> eb.contains(n) by {
        assert(ea.contains(n) <==> uses_event(m, n));
        assert(eb.contains(n) <==> uses_event(m, n));
    }
    crate::fsm::events::lemma_sorted_unique(ea, eb);
}

} // verus!
