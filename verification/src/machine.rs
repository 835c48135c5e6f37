//! A machine at run time: the meaning of a model.
//!
//! A `Dispatcher` holds a model and a current state and takes one event
//! at a time. It does not act on the world itself. The guards are
//! evaluated by the host, which hands in the guard expressions that hold
//! when an event is dispatched; the actions are calls into the host, which
//! the dispatcher lists in the order in which they are due.
//!
//! An `ActiveObject` puts a bounded queue before a dispatcher: events are
//! posted without blocking and taken through the machine later, in the
//! order in which they came.

use std::collections::VecDeque;
use vstd::prelude::*;
use crate::text::Text;
use crate::fsm::{Action, ActionView, FsmDefinition, FsmView, copy_actions, find_state, state_index};
use crate::lists::push_item;
use crate::table::{RowKind, RowView, TableRow, rows_for, rows_of};

verus! {

/// What became of an event.
#[derive(Debug, Clone, Copy, PartialEq, Eq, Structural)]
pub enum Outcome {
    /// An external transition fired: the machine left its state.
    Transitioned,
    /// An internal transition fired: handled, no state change.
    Internal,
    /// Transitions wait for the event in this state, but a guard of each
    /// of them is false.
    Rejected,
    /// No transition waits for the event in this state.
    NotHandled,
}

/// What one event does to a machine: what became of it, the state
/// afterwards, and the actions due, in order.
pub struct Step {
    pub outcome: Outcome,
    pub state: Text,
    pub actions: Seq<ActionView>,
}

/// Whether the first `n` of the guards hold, given the guard expressions
/// that the host found true.
pub open spec fn guards_hold(guards: Seq<Text>, truths: Seq<Text>, n: int) -> bool
    decreases n,
{
    if n <= 0 {
        true
    } else {
        guards_hold(guards, truths, n - 1) && truths.contains(guards[n - 1])
    }
}

/// Whether a row fires: all its guards hold.
pub open spec fn row_fires(row: RowView, truths: Seq<Text>) -> bool {
    guards_hold(row.guards, truths, row.guards.len() as int)
}

/// The first index from `from` on of a row that fires; the number of rows
/// if there is none.
pub open spec fn first_row(rows: Seq<RowView>, truths: Seq<Text>, from: int) -> int
    decreases rows.len() - from,
{
    if from < 0 || from >= rows.len() {
        rows.len() as int
    } else if row_fires(rows[from], truths) {
        from
    } else {
        first_row(rows, truths, from + 1)
    }
}

/// The entry actions of the state called `state`; none if there is no
/// such state.
pub open spec fn entry_of(m: FsmView, state: Text) -> Seq<ActionView> {
    let i = find_state(m.states, state, 0);
    if 0 <= i < m.states.len() {
        m.states[i].entry_actions
    } else {
        Seq::empty()
    }
}

/// The exit actions of the state called `state`.
pub open spec fn exit_of(m: FsmView, state: Text) -> Seq<ActionView> {
    let i = find_state(m.states, state, 0);
    if 0 <= i < m.states.len() {
        m.states[i].exit_actions
    } else {
        Seq::empty()
    }
}

/// What the event `event` does to the machine `m` in the state `state`.
///
/// The rows of the transition table for the state and the event are
/// tried in order, and the first whose guards all hold fires. An internal
/// row keeps the state; its actions are due. An external row leaves the
/// state: the exit actions of the state, the actions of the row and the
/// entry actions of the new state are due, in this order. Where there
/// are rows but none fires, the event is rejected; where there is no row,
/// it is not handled. In both cases nothing changes and no action is
/// due.
pub open spec fn step(m: FsmView, state: Text, event: Text, truths: Seq<Text>) -> Step {
    let rows = rows_for(m, state, event);
    let i = first_row(rows, truths, 0);
    if 0 <= i < rows.len() {
        match rows[i].kind {
            RowKind::Internal => Step {
                outcome: Outcome::Internal,
                state,
                actions: rows[i].actions,
            },
            RowKind::External => Step {
                outcome: Outcome::Transitioned,
                state: rows[i].target,
                actions: exit_of(m, state) + rows[i].actions + entry_of(m, rows[i].target),
            },
        }
    } else {
        Step {
            outcome: if rows.len() > 0 {
                Outcome::Rejected
            } else {
                Outcome::NotHandled
            },
            state,
            actions: Seq::empty(),
        }
    }
}

/// An event that fires no external transition leaves the state as it is,
/// and an event that fires nothing calls for no action.
pub proof fn lemma_step_keeps(m: FsmView, state: Text, event: Text, truths: Seq<Text>)
    ensures
        step(m, state, event, truths).outcome != Outcome::Transitioned ==> step(
            m,
            state,
            event,
            truths,
        ).state == state,
        step(m, state, event, truths).outcome == Outcome::Rejected || step(
            m,
            state,
            event,
            truths,
        ).outcome == Outcome::NotHandled ==> step(m, state, event, truths).actions.len() == 0,
{
}

/// Whether all guards of the row hold.
pub fn fires(row: &TableRow, truths: &Vec<String>) -> (b: bool)
    ensures
        b == row_fires(row@, truths.deep_view()),
{
    let ghost gs = row@.guards;
    let mut i: usize = 0;
    while i < row.guards.len()
        invariant
            i <= row.guards.len(),
            gs == row.guards.deep_view(),
            guards_hold(gs, truths.deep_view(), i as int),
        decreases row.guards.len() - i,
    {
        let guard = &row.guards[i];
        assert(gs[i as int] == guard@);
        let mut found = false;
        let mut k: usize = 0;
        while k < truths.len() && !found
            invariant
                k <= truths.len(),
                found ==> truths.deep_view().contains(guard@),
                !found ==> forall|j: int| 0 <= j < k ==> truths.deep_view()[j] != guard@,
            decreases truths.len() - k,
        {
            assert(truths.deep_view()[k as int] == truths[k as int]@);
            if truths[k] == *guard {
                found = true;
            }
            k += 1;
        }
        if !found {
            assert(!guards_hold(gs, truths.deep_view(), i + 1));
            proof {
                lemma_guards_fail(gs, truths.deep_view(), i + 1, gs.len() as int);
            }
            return false;
        }
        i += 1;
    }
    true
}

/// Guards that do not hold up to `n` do not hold beyond it.
pub proof fn lemma_guards_fail(guards: Seq<Text>, truths: Seq<Text>, n: int, k: int)
    requires
        0 <= n <= k,
        !guards_hold(guards, truths, n),
    ensures
        !guards_hold(guards, truths, k),
    decreases k - n,
{
    if n < k {
        lemma_guards_fail(guards, truths, n, k - 1);
    }
}

/// Appends copies of the actions `more` to `list`.
pub fn extend_actions(list: &mut Vec<Action>, more: &Vec<Action>)
    ensures
        final(list).deep_view() == old(list).deep_view() + more.deep_view(),
{
    let ghost before = list.deep_view();
    let mut i: usize = 0;
    assert(before + more.deep_view().take(0) =~= before);
    while i < more.len()
        invariant
            i <= more.len(),
            list.deep_view() == before + more.deep_view().take(i as int),
        decreases more.len() - i,
    {
        let a = more[i].clone();
        push_item(list, a);
        i += 1;
        assert(more.deep_view().take(i as int) =~= more.deep_view().take(i - 1).push(more[i - 1]@));
        assert(list.deep_view() =~= before + more.deep_view().take(i as int));
    }
    assert(more.deep_view().take(more.len() as int) =~= more.deep_view());
}

/// A machine at run time, dispatching synchronously: one call takes one
/// event through the machine, and nothing waits.
#[derive(Debug)]
pub struct Dispatcher {
    /// The model.
    pub model: FsmDefinition,
    /// The current state.
    pub state: String,
    /// The actions due so far, oldest first. The host carries them out
    /// and may empty the list.
    pub actions: Vec<Action>,
}

/// A `Dispatcher` as contracts see it.
pub struct DispatcherView {
    pub model: FsmView,
    pub state: Text,
    pub actions: Seq<ActionView>,
}

impl DeepView for Dispatcher {
    type V = DispatcherView;

    open spec fn deep_view(&self) -> DispatcherView {
        DispatcherView {
            model: self.model@,
            state: self.state@,
            actions: self.actions.deep_view(),
        }
    }
}

impl View for Dispatcher {
    type V = DispatcherView;

    open spec fn view(&self) -> DispatcherView {
        self.deep_view()
    }
}

/// The dispatcher after the event `event`.
pub open spec fn after_dispatch(d: DispatcherView, event: Text, truths: Seq<Text>) -> DispatcherView {
    let s = step(d.model, d.state, event, truths);
    DispatcherView { state: s.state, actions: d.actions + s.actions, ..d }
}

impl Dispatcher {
    /// A dispatcher for `model` in its initial state, with the entry
    /// actions of that state due. There is none for a model without an
    /// initial state.
    pub fn new(model: FsmDefinition) -> (r: Option<Dispatcher>)
        ensures
            match r {
                Some(d) => model@.initial_state == Some(d@.state) && d@ == (DispatcherView {
                    model: model@,
                    state: d@.state,
                    actions: entry_of(model@, d@.state),
                }),
                None => model@.initial_state is None,
            },
    {
        let state = match &model.initial_state {
            Some(initial) => initial.clone(),
            None => {
                return None;
            },
        };
        let i = state_index(&model, &state);
        let actions = if i < model.states.len() {
            assert(model@.states[i as int] == model.states[i as int]@);
            copy_actions(&model.states[i].entry_actions)
        } else {
            let none: Vec<Action> = Vec::new();
            assert(none.deep_view() =~= Seq::<ActionView>::empty());
            none
        };
        Some(Dispatcher { model, state, actions })
    }

    /// The current state.
    pub fn state(&self) -> (s: &String)
        ensures
            s@ == self@.state,
    {
        &self.state
    }

    /// Takes one event through the machine. `truths` holds the guard
    /// expressions that the host finds true now. The actions due are added
    /// to the list; the result tells what became of the event.
    pub fn dispatch(&mut self, event: &str, truths: &Vec<String>) -> (outcome: Outcome)
        ensures
            outcome == step(old(self)@.model, old(self)@.state, event@, truths.deep_view()).outcome,
            final(self)@ == after_dispatch(old(self)@, event@, truths.deep_view()),
    {
        let ghost m = self.model@;
        let ghost before = self.actions.deep_view();
        let event_name = event.to_owned();
        let rows = rows_of(&self.model, &self.state, &event_name);
        let ghost rv = rows.deep_view();
        let mut i: usize = 0;
        while i < rows.len() && !fires(&rows[i], truths)
            invariant
                i <= rows.len(),
                rv == rows.deep_view(),
                first_row(rv, truths.deep_view(), 0) == first_row(rv, truths.deep_view(), i as int),
            decreases rows.len() - i,
        {
            assert(rv[i as int] == rows[i as int]@);
            i += 1;
        }
        if i < rows.len() {
            let row = &rows[i];
            assert(rv[i as int] == row@);
            assert(first_row(rv, truths.deep_view(), 0) == i);
            match row.kind {
                RowKind::Internal => {
                    extend_actions(&mut self.actions, &row.actions);
                    Outcome::Internal
                },
                RowKind::External => {
                    let si = state_index(&self.model, &self.state);
                    if si < self.model.states.len() {
                        assert(m.states[si as int] == self.model.states[si as int]@);
                        extend_actions(&mut self.actions, &self.model.states[si].exit_actions);
                    }
                    assert(self.actions.deep_view() =~= before + exit_of(m, self.state@));
                    extend_actions(&mut self.actions, &row.actions);
                    let ni = state_index(&self.model, &row.target);
                    if ni < self.model.states.len() {
                        assert(m.states[ni as int] == self.model.states[ni as int]@);
                        extend_actions(&mut self.actions, &self.model.states[ni].entry_actions);
                    }
                    assert(self.actions.deep_view() =~= before + (exit_of(m, old(self).state@)
                        + row@.actions + entry_of(m, row@.target)));
                    self.state = row.target.clone();
                    Outcome::Transitioned
                },
            }
        } else {
            assert(self.actions.deep_view() =~= before + Seq::<ActionView>::empty());
            if rows.len() > 0 {
                Outcome::Rejected
            } else {
                Outcome::NotHandled
            }
        }
    }
}

/// The dispatcher after the first `n` of the events `events`, taken in
/// order.
pub open spec fn after_events(
    d: DispatcherView,
    events: Seq<Text>,
    n: int,
    truths: Seq<Text>,
) -> DispatcherView
    decreases n,
{
    if n <= 0 {
        d
    } else {
        after_dispatch(after_events(d, events, n - 1, truths), events[n - 1], truths)
    }
}

/// A dispatcher behind a bounded queue. Events are posted without
/// blocking: a full queue refuses an event at once. They are taken through
/// the machine later, oldest first.
#[derive(Debug)]
pub struct ActiveObject {
    /// The machine.
    pub dispatcher: Dispatcher,
    /// The events posted and not yet taken, oldest first.
    pub queue: VecDeque<String>,
    /// How many events the queue holds at most. It never changes.
    pub capacity: usize,
}

/// An `ActiveObject` as contracts see it.
pub struct ActiveObjectView {
    pub dispatcher: DispatcherView,
    pub queue: Seq<Text>,
    pub capacity: usize,
}

impl DeepView for ActiveObject {
    type V = ActiveObjectView;

    open spec fn deep_view(&self) -> ActiveObjectView {
        ActiveObjectView {
            dispatcher: self.dispatcher@,
            queue: self.queue.deep_view(),
            capacity: self.capacity,
        }
    }
}

impl View for ActiveObject {
    type V = ActiveObjectView;

    open spec fn view(&self) -> ActiveObjectView {
        self.deep_view()
    }
}

/// The active object after an event was posted: the event is the last in
/// the queue if the queue had room, and nothing has changed if it had
/// none.
pub open spec fn after_posting(a: ActiveObjectView, event: Text) -> ActiveObjectView {
    if a.queue.len() < a.capacity {
        ActiveObjectView { queue: a.queue.push(event), ..a }
    } else {
        a
    }
}

/// From an empty queue of capacity `capacity`, the first `capacity`
/// posts in a row succeed and every later one fails: after `n` posts the
/// queue holds the first `capacity` of the events posted, or all of them
/// if they are fewer.
pub proof fn lemma_posts_fill_queue(a: ActiveObjectView, events: Seq<Text>, n: int)
    requires
        a.queue.len() == 0,
        0 <= n <= events.len(),
    ensures
        after_postings(a, events, n).queue == events.take(
            if n <= a.capacity {
                n
            } else {
                a.capacity as int
            },
        ),
        after_postings(a, events, n).capacity == a.capacity,
        after_postings(a, events, n).dispatcher == a.dispatcher,
    decreases n,
{
    if n > 0 {
        lemma_posts_fill_queue(a, events, n - 1);
        let before = after_postings(a, events, n - 1);
        if n - 1 < a.capacity {
            assert(events.take(n - 1).push(events[n - 1]) =~= events.take(n));
        }
    } else {
        assert(events.take(0) =~= Seq::<Text>::empty());
    }
}

/// The active object after the first `n` of the events `events` were
/// posted, one after the other.
pub open spec fn after_postings(a: ActiveObjectView, events: Seq<Text>, n: int) -> ActiveObjectView
    decreases n,
{
    if n <= 0 {
        a
    } else {
        after_posting(after_postings(a, events, n - 1), events[n - 1])
    }
}

impl ActiveObject {
    /// An active object with an empty queue of the given capacity.
    pub fn new(dispatcher: Dispatcher, capacity: usize) -> (a: ActiveObject)
        ensures
            a@ == (ActiveObjectView { dispatcher: dispatcher@, queue: Seq::empty(), capacity }),
    {
        let a = ActiveObject { dispatcher, queue: VecDeque::new(), capacity };
        assert(a.queue.deep_view() =~= Seq::<Text>::empty());
        a
    }

    /// Posts an event. Returns at once: `true` if the event is now in the
    /// queue, `false` if the queue is full and the event is dropped.
    pub fn post(&mut self, event: &str) -> (accepted: bool)
        ensures
            accepted == (old(self)@.queue.len() < old(self)@.capacity),
            final(self)@ == after_posting(old(self)@, event@),
    {
        if self.queue.len() < self.capacity {
            self.queue.push_back(event.to_owned());
            assert(self.queue.deep_view() =~= old(self).queue.deep_view().push(event@));
            true
        } else {
            false
        }
    }

    /// Posts an event and hands it back if the queue is full, so that the
    /// caller may try again or give up.
    pub fn post_or_return(&mut self, event: String) -> (r: Result<(), String>)
        ensures
            r is Ok == (old(self)@.queue.len() < old(self)@.capacity),
            r is Err ==> r->Err_0@ == event@,
            final(self)@ == after_posting(old(self)@, event@),
    {
        if self.queue.len() < self.capacity {
            self.queue.push_back(event);
            assert(self.queue.deep_view() =~= old(self).queue.deep_view().push(event@));
            Ok(())
        } else {
            Err(event)
        }
    }

    /// Takes the oldest event, if there is one, through the machine, and
    /// tells whether there was one.
    pub fn run_once(&mut self, truths: &Vec<String>) -> (taken: bool)
        ensures
            taken == (old(self)@.queue.len() > 0),
            final(self)@.capacity == old(self)@.capacity,
            !taken ==> final(self)@ == old(self)@,
            taken ==> final(self)@.queue == old(self)@.queue.drop_first() && final(self)@.dispatcher
                == after_dispatch(old(self)@.dispatcher, old(self)@.queue[0], truths.deep_view()),
    {
        match self.queue.pop_front() {
            None => false,
            Some(event) => {
                assert(self.queue.deep_view() =~= old(self).queue.deep_view().drop_first());
                assert(event@ == old(self).queue.deep_view()[0]);
                self.dispatcher.dispatch(event.as_str(), truths);
                true
            },
        }
    }

    /// Takes every event in the queue through the machine, oldest first,
    /// and returns how many there were.
    pub fn run_all(&mut self, truths: &Vec<String>) -> (count: usize)
        ensures
            count == old(self)@.queue.len(),
            final(self)@.queue.len() == 0,
            final(self)@.capacity == old(self)@.capacity,
            final(self)@.dispatcher == after_events(
                old(self)@.dispatcher,
                old(self)@.queue,
                old(self)@.queue.len() as int,
                truths.deep_view(),
            ),
    {
        let ghost events = self.queue.deep_view();
        let ghost start = self.dispatcher@;
        let mut count: usize = 0;
        assert(events.len() == self.queue.len());
        assert(events.skip(0) =~= events);
        while self.queue.len() > 0
            invariant
                events.len() <= usize::MAX,
                count + self.queue.len() == events.len(),
                self.queue.deep_view() == events.skip(count as int),
                self.capacity == old(self).capacity,
                self.dispatcher@ == after_events(start, events, count as int, truths.deep_view()),
            decreases self.queue.len(),
        {
            let ghost before = self.queue.deep_view();
            let taken = self.run_once(truths);
            assert(before[0] == events[count as int]);
            assert(before.drop_first() =~= events.skip(count + 1));
            count += 1;
        }
        count
    }
}

} // verus!
