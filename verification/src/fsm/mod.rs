//! The state machine model: states, transitions, events, guards, actions,
//! timers and choice points, with the mathematical view of each.

use vstd::prelude::*;
use crate::text::Text;

pub mod events;
pub mod validation;

verus! {

/// What kind of state a `State` is.
#[derive(Debug, Clone, Copy, PartialEq, Eq, Structural)]
pub enum StateType {
    /// Simple state with no substates.
    Simple,
    /// Composite state containing substates.
    Composite,
    /// History state (shallow).
    History,
    /// Deep history state.
    DeepHistory,
    /// Final state.
    Final,
}

/// How a transition relates to the boundary of its source state.
#[derive(Debug, Clone, Copy, PartialEq, Eq, Structural)]
pub enum TransitionKind {
    /// Leaves the source state and enters the target state.
    External,
    /// Handled inside the state; neither exit nor entry actions run.
    Internal,
    /// Stays within the boundary of a composite state.
    Local,
}

/// Whether a timer fires once or again and again.
#[derive(Debug, Clone, Copy, PartialEq, Eq, Structural)]
pub enum TimerMode {
    /// Fire once and stop.
    OneShot,
    /// Fire repeatedly until stopped.
    Periodic,
}

/// An event that triggers transitions. Two events are the same event when
/// their names are equal.
#[derive(Debug, PartialEq, Eq)]
pub struct Event {
    /// Event name.
    pub name: String,
}

/// A guard: an expression that the host evaluates at run time. The model
/// carries it as text and never looks inside.
#[derive(Debug)]
pub struct Guard {
    /// Guard expression.
    pub expression: String,
}

/// A call that the machine makes into its host.
#[derive(Debug)]
pub struct Action {
    /// Action name.
    pub name: String,
    /// Parameters, in order.
    pub params: Vec<String>,
}

/// A transition between states.
#[derive(Debug)]
pub struct Transition {
    /// Source state name, or `[*]` for the entry pseudostate.
    pub source: String,
    /// Target state name, or a choice point written `<<name>>`.
    pub target: String,
    /// Triggering event; none for a completion transition.
    pub event: Option<Event>,
    /// Guard condition.
    pub guard: Option<Guard>,
    /// Action to execute.
    pub action: Option<Action>,
    /// Transition kind.
    pub kind: TransitionKind,
}

/// A state of the machine.
#[derive(Debug)]
pub struct State {
    /// State name, unique within its machine.
    pub name: String,
    /// Optional description.
    pub description: Option<String>,
    /// State type.
    pub state_type: StateType,
    /// Actions run on entry, in declaration order.
    pub entry_actions: Vec<Action>,
    /// Actions run on exit, in declaration order.
    pub exit_actions: Vec<Action>,
    /// Transitions handled without leaving the state.
    pub internal_transitions: Vec<Transition>,
    /// For a composite state: the nested machine.
    pub sub_fsm: Option<FsmDefinition>,
}

/// A software timer that feeds an event into the machine when it expires.
#[derive(Debug)]
pub struct Timer {
    /// Timer name.
    pub name: String,
    /// Duration in milliseconds.
    pub duration_ms: u32,
    /// Event to fire when the timer expires.
    pub event: Event,
    /// Timer mode.
    pub mode: TimerMode,
    /// State whose entry starts the timer, if any.
    pub auto_start_state: Option<String>,
}

/// One branch of a choice point.
#[derive(Debug)]
pub struct ChoiceBranch {
    /// Guard condition for this branch; `else` always matches.
    pub guard: Guard,
    /// Target state.
    pub target: String,
    /// Optional action to execute.
    pub action: Option<Action>,
}

/// A choice point: a guarded multi-way branch. Branches are tried in the
/// order in which they stand.
#[derive(Debug)]
pub struct ChoicePoint {
    /// Choice point name.
    pub name: String,
    /// Branches, in declaration order.
    pub branches: Vec<ChoiceBranch>,
}

/// A complete state machine.
#[derive(Debug)]
pub struct FsmDefinition {
    /// Name of the machine.
    pub name: String,
    /// Optional description.
    pub description: Option<String>,
    /// Initial state name.
    pub initial_state: Option<String>,
    /// All states.
    pub states: Vec<State>,
    /// All transitions between states.
    pub transitions: Vec<Transition>,
    /// A stored list of events. It is not authoritative: `collect_events`
    /// derives the event set from the transitions.
    pub events: Vec<Event>,
    /// Choice points.
    pub choice_points: Vec<ChoicePoint>,
    /// Software timers.
    pub timers: Vec<Timer>,
}

/// Run-time context of a machine: user data, the current state and the
/// states visited before.
#[derive(Debug, Clone)]
pub struct FsmContext<T> {
    /// User data associated with the machine.
    pub data: T,
    /// Current state name.
    pub current_state: String,
    /// State history for history states.
    pub history: Vec<String>,
}

/// An action as contracts see it.
pub struct ActionView {
    pub name: Text,
    pub params: Seq<Text>,
}

/// A transition as contracts see it.
pub struct TransitionView {
    pub source: Text,
    pub target: Text,
    pub event: Option<Text>,
    pub guard: Option<Text>,
    pub action: Option<ActionView>,
    pub kind: TransitionKind,
}

/// A state as contracts see it.
pub struct StateView {
    pub name: Text,
    pub description: Option<Text>,
    pub state_type: StateType,
    pub entry_actions: Seq<ActionView>,
    pub exit_actions: Seq<ActionView>,
    pub internal_transitions: Seq<TransitionView>,
    pub sub_fsm: Option<FsmView>,
}

/// A timer as contracts see it.
pub struct TimerView {
    pub name: Text,
    pub duration_ms: u32,
    pub event: Text,
    pub mode: TimerMode,
    pub auto_start_state: Option<Text>,
}

/// A choice branch as contracts see it.
pub struct ChoiceBranchView {
    pub guard: Text,
    pub target: Text,
    pub action: Option<ActionView>,
}

/// A choice point as contracts see it.
pub struct ChoicePointView {
    pub name: Text,
    pub branches: Seq<ChoiceBranchView>,
}

/// A machine as contracts see it.
pub struct FsmView {
    pub name: Text,
    pub description: Option<Text>,
    pub initial_state: Option<Text>,
    pub states: Seq<StateView>,
    pub transitions: Seq<TransitionView>,
    pub events: Seq<Text>,
    pub choice_points: Seq<ChoicePointView>,
    pub timers: Seq<TimerView>,
}

impl DeepView for Event {
    type V = Text;

    open spec fn deep_view(&self) -> Text {
        self.name@
    }
}

impl View for Event {
    type V = Text;

    open spec fn view(&self) -> Text {
        self.name@
    }
}

impl DeepView for Guard {
    type V = Text;

    open spec fn deep_view(&self) -> Text {
        self.expression@
    }
}

impl View for Guard {
    type V = Text;

    open spec fn view(&self) -> Text {
        self.expression@
    }
}

impl DeepView for Action {
    type V = ActionView;

    open spec fn deep_view(&self) -> ActionView {
        ActionView { name: self.name@, params: self.params.deep_view() }
    }
}

impl View for Action {
    type V = ActionView;

    open spec fn view(&self) -> ActionView {
        self.deep_view()
    }
}

impl DeepView for Transition {
    type V = TransitionView;

    open spec fn deep_view(&self) -> TransitionView {
        TransitionView {
            source: self.source@,
            target: self.target@,
            event: self.event.deep_view(),
            guard: self.guard.deep_view(),
            action: self.action.deep_view(),
            kind: self.kind,
        }
    }
}

impl View for Transition {
    type V = TransitionView;

    open spec fn view(&self) -> TransitionView {
        self.deep_view()
    }
}

impl DeepView for Timer {
    type V = TimerView;

    open spec fn deep_view(&self) -> TimerView {
        TimerView {
            name: self.name@,
            duration_ms: self.duration_ms,
            event: self.event@,
            mode: self.mode,
            auto_start_state: self.auto_start_state.deep_view(),
        }
    }
}

impl View for Timer {
    type V = TimerView;

    open spec fn view(&self) -> TimerView {
        self.deep_view()
    }
}

impl DeepView for ChoiceBranch {
    type V = ChoiceBranchView;

    open spec fn deep_view(&self) -> ChoiceBranchView {
        ChoiceBranchView {
            guard: self.guard@,
            target: self.target@,
            action: self.action.deep_view(),
        }
    }
}

impl View for ChoiceBranch {
    type V = ChoiceBranchView;

    open spec fn view(&self) -> ChoiceBranchView {
        self.deep_view()
    }
}

impl DeepView for ChoicePoint {
    type V = ChoicePointView;

    open spec fn deep_view(&self) -> ChoicePointView {
        ChoicePointView { name: self.name@, branches: self.branches.deep_view() }
    }
}

impl View for ChoicePoint {
    type V = ChoicePointView;

    open spec fn view(&self) -> ChoicePointView {
        self.deep_view()
    }
}

/// A state as contracts see it, with the machine nested in it.
pub open spec fn state_view(s: State) -> StateView
    decreases s,
{
    StateView {
        name: s.name@,
        description: s.description.deep_view(),
        state_type: s.state_type,
        entry_actions: s.entry_actions.deep_view(),
        exit_actions: s.exit_actions.deep_view(),
        internal_transitions: s.internal_transitions.deep_view(),
        sub_fsm: match s.sub_fsm {
            Some(sub) => Some(fsm_view(sub)),
            None => None,
        },
    }
}

/// A machine as contracts see it, with the machines nested in its states.
pub open spec fn fsm_view(m: FsmDefinition) -> FsmView
    decreases m,
{
    FsmView {
        name: m.name@,
        description: m.description.deep_view(),
        initial_state: m.initial_state.deep_view(),
        states: Seq::new(
            m.states@.len(),
            |i: int|
                if 0 <= i < m.states@.len() {
                    state_view(m.states@[i])
                } else {
                    arbitrary()
                },
        ),
        transitions: m.transitions.deep_view(),
        events: m.events.deep_view(),
        choice_points: m.choice_points.deep_view(),
        timers: m.timers.deep_view(),
    }
}

impl DeepView for State {
    type V = StateView;

    open spec fn deep_view(&self) -> StateView {
        state_view(*self)
    }
}

impl View for State {
    type V = StateView;

    open spec fn view(&self) -> StateView {
        self.deep_view()
    }
}

impl DeepView for FsmDefinition {
    type V = FsmView;

    open spec fn deep_view(&self) -> FsmView {
        fsm_view(*self)
    }
}

/// The view of a machine lists the views of its states, one for one.
pub broadcast proof fn lemma_states_view(m: FsmDefinition)
    ensures
        (#[trigger] fsm_view(m)).states == m.states.deep_view(),
{
    assert(fsm_view(m).states =~= m.states.deep_view());
}

impl View for FsmDefinition {
    type V = FsmView;

    open spec fn view(&self) -> FsmView {
        self.deep_view()
    }
}

/// A copy of a list of strings.
pub fn copy_strings(v: &Vec<String>) -> (out: Vec<String>)
    ensures
        out.deep_view() == v.deep_view(),
{
    let mut out: Vec<String> = Vec::new();
    let mut i: usize = 0;
    while i < v.len()
        invariant
            i <= v.len(),
            out.len() == i,
            forall|k: int| 0 <= k < i ==> out[k]@ == v[k]@,
        decreases v.len() - i,
    {
        out.push(v[i].clone());
        i += 1;
    }
    assert(out.deep_view() =~= v.deep_view());
    out
}

/// A copy of an optional string.
pub fn copy_opt_string(v: &Option<String>) -> (out: Option<String>)
    ensures
        out.deep_view() == v.deep_view(),
{
    match v {
        Some(s) => Some(s.clone()),
        None => None,
    }
}

impl Clone for Event {
    fn clone(&self) -> (out: Event)
        ensures
            out@ == self@,
    {
        Event { name: self.name.clone() }
    }
}

impl Clone for Guard {
    fn clone(&self) -> (out: Guard)
        ensures
            out@ == self@,
    {
        Guard { expression: self.expression.clone() }
    }
}

impl Clone for Action {
    fn clone(&self) -> (out: Action)
        ensures
            out@ == self@,
    {
        Action { name: self.name.clone(), params: copy_strings(&self.params) }
    }
}

/// A copy of a list of actions.
pub fn copy_actions(v: &Vec<Action>) -> (out: Vec<Action>)
    ensures
        out.deep_view() == v.deep_view(),
{
    let mut out: Vec<Action> = Vec::new();
    let mut i: usize = 0;
    while i < v.len()
        invariant
            i <= v.len(),
            out.len() == i,
            forall|k: int| 0 <= k < i ==> out[k]@ == v[k]@,
        decreases v.len() - i,
    {
        out.push(v[i].clone());
        i += 1;
    }
    assert(out.deep_view() =~= v.deep_view());
    out
}

impl Clone for Transition {
    fn clone(&self) -> (out: Transition)
        ensures
            out@ == self@,
    {
        Transition {
            source: self.source.clone(),
            target: self.target.clone(),
            event: match &self.event {
                Some(e) => Some(e.clone()),
                None => None,
            },
            guard: match &self.guard {
                Some(g) => Some(g.clone()),
                None => None,
            },
            action: match &self.action {
                Some(a) => Some(a.clone()),
                None => None,
            },
            kind: self.kind,
        }
    }
}

/// A copy of a list of transitions.
pub fn copy_transitions(v: &Vec<Transition>) -> (out: Vec<Transition>)
    ensures
        out.deep_view() == v.deep_view(),
{
    let mut out: Vec<Transition> = Vec::new();
    let mut i: usize = 0;
    while i < v.len()
        invariant
            i <= v.len(),
            out.len() == i,
            forall|k: int| 0 <= k < i ==> out[k]@ == v[k]@,
        decreases v.len() - i,
    {
        out.push(v[i].clone());
        i += 1;
    }
    assert(out.deep_view() =~= v.deep_view());
    out
}

impl Clone for Timer {
    fn clone(&self) -> (out: Timer)
        ensures
            out@ == self@,
    {
        Timer {
            name: self.name.clone(),
            duration_ms: self.duration_ms,
            event: self.event.clone(),
            mode: self.mode,
            auto_start_state: copy_opt_string(&self.auto_start_state),
        }
    }
}

impl Clone for ChoiceBranch {
    fn clone(&self) -> (out: ChoiceBranch)
        ensures
            out@ == self@,
    {
        ChoiceBranch {
            guard: self.guard.clone(),
            target: self.target.clone(),
            action: match &self.action {
                Some(a) => Some(a.clone()),
                None => None,
            },
        }
    }
}

impl Clone for ChoicePoint {
    fn clone(&self) -> (out: ChoicePoint)
        ensures
            out@ == self@,
    {
        let mut branches: Vec<ChoiceBranch> = Vec::new();
        let mut i: usize = 0;
        while i < self.branches.len()
            invariant
                i <= self.branches.len(),
                branches.len() == i,
                forall|k: int| 0 <= k < i ==> branches[k]@ == self.branches[k]@,
            decreases self.branches.len() - i,
        {
            branches.push(self.branches[i].clone());
            i += 1;
        }
        assert(branches.deep_view() =~= self.branches.deep_view());
        ChoicePoint { name: self.name.clone(), branches }
    }
}

impl State {
    /// A deep copy of this state.
    pub fn duplicate(&self) -> (out: State)
        ensures
            out@ == self@,
        decreases self,
    {
        State {
            name: self.name.clone(),
            description: copy_opt_string(&self.description),
            state_type: self.state_type,
            entry_actions: copy_actions(&self.entry_actions),
            exit_actions: copy_actions(&self.exit_actions),
            internal_transitions: copy_transitions(&self.internal_transitions),
            sub_fsm: match &self.sub_fsm {
                Some(sub) => Some(sub.duplicate()),
                None => None,
            },
        }
    }
}

impl Clone for State {
    fn clone(&self) -> (out: State)
        ensures
            out@ == self@,
    {
        self.duplicate()
    }
}

impl FsmDefinition {
    /// A deep copy of this machine.
    pub fn duplicate(&self) -> (out: FsmDefinition)
        ensures
            out@ == self@,
        decreases self,
    {
        let mut states: Vec<State> = Vec::new();
        let mut i: usize = 0;
        while i < self.states.len()
            invariant
                i <= self.states.len(),
                states.len() == i,
                forall|k: int| 0 <= k < i ==> states[k]@ == self.states[k]@,
            decreases self.states.len() - i,
        {
            states.push(self.states[i].duplicate());
            i += 1;
        }
        let mut events: Vec<Event> = Vec::new();
        let mut i: usize = 0;
        while i < self.events.len()
            invariant
                i <= self.events.len(),
                events.len() == i,
                forall|k: int| 0 <= k < i ==> events[k]@ == self.events[k]@,
            decreases self.events.len() - i,
        {
            events.push(self.events[i].clone());
            i += 1;
        }
        let mut choice_points: Vec<ChoicePoint> = Vec::new();
        let mut i: usize = 0;
        while i < self.choice_points.len()
            invariant
                i <= self.choice_points.len(),
                choice_points.len() == i,
                forall|k: int| 0 <= k < i ==> choice_points[k]@ == self.choice_points[k]@,
            decreases self.choice_points.len() - i,
        {
            choice_points.push(self.choice_points[i].clone());
            i += 1;
        }
        let mut timers: Vec<Timer> = Vec::new();
        let mut i: usize = 0;
        while i < self.timers.len()
            invariant
                i <= self.timers.len(),
                timers.len() == i,
                forall|k: int| 0 <= k < i ==> timers[k]@ == self.timers[k]@,
            decreases self.timers.len() - i,
        {
            timers.push(self.timers[i].clone());
            i += 1;
        }
        let out = FsmDefinition {
            name: self.name.clone(),
            description: copy_opt_string(&self.description),
            initial_state: copy_opt_string(&self.initial_state),
            states,
            transitions: copy_transitions(&self.transitions),
            events,
            choice_points,
            timers,
        };
        assert(out@.states =~= self@.states) by {
            assert forall|k: int| 0 <= k < out@.states.len() implies out@.states[k]
                == self@.states[k] by {
                assert(out.states[k]@ == self.states[k]@);
            }
        }
        assert(out@.events =~= self@.events);
        assert(out@.choice_points =~= self@.choice_points);
        assert(out@.timers =~= self@.timers);
        out
    }
}

impl Clone for FsmDefinition {
    fn clone(&self) -> (out: FsmDefinition)
        ensures
            out@ == self@,
    {
        self.duplicate()
    }
}

/// The name under which transitions refer to the entry pseudostate.
pub open spec fn initial_marker() -> Text {
    seq!['[', '*', ']']
}

/// The text by which a transition refers to the choice point `name`.
pub open spec fn choice_ref(name: Text) -> Text {
    seq!['<', '<'] + name + seq!['>', '>']
}

impl Event {
    /// An event with the given name.
    pub fn new(name: &str) -> (e: Event)
        ensures
            e@ == name@,
    {
        Event { name: name.to_owned() }
    }
}

impl Guard {
    /// A guard with the given expression.
    pub fn new(expression: &str) -> (g: Guard)
        ensures
            g@ == expression@,
    {
        Guard { expression: expression.to_owned() }
    }
}

impl Action {
    /// An action with the given name and no parameters.
    pub fn new(name: &str) -> (a: Action)
        ensures
            a@ == (ActionView { name: name@, params: Seq::empty() }),
    {
        let a = Action { name: name.to_owned(), params: Vec::new() };
        assert(a.params.deep_view() =~= Seq::empty());
        a
    }

    /// This action with its parameters replaced by `params`.
    pub fn with_params(self, params: Vec<String>) -> (a: Action)
        ensures
            a == (Action { params: params, ..self }),
    {
        let mut a = self;
        a.params = params;
        a
    }
}

/// The pieces of a transition's label: the event name, the guard in square
/// brackets, and the action name after a slash, each only if present.
pub open spec fn label_parts(t: TransitionView) -> Seq<Text> {
    (match t.event {
        Some(e) => seq![e],
        None => Seq::<Text>::empty(),
    }) + (match t.guard {
        Some(g) => seq![seq!['['] + g + seq![']']],
        None => Seq::<Text>::empty(),
    }) + (match t.action {
        Some(a) => seq![seq!['/', ' '] + a.name],
        None => Seq::<Text>::empty(),
    })
}

/// A transition's label: its pieces separated by one space each.
pub open spec fn label_text(t: TransitionView) -> Text {
    crate::text::join_text(label_parts(t), seq![' '])
}

impl Transition {
    /// An external transition from `source` to `target` with no event,
    /// guard or action.
    pub fn new(source: &str, target: &str) -> (t: Transition)
        ensures
            t@ == (TransitionView {
                source: source@,
                target: target@,
                event: None,
                guard: None,
                action: None,
                kind: TransitionKind::External,
            }),
    {
        Transition {
            source: source.to_owned(),
            target: target.to_owned(),
            event: None,
            guard: None,
            action: None,
            kind: TransitionKind::External,
        }
    }

    /// This transition, triggered by `event`.
    pub fn with_event(self, event: Event) -> (t: Transition)
        ensures
            t == (Transition { event: Some(event), ..self }),
    {
        let mut t = self;
        t.event = Some(event);
        t
    }

    /// This transition, guarded by `guard`.
    pub fn with_guard(self, guard: Guard) -> (t: Transition)
        ensures
            t == (Transition { guard: Some(guard), ..self }),
    {
        let mut t = self;
        t.guard = Some(guard);
        t
    }

    /// This transition, executing `action`.
    pub fn with_action(self, action: Action) -> (t: Transition)
        ensures
            t == (Transition { action: Some(action), ..self }),
    {
        let mut t = self;
        t.action = Some(action);
        t
    }

    /// The label shown for this transition: `event [guard] / action`, with
    /// the absent pieces left out.
    pub fn label(&self) -> (out: String)
        ensures
            out@ == label_text(self@),
    {
        let mut parts: Vec<String> = Vec::new();
        assert(parts.deep_view() =~= Seq::<Text>::empty());
        if let Some(event) = &self.event {
            parts.push(event.name.clone());
            assert(parts.deep_view() =~= seq![event.name@]);
        }
        let ghost after_event = parts.deep_view();
        if let Some(guard) = &self.guard {
            let mut piece = String::new();
            piece.push('[');
            piece.append(guard.expression.as_str());
            piece.push(']');
            assert(piece@ =~= seq!['['] + guard.expression@ + seq![']']);
            parts.push(piece);
            assert(parts.deep_view() =~= after_event + seq![piece@]);
        }
        let ghost after_guard = parts.deep_view();
        if let Some(action) = &self.action {
            let mut piece = String::new();
            piece.push('/');
            piece.push(' ');
            piece.append(action.name.as_str());
            assert(piece@ =~= seq!['/', ' '] + action.name@);
            parts.push(piece);
            assert(parts.deep_view() =~= after_guard + seq![piece@]);
        }
        assert(parts.deep_view() =~= label_parts(self@));
        let mut sep = String::new();
        sep.push(' ');
        assert(sep@ =~= seq![' ']);
        crate::text::join_strings(&parts, sep.as_str())
    }
}

impl State {
    /// A state with the given name and type and nothing else.
    pub fn new(name: &str, state_type: StateType) -> (s: State)
        ensures
            s@ == (StateView {
                name: name@,
                description: None,
                state_type: state_type,
                entry_actions: Seq::empty(),
                exit_actions: Seq::empty(),
                internal_transitions: Seq::empty(),
                sub_fsm: None,
            }),
    {
        let s = State {
            name: name.to_owned(),
            description: None,
            state_type,
            entry_actions: Vec::new(),
            exit_actions: Vec::new(),
            internal_transitions: Vec::new(),
            sub_fsm: None,
        };
        assert(s.entry_actions.deep_view() =~= Seq::empty());
        assert(s.exit_actions.deep_view() =~= Seq::empty());
        assert(s.internal_transitions.deep_view() =~= Seq::empty());
        s
    }

    /// Whether this is a composite state.
    pub fn is_composite(&self) -> (b: bool)
        ensures
            b == (self.state_type == StateType::Composite),
    {
        self.state_type == StateType::Composite
    }

    /// The first entry action, if the state has one.
    pub fn entry_action(&self) -> (a: Option<&Action>)
        ensures
            self.entry_actions.len() == 0 ==> a is None,
            self.entry_actions.len() > 0 ==> a == Some(&self.entry_actions[0]),
    {
        if self.entry_actions.len() > 0 {
            Some(&self.entry_actions[0])
        } else {
            None
        }
    }

    /// The first exit action, if the state has one.
    pub fn exit_action(&self) -> (a: Option<&Action>)
        ensures
            self.exit_actions.len() == 0 ==> a is None,
            self.exit_actions.len() > 0 ==> a == Some(&self.exit_actions[0]),
    {
        if self.exit_actions.len() > 0 {
            Some(&self.exit_actions[0])
        } else {
            None
        }
    }
}

impl Timer {
    /// A one-shot timer that fires `event` after `duration_ms`
    /// milliseconds and starts with no state.
    pub fn new(name: &str, duration_ms: u32, event: Event) -> (t: Timer)
        ensures
            t@ == (TimerView {
                name: name@,
                duration_ms: duration_ms,
                event: event@,
                mode: TimerMode::OneShot,
                auto_start_state: None,
            }),
    {
        Timer {
            name: name.to_owned(),
            duration_ms,
            event,
            mode: TimerMode::OneShot,
            auto_start_state: None,
        }
    }

    /// This timer, firing repeatedly.
    pub fn periodic(self) -> (t: Timer)
        ensures
            t == (Timer { mode: TimerMode::Periodic, ..self }),
    {
        let mut t = self;
        t.mode = TimerMode::Periodic;
        t
    }

    /// This timer, started whenever `state` is entered.
    pub fn auto_start_in(self, state: &str) -> (t: Timer)
        ensures
            t@ == (TimerView { auto_start_state: Some(state@), ..self@ }),
    {
        let mut t = self;
        t.auto_start_state = Some(state.to_owned());
        t
    }
}

impl ChoicePoint {
    /// A choice point with the given name and no branches.
    pub fn new(name: &str) -> (c: ChoicePoint)
        ensures
            c@ == (ChoicePointView { name: name@, branches: Seq::empty() }),
    {
        let c = ChoicePoint { name: name.to_owned(), branches: Vec::new() };
        assert(c.branches.deep_view() =~= Seq::empty());
        c
    }

    /// This choice point with one more branch at the end: under `guard`,
    /// go to `target`, with no action.
    pub fn add_branch(self, guard: &str, target: &str) -> (c: ChoicePoint)
        ensures
            c@ == (ChoicePointView {
                branches: self@.branches.push(
                    ChoiceBranchView { guard: guard@, target: target@, action: None },
                ),
                ..self@
            }),
    {
        let mut c = self;
        let branch = ChoiceBranch {
            guard: Guard::new(guard),
            target: target.to_owned(),
            action: None,
        };
        c.branches.push(branch);
        assert(c.branches.deep_view() =~= self.branches.deep_view().push(branch@));
        c
    }

    /// This choice point with a closing catch-all branch to `target`: its
    /// guard is the word `else`.
    pub fn add_else(self, target: &str) -> (c: ChoicePoint)
        ensures
            c@ == (ChoicePointView {
                branches: self@.branches.push(
                    ChoiceBranchView {
                        guard: seq!['e', 'l', 's', 'e'],
                        target: target@,
                        action: None,
                    },
                ),
                ..self@
            }),
    {
        proof {
            reveal_strlit("else");
            assert("else"@ =~= seq!['e', 'l', 's', 'e']);
        }
        self.add_branch("else", target)
    }
}

impl FsmDefinition {
    /// A machine with the given name and nothing else.
    pub fn new(name: &str) -> (m: FsmDefinition)
        ensures
            m@ == (FsmView {
                name: name@,
                description: None,
                initial_state: None,
                states: Seq::empty(),
                transitions: Seq::empty(),
                events: Seq::empty(),
                choice_points: Seq::empty(),
                timers: Seq::empty(),
            }),
    {
        let m = FsmDefinition {
            name: name.to_owned(),
            description: None,
            initial_state: None,
            states: Vec::new(),
            transitions: Vec::new(),
            events: Vec::new(),
            choice_points: Vec::new(),
            timers: Vec::new(),
        };
        assert(m@.states =~= Seq::empty());
        assert(m@.transitions =~= Seq::empty());
        assert(m@.events =~= Seq::empty());
        assert(m@.choice_points =~= Seq::empty());
        assert(m@.timers =~= Seq::empty());
        m
    }
}

impl<T: Default> FsmContext<T> {
    /// A context in `initial_state` with default user data and an empty
    /// history.
    pub fn new(initial_state: &str) -> (c: FsmContext<T>)
        ensures
            c.current_state@ == initial_state@,
            c.history@ == Seq::<String>::empty(),
            call_ensures(T::default, (), c.data),
    {
        FsmContext { data: T::default(), current_state: initial_state.to_owned(), history: Vec::new() }
    }
}

impl<T> FsmContext<T> {
    /// A context in `initial_state` with the given user data and an empty
    /// history.
    pub fn with_data(initial_state: &str, data: T) -> (c: FsmContext<T>)
        ensures
            c.current_state@ == initial_state@,
            c.history@ == Seq::<String>::empty(),
            c.data == data,
    {
        FsmContext { data, current_state: initial_state.to_owned(), history: Vec::new() }
    }
}

/// The first index from `from` on of a state called `name`, or the number
/// of states.
pub open spec fn find_state(states: Seq<StateView>, name: Text, from: int) -> int
    decreases states.len() - from,
{
    if from < 0 || from >= states.len() {
        states.len() as int
    } else if states[from].name == name {
        from
    } else {
        find_state(states, name, from + 1)
    }
}

/// The index of the first state called `name`, or the number of states.
pub fn state_index(fsm: &FsmDefinition, name: &String) -> (i: usize)
    ensures
        i == find_state(fsm@.states, name@, 0),
        i <= fsm.states.len(),
{
    let mut i: usize = 0;
    while i < fsm.states.len()
        invariant
            i <= fsm.states.len(),
            find_state(fsm@.states, name@, 0) == find_state(fsm@.states, name@, i as int),
        decreases fsm.states.len() - i,
    {
        assert(fsm@.states[i as int] == fsm.states[i as int]@);
        if fsm.states[i].name == *name {
            return i;
        }
        i += 1;
    }
    i
}

} // verus!
