//! A step-through simulator: it holds a current state and a queue of
//! event names, and takes one event at a time through the machine.
//!
//! The simulator decides; it does not wait. Whoever drives it posts
//! events and calls for steps, and reads the log and the last transition
//! fired.

use std::collections::VecDeque;
use vstd::prelude::*;
use crate::text::{Text, to_chars, trim_range, trim_text};
use crate::fsm::{
    FsmDefinition, FsmView, Transition, TransitionView, label_text, find_state, state_index,
};

verus! {

/// The transition that the last step fired.
#[derive(Debug)]
pub struct SimFired {
    /// The index of the transition among the transitions of the machine;
    /// none for an internal transition.
    pub transition_index: Option<usize>,
    /// The state left.
    pub from: String,
    /// The state entered.
    pub to: String,
    /// The label of the transition.
    pub label: String,
}

/// The state of a simulation.
#[derive(Debug)]
pub struct Simulator {
    /// Where the machine stands; none before the first reset.
    pub current_state: Option<String>,
    /// The events posted and not yet taken, oldest first.
    pub queued_events: VecDeque<String>,
    /// The transition that the last step fired, if it fired one.
    pub last_fired: Option<SimFired>,
    /// What happened, one line for each reset and each event taken.
    pub log: Vec<String>,
}

/// A `SimFired` as contracts see it.
pub struct SimFiredView {
    pub transition_index: Option<usize>,
    pub from: Text,
    pub to: Text,
    pub label: Text,
}

/// A `Simulator` as contracts see it.
pub struct SimulatorView {
    pub current_state: Option<Text>,
    pub queued_events: Seq<Text>,
    pub last_fired: Option<SimFiredView>,
    pub log: Seq<Text>,
}

impl DeepView for SimFired {
    type V = SimFiredView;

    open spec fn deep_view(&self) -> SimFiredView {
        SimFiredView {
            transition_index: self.transition_index,
            from: self.from@,
            to: self.to@,
            label: self.label@,
        }
    }
}

impl View for SimFired {
    type V = SimFiredView;

    open spec fn view(&self) -> SimFiredView {
        self.deep_view()
    }
}

impl DeepView for Simulator {
    type V = SimulatorView;

    open spec fn deep_view(&self) -> SimulatorView {
        SimulatorView {
            current_state: self.current_state.deep_view(),
            queued_events: self.queued_events.deep_view(),
            last_fired: self.last_fired.deep_view(),
            log: self.log.deep_view(),
        }
    }
}

impl View for Simulator {
    type V = SimulatorView;

    open spec fn view(&self) -> SimulatorView {
        self.deep_view()
    }
}

/// A simulation that has not begun.
pub open spec fn fresh() -> SimulatorView {
    SimulatorView {
        current_state: None,
        queued_events: Seq::empty(),
        last_fired: None,
        log: Seq::empty(),
    }
}

/// The simulation set back to the start of the machine: the queue is
/// emptied, and the machine stands in its initial state, or in its first
/// state if it has no initial state, or nowhere if it has no states. The
/// log tells which.
pub open spec fn after_reset(sim: SimulatorView, m: FsmView) -> SimulatorView {
    let cleared = SimulatorView { queued_events: Seq::empty(), last_fired: None, ..sim };
    match m.initial_state {
        Some(initial) => SimulatorView {
            current_state: Some(initial),
            log: sim.log.push("reset → "@ + initial),
            ..cleared
        },
        None => if m.states.len() > 0 {
            SimulatorView {
                current_state: Some(m.states[0].name),
                log: sim.log.push("reset → "@ + m.states[0].name + " (fallback)"@),
                ..cleared
            }
        } else {
            SimulatorView {
                current_state: None,
                log: sim.log.push("reset → <no states>"@),
                ..cleared
            }
        },
    }
}

/// The simulation with one more event in the queue, unless the name is
/// nothing but white space.
pub open spec fn after_post(sim: SimulatorView, name: Text) -> SimulatorView {
    if trim_text(name).len() == 0 {
        sim
    } else {
        SimulatorView { queued_events: sim.queued_events.push(name), ..sim }
    }
}

/// The first index from `from` on of a transition that `event` triggers
/// and, where `source` is given, that leaves `source`; the number of
/// transitions if there is none.
pub open spec fn first_match(
    ts: Seq<TransitionView>,
    source: Option<Text>,
    event: Text,
    from: int,
) -> int
    decreases ts.len() - from,
{
    if from < 0 || from >= ts.len() {
        ts.len() as int
    } else if (source is None || source == Some(ts[from].source)) && ts[from].event == Some(
        event,
    ) {
        from
    } else {
        first_match(ts, source, event, from + 1)
    }
}

/// The log line for a transition fired.
pub open spec fn fired_line(from: Text, event: Text, to: Text) -> Text {
    from + " --"@ + event + "--> "@ + to
}

/// The simulation after the event `event` was taken in the state
/// `current`. The first transition of the machine that leaves `current`
/// on `event` fires, if there is one. Else the first internal transition
/// of the state `current` that `event` triggers fires, and the machine
/// stays where it is. Else the log says that nothing fired.
pub open spec fn after_event(sim: SimulatorView, m: FsmView, current: Text, event: Text) -> SimulatorView {
    let i = first_match(m.transitions, Some(current), event, 0);
    if 0 <= i < m.transitions.len() {
        let t = m.transitions[i];
        SimulatorView {
            current_state: Some(t.target),
            last_fired: Some(
                SimFiredView {
                    transition_index: Some(i as usize),
                    from: current,
                    to: t.target,
                    label: label_text(t),
                },
            ),
            log: sim.log.push(fired_line(current, event, t.target)),
            ..sim
        }
    } else {
        let si = find_state(m.states, current, 0);
        let inner = if 0 <= si < m.states.len() {
            m.states[si].internal_transitions
        } else {
            Seq::<TransitionView>::empty()
        };
        let j = first_match(inner, None, event, 0);
        if 0 <= j < inner.len() {
            SimulatorView {
                last_fired: Some(
                    SimFiredView {
                        transition_index: None,
                        from: current,
                        to: current,
                        label: label_text(inner[j]),
                    },
                ),
                log: sim.log.push(fired_line(current, event, current) + " (internal)"@),
                ..sim
            }
        } else {
            SimulatorView {
                log: sim.log.push(current + ": no transition for event '"@ + event + "'"@),
                ..sim
            }
        }
    }
}

/// The simulation after one step. A simulation that stands nowhere is
/// first set back to the start, which empties the queue. Then the oldest
/// event, if there is one, is taken through the machine.
pub open spec fn after_step(sim: SimulatorView, m: FsmView) -> SimulatorView {
    let ready = if sim.current_state is None {
        after_reset(sim, m)
    } else {
        sim
    };
    if ready.queued_events.len() == 0 {
        ready
    } else {
        let event = ready.queued_events[0];
        let rest = SimulatorView { queued_events: ready.queued_events.drop_first(), ..ready };
        match rest.current_state {
            None => rest,
            Some(current) => after_event(rest, m, current, event),
        }
    }
}

/// The index of the first transition from `from` on that `event` triggers
/// and, where `source` is given, that leaves `source`.
pub fn find_match(ts: &Vec<Transition>, source: Option<&String>, event: &String) -> (i: usize)
    ensures
        i == first_match(ts.deep_view(), source.deep_view(), event@, 0),
        i <= ts.len(),
{
    let mut i: usize = 0;
    while i < ts.len()
        invariant
            i <= ts.len(),
            first_match(ts.deep_view(), source.deep_view(), event@, 0) == first_match(
                ts.deep_view(),
                source.deep_view(),
                event@,
                i as int,
            ),
        decreases ts.len() - i,
    {
        let t = &ts[i];
        assert(ts.deep_view()[i as int] == t@);
        let leaves = match source {
            None => true,
            Some(s) => t.source == *s,
        };
        let triggered = match &t.event {
            Some(e) => e.name == *event,
            None => false,
        };
        assert(t@.event == t.event.deep_view());
        if leaves && triggered {
            return i;
        }
        i += 1;
    }
    i
}

impl Default for Simulator {
    fn default() -> (sim: Simulator)
        ensures
            sim@ == fresh(),
    {
        Simulator::new()
    }
}

impl Simulator {
    /// A simulation that has not begun.
    pub fn new() -> (sim: Simulator)
        ensures
            sim@ == fresh(),
    {
        let sim = Simulator {
            current_state: None,
            queued_events: VecDeque::new(),
            last_fired: None,
            log: Vec::new(),
        };
        assert(sim@.queued_events =~= Seq::<Text>::empty());
        assert(sim@.log =~= Seq::<Text>::empty());
        sim
    }

    fn log_line(&mut self, line: String)
        ensures
            final(self)@ == (SimulatorView { log: old(self)@.log.push(line@), ..old(self)@ }),
    {
        self.log.push(line);
        assert(self.log.deep_view() =~= old(self).log.deep_view().push(line@));
    }

    /// Sets the simulation back to the start of the machine.
    pub fn sim_reset_to_initial(&mut self, fsm: &FsmDefinition)
        ensures
            final(self)@ == after_reset(old(self)@, fsm@),
    {
        self.queued_events.clear();
        assert(self.queued_events.deep_view() =~= Seq::<Text>::empty());
        self.last_fired = None;
        match &fsm.initial_state {
            Some(initial) => {
                self.current_state = Some(initial.clone());
                let mut line = "reset → ".to_owned();
                line.append(initial.as_str());
                self.log_line(line);
            },
            None => {
                if fsm.states.len() > 0 {
                    let first = &fsm.states[0];
                    assert(fsm@.states[0] == first@);
                    self.current_state = Some(first.name.clone());
                    let mut line = "reset → ".to_owned();
                    line.append(first.name.as_str());
                    line.append(" (fallback)");
                    self.log_line(line);
                } else {
                    self.current_state = None;
                    self.log_line("reset → <no states>".to_owned());
                }
            },
        }
    }

    /// Puts an event into the queue. A name of nothing but white space is
    /// not an event and is dropped.
    pub fn sim_post_event(&mut self, event_name: &str)
        ensures
            final(self)@ == after_post(old(self)@, event_name@),
    {
        let chars = to_chars(event_name);
        let (a, b) = trim_range(&chars, 0, chars.len());
        if a == b {
            return ;
        }
        let name = event_name.to_owned();
        self.queued_events.push_back(name);
        assert(self.queued_events.deep_view() =~= old(self).queued_events.deep_view().push(
            event_name@,
        ));
    }

    /// Takes the event `event` through the machine from the state
    /// `current`.
    fn take_event(&mut self, fsm: &FsmDefinition, current: String, event: String)
        ensures
            final(self)@ == after_event(old(self)@, fsm@, current@, event@),
    {
        let i = find_match(&fsm.transitions, Some(&current), &event);
        if i < fsm.transitions.len() {
            let t = &fsm.transitions[i];
            assert(fsm@.transitions[i as int] == t@);
            let mut line = current.clone();
            line.append(" --");
            line.append(event.as_str());
            line.append("--> ");
            line.append(t.target.as_str());
            self.last_fired = Some(
                SimFired {
                    transition_index: Some(i),
                    from: current,
                    to: t.target.clone(),
                    label: t.label(),
                },
            );
            self.current_state = Some(t.target.clone());
            self.log_line(line);
            return ;
        }
        let si = state_index(fsm, &current);
        if si < fsm.states.len() {
            let state = &fsm.states[si];
            assert(fsm@.states[si as int] == state@);
            let j = find_match(&state.internal_transitions, None, &event);
            if j < state.internal_transitions.len() {
                let t = &state.internal_transitions[j];
                assert(state@.internal_transitions[j as int] == t@);
                let mut line = current.clone();
                line.append(" --");
                line.append(event.as_str());
                line.append("--> ");
                line.append(current.as_str());
                line.append(" (internal)");
                self.last_fired = Some(
                    SimFired {
                        transition_index: None,
                        from: current.clone(),
                        to: current,
                        label: t.label(),
                    },
                );
                self.log_line(line);
                return ;
            }
        }
        let mut line = current;
        line.append(": no transition for event '");
        line.append(event.as_str());
        line.append("'");
        self.log_line(line);
    }

    /// Takes one step: the oldest event in the queue goes through the
    /// machine. A simulation that stands nowhere is set back to the start
    /// first.
    pub fn sim_step(&mut self, fsm: &FsmDefinition)
        ensures
            final(self)@ == after_step(old(self)@, fsm@),
    {
        if self.current_state.is_none() {
            self.sim_reset_to_initial(fsm);
        }
        let ghost ready = self@;
        let event = match self.queued_events.pop_front() {
            None => {
                assert(self@ == ready);
                return ;
            },
            Some(e) => e,
        };
        assert(self.queued_events.deep_view() =~= ready.queued_events.drop_first());
        assert(event@ == ready.queued_events[0]);
        let current = match &self.current_state {
            None => {
                return ;
            },
            Some(c) => c.clone(),
        };
        self.take_event(fsm, current, event);
    }
}

} // verus!
