//! The event set of a machine, derived from its transitions.

use vstd::prelude::*;
use crate::text::{Text, text_lt, text_before, lemma_text_lt_total, lemma_text_lt_transitive, lemma_text_lt_irreflexive};
use crate::fsm::{Event, FsmDefinition, FsmView, StateView, Transition, TransitionView};

verus! {

/// Whether one of the first `n` transitions of `ts` is triggered by the
/// event called `name`.
pub open spec fn triggered_in(ts: Seq<TransitionView>, n: int, name: Text) -> bool {
    exists|i: int| 0 <= i < n && i < ts.len() && (#[trigger] ts[i]).event == Some(name)
}

/// Whether one of the first `n` states of `states` handles the event
/// called `name` in an internal transition.
pub open spec fn handled_in(states: Seq<StateView>, n: int, name: Text) -> bool {
    exists|i: int|
        0 <= i < n && i < states.len() && triggered_in(
            (#[trigger] states[i]).internal_transitions,
            states[i].internal_transitions.len() as int,
            name,
        )
}

/// Whether the machine responds to the event called `name`: a transition
/// or an internal transition of a state is triggered by it.
pub open spec fn uses_event(m: FsmView, name: Text) -> bool {
    triggered_in(m.transitions, m.transitions.len() as int, name) || handled_in(
        m.states,
        m.states.len() as int,
        name,
    )
}

/// Whether each name comes strictly before every later one. Such a list
/// holds no name twice.
pub open spec fn strictly_sorted(names: Seq<Text>) -> bool {
    forall|i: int, j: int| 0 <= i < j < names.len() ==> text_lt(#[trigger] names[i], #[trigger] names[j])
}

/// Two strictly sorted lists with the same members are the same list.
pub proof fn lemma_sorted_unique(a: Seq<Text>, b: Seq<Text>)
    requires
        strictly_sorted(a),
        strictly_sorted(b),
        forall|n: Text| a.contains(n) <==> b.contains(n),
    ensures
        a == b,
    decreases a.len(),
{
    if a.len() == 0 {
        if b.len() > 0 {
            assert(b.contains(b[0]));
        }
        assert(a =~= b);
    } else if b.len() == 0 {
        assert(a.contains(a[0]));
    } else {
        // The first of each list is the least member.
        assert(a.contains(a[0]));
        assert(b.contains(b[0]));
        let ia = choose|i: int| 0 <= i < b.len() && b[i] == a[0];
        let ib = choose|i: int| 0 <= i < a.len() && a[i] == b[0];
        if a[0] != b[0] {
            assert(text_lt(b[0], b[ia]));
            assert(text_lt(a[0], a[ib]));
            lemma_text_lt_transitive(a[0], b[0], a[0]);
            lemma_text_lt_irreflexive(a[0]);
        }
        let ta = a.drop_first();
        let tb = b.drop_first();
        assert(strictly_sorted(ta)) by {
            assert forall|i: int, j: int| 0 <= i < j < ta.len() implies text_lt(
                #[trigger] ta[i],
                #[trigger] ta[j],
            ) by {
                assert(text_lt(a[i + 1], a[j + 1]));
            }
        }
        assert(strictly_sorted(tb)) by {
            assert forall|i: int, j: int| 0 <= i < j < tb.len() implies text_lt(
                #[trigger] tb[i],
                #[trigger] tb[j],
            ) by {
                assert(text_lt(b[i + 1], b[j + 1]));
            }
        }
        assert forall|n: Text| ta.contains(n) <==> tb.contains(n) by {
            if ta.contains(n) {
                let i = choose|i: int| 0 <= i < ta.len() && ta[i] == n;
                assert(a[i + 1] == n);
                assert(text_lt(a[0], a[i + 1]));
                assert(a.contains(n));
                let j = choose|j: int| 0 <= j < b.len() && b[j] == n;
                if j == 0 {
                    lemma_text_lt_irreflexive(n);
                }
                assert(tb[j - 1] == n);
            }
            if tb.contains(n) {
                let i = choose|i: int| 0 <= i < tb.len() && tb[i] == n;
                assert(b[i + 1] == n);
                assert(text_lt(b[0], b[i + 1]));
                assert(b.contains(n));
                let j = choose|j: int| 0 <= j < a.len() && a[j] == n;
                if j == 0 {
                    lemma_text_lt_irreflexive(n);
                }
                assert(ta[j - 1] == n);
            }
        }
        lemma_sorted_unique(ta, tb);
        assert(a =~= seq![a[0]] + ta);
        assert(b =~= seq![b[0]] + tb);
    }
}

/// Puts the event called `name` into the sorted list, unless the list
/// holds it already.
pub fn insert_event(events: &mut Vec<Event>, name: &String)
    requires
        strictly_sorted(old(events).deep_view()),
    ensures
        strictly_sorted(final(events).deep_view()),
        forall|n: Text|
            final(events).deep_view().contains(n) <==> (old(events).deep_view().contains(n) || n
                == name@),
{
    let ghost before = events.deep_view();
    let mut i: usize = 0;
    while i < events.len() && text_before(events[i].name.as_str(), name.as_str())
        invariant
            i <= events.len(),
            events.deep_view() == before,
            forall|k: int| 0 <= k < i ==> text_lt(#[trigger] before[k], name@),
        decreases events.len() - i,
    {
        assert(before[i as int] == events[i as int].name@);
        i += 1;
    }
    if i < events.len() && events[i].name == *name {
        assert(before[i as int] == name@);
        assert(before.contains(name@));
        return ;
    }
    proof {
        // Everything before the gap is smaller, everything after it greater.
        assert forall|k: int| 0 <= k < before.len() implies before[k] != name@ by {
            if k < i {
                lemma_text_lt_irreflexive(name@);
            } else if k > i {
                assert(before[i as int] == events[i as int].name@);
                assert(text_lt(before[i as int], before[k]));
                lemma_text_lt_total(before[i as int], name@);
                if before[k] == name@ {
                    assert(false);
                }
            } else {
                assert(before[i as int] == events[i as int].name@);
            }
        }
        assert forall|k: int| i <= k < before.len() implies text_lt(name@, #[trigger] before[k]) by {
            assert(before[i as int] == events[i as int].name@);
            lemma_text_lt_total(before[i as int], name@);
            if k > i {
                assert(text_lt(before[i as int], before[k]));
                lemma_text_lt_transitive(name@, before[i as int], before[k]);
            }
        }
    }
    events.insert(i, Event { name: name.clone() });
    proof {
        let after = events.deep_view();
        assert(after =~= before.insert(i as int, name@));
        assert forall|a: int, b: int| 0 <= a < b < after.len() implies text_lt(
            #[trigger] after[a],
            #[trigger] after[b],
        ) by {
            if b < i {
                assert(text_lt(before[a], before[b]));
            } else if b == i {
                assert(text_lt(before[a], name@));
            } else if a < i {
                assert(text_lt(before[a], before[b - 1]));
            } else if a == i {
                assert(text_lt(name@, before[b - 1]));
            } else {
                assert(text_lt(before[a - 1], before[b - 1]));
            }
        }
        assert forall|n: Text| after.contains(n) <==> (before.contains(n) || n == name@) by {
            if after.contains(n) {
                let k = choose|k: int| 0 <= k < after.len() && after[k] == n;
                if k < i {
                    assert(before[k] == n);
                } else if k > i {
                    assert(before[k - 1] == n);
                }
            }
            if before.contains(n) {
                let k = choose|k: int| 0 <= k < before.len() && before[k] == n;
                if k < i {
                    assert(after[k] == n);
                } else {
                    assert(after[k + 1] == n);
                }
            }
            if n == name@ {
                assert(after[i as int] == n);
            }
        }
    }
}

/// Puts the events that trigger `transitions` into the sorted list.
pub fn insert_events_of(events: &mut Vec<Event>, transitions: &Vec<Transition>)
    requires
        strictly_sorted(old(events).deep_view()),
    ensures
        strictly_sorted(final(events).deep_view()),
        forall|n: Text|
            final(events).deep_view().contains(n) <==> (old(events).deep_view().contains(n)
                || triggered_in(transitions.deep_view(), transitions.len() as int, n)),
{
    let ghost before = events.deep_view();
    let ghost ts = transitions.deep_view();
    let mut i: usize = 0;
    while i < transitions.len()
        invariant
            i <= transitions.len(),
            ts == transitions.deep_view(),
            strictly_sorted(events.deep_view()),
            forall|n: Text|
                #![trigger events.deep_view().contains(n)]
                events.deep_view().contains(n) <==> (before.contains(n) || triggered_in(
                    ts,
                    i as int,
                    n,
                )),
        decreases transitions.len() - i,
    {
        let ghost middle = events.deep_view();
        assert forall|n: Text|
            middle.contains(n) <==> (before.contains(n) || triggered_in(ts, i as int, n)) by {
            assert(events.deep_view().contains(n) <==> (before.contains(n) || triggered_in(
                ts,
                i as int,
                n,
            )));
        }
        assert(ts[i as int] == transitions[i as int]@);
        proof {
            assert forall|n: Text|
                triggered_in(ts, i + 1, n) <==> (triggered_in(ts, i as int, n) || ts[i as int].event
                    == Some(n)) by {
                if triggered_in(ts, i + 1, n) {
                    let k = choose|k: int|
                        0 <= k < i + 1 && k < ts.len() && (#[trigger] ts[k]).event == Some(n);
                    if k < i {
                        assert(triggered_in(ts, i as int, n));
                    }
                }
                if triggered_in(ts, i as int, n) {
                    let k = choose|k: int|
                        0 <= k < i && k < ts.len() && (#[trigger] ts[k]).event == Some(n);
                    assert(ts[k].event == Some(n));
                }
                if ts[i as int].event == Some(n) {
                    assert(triggered_in(ts, i + 1, n));
                }
            }
        }
        if let Some(event) = &transitions[i].event {
            insert_event(events, &event.name);
            proof {
                assert(transitions[i as int].event.deep_view() == Some(event.name@));
                assert(ts[i as int].event == Some(event.name@));
                assert forall|n: Text|
                    events.deep_view().contains(n) <==> (before.contains(n) || triggered_in(
                        ts,
                        i + 1,
                        n,
                    )) by {
                    assert(events.deep_view().contains(n) <==> (middle.contains(n) || n
                        == event.name@));
                    assert(middle.contains(n) <==> (before.contains(n) || triggered_in(
                        ts,
                        i as int,
                        n,
                    )));
                }
            }
        } else {
            proof {
                assert(transitions[i as int].event.deep_view() is None);
                assert(ts[i as int].event is None);
                assert forall|n: Text|
                    events.deep_view().contains(n) <==> (before.contains(n) || triggered_in(
                        ts,
                        i + 1,
                        n,
                    )) by {
                    assert(middle.contains(n) <==> (before.contains(n) || triggered_in(
                        ts,
                        i as int,
                        n,
                    )));
                }
            }
        }
        i += 1;
    }
}

impl FsmDefinition {
    /// The events to which the machine responds: those that trigger its
    /// transitions and the internal transitions of its states. Each event
    /// stands once, and the list is sorted by name. The stored list
    /// `events` plays no part.
    pub fn collect_events(&self) -> (out: Vec<Event>)
        ensures
            strictly_sorted(out.deep_view()),
            forall|n: Text| out.deep_view().contains(n) <==> uses_event(self@, n),
    {
        let mut out: Vec<Event> = Vec::new();
        assert(out.deep_view() =~= Seq::<Text>::empty());
        insert_events_of(&mut out, &self.transitions);
        let ghost states = self@.states;
        let ghost ts = self@.transitions;
        let mut i: usize = 0;
        while i < self.states.len()
            invariant
                i <= self.states.len(),
                states == self@.states,
                ts == self@.transitions,
                strictly_sorted(out.deep_view()),
                forall|n: Text|
                    out.deep_view().contains(n) <==> (triggered_in(ts, ts.len() as int, n)
                        || handled_in(states, i as int, n)),
            decreases self.states.len() - i,
        {
            let ghost before = out.deep_view();
            assert(states[i as int] == self.states[i as int]@);
            insert_events_of(&mut out, &self.states[i].internal_transitions);
            proof {
                let inner = states[i as int].internal_transitions;
                assert forall|n: Text|
                    out.deep_view().contains(n) <==> (triggered_in(ts, ts.len() as int, n)
                        || handled_in(states, i + 1, n)) by {
                    if handled_in(states, i + 1, n) {
                        let k = choose|k: int|
                            0 <= k < i + 1 && k < states.len() && triggered_in(
                                (#[trigger] states[k]).internal_transitions,
                                states[k].internal_transitions.len() as int,
                                n,
                            );
                        if k < i {
                            assert(handled_in(states, i as int, n));
                        }
                    }
                    if handled_in(states, i as int, n) {
                        let k = choose|k: int|
                            0 <= k < i && k < states.len() && triggered_in(
                                (#[trigger] states[k]).internal_transitions,
                                states[k].internal_transitions.len() as int,
                                n,
                            );
                        assert(triggered_in(
                            states[k].internal_transitions,
                            states[k].internal_transitions.len() as int,
                            n,
                        ));
                    }
                    if triggered_in(inner, inner.len() as int, n) {
                        assert(triggered_in(
                            states[i as int].internal_transitions,
                            states[i as int].internal_transitions.len() as int,
                            n,
                        ));
                    }
                }
            }
            i += 1;
        }
        out
    }
}

} // verus!
