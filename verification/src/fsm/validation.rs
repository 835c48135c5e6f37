//! Validation of a machine: referential integrity and completeness.

use vstd::prelude::*;
use crate::text::Text;
use crate::fsm::{
    ChoiceBranchView, ChoicePoint, ChoicePointView, FsmDefinition, FsmView, TransitionView,
    choice_ref, initial_marker,
};

verus! {

/// Whether `m` declares a state called `name`.
pub open spec fn declares_state(m: FsmView, name: Text) -> bool {
    exists|i: int| 0 <= i < m.states.len() && (#[trigger] m.states[i]).name == name
}

/// Whether `name` is the reference `<<c>>` to a choice point `c` of `m`.
pub open spec fn declares_choice(m: FsmView, name: Text) -> bool {
    exists|i: int|
        0 <= i < m.choice_points.len() && choice_ref((#[trigger] m.choice_points[i]).name) == name
}

/// Whether an end of a transition resolves: to the entry pseudostate, to a
/// declared state, or to a known choice point.
pub open spec fn resolves(m: FsmView, name: Text) -> bool {
    name == initial_marker() || declares_state(m, name) || declares_choice(m, name)
}

/// The problem reported for a machine without an initial state.
pub open spec fn no_initial_message() -> Text {
    "No initial state defined"@
}

/// The problem reported for an initial state that is not declared.
pub open spec fn initial_missing_message(name: Text) -> Text {
    "Initial state '"@ + name + "' not found"@
}

/// The problem reported for a transition source that does not resolve.
pub open spec fn source_missing_message(name: Text) -> Text {
    "Transition source state '"@ + name + "' not found"@
}

/// The problem reported for a transition target that does not resolve.
pub open spec fn target_missing_message(name: Text) -> Text {
    "Transition target state '"@ + name + "' not found"@
}

/// The problems with the initial state: none is declared, or the one
/// named is not a state of the machine.
pub open spec fn initial_problems(m: FsmView) -> Seq<Text> {
    match m.initial_state {
        None => seq![no_initial_message()],
        Some(name) => if declares_state(m, name) {
            Seq::empty()
        } else {
            seq![initial_missing_message(name)]
        },
    }
}

/// The problems with one transition: its source first, then its target.
pub open spec fn transition_problems(m: FsmView, t: TransitionView) -> Seq<Text> {
    (if resolves(m, t.source) {
        Seq::<Text>::empty()
    } else {
        seq![source_missing_message(t.source)]
    }) + (if resolves(m, t.target) {
        Seq::<Text>::empty()
    } else {
        seq![target_missing_message(t.target)]
    })
}

/// The problems with the first `n` transitions, in order.
pub open spec fn transitions_problems(m: FsmView, n: int) -> Seq<Text>
    decreases n,
{
    if n <= 0 {
        Seq::empty()
    } else {
        transitions_problems(m, n - 1) + transition_problems(m, m.transitions[n - 1])
    }
}

/// The guard of a branch that always matches.
pub open spec fn else_text() -> Text {
    seq!['e', 'l', 's', 'e']
}

/// Whether one of the first `n` branches but the last of all is an `else`
/// branch: the branches after it can never be taken.
pub open spec fn else_before_last(bs: Seq<ChoiceBranchView>, n: int) -> bool
    decreases n,
{
    if n <= 0 {
        false
    } else {
        else_before_last(bs, n - 1) || (n - 1 < bs.len() - 1 && bs[n - 1].guard == else_text())
    }
}

/// The problem reported for a choice point with a branch after `else`.
pub open spec fn else_not_last_message(name: Text) -> Text {
    "Choice point '"@ + name + "' has a branch after 'else'"@
}

/// The problems with one choice point.
pub open spec fn choice_problems(c: ChoicePointView) -> Seq<Text> {
    if else_before_last(c.branches, c.branches.len() as int) {
        seq![else_not_last_message(c.name)]
    } else {
        Seq::empty()
    }
}

/// The problems with the first `n` choice points, in order.
pub open spec fn choices_problems(m: FsmView, n: int) -> Seq<Text>
    decreases n,
{
    if n <= 0 {
        Seq::empty()
    } else {
        choices_problems(m, n - 1) + choice_problems(m.choice_points[n - 1])
    }
}

/// Every problem of the machine, in the order in which they are reported:
/// the initial state first, then the transitions one by one, then the
/// choice points one by one.
pub open spec fn problems(m: FsmView) -> Seq<Text> {
    initial_problems(m) + transitions_problems(m, m.transitions.len() as int) + choices_problems(
        m,
        m.choice_points.len() as int,
    )
}

/// Whether the machine has nothing to report.
pub open spec fn is_valid(m: FsmView) -> bool {
    problems(m).len() == 0
}

impl ChoicePoint {
    /// Whether an `else` branch stands before the last branch.
    pub fn has_else_before_last(&self) -> (b: bool)
        ensures
            b == else_before_last(self@.branches, self@.branches.len() as int),
    {
        let mut other = String::new();
        other.push('e');
        other.push('l');
        other.push('s');
        other.push('e');
        assert(other@ =~= else_text());
        let ghost bs = self@.branches;
        let mut found = false;
        let mut i: usize = 0;
        while i < self.branches.len()
            invariant
                i <= self.branches.len(),
                bs == self.branches.deep_view(),
                other@ == else_text(),
                found == else_before_last(bs, i as int),
            decreases self.branches.len() - i,
        {
            assert(bs[i as int] == self.branches[i as int]@);
            if i + 1 < self.branches.len() && self.branches[i].guard.expression == other {
                found = true;
            }
            i += 1;
        }
        found
    }
}

impl FsmDefinition {
    /// Whether the machine declares a state called `name`.
    pub fn has_state(&self, name: &String) -> (b: bool)
        ensures
            b == declares_state(self@, name@),
    {
        let mut i: usize = 0;
        while i < self.states.len()
            invariant
                i <= self.states.len(),
                forall|k: int| 0 <= k < i ==> self@.states[k].name != name@,
            decreases self.states.len() - i,
        {
            if self.states[i].name == *name {
                assert(self@.states[i as int].name == name@);
                return true;
            }
            i += 1;
        }
        false
    }

    /// Whether `name` refers to a choice point of the machine.
    pub fn has_choice(&self, name: &String) -> (b: bool)
        ensures
            b == declares_choice(self@, name@),
    {
        let mut i: usize = 0;
        while i < self.choice_points.len()
            invariant
                i <= self.choice_points.len(),
                forall|k: int| 0 <= k < i ==> choice_ref(self@.choice_points[k].name) != name@,
            decreases self.choice_points.len() - i,
        {
            let mut reference = String::new();
            reference.push('<');
            reference.push('<');
            reference.append(self.choice_points[i].name.as_str());
            reference.push('>');
            reference.push('>');
            assert(reference@ =~= choice_ref(self@.choice_points[i as int].name));
            if reference == *name {
                return true;
            }
            i += 1;
        }
        false
    }

    /// Whether an end of a transition resolves in this machine.
    pub fn resolves_name(&self, name: &String) -> (b: bool)
        ensures
            b == resolves(self@, name@),
    {
        let mut marker = String::new();
        marker.push('[');
        marker.push('*');
        marker.push(']');
        assert(marker@ =~= initial_marker());
        marker == *name || self.has_state(name) || self.has_choice(name)
    }

    /// Checks the machine and reports every problem in one pass: that no
    /// initial state is declared, that the initial state is not a declared
    /// state, each end of a transition that resolves neither to a
    /// declared state nor to the entry pseudostate nor to a known choice
    /// point, and each choice point in which a branch stands after `else`.
    /// The machine is valid exactly when there is nothing to report.
    pub fn validate(&self) -> (r: Result<(), Vec<String>>)
        ensures
            is_valid(self@) <==> r is Ok,
            r is Err ==> r->Err_0.deep_view() == problems(self@),
    {
        let mut errors: Vec<String> = Vec::new();
        assert(errors.deep_view() =~= Seq::<Text>::empty());
        match &self.initial_state {
            None => {
                errors.push("No initial state defined".to_owned());
                assert(errors.deep_view() =~= initial_problems(self@));
            },
            Some(initial) => {
                if !self.has_state(initial) {
                    let mut message = "Initial state '".to_owned();
                    message.append(initial.as_str());
                    message.append("' not found");
                    errors.push(message);
                    assert(errors.deep_view() =~= initial_problems(self@));
                } else {
                    assert(errors.deep_view() =~= initial_problems(self@));
                }
            },
        }
        let mut i: usize = 0;
        while i < self.transitions.len()
            invariant
                i <= self.transitions.len(),
                errors.deep_view() == initial_problems(self@) + transitions_problems(
                    self@,
                    i as int,
                ),
            decreases self.transitions.len() - i,
        {
            let transition = &self.transitions[i];
            let ghost before = errors.deep_view();
            let ghost t = self@.transitions[i as int];
            assert(t == transition@);
            if !self.resolves_name(&transition.source) {
                let mut message = "Transition source state '".to_owned();
                message.append(transition.source.as_str());
                message.append("' not found");
                errors.push(message);
                assert(errors.deep_view() =~= before + seq![source_missing_message(t.source)]);
            }
            let ghost middle = errors.deep_view();
            if !self.resolves_name(&transition.target) {
                let mut message = "Transition target state '".to_owned();
                message.append(transition.target.as_str());
                message.append("' not found");
                errors.push(message);
                assert(errors.deep_view() =~= middle + seq![target_missing_message(t.target)]);
            }
            assert(errors.deep_view() =~= before + transition_problems(self@, t));
            i += 1;
            assert(errors.deep_view() =~= initial_problems(self@) + transitions_problems(
                self@,
                i as int,
            ));
        }
        let ghost first = errors.deep_view();
        assert(first + choices_problems(self@, 0) =~= first);
        let mut c: usize = 0;
        while c < self.choice_points.len()
            invariant
                c <= self.choice_points.len(),
                first == initial_problems(self@) + transitions_problems(
                    self@,
                    self@.transitions.len() as int,
                ),
                errors.deep_view() == first + choices_problems(self@, c as int),
            decreases self.choice_points.len() - c,
        {
            let point = &self.choice_points[c];
            let ghost before = errors.deep_view();
            assert(self@.choice_points[c as int] == point@);
            if point.has_else_before_last() {
                let mut message = "Choice point '".to_owned();
                message.append(point.name.as_str());
                message.append("' has a branch after 'else'");
                errors.push(message);
                assert(errors.deep_view() =~= before + seq![else_not_last_message(point@.name)]);
            }
            assert(errors.deep_view() =~= before + choice_problems(point@));
            c += 1;
            assert(errors.deep_view() =~= first + choices_problems(self@, c as int));
        }
        assert(errors.deep_view() == problems(self@));
        if errors.len() == 0 {
            Ok(())
        } else {
            Err(errors)
        }
    }
}

/// The problems of later transitions come after those of earlier ones:
/// the target of transition `k`, if it does not resolve, is reported among
/// the problems of the first `n` transitions for every `n` beyond `k`.
pub proof fn lemma_dangling_target_reported(m: FsmView, k: int, n: int)
    requires
        0 <= k < n <= m.transitions.len(),
        !resolves(m, m.transitions[k].target),
    ensures
        transitions_problems(m, n).contains(target_missing_message(m.transitions[k].target)),
    decreases n - k,
{
    let message = target_missing_message(m.transitions[k].target);
    let before = transitions_problems(m, n - 1);
    let last = transition_problems(m, m.transitions[n - 1]);
    if n == k + 1 {
        assert(last[last.len() - 1] == message);
        assert((before + last)[before.len() + last.len() - 1] == message);
    } else {
        lemma_dangling_target_reported(m, k, n - 1);
        let i = choose|i: int| 0 <= i < before.len() && before[i] == message;
        assert((before + last)[i] == message);
    }
}

/// A machine without an initial state and with a transition whose target
/// does not resolve has at least two problems, and two of them differ:
/// both faults are reported in one pass.
pub proof fn lemma_two_distinct_problems(m: FsmView, k: int)
    requires
        m.initial_state is None,
        0 <= k < m.transitions.len(),
        !resolves(m, m.transitions[k].target),
    ensures
        problems(m).len() >= 2,
        exists|i: int, j: int|
            0 <= i < j < problems(m).len() && problems(m)[i] != problems(m)[j],
{
    let all = problems(m);
    let rest = transitions_problems(m, m.transitions.len() as int);
    let message = target_missing_message(m.transitions[k].target);
    lemma_dangling_target_reported(m, k, m.transitions.len() as int);
    let j = choose|j: int| 0 <= j < rest.len() && rest[j] == message;
    let head = initial_problems(m) + rest;
    assert(head[0] == no_initial_message());
    assert(head[j + 1] == message);
    assert(all[0] == no_initial_message());
    assert(all[j + 1] == message);
    reveal_strlit("No initial state defined");
    reveal_strlit("Transition target state '");
    assert(no_initial_message()[0] == 'N');
    assert(message[0] == 'T');
}

} // verus!
