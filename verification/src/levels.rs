//! The level of each state of a machine: how many transitions it takes to
//! reach the state from the start, at the least.
//!
//! The start is the initial state, or the first state where the machine
//! has no initial state. A state that cannot be reached stands one level
//! below the deepest state that can.

use vstd::prelude::*;
use crate::text::Text;
use crate::fsm::{FsmDefinition, FsmView, TransitionView, initial_marker};
use crate::fsm::validation::declares_state;
use crate::parser::lower::{is_state_name, names_state};

verus! {

/// Whether a transition links two states: it does not leave the entry
/// pseudostate, and it ends neither there nor in a choice point.
pub open spec fn links(t: TransitionView) -> bool {
    t.source != initial_marker() && names_state(t.target)
}

/// Whether a transition of the machine links `a` to `b`.
pub open spec fn is_edge(m: FsmView, a: Text, b: Text) -> bool {
    exists|x: int|
        0 <= x < m.transitions.len() && links(#[trigger] m.transitions[x]) && m.transitions[x].source
            == a && m.transitions[x].target == b
}

/// Whether each state of `path` is linked to the next.
pub open spec fn is_path(m: FsmView, path: Seq<Text>) -> bool {
    path.len() > 0 && forall|i: int|
        0 <= i < path.len() - 1 ==> is_edge(m, #[trigger] path[i], path[i + 1])
}

/// Whether `n` can be reached from `root` by exactly `d` transitions.
pub open spec fn reaches_in(m: FsmView, root: Text, n: Text, d: nat) -> bool {
    exists|path: Seq<Text>|
        #![trigger is_path(m, path)]
        is_path(m, path) && path.len() == d + 1 && path[0] == root && path[d as int] == n
}

/// Whether `n` can be reached from `root`.
pub open spec fn reachable(m: FsmView, root: Text, n: Text) -> bool {
    exists|d: nat| reaches_in(m, root, n, d)
}

/// Whether `d` is the least number of transitions by which `n` can be
/// reached from `root`.
pub open spec fn is_distance(m: FsmView, root: Text, n: Text, d: nat) -> bool {
    reaches_in(m, root, n, d) && forall|k: nat| k < d ==> !reaches_in(m, root, n, k)
}

/// Whether `top` is the greatest distance of a state from `root`.
pub open spec fn is_deepest(m: FsmView, root: Text, top: nat) -> bool {
    (exists|n: Text| is_distance(m, root, n, top)) && forall|n: Text, d: nat|
        is_distance(m, root, n, d) ==> d <= top
}

/// The state from which levels are counted: the initial state, or the
/// first state, if there is either.
pub open spec fn level_root(m: FsmView) -> Option<Text> {
    match m.initial_state {
        Some(n) => Some(n),
        None => if m.states.len() > 0 {
            Some(m.states[0].name)
        } else {
            None
        },
    }
}

/// Whether one of the first `i` states is called `n`.
pub open spec fn named_before(m: FsmView, i: int, n: Text) -> bool {
    exists|k: int| 0 <= k < i && k < m.states.len() && (#[trigger] m.states[k]).name == n
}

/// Whether `e` has an entry for `n`.
pub open spec fn has_entry(e: Seq<(Text, usize)>, n: Text) -> bool {
    exists|j: int| 0 <= j < e.len() && (#[trigger] e[j]).0 == n
}

/// Whether no name has two entries.
pub open spec fn distinct_entries(e: Seq<(Text, usize)>) -> bool {
    forall|i: int, j: int| 0 <= i < j < e.len() ==> (#[trigger] e[i]).0 != (#[trigger] e[j]).0
}

/// Whether `e` gives the levels of the machine: one entry for each state
/// that can be reached from the start and for each declared state; for a
/// state that can be reached its distance from the start; for any other
/// one more than the greatest distance.
pub open spec fn is_levels(m: FsmView, e: Seq<(Text, usize)>) -> bool {
    match level_root(m) {
        None => e.len() == 0,
        Some(root) => {
            &&& distinct_entries(e)
            &&& forall|n: Text| has_entry(e, n) <==> (reachable(m, root, n) || declares_state(m, n))
            &&& forall|j: int|
                0 <= j < e.len() ==> if reachable(m, root, (#[trigger] e[j]).0) {
                    is_distance(m, root, e[j].0, e[j].1 as nat)
                } else {
                    exists|top: nat| is_deepest(m, root, top) && e[j].1 == top + 1
                }
        },
    }
}

/// Whether the transitions before `k` that leave the state of entry `i`
/// end in states that have an entry at most one level further.
pub open spec fn relaxed(m: FsmView, e: Seq<(Text, usize)>, i: int, k: int) -> bool {
    forall|x: int|
        0 <= x < k && x < m.transitions.len() && links(#[trigger] m.transitions[x])
            && m.transitions[x].source == e[i].0 ==> exists|j: int|
            0 <= j < e.len() && (#[trigger] e[j]).0 == m.transitions[x].target && e[j].1 <= e[i].1
                + 1
}

/// Whether every entry but the first has a parent: an earlier entry that
/// is linked to it and stands one level before it.
pub open spec fn has_parents(m: FsmView, e: Seq<(Text, usize)>) -> bool {
    forall|j: int| 0 < j < e.len() ==> #[trigger] has_parent(m, e, j)
}

/// Whether an earlier entry is linked to entry `j` and stands one level
/// before it.
pub open spec fn has_parent(m: FsmView, e: Seq<(Text, usize)>, j: int) -> bool {
    exists|i: int| 0 <= i < j && is_edge(m, (#[trigger] e[i]).0, e[j].0) && e[j].1 == e[i].1 + 1
}

/// What holds while the states are visited breadth first: `e` holds the
/// states found, in the order in which they were found, and those before
/// `head` have been visited.
pub open spec fn visiting(m: FsmView, root: Text, e: Seq<(Text, usize)>, head: int) -> bool {
    &&& 0 <= head <= e.len()
    &&& e.len() > 0
    &&& e[0] == (root, 0usize)
    &&& distinct_entries(e)
    &&& forall|i: int, j: int| 0 <= i <= j < e.len() ==> (#[trigger] e[i]).1 <= (#[trigger] e[j]).1
    &&& has_parents(m, e)
    &&& forall|j: int| 0 <= j < e.len() ==> (#[trigger] e[j]).1 <= j
    &&& head < e.len() ==> e[e.len() - 1].1 <= e[head].1 + 1
    &&& forall|i: int| 0 <= i < head ==> #[trigger] relaxed(m, e, i, m.transitions.len() as int)
}

/// A state that has an entry can be reached in as many transitions as
/// its level says.
pub proof fn lemma_entry_reached(m: FsmView, root: Text, e: Seq<(Text, usize)>, head: int, j: int)
    requires
        visiting(m, root, e, head),
        0 <= j < e.len(),
    ensures
        reaches_in(m, root, e[j].0, e[j].1 as nat),
    decreases j,
{
    if j == 0 {
        let path = seq![root];
        assert(is_path(m, path));
        assert(path[0] == root);
    } else {
        assert(has_parent(m, e, j));
        let i = choose|i: int|
            0 <= i < j && is_edge(m, (#[trigger] e[i]).0, e[j].0) && e[j].1 == e[i].1 + 1;
        lemma_entry_reached(m, root, e, head, i);
        let d = e[i].1 as nat;
        let before = choose|path: Seq<Text>|
            #![trigger is_path(m, path)]
            is_path(m, path) && path.len() == d + 1 && path[0] == root && path[d as int] == e[i].0;
        let path = before.push(e[j].0);
        assert forall|x: int| 0 <= x < path.len() - 1 implies is_edge(
            m,
            #[trigger] path[x],
            path[x + 1],
        ) by {
            if x < before.len() - 1 {
                assert(is_edge(m, before[x], before[x + 1]));
            }
        }
        assert(is_path(m, path));
        assert(path[0] == root);
        assert(path[(d + 1) as int] == e[j].0);
    }
}

/// Once every entry has been visited, a state that can be reached in `d`
/// transitions has an entry, at level `d` at most.
pub proof fn lemma_reached_entry(m: FsmView, root: Text, e: Seq<(Text, usize)>, n: Text, d: nat)
    requires
        visiting(m, root, e, e.len() as int),
        reaches_in(m, root, n, d),
    ensures
        exists|j: int| 0 <= j < e.len() && (#[trigger] e[j]).0 == n && e[j].1 <= d,
    decreases d,
{
    let path = choose|path: Seq<Text>|
        #![trigger is_path(m, path)]
        is_path(m, path) && path.len() == d + 1 && path[0] == root && path[d as int] == n;
    if d == 0 {
        assert(e[0].0 == n);
    } else {
        let before = path.drop_last();
        let u = path[(d - 1) as int];
        assert forall|x: int| 0 <= x < before.len() - 1 implies is_edge(
            m,
            #[trigger] before[x],
            before[x + 1],
        ) by {
            assert(is_edge(m, path[x], path[x + 1]));
        }
        assert(is_path(m, before));
        assert(before[0] == root && before[(d - 1) as int] == u);
        assert(reaches_in(m, root, u, (d - 1) as nat));
        lemma_reached_entry(m, root, e, u, (d - 1) as nat);
        let i = choose|i: int| 0 <= i < e.len() && (#[trigger] e[i]).0 == u && e[i].1 <= d - 1;
        assert(is_edge(m, path[(d - 1) as int], path[(d - 1) as int + 1]));
        let x = choose|x: int|
            0 <= x < m.transitions.len() && links(#[trigger] m.transitions[x])
                && m.transitions[x].source == u && m.transitions[x].target == n;
        assert(relaxed(m, e, i, m.transitions.len() as int));
        assert(links(m.transitions[x]));
    }
}

/// Once every entry has been visited, the level of each entry is the
/// distance of its state from the start, and the states with an entry are
/// those that can be reached.
pub proof fn lemma_visited_all(m: FsmView, root: Text, e: Seq<(Text, usize)>)
    requires
        visiting(m, root, e, e.len() as int),
    ensures
        forall|j: int| 0 <= j < e.len() ==> is_distance(m, root, (#[trigger] e[j]).0, e[j].1 as nat),
        forall|n: Text| reachable(m, root, n) <==> has_entry(e, n),
        is_deepest(m, root, e[e.len() - 1].1 as nat),
{
    assert forall|j: int| 0 <= j < e.len() implies is_distance(
        m,
        root,
        (#[trigger] e[j]).0,
        e[j].1 as nat,
    ) by {
        lemma_entry_reached(m, root, e, e.len() as int, j);
        assert forall|k: nat| k < e[j].1 implies !reaches_in(m, root, e[j].0, k) by {
            if reaches_in(m, root, e[j].0, k) {
                lemma_reached_entry(m, root, e, e[j].0, k);
                let j2 = choose|j2: int|
                    0 <= j2 < e.len() && (#[trigger] e[j2]).0 == e[j].0 && e[j2].1 <= k;
                assert(j2 == j);
            }
        }
    }
    assert forall|n: Text| reachable(m, root, n) <==> has_entry(e, n) by {
        if reachable(m, root, n) {
            let d = choose|d: nat| reaches_in(m, root, n, d);
            lemma_reached_entry(m, root, e, n, d);
        }
        if has_entry(e, n) {
            let j = choose|j: int| 0 <= j < e.len() && (#[trigger] e[j]).0 == n;
            lemma_entry_reached(m, root, e, e.len() as int, j);
        }
    }
    let last = e.len() - 1;
    assert(is_distance(m, root, e[last].0, e[last].1 as nat));
    assert forall|n: Text, d: nat| is_distance(m, root, n, d) implies d <= e[last].1 by {
        lemma_reached_entry(m, root, e, n, d);
        let j = choose|j: int| 0 <= j < e.len() && (#[trigger] e[j]).0 == n && e[j].1 <= d;
        assert(is_distance(m, root, e[j].0, e[j].1 as nat));
        if e[j].1 < d {
            assert(!reaches_in(m, root, n, e[j].1 as nat));
        }
        assert(e[j].1 <= e[last].1);
    }
}

/// Whether the list has an entry for `name`.
pub fn has_level(entries: &Vec<(String, usize)>, name: &String) -> (b: bool)
    ensures
        b == has_entry(entries.deep_view(), name@),
{
    let mut j: usize = 0;
    while j < entries.len()
        invariant
            j <= entries.len(),
            forall|k: int| 0 <= k < j ==> entries.deep_view()[k].0 != name@,
        decreases entries.len() - j,
    {
        assert(entries.deep_view()[j as int].0 == entries[j as int].0@);
        if entries[j].0 == *name {
            return true;
        }
        j += 1;
    }
    false
}

/// Whether a transition links two states.
pub fn is_link(t: &crate::fsm::Transition) -> (b: bool)
    ensures
        b == links(t@),
{
    let mut marker = String::new();
    marker.push('[');
    marker.push('*');
    marker.push(']');
    assert(marker@ =~= initial_marker());
    t.source != marker && is_state_name(&t.target)
}

/// An entry found from the entry at `head` keeps the order of the visit.
proof fn lemma_found(
    m: FsmView,
    root: Text,
    e: Seq<(Text, usize)>,
    head: int,
    x: int,
    next: (Text, usize),
)
    requires
        visiting(m, root, e, head),
        head < e.len(),
        0 <= x < m.transitions.len(),
        links(m.transitions[x]),
        m.transitions[x].source == e[head].0,
        next.0 == m.transitions[x].target,
        next.1 == e[head].1 + 1,
        !has_entry(e, next.0),
    ensures
        visiting(m, root, e.push(next), head),
        forall|i: int, k: int|
            0 <= i < e.len() && relaxed(m, e, i, k) ==> relaxed(m, e.push(next), i, k),
{
    let f = e.push(next);
    assert forall|i: int, j: int| 0 <= i < j < f.len() implies (#[trigger] f[i]).0 != (
    #[trigger] f[j]).0 by {
        if j < e.len() {
            assert(e[i].0 != e[j].0);
        } else {
            assert(e[i].0 == f[i].0);
        }
    }
    assert forall|i: int, j: int| 0 <= i <= j < f.len() implies (#[trigger] f[i]).1 <= (
    #[trigger] f[j]).1 by {
        if j < e.len() {
            assert(e[i].1 <= e[j].1);
        } else if i < e.len() {
            assert(e[i].1 <= e[e.len() - 1].1);
        }
    }
    assert forall|j: int| 0 < j < f.len() implies #[trigger] has_parent(m, f, j) by {
        if j < e.len() {
            assert(has_parent(m, e, j));
            let i = choose|i: int|
                0 <= i < j && is_edge(m, (#[trigger] e[i]).0, e[j].0) && e[j].1 == e[i].1 + 1;
            assert(f[i] == e[i]);
            assert(f[j] == e[j]);
        } else {
            assert(f[head] == e[head]);
            assert(is_edge(m, f[head].0, f[j].0));
        }
    }
    assert forall|j: int| 0 <= j < f.len() implies (#[trigger] f[j]).1 <= j by {
        if j < e.len() {
            assert(e[j].1 <= j);
        } else {
            assert(e[head].1 <= head);
        }
    }
    assert forall|i: int, k: int| 0 <= i < e.len() && relaxed(m, e, i, k) implies relaxed(
        m,
        f,
        i,
        k,
    ) by {
        assert forall|y: int|
            0 <= y < k && y < m.transitions.len() && links(#[trigger] m.transitions[y])
                && m.transitions[y].source == f[i].0 implies exists|j: int|
            0 <= j < f.len() && (#[trigger] f[j]).0 == m.transitions[y].target && f[j].1 <= f[i].1
                + 1 by {
            assert(f[i] == e[i]);
            let j = choose|j: int|
                0 <= j < e.len() && (#[trigger] e[j]).0 == m.transitions[y].target && e[j].1
                    <= e[i].1 + 1;
            assert(f[j] == e[j]);
        }
    }
    assert forall|i: int| 0 <= i < head implies #[trigger] relaxed(
        m,
        f,
        i,
        m.transitions.len() as int,
    ) by {
        assert(relaxed(m, e, i, m.transitions.len() as int));
    }
    assert(f[0] == e[0]);
    assert(f[head] == e[head]);
}

/// Visits the states breadth first from the start and returns them with
/// their levels, in the order in which they were found.
fn visit(fsm: &FsmDefinition, root: String) -> (seen: Vec<(String, usize)>)
    requires
        level_root(fsm@) == Some(root@),
    ensures
        visiting(fsm@, root@, seen.deep_view(), seen.len() as int),
{
    let ghost m = fsm@;
    let ghost r = root@;
    let mut seen: Vec<(String, usize)> = Vec::new();
    seen.push((root, 0));
    assert(seen.deep_view() =~= seq![(r, 0usize)]);
    let mut head: usize = 0;
    assert(has_parents(m, seen.deep_view()));
    while head < seen.len()
        invariant
            m == fsm@,
            visiting(m, r, seen.deep_view(), head as int),
        decreases usize::MAX - head,
    {
        assert(seen.deep_view()[head as int] == (seen[head as int].0@, seen[head as int].1));
        let current = seen[head].0.clone();
        let level = seen[head].1;
        let mut k: usize = 0;
        while k < fsm.transitions.len()
            invariant
                m == fsm@,
                k <= fsm.transitions.len(),
                head < seen.len(),
                visiting(m, r, seen.deep_view(), head as int),
                seen.deep_view()[head as int] == (current@, level),
                relaxed(m, seen.deep_view(), head as int, k as int),
            decreases fsm.transitions.len() - k,
        {
            let t = &fsm.transitions[k];
            assert(m.transitions[k as int] == t@);
            let ghost e = seen.deep_view();
            if is_link(t) && t.source == current {
                if !has_level(&seen, &t.target) {
                    assert(e[head as int].1 <= head);
                    let next = (t.target.clone(), level + 1);
                    proof {
                        lemma_found(m, r, e, head as int, k as int, (t.target@, (level + 1) as usize));
                    }
                    seen.push(next);
                    assert(seen.deep_view() =~= e.push((t.target@, (level + 1) as usize)));
                    assert(seen.deep_view()[seen.len() - 1].0 == t.target@);
                } else {
                    let ghost j = choose|j: int| 0 <= j < e.len() && (#[trigger] e[j]).0 == t.target@;
                    assert(e[j].1 <= e[e.len() - 1].1);
                }
            }
            let ghost f = seen.deep_view();
            assert(relaxed(m, f, head as int, k as int));
            assert(relaxed(m, f, head as int, k + 1)) by {
                assert forall|y: int|
                    0 <= y < k + 1 && y < m.transitions.len() && links(#[trigger] m.transitions[y])
                        && m.transitions[y].source == f[head as int].0 implies exists|j: int|
                    0 <= j < f.len() && (#[trigger] f[j]).0 == m.transitions[y].target && f[j].1
                        <= f[head as int].1 + 1 by {
                    if y == k {
                        assert(has_entry(f, t.target@));
                        let j = choose|j: int| 0 <= j < f.len() && (#[trigger] f[j]).0 == t.target@;
                        assert(f[j].1 <= f[f.len() - 1].1);
                    }
                }
            }
            k += 1;
        }
        proof {
            let e = seen.deep_view();
            assert forall|i: int| 0 <= i < head + 1 implies #[trigger] relaxed(
                m,
                e,
                i,
                m.transitions.len() as int,
            ) by {}
            if head + 1 < e.len() {
                assert(e[head as int].1 <= e[head + 1].1);
            }
        }
        head += 1;
    }
    seen
}

/// The level of each state: its distance from the start, or, for a state
/// that cannot be reached, one more than the greatest distance. The start
/// is the initial state, or the first state where there is no initial
/// state. Each state that can be reached or is declared has one entry.
pub fn calculate_state_levels(fsm: &FsmDefinition) -> (levels: Vec<(String, usize)>)
    ensures
        is_levels(fsm@, levels.deep_view()),
{
    let ghost m = fsm@;
    let root = match &fsm.initial_state {
        Some(initial) => initial.clone(),
        None => {
            if fsm.states.len() > 0 {
                assert(m.states[0] == fsm.states[0]@);
                fsm.states[0].name.clone()
            } else {
                let none: Vec<(String, usize)> = Vec::new();
                assert(none.deep_view() =~= Seq::<(Text, usize)>::empty());
                return none;
            }
        },
    };
    let ghost r = root@;
    let mut levels = visit(fsm, root);
    let ghost found = levels.deep_view();
    proof {
        lemma_visited_all(m, r, found);
        assert(found[found.len() - 1].1 <= found.len() - 1);
    }
    let far: usize = levels[levels.len() - 1].1 + 1;
    assert(found[found.len() - 1].1 == levels[levels.len() - 1].1);
    let mut i: usize = 0;
    while i < fsm.states.len()
        invariant
            m == fsm@,
            i <= fsm.states.len(),
            found.len() <= levels.len(),
            levels.deep_view().subrange(0, found.len() as int) == found,
            distinct_entries(levels.deep_view()),
            forall|j: int|
                found.len() <= j < levels.len() ==> (#[trigger] levels.deep_view()[j]).1 == far
                    && declares_state(m, levels.deep_view()[j].0),
            forall|n: Text|
                #![trigger has_entry(levels.deep_view(), n)]
                has_entry(levels.deep_view(), n) <==> (has_entry(found, n) || named_before(
                    m,
                    i as int,
                    n,
                )),
        decreases fsm.states.len() - i,
    {
        let ghost e = levels.deep_view();
        assert(m.states[i as int] == fsm.states[i as int]@);
        let name = &fsm.states[i].name;
        assert forall|n: Text| named_before(m, i + 1, n) <==> (named_before(m, i as int, n) || n
            == name@) by {
            if named_before(m, i + 1, n) {
                let k = choose|k: int|
                    0 <= k < i + 1 && k < m.states.len() && (#[trigger] m.states[k]).name == n;
                if k < i {
                    assert(named_before(m, i as int, n));
                }
            }
            if named_before(m, i as int, n) {
                let k = choose|k: int|
                    0 <= k < i && k < m.states.len() && (#[trigger] m.states[k]).name == n;
                assert(m.states[k].name == n);
            }
            if n == name@ {
                assert(m.states[i as int].name == n);
            }
        }
        if !has_level(&levels, name) {
            levels.push((name.clone(), far));
            let ghost f = levels.deep_view();
            assert(f =~= e.push((name@, far)));
            assert(f.subrange(0, found.len() as int) =~= e.subrange(0, found.len() as int));
            assert forall|a: int, b: int| 0 <= a < b < f.len() implies (#[trigger] f[a]).0 != (
            #[trigger] f[b]).0 by {
                if b < e.len() {
                    assert(e[a].0 != e[b].0);
                } else {
                    assert(f[a] == e[a]);
                }
            }
            assert forall|j: int| found.len() <= j < f.len() implies (#[trigger] f[j]).1 == far
                && declares_state(m, f[j].0) by {
                if j < e.len() {
                    assert(f[j] == e[j]);
                } else {
                    assert(m.states[i as int].name == f[j].0);
                }
            }
            assert forall|n: Text|
                #![trigger has_entry(f, n)]
                has_entry(f, n) <==> (has_entry(found, n) || named_before(m, i + 1, n)) by {
                assert(has_entry(e, n) <==> (has_entry(found, n) || named_before(m, i as int, n)));
                if has_entry(f, n) {
                    let j = choose|j: int| 0 <= j < f.len() && (#[trigger] f[j]).0 == n;
                    if j < e.len() {
                        assert(e[j].0 == n);
                        assert(has_entry(e, n));
                    }
                }
                if has_entry(e, n) {
                    let j = choose|j: int| 0 <= j < e.len() && (#[trigger] e[j]).0 == n;
                    assert(f[j].0 == n);
                }
                if n == name@ {
                    assert(f[e.len() as int].0 == n);
                }
            }
        } else {
            assert forall|n: Text|
                #![trigger has_entry(e, n)]
                has_entry(e, n) <==> (has_entry(found, n) || named_before(m, i + 1, n)) by {
                assert(has_entry(e, n) <==> (has_entry(found, n) || named_before(m, i as int, n)));
            }
        }
        i += 1;
    }
    proof {
        let e = levels.deep_view();
        let top = found[found.len() - 1].1 as nat;
        assert forall|n: Text| has_entry(e, n) <==> (reachable(m, r, n) || declares_state(m, n)) by {
            assert(has_entry(e, n) <==> (has_entry(found, n) || named_before(
                m,
                m.states.len() as int,
                n,
            )));
            if declares_state(m, n) {
                let k = choose|k: int| 0 <= k < m.states.len() && (#[trigger] m.states[k]).name == n;
                assert(named_before(m, m.states.len() as int, n));
            }
            if named_before(m, m.states.len() as int, n) {
                let k = choose|k: int| 0 <= k < m.states.len() && (#[trigger] m.states[k]).name == n;
                assert(m.states[k].name == n);
            }
        }
        assert forall|j: int| 0 <= j < e.len() implies if reachable(m, r, (#[trigger] e[j]).0) {
            is_distance(m, r, e[j].0, e[j].1 as nat)
        } else {
            exists|top: nat| is_deepest(m, r, top) && e[j].1 == top + 1
        } by {
            if j < found.len() {
                assert(e[j] == e.subrange(0, found.len() as int)[j]);
                assert(has_entry(found, e[j].0));
            } else {
                if has_entry(found, e[j].0) {
                    let a = choose|a: int| 0 <= a < found.len() && (#[trigger] found[a]).0 == e[j].0;
                    assert(e[a] == e.subrange(0, found.len() as int)[a]);
                    assert(e[a].0 != e[j].0);
                }
                assert(is_deepest(m, r, top) && e[j].1 == top + 1);
            }
        }
    }
    levels
}

} // verus!
