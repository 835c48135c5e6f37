//! What holds of every text and of every list of declarations: how many
//! states and transitions a machine gets, and that parsing is a function
//! of the text.

use vstd::prelude::*;
use crate::text::Text;
use crate::fsm::{FsmDefinition, FsmView, StateView, TransitionKind, TransitionView, find_state};
use crate::fsm::validation::declares_state;
use crate::parser::{ParseError, ParseErrorView, parsed};
use crate::parser::grammar;
use crate::parser::grammar::{BlockView, ItemView};
use crate::parser::lower::{apply_item, apply_items, build, empty_machine, merged_state, names_state, with_endpoint, with_state, with_state_named};

verus! {

/// Whether no two states have the same name.
pub open spec fn distinct_names(states: Seq<StateView>) -> bool {
    forall|i: int, j: int|
        0 <= i < j < states.len() ==> (#[trigger] states[i]).name != (#[trigger] states[j]).name
}

/// Whether a declaration names the state `n`: as the initial state, in a
/// state declaration, or as an end of a transition.
pub open spec fn mentions(item: ItemView, n: Text) -> bool {
    match item {
        ItemView::Initial(name) => name == n,
        ItemView::State(st) => st.name == n,
        ItemView::Transition(t) => names_state(n) && (t.source == n || t.target == n),
        _ => false,
    }
}

/// Whether one of the first `k` declarations names the state `n`.
pub open spec fn mentioned(items: Seq<ItemView>, k: int, n: Text) -> bool {
    exists|i: int| 0 <= i < k && i < items.len() && mentions(#[trigger] items[i], n)
}

/// The transitions among the first `k` declarations, in order.
pub open spec fn transitions_of(items: Seq<ItemView>, k: int) -> Seq<TransitionView>
    decreases k,
{
    if k <= 0 {
        Seq::empty()
    } else {
        match items[k - 1] {
            ItemView::Transition(t) => transitions_of(items, k - 1).push(t),
            _ => transitions_of(items, k - 1),
        }
    }
}

/// Where the search for a state ends: at the first state of that name, or
/// behind the last state if there is none.
pub proof fn lemma_find_state(states: Seq<StateView>, name: Text, from: int)
    requires
        0 <= from <= states.len(),
    ensures
        from <= find_state(states, name, from) <= states.len(),
        find_state(states, name, from) < states.len() ==> states[find_state(
            states,
            name,
            from,
        )].name == name,
        forall|k: int| from <= k < find_state(states, name, from) ==> (#[trigger] states[k]).name != name,
    decreases states.len() - from,
{
    if from < states.len() && states[from].name != name {
        lemma_find_state(states, name, from + 1);
    }
}

/// Adding a state by name keeps the names distinct and declares that name
/// and no other new one.
pub proof fn lemma_with_state_named(m: FsmView, name: Text)
    requires
        distinct_names(m.states),
    ensures
        distinct_names(with_state_named(m, name).states),
        forall|n: Text|
            declares_state(with_state_named(m, name), n) <==> (declares_state(m, n) || n == name),
        with_state_named(m, name).transitions == m.transitions,
{
    let after = with_state_named(m, name);
    if declares_state(m, name) {
    } else {
        assert forall|i: int, j: int| 0 <= i < j < after.states.len() implies (
        #[trigger] after.states[i]).name != (#[trigger] after.states[j]).name by {
            if j < m.states.len() {
                assert(m.states[i].name != m.states[j].name);
            } else {
                assert(after.states[i] == m.states[i]);
            }
        }
        assert forall|n: Text| declares_state(after, n) <==> (declares_state(m, n) || n
            == name) by {
            if declares_state(after, n) {
                let i = choose|i: int|
                    0 <= i < after.states.len() && (#[trigger] after.states[i]).name == n;
                if i < m.states.len() {
                    assert(m.states[i].name == n);
                }
            }
            if declares_state(m, n) {
                let i = choose|i: int| 0 <= i < m.states.len() && (#[trigger] m.states[i]).name == n;
                assert(after.states[i].name == n);
            }
            if n == name {
                assert(after.states[m.states.len() as int].name == n);
            }
        }
    }
}

/// Declaring a state keeps the names distinct and declares its name and
/// no other new one.
pub proof fn lemma_with_state(m: FsmView, st: StateView)
    requires
        distinct_names(m.states),
    ensures
        distinct_names(with_state(m, st).states),
        forall|n: Text| declares_state(with_state(m, st), n) <==> (declares_state(m, n) || n == st.name),
        with_state(m, st).transitions == m.transitions,
{
    let after = with_state(m, st);
    let i = find_state(m.states, st.name, 0);
    lemma_find_state(m.states, st.name, 0);
    if i < m.states.len() {
        assert(merged_state(m.states[i], st).name == st.name);
        assert forall|a: int, b: int| 0 <= a < b < after.states.len() implies (
        #[trigger] after.states[a]).name != (#[trigger] after.states[b]).name by {
            assert(after.states[a].name == m.states[a].name);
            assert(after.states[b].name == m.states[b].name);
        }
        assert forall|n: Text| declares_state(after, n) <==> (declares_state(m, n) || n
            == st.name) by {
            if declares_state(after, n) {
                let k = choose|k: int|
                    0 <= k < after.states.len() && (#[trigger] after.states[k]).name == n;
                assert(m.states[k].name == n);
            }
            if declares_state(m, n) {
                let k = choose|k: int| 0 <= k < m.states.len() && (#[trigger] m.states[k]).name == n;
                assert(after.states[k].name == n);
            }
            if n == st.name {
                assert(after.states[i].name == n);
            }
        }
    } else {
        assert forall|a: int, b: int| 0 <= a < b < after.states.len() implies (
        #[trigger] after.states[a]).name != (#[trigger] after.states[b]).name by {
            if b < m.states.len() {
                assert(m.states[a].name != m.states[b].name);
            } else {
                assert(after.states[a] == m.states[a]);
            }
        }
        assert forall|n: Text| declares_state(after, n) <==> (declares_state(m, n) || n
            == st.name) by {
            if declares_state(after, n) {
                let k = choose|k: int|
                    0 <= k < after.states.len() && (#[trigger] after.states[k]).name == n;
                if k < m.states.len() {
                    assert(m.states[k].name == n);
                }
            }
            if declares_state(m, n) {
                let k = choose|k: int| 0 <= k < m.states.len() && (#[trigger] m.states[k]).name == n;
                assert(after.states[k].name == n);
            }
            if n == st.name {
                assert(after.states[m.states.len() as int].name == n);
            }
        }
    }
}

/// One declaration keeps the names of the states distinct, declares the
/// states that it names and no others, and adds itself to the transitions
/// if it is one.
pub proof fn lemma_apply_item(m: FsmView, item: ItemView)
    requires
        distinct_names(m.states),
    ensures
        distinct_names(apply_item(m, item).states),
        forall|n: Text| declares_state(apply_item(m, item), n) <==> (declares_state(m, n) || mentions(item, n)),
        apply_item(m, item).transitions == (match item {
            ItemView::Transition(t) => m.transitions.push(t),
            _ => m.transitions,
        }),
{
    let after = apply_item(m, item);
    match item {
        ItemView::Initial(name) => {
            let base = FsmView { initial_state: Some(name), ..m };
            lemma_with_state_named(base, name);
            assert forall|n: Text| declares_state(base, n) <==> declares_state(m, n) by {
                if declares_state(base, n) {
                    let k = choose|k: int|
                        0 <= k < base.states.len() && (#[trigger] base.states[k]).name == n;
                    assert(m.states[k].name == n);
                }
                if declares_state(m, n) {
                    let k = choose|k: int|
                        0 <= k < m.states.len() && (#[trigger] m.states[k]).name == n;
                    assert(base.states[k].name == n);
                }
            }
        },
        ItemView::State(st) => {
            lemma_with_state(m, st);
        },
        ItemView::Transition(t) => {
            let first = with_endpoint(m, t.source);
            if names_state(t.source) {
                lemma_with_state_named(m, t.source);
            }
            let second = with_endpoint(first, t.target);
            if names_state(t.target) {
                lemma_with_state_named(first, t.target);
            }
            assert(after.states == second.states);
            assert forall|n: Text| declares_state(after, n) <==> (declares_state(m, n) || mentions(
                item,
                n,
            )) by {
                assert(declares_state(after, n) <==> declares_state(second, n)) by {
                    if declares_state(after, n) {
                        let k = choose|k: int|
                            0 <= k < after.states.len() && (#[trigger] after.states[k]).name == n;
                        assert(second.states[k].name == n);
                    }
                    if declares_state(second, n) {
                        let k = choose|k: int|
                            0 <= k < second.states.len() && (#[trigger] second.states[k]).name
                                == n;
                        assert(after.states[k].name == n);
                    }
                }
                assert(declares_state(second, n) <==> (declares_state(first, n) || (names_state(
                    t.target,
                ) && n == t.target)));
                assert(declares_state(first, n) <==> (declares_state(m, n) || (names_state(
                    t.source,
                ) && n == t.source)));
            }
        },
        _ => {
            assert(after.states == m.states);
            assert forall|n: Text| declares_state(after, n) <==> declares_state(m, n) by {
                if declares_state(after, n) {
                    let k = choose|k: int|
                        0 <= k < after.states.len() && (#[trigger] after.states[k]).name == n;
                    assert(m.states[k].name == n);
                }
                if declares_state(m, n) {
                    let k = choose|k: int|
                        0 <= k < m.states.len() && (#[trigger] m.states[k]).name == n;
                    assert(after.states[k].name == n);
                }
            }
        },
    }
}

/// After the first `k` declarations the machine has exactly the
/// transitions among them, and exactly one state for each state name
/// among them.
pub proof fn lemma_apply_items(name: Text, items: Seq<ItemView>, k: int)
    requires
        0 <= k <= items.len(),
    ensures
        apply_items(empty_machine(name), items, k).transitions == transitions_of(items, k),
        distinct_names(apply_items(empty_machine(name), items, k).states),
        forall|n: Text|
            declares_state(apply_items(empty_machine(name), items, k), n) <==> mentioned(
                items,
                k,
                n,
            ),
    decreases k,
{
    let m = apply_items(empty_machine(name), items, k);
    if k == 0 {
        assert forall|n: Text| declares_state(m, n) <==> mentioned(items, k, n) by {}
    } else {
        let before = apply_items(empty_machine(name), items, k - 1);
        lemma_apply_items(name, items, k - 1);
        lemma_apply_item(before, items[k - 1]);
        assert forall|n: Text| declares_state(m, n) <==> mentioned(items, k, n) by {
            assert(declares_state(m, n) <==> (declares_state(before, n) || mentions(
                items[k - 1],
                n,
            )));
            assert(declares_state(before, n) <==> mentioned(items, k - 1, n));
            if mentioned(items, k, n) {
                let i = choose|i: int|
                    0 <= i < k && i < items.len() && mentions(#[trigger] items[i], n);
                if i < k - 1 {
                    assert(mentioned(items, k - 1, n));
                }
            }
            if mentioned(items, k - 1, n) {
                let i = choose|i: int|
                    0 <= i < k - 1 && i < items.len() && mentions(#[trigger] items[i], n);
                assert(mentions(items[i], n));
            }
            if mentions(items[k - 1], n) {
                assert(mentioned(items, k, n));
            }
        }
    }
}

/// The machine built from a block has exactly the transitions that the
/// block declares, in order, and exactly one state for each state name
/// that the block declares or names as the initial state or as an end of
/// a transition: the declared states and those that only a transition or
/// the initial marker names, none twice.
pub proof fn lemma_build_counts(b: BlockView)
    ensures
        build(b).transitions == transitions_of(b.items, b.items.len() as int),
        distinct_names(build(b).states),
        forall|n: Text| declares_state(build(b), n) <==> mentioned(b.items, b.items.len() as int, n),
{
    lemma_apply_items(b.name, b.items, b.items.len() as int);
}

/// Whether every transition among the declarations is external.
pub open spec fn all_external(items: Seq<ItemView>) -> bool {
    forall|i: int|
        0 <= i < items.len() ==> match #[trigger] items[i] {
            ItemView::Transition(t) => t.kind == TransitionKind::External,
            _ => true,
        }
}

/// A transition that the grammar reads among the declarations of a
/// machine is external.
pub proof fn lemma_item_external(s: Text, q: int)
    ensures
        match grammar::item(s, q) {
            Ok((ItemView::Transition(t), _)) => t.kind == TransitionKind::External,
            _ => true,
        },
{
}

/// The declarations that the grammar reads hold external transitions
/// only.
pub proof fn lemma_items_external(s: Text, p: int, acc: Seq<ItemView>)
    requires
        all_external(acc),
    ensures
        match grammar::items(s, p, acc) {
            Ok((items, _)) => all_external(items),
            Err(_) => true,
        },
    decreases s.len() - p,
{
    let q = crate::parser::scan::skip(s, p);
    if crate::parser::scan::char_at(s, q, '}') {
    } else {
        match grammar::item(s, q) {
            Err(_) => {},
            Ok((it, e)) => {
                if p < e <= s.len() {
                    lemma_item_external(s, q);
                    let next = acc.push(it);
                    assert forall|i: int| 0 <= i < next.len() implies match #[trigger] next[i] {
                        ItemView::Transition(t) => t.kind == TransitionKind::External,
                        _ => true,
                    } by {
                        if i < acc.len() {
                            assert(next[i] == acc[i]);
                        }
                    }
                    lemma_items_external(s, e, next);
                }
            },
        }
    }
}

/// Whether every block holds external transitions only.
pub open spec fn blocks_external(bs: Seq<BlockView>) -> bool {
    forall|i: int| 0 <= i < bs.len() ==> all_external((#[trigger] bs[i]).items)
}

/// The blocks that the grammar reads hold external transitions only.
pub proof fn lemma_blocks_external(s: Text, p: int, acc: Seq<BlockView>)
    requires
        blocks_external(acc),
    ensures
        match grammar::blocks(s, p, acc) {
            Ok(bs) => blocks_external(bs),
            Err(_) => true,
        },
    decreases s.len() - p,
{
    let q = crate::parser::scan::skip(s, p);
    if q < 0 || q >= s.len() {
    } else {
        match grammar::block(s, q) {
            Err(_) => {},
            Ok((b, e)) => {
                if p < e <= s.len() {
                    assert(all_external(b.items)) by {
                        let e0 = crate::parser::scan::name_end(s, q);
                        match grammar::name(s, e0, grammar::Expected::Name) {
                            Err(_) => {},
                            Ok((n, e1)) => match grammar::symbol(
                                s,
                                e1,
                                '{',
                                grammar::Expected::OpenBrace,
                            ) {
                                Err(_) => {},
                                Ok(e2) => {
                                    lemma_items_external(s, e2, Seq::empty());
                                },
                            },
                        }
                    }
                    let next = acc.push(b);
                    assert forall|i: int| 0 <= i < next.len() implies all_external(
                        (#[trigger] next[i]).items,
                    ) by {
                        if i < acc.len() {
                            assert(next[i] == acc[i]);
                        }
                    }
                    lemma_blocks_external(s, e, next);
                }
            },
        }
    }
}

/// Round trip. Where a text parses, each machine of the result comes from
/// one `fsm` block of the text, in order, and has
/// - exactly the transitions that the block declares, in order, each of
///   them external;
/// - exactly one state for each name that the block declares as a state or
///   names as the initial state or as an end of a transition.
pub proof fn lemma_round_trip(s: Text)
    requires
        parsed(s) is Ok,
    ensures
        grammar::file(s) is Ok,
        parsed(s)->Ok_0.len() == grammar::file(s)->Ok_0.len(),
        forall|i: int|
            #![trigger parsed(s)->Ok_0[i]]
            0 <= i < parsed(s)->Ok_0.len() ==> {
                let b = grammar::file(s)->Ok_0[i];
                let m = parsed(s)->Ok_0[i];
                &&& m == build(b)
                &&& m.transitions == transitions_of(b.items, b.items.len() as int)
                &&& all_external(b.items)
                &&& distinct_names(m.states)
                &&& forall|n: Text|
                    declares_state(m, n) <==> mentioned(b.items, b.items.len() as int, n)
            },
{
    let bs = grammar::file(s)->Ok_0;
    lemma_blocks_external(s, 0, Seq::empty());
    assert forall|i: int|
        #![trigger parsed(s)->Ok_0[i]]
        0 <= i < parsed(s)->Ok_0.len() implies {
        let b = grammar::file(s)->Ok_0[i];
        let m = parsed(s)->Ok_0[i];
        &&& m == build(b)
        &&& m.transitions == transitions_of(b.items, b.items.len() as int)
        &&& all_external(b.items)
        &&& distinct_names(m.states)
        &&& forall|n: Text| declares_state(m, n) <==> mentioned(b.items, b.items.len() as int, n)
    } by {
        lemma_build_counts(bs[i]);
        assert(all_external(bs[i].items));
    }
}

/// Whether `r` is what parsing the text `s` returns.
pub open spec fn is_parse_of(r: Result<Vec<FsmDefinition>, ParseError>, s: Text) -> bool {
    match r {
        Ok(ms) => parsed(s) == Ok::<Seq<FsmView>, ParseErrorView>(ms.deep_view()),
        Err(e) => parsed(s) == Err::<Seq<FsmView>, ParseErrorView>(e@),
    }
}

/// Determinism. Two results of parsing the same text are equal: both are
/// the same list of models, or both are the same error.
pub proof fn lemma_parse_deterministic(
    s: Text,
    first: Result<Vec<FsmDefinition>, ParseError>,
    second: Result<Vec<FsmDefinition>, ParseError>,
)
    requires
        is_parse_of(first, s),
        is_parse_of(second, s),
    ensures
        match (first, second) {
            (Ok(a), Ok(b)) => a.deep_view() == b.deep_view(),
            (Err(a), Err(b)) => a@ == b@,
            _ => false,
        },
{
}

} // verus!
