//! Every rule of the grammar reads forward: what it reads ends within the
//! text, and a rule that reads a declaration ends after it began. So the
//! lists of the grammar never stand still.

use vstd::prelude::*;
use crate::text::Text;
use crate::fsm::{ChoiceBranchView, StateView, TransitionView};
use crate::parser::grammar;
use crate::parser::grammar::{Expected, ItemView, Parsed};
use crate::parser::scan::{
    char_at, comment_end, description_end, digits_end, find_char, is_space, line_end, name_end,
    name_run_end, pair_at, parameter_end, skip,
};

verus! {

/// Whether a result ends within the text and after `p`.
pub open spec fn moves<V>(r: Parsed<V>, p: int, len: int) -> bool {
    match r {
        Ok((_, e)) => p < e <= len,
        Err(_) => true,
    }
}

/// Whether a result ends within the text and not before `p`.
pub open spec fn holds<V>(r: Parsed<V>, p: int, len: int) -> bool {
    match r {
        Ok((_, e)) => p <= e <= len,
        Err(_) => true,
    }
}

/// Whether a position reached lies within the text and after `p`.
pub open spec fn moves_at(r: Result<int, grammar::Failure>, p: int, len: int) -> bool {
    match r {
        Ok(e) => p < e <= len,
        Err(_) => true,
    }
}

/// `line_end` stays within the text.
pub proof fn lemma_line_end(s: Text, p: int)
    requires
        0 <= p <= s.len(),
    ensures
        p <= line_end(s, p) <= s.len(),
    decreases s.len() - p,
{
    if p < s.len() && s[p] != '\n' {
        lemma_line_end(s, p + 1);
    }
}

/// `comment_end` stays within the text.
pub proof fn lemma_comment_end(s: Text, p: int)
    requires
        0 <= p <= s.len(),
    ensures
        match comment_end(s, p) {
            Some(q) => p + 2 <= q <= s.len(),
            None => true,
        },
    decreases s.len() - p,
{
    if p + 1 < s.len() && !(s[p] == '*' && s[p + 1] == '/') {
        lemma_comment_end(s, p + 1);
    }
}

/// `skip` stays within the text.
pub proof fn lemma_skip(s: Text, p: int)
    requires
        0 <= p <= s.len(),
    ensures
        p <= skip(s, p) <= s.len(),
    decreases s.len() - p,
{
    if p < s.len() {
        if is_space(s[p]) {
            lemma_skip(s, p + 1);
        } else if pair_at(s, p, '/', '/') {
            lemma_line_end(s, p + 2);
            lemma_skip(s, line_end(s, p + 2));
        } else if pair_at(s, p, '/', '*') {
            lemma_comment_end(s, p + 2);
            match comment_end(s, p + 2) {
                Some(q) => {
                    lemma_skip(s, q);
                },
                None => {},
            }
        }
    }
}

/// `name_run_end` stays within the text.
pub proof fn lemma_name_run_end(s: Text, p: int)
    requires
        0 <= p <= s.len(),
    ensures
        p <= name_run_end(s, p) <= s.len(),
    decreases s.len() - p,
{
    if p < s.len() && crate::parser::scan::is_name_char(s[p]) {
        lemma_name_run_end(s, p + 1);
    }
}

/// `name_end` stays within the text.
pub proof fn lemma_name_end(s: Text, p: int)
    requires
        0 <= p <= s.len(),
    ensures
        p <= name_end(s, p) <= s.len(),
{
    if p < s.len() {
        lemma_name_run_end(s, p + 1);
    }
}

/// `digits_end` stays within the text.
pub proof fn lemma_digits_end(s: Text, p: int)
    requires
        0 <= p <= s.len(),
    ensures
        p <= digits_end(s, p) <= s.len(),
    decreases s.len() - p,
{
    if p < s.len() && crate::parser::scan::is_digit(s[p]) {
        lemma_digits_end(s, p + 1);
    }
}

/// `find_char` stays within the text.
pub proof fn lemma_find_char(s: Text, p: int, c: char)
    requires
        0 <= p <= s.len(),
    ensures
        p <= find_char(s, p, c) <= s.len(),
    decreases s.len() - p,
{
    if p < s.len() && s[p] != c {
        lemma_find_char(s, p + 1, c);
    }
}

/// `description_end` stays within the text.
pub proof fn lemma_description_end(s: Text, p: int)
    requires
        0 <= p <= s.len(),
    ensures
        p <= description_end(s, p) <= s.len(),
    decreases s.len() - p,
{
    if p < s.len() && !crate::parser::scan::ends_description(s[p]) {
        lemma_description_end(s, p + 1);
    }
}

/// `parameter_end` stays within the text.
pub proof fn lemma_parameter_end(s: Text, p: int)
    requires
        0 <= p <= s.len(),
    ensures
        p <= parameter_end(s, p) <= s.len(),
    decreases s.len() - p,
{
    if p < s.len() && !crate::parser::scan::ends_parameter(s[p]) {
        lemma_parameter_end(s, p + 1);
    }
}

/// `trim_start` stays within the text.
pub proof fn lemma_trim_start(s: Text, p: int, q: int)
    requires
        0 <= p <= q <= s.len(),
    ensures
        p <= crate::parser::scan::trim_start(s, p, q) <= q,
    decreases q - p,
{
    if p < q && is_space(s[p]) {
        lemma_trim_start(s, p + 1, q);
    }
}

/// What the rule `symbol` reads ends within the text.
pub proof fn lemma_symbol(s: Text, p: int, c: char, expected: Expected)
    requires
        0 <= p <= s.len(),
    ensures
        moves_at(grammar::symbol(s, p, c, expected), p, s.len() as int),
{
    lemma_skip(s, p);
}

/// What the rule `name` reads ends within the text.
pub proof fn lemma_name(s: Text, p: int, expected: Expected)
    requires
        0 <= p <= s.len(),
    ensures
        moves(grammar::name(s, p, expected), p, s.len() as int),
{
    lemma_skip(s, p);
    lemma_name_end(s, skip(s, p));
}

/// What the rule `arrow` reads ends within the text.
pub proof fn lemma_arrow(s: Text, p: int)
    requires
        0 <= p <= s.len(),
    ensures
        moves_at(grammar::arrow(s, p), p, s.len() as int),
{
    lemma_skip(s, p);
}

/// What the rule `guard` reads ends within the text.
pub proof fn lemma_guard(s: Text, q: int)
    requires
        0 <= q < s.len(),
    ensures
        moves(grammar::guard(s, q), q, s.len() as int),
{
    lemma_find_char(s, q + 1, ']');
}

/// What the rule `optional_guard` reads ends within the text.
pub proof fn lemma_optional_guard(s: Text, p: int)
    requires
        0 <= p <= s.len(),
    ensures
        holds(grammar::optional_guard(s, p), p, s.len() as int),
{
    lemma_skip(s, p);
    if grammar::guard_at(s, skip(s, p)) {
        lemma_guard(s, skip(s, p));
    }
}

/// What the rule `parameters` reads ends within the text.
pub proof fn lemma_parameters(s: Text, p: int, acc: Seq<Text>)
    requires
        0 <= p <= s.len(),
    ensures
        moves(grammar::parameters(s, p, acc), p, s.len() as int),
    decreases s.len() - p,
{
    lemma_skip(s, p);
    let q = skip(s, p);
    lemma_parameter_end(s, q);
    let e = parameter_end(s, q);
    if !(acc.len() == 0 && char_at(s, q, ')')) {
        let text = crate::parser::scan::trimmed(s, q, e);
        if text.len() != 0 && !char_at(s, e, ')') && char_at(s, e, ',') {
            lemma_parameters(s, e + 1, acc.push(text));
        }
    }
}

/// What the rule `action` reads ends within the text.
pub proof fn lemma_action(s: Text, p: int)
    requires
        0 <= p <= s.len(),
    ensures
        moves(grammar::action(s, p), p, s.len() as int),
{
    lemma_name(s, p, Expected::Name);
    match grammar::name(s, p, Expected::Name) {
        Ok((_, e)) => {
            lemma_skip(s, e);
            if char_at(s, skip(s, e), '(') {
                lemma_parameters(s, skip(s, e) + 1, Seq::empty());
            }
        },
        Err(_) => {},
    }
}

/// What the rule `slash_action` reads ends within the text.
pub proof fn lemma_slash_action(s: Text, p: int)
    requires
        0 <= p <= s.len(),
    ensures
        moves(grammar::slash_action(s, p), p, s.len() as int),
{
    lemma_symbol(s, p, '/', Expected::Slash);
    match grammar::symbol(s, p, '/', Expected::Slash) {
        Ok(q) => {
            lemma_action(s, q);
        },
        Err(_) => {},
    }
}

/// What the rule `optional_action` reads ends within the text.
pub proof fn lemma_optional_action(s: Text, p: int)
    requires
        0 <= p <= s.len(),
    ensures
        holds(grammar::optional_action(s, p), p, s.len() as int),
{
    lemma_skip(s, p);
    if char_at(s, skip(s, p), '/') {
        lemma_action(s, skip(s, p) + 1);
    }
}

/// What the rule `description` reads ends within the text.
pub proof fn lemma_description(s: Text, p: int)
    requires
        0 <= p <= s.len(),
    ensures
        holds(grammar::description(s, p), p, s.len() as int),
{
    lemma_description_end(s, p);
    let e = description_end(s, p);
    lemma_trim_start(s, p, e);
    let a = crate::parser::scan::trim_start(s, p, e);
    if char_at(s, a, '"') {
        lemma_find_char(s, a + 1, '"');
    }
}

/// What the rule `body_item` reads ends within the text.
pub proof fn lemma_body_item(s: Text, q: int, state: Text)
    requires
        0 <= q <= s.len(),
    ensures
        moves(grammar::body_item(s, q, state), q, s.len() as int),
{
    lemma_name_end(s, q);
    let e = name_end(s, q);
    if q < e <= s.len() {
        lemma_slash_action(s, e);
        lemma_name(s, e, Expected::Name);
        lemma_optional_guard(s, e);
        match grammar::optional_guard(s, e) {
            Ok((_, e2)) => {
                lemma_slash_action(s, e2);
            },
            Err(_) => {},
        }
    }
}

/// What the rule `body` reads ends within the text.
pub proof fn lemma_body(s: Text, p: int, acc: StateView)
    requires
        0 <= p <= s.len(),
    ensures
        moves(grammar::body(s, p, acc), p, s.len() as int),
    decreases s.len() - p,
{
    lemma_skip(s, p);
    let q = skip(s, p);
    if !char_at(s, q, '}') {
        match grammar::body_item(s, q, acc.name) {
            Ok((item, e)) => {
                if p < e <= s.len() {
                    lemma_body(s, e, grammar::with_body_item(acc, item));
                }
            },
            Err(_) => {},
        }
    }
}

/// What the rule `state` reads ends within the text.
pub proof fn lemma_state(s: Text, p: int)
    requires
        0 <= p <= s.len(),
    ensures
        moves(grammar::state(s, p), p, s.len() as int),
{
    lemma_name(s, p, Expected::Name);
    match grammar::name(s, p, Expected::Name) {
        Ok((n, e)) => {
            lemma_skip(s, e);
            if char_at(s, skip(s, e), ':') {
                lemma_description(s, skip(s, e) + 1);
            }
            match grammar::optional_description(s, e) {
                Ok((d, e2)) => {
                    lemma_skip(s, e2);
                    if char_at(s, skip(s, e2), '{') {
                        lemma_body(
                            s,
                            skip(s, e2) + 1,
                            StateView { description: d, ..grammar::plain_state(n) },
                        );
                    }
                },
                Err(_) => {},
            }
        },
        Err(_) => {},
    }
}

/// What the rule `timer` reads ends within the text.
pub proof fn lemma_timer(s: Text, p: int)
    requires
        0 <= p <= s.len(),
    ensures
        moves(grammar::timer(s, p), p, s.len() as int),
{
    lemma_name(s, p, Expected::Name);
    match grammar::name(s, p, Expected::Name) {
        Ok((_, e1)) => {
            lemma_symbol(s, e1, '=', Expected::Equals);
            match grammar::symbol(s, e1, '=', Expected::Equals) {
                Ok(e2) => {
                    lemma_skip(s, e2);
                    lemma_digits_end(s, skip(s, e2));
                    match grammar::duration(s, e2) {
                        Ok((_, e3)) => {
                            lemma_arrow(s, e3);
                            match grammar::arrow(s, e3) {
                                Ok(e4) => {
                                    lemma_name(s, e4, Expected::Name);
                                    match grammar::name(s, e4, Expected::Name) {
                                        Ok((_, e5)) => {
                                            lemma_skip(s, e5);
                                            lemma_name_end(s, skip(s, e5));
                                        },
                                        Err(_) => {},
                                    }
                                },
                                Err(_) => {},
                            }
                        },
                        Err(_) => {},
                    }
                },
                Err(_) => {},
            }
        },
        Err(_) => {},
    }
}

/// What the rule `branch` reads ends within the text.
pub proof fn lemma_branch(s: Text, q: int)
    requires
        0 <= q < s.len(),
    ensures
        moves(grammar::branch(s, q), q, s.len() as int),
{
    lemma_guard(s, q);
    match grammar::guard(s, q) {
        Ok((_, e1)) => {
            lemma_arrow(s, e1);
            match grammar::arrow(s, e1) {
                Ok(e2) => {
                    lemma_name(s, e2, Expected::Name);
                    match grammar::name(s, e2, Expected::Name) {
                        Ok((_, e3)) => {
                            lemma_optional_action(s, e3);
                        },
                        Err(_) => {},
                    }
                },
                Err(_) => {},
            }
        },
        Err(_) => {},
    }
}

/// What the rule `branches` reads ends within the text.
pub proof fn lemma_branches(s: Text, p: int, acc: Seq<ChoiceBranchView>)
    requires
        0 <= p <= s.len(),
    ensures
        moves(grammar::branches(s, p, acc), p, s.len() as int),
    decreases s.len() - p,
{
    lemma_skip(s, p);
    let q = skip(s, p);
    if !char_at(s, q, '}') && char_at(s, q, '[') {
        match grammar::branch(s, q) {
            Ok((b, e)) => {
                if p < e <= s.len() {
                    lemma_branches(s, e, acc.push(b));
                }
            },
            Err(_) => {},
        }
    }
}

/// What the rule `choice` reads ends within the text.
pub proof fn lemma_choice(s: Text, p: int)
    requires
        0 <= p <= s.len(),
    ensures
        moves(grammar::choice(s, p), p, s.len() as int),
{
    lemma_name(s, p, Expected::Name);
    match grammar::name(s, p, Expected::Name) {
        Ok((_, e1)) => {
            lemma_symbol(s, e1, '{', Expected::OpenBrace);
            match grammar::symbol(s, e1, '{', Expected::OpenBrace) {
                Ok(e2) => {
                    lemma_branches(s, e2, Seq::empty());
                },
                Err(_) => {},
            }
        },
        Err(_) => {},
    }
}

/// What the rule `target` reads ends within the text.
pub proof fn lemma_target(s: Text, p: int)
    requires
        0 <= p <= s.len(),
    ensures
        moves(grammar::target(s, p), p, s.len() as int),
{
    lemma_skip(s, p);
    let q = skip(s, p);
    if pair_at(s, q, '<', '<') {
        lemma_name(s, q + 2, Expected::Name);
        match grammar::name(s, q + 2, Expected::Name) {
            Ok((_, e)) => {
                lemma_skip(s, e);
            },
            Err(_) => {},
        }
    } else {
        lemma_name(s, p, Expected::Target);
    }
}

/// What the rule `label` reads ends within the text.
pub proof fn lemma_label(s: Text, p: int, base: TransitionView)
    requires
        0 <= p <= s.len(),
    ensures
        holds(grammar::label(s, p, base), p, s.len() as int),
{
    lemma_skip(s, p);
    lemma_name_end(s, skip(s, p));
    let (_, e1) = grammar::optional_name(s, p);
    lemma_optional_guard(s, e1);
    match grammar::optional_guard(s, e1) {
        Ok((_, e2)) => {
            lemma_optional_action(s, e2);
        },
        Err(_) => {},
    }
}

/// What the rule `transition` reads ends within the text.
pub proof fn lemma_transition(s: Text, p: int, source: Text)
    requires
        0 <= p <= s.len(),
    ensures
        moves(grammar::transition(s, p, source), p, s.len() as int),
{
    lemma_arrow(s, p);
    match grammar::arrow(s, p) {
        Ok(e1) => {
            lemma_target(s, e1);
            match grammar::target(s, e1) {
                Ok((t, e2)) => {
                    lemma_skip(s, e2);
                    if char_at(s, skip(s, e2), ':') {
                        lemma_label(s, skip(s, e2) + 1, grammar::plain_transition(source, t));
                    }
                },
                Err(_) => {},
            }
        },
        Err(_) => {},
    }
}

/// A declaration of a machine ends after it begins, within the text.
pub proof fn lemma_item(s: Text, q: int)
    requires
        0 <= q <= s.len(),
    ensures
        moves(grammar::item(s, q), q, s.len() as int),
{
    if crate::parser::scan::marker_at(s, q) {
        lemma_arrow(s, q + 3);
        match grammar::arrow(s, q + 3) {
            Ok(e1) => {
                lemma_name(s, e1, Expected::Name);
            },
            Err(_) => {},
        }
    } else {
        lemma_name_end(s, q);
        let e = name_end(s, q);
        if q < e <= s.len() {
            lemma_state(s, e);
            lemma_timer(s, e);
            lemma_choice(s, e);
            lemma_transition(s, e, s.subrange(q, e));
        }
    }
}

/// What the rule `items` reads ends within the text.
pub proof fn lemma_items(s: Text, p: int, acc: Seq<ItemView>)
    requires
        0 <= p <= s.len(),
    ensures
        moves(grammar::items(s, p, acc), p, s.len() as int),
    decreases s.len() - p,
{
    lemma_skip(s, p);
    let q = skip(s, p);
    if !char_at(s, q, '}') {
        match grammar::item(s, q) {
            Ok((it, e)) => {
                if p < e <= s.len() {
                    lemma_items(s, e, acc.push(it));
                }
            },
            Err(_) => {},
        }
    }
}

/// An `fsm` block ends after it begins, within the text.
pub proof fn lemma_block(s: Text, q: int)
    requires
        0 <= q <= s.len(),
    ensures
        moves(grammar::block(s, q), q, s.len() as int),
{
    lemma_name_end(s, q);
    let e = name_end(s, q);
    if q < e <= s.len() {
        lemma_name(s, e, Expected::Name);
        match grammar::name(s, e, Expected::Name) {
            Ok((_, e1)) => {
                lemma_symbol(s, e1, '{', Expected::OpenBrace);
                match grammar::symbol(s, e1, '{', Expected::OpenBrace) {
                    Ok(e2) => {
                        lemma_items(s, e2, Seq::empty());
                    },
                    Err(_) => {},
                }
            },
            Err(_) => {},
        }
    }
}

/// The lists of the grammar never stand still: where a declaration, a
/// branch or a block is read, the list goes on behind it. The tests in
/// `items`, `body`, `branches` and `blocks` that ask for this never fail.
pub proof fn lemma_lists_go_on(s: Text, q: int, state: Text)
    requires
        0 <= q <= s.len(),
    ensures
        moves(grammar::item(s, q), q, s.len() as int),
        moves(grammar::body_item(s, q, state), q, s.len() as int),
        q < s.len() ==> moves(grammar::branch(s, q), q, s.len() as int),
        moves(grammar::block(s, q), q, s.len() as int),
{
    lemma_item(s, q);
    lemma_body_item(s, q, state);
    if q < s.len() {
        lemma_branch(s, q);
    }
    lemma_block(s, q);
}

} // verus!
