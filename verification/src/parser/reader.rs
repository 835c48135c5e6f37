//! The executable parser: for each rule of the grammar a function that
//! reads what the rule describes.

use vstd::prelude::*;
use crate::text::{from_chars, to_chars};
use crate::fsm::{
    Action, ChoiceBranch, ChoicePoint, Event, Guard, State, StateType, Timer, TimerMode,
    Transition, TransitionKind, choice_ref, initial_marker,
};
use crate::parser::scan::{
    skip_blank, at_char, at_pair, at_marker, find_name_end, find_digits_end, seek_char,
    find_description_end, find_parameter_end, trim_bounds, trimmed_string, read_duration,
};
use crate::parser::grammar;
use crate::parser::grammar::{Expected, Failure, Fault, Parsed};
use crate::parser::tree::{Block, BodyItem, Item};
use crate::lists::{empty_list, push_item};

verus! {

/// Whether what was read is what the grammar says, value and position.
pub open spec fn agrees<T: DeepView>(r: Result<(T, usize), Fault>, e: Parsed<T::V>) -> bool {
    match r {
        Ok((v, q)) => e == Ok::<(T::V, int), Failure>((v.deep_view(), q as int)),
        Err(f) => e == Err::<(T::V, int), Failure>(f@),
    }
}

/// Whether the position reached is the one the grammar says.
pub open spec fn agrees_at(r: Result<usize, Fault>, e: Result<int, Failure>) -> bool {
    match r {
        Ok(q) => e == Ok::<int, Failure>(q as int),
        Err(f) => e == Err::<int, Failure>(f@),
    }
}

/// Whether what was read ends within the text and after `p`, or the
/// fault lies within the text.
pub open spec fn advances<T>(r: Result<(T, usize), Fault>, p: usize, len: usize) -> bool {
    match r {
        Ok((_, q)) => p < q <= len,
        Err(f) => f.at <= len,
    }
}

/// Whether what was read ends within the text and not before `p`, or the
/// fault lies within the text.
pub open spec fn stays<T>(r: Result<(T, usize), Fault>, p: usize, len: usize) -> bool {
    match r {
        Ok((_, q)) => p <= q <= len,
        Err(f) => f.at <= len,
    }
}

/// Whether the position reached lies within the text and after `p`, or
/// the fault lies within the text.
pub open spec fn advances_at(r: Result<usize, Fault>, p: usize, len: usize) -> bool {
    match r {
        Ok(q) => p < q <= len,
        Err(f) => f.at <= len,
    }
}

/// Whether the text between `q` and `e` is the word `w`.
pub fn word_is(s: &Vec<char>, q: usize, e: usize, w: &str) -> (b: bool)
    requires
        q <= e <= s.len(),
    ensures
        b == (s@.subrange(q as int, e as int) == w@),
{
    let word = to_chars(w);
    if word.len() != e - q {
        return false;
    }
    let mut i: usize = 0;
    while i < word.len()
        invariant
            i <= word.len(),
            word.len() == e - q,
            q <= e <= s.len(),
            word@ == w@,
            forall|k: int| 0 <= k < i ==> s@[q + k] == word@[k],
        decreases word.len() - i,
    {
        if s[q + i] != word[i] {
            assert(s@.subrange(q as int, e as int)[i as int] != w@[i as int]);
            return false;
        }
        i += 1;
    }
    assert(s@.subrange(q as int, e as int) =~= w@);
    true
}

/// Reads the character `c` as the next token.
pub fn read_symbol(s: &Vec<char>, p: usize, c: char, expected: Expected) -> (r: Result<
    usize,
    Fault,
>)
    requires
        p <= s.len(),
    ensures
        agrees_at(r, grammar::symbol(s@, p as int, c, expected)),
        advances_at(r, p, s.len()),
{
    let q = skip_blank(s, p);
    if at_char(s, q, c) {
        Ok(q + 1)
    } else {
        Err(Fault { at: q, expected })
    }
}

/// Reads a name as the next token.
pub fn read_name(s: &Vec<char>, p: usize, expected: Expected) -> (r: Result<(String, usize), Fault>)
    requires
        p <= s.len(),
    ensures
        agrees(r, grammar::name(s@, p as int, expected)),
        advances(r, p, s.len()),
{
    let q = skip_blank(s, p);
    let e = find_name_end(s, q);
    if q < e {
        Ok((from_chars(s, q, e), e))
    } else {
        Err(Fault { at: q, expected })
    }
}

/// Reads an arrow as the next token.
pub fn read_arrow(s: &Vec<char>, p: usize) -> (r: Result<usize, Fault>)
    requires
        p <= s.len(),
    ensures
        agrees_at(r, grammar::arrow(s@, p as int)),
        advances_at(r, p, s.len()),
{
    let q = skip_blank(s, p);
    if at_pair(s, q, '-', '-') && at_char(s, q + 2, '>') {
        Ok(q + 3)
    } else if at_pair(s, q, '-', '>') {
        Ok(q + 2)
    } else {
        Err(Fault { at: q, expected: Expected::Arrow })
    }
}

/// Whether a guard begins at `q`.
pub fn at_guard(s: &Vec<char>, q: usize) -> (b: bool)
    ensures
        b == grammar::guard_at(s@, q as int),
{
    at_char(s, q, '[') && !at_marker(s, q)
}

/// Reads the guard whose `[` stands at `q`.
pub fn read_guard(s: &Vec<char>, q: usize) -> (r: Result<(String, usize), Fault>)
    requires
        q < s.len(),
    ensures
        agrees(r, grammar::guard(s@, q as int)),
        advances(r, q, s.len()),
{
    let e = seek_char(s, q + 1, ']');
    if e < s.len() {
        Ok((trimmed_string(s, q + 1, e), e + 1))
    } else {
        Err(Fault { at: e, expected: Expected::CloseBracket })
    }
}

/// Reads a guard if one comes next.
pub fn read_optional_guard(s: &Vec<char>, p: usize) -> (r: Result<(Option<String>, usize), Fault>)
    requires
        p <= s.len(),
    ensures
        agrees(r, grammar::optional_guard(s@, p as int)),
        stays(r, p, s.len()),
{
    let q = skip_blank(s, p);
    if at_guard(s, q) {
        let (g, e) = read_guard(s, q)?;
        Ok((Some(g), e))
    } else {
        Ok((None, p))
    }
}

/// Reads the parameters of an action up to the closing parenthesis.
pub fn read_parameters(s: &Vec<char>, p: usize) -> (r: Result<(Vec<String>, usize), Fault>)
    requires
        p <= s.len(),
    ensures
        agrees(r, grammar::parameters(s@, p as int, Seq::empty())),
        advances(r, p, s.len()),
{
    let mut acc: Vec<String> = empty_list();
    let mut at: usize = p;
    loop
        invariant
            p <= at <= s.len(),
            grammar::parameters(s@, p as int, Seq::empty()) == grammar::parameters(
                s@,
                at as int,
                acc.deep_view(),
            ),
        decreases s.len() - at,
    {
        let q = skip_blank(s, at);
        if acc.len() == 0 && at_char(s, q, ')') {
            return Ok((acc, q + 1));
        }
        let e = find_parameter_end(s, q);
        let (a, b) = trim_bounds(s, q, e);
        if a == b {
            return Err(Fault { at: q, expected: Expected::Parameter });
        }
        let text = from_chars(s, a, b);
        push_item(&mut acc, text);
        if at_char(s, e, ')') {
            return Ok((acc, e + 1));
        } else if at_char(s, e, ',') {
            at = e + 1;
        } else {
            return Err(Fault { at: e, expected: Expected::CloseParen });
        }
    }
}

/// Reads an action.
pub fn read_action(s: &Vec<char>, p: usize) -> (r: Result<(Action, usize), Fault>)
    requires
        p <= s.len(),
    ensures
        agrees(r, grammar::action(s@, p as int)),
        advances(r, p, s.len()),
{
    let (name, e) = read_name(s, p, Expected::Name)?;
    let q = skip_blank(s, e);
    if at_char(s, q, '(') {
        let (params, e2) = read_parameters(s, q + 1)?;
        Ok((Action { name, params }, e2))
    } else {
        Ok((Action { name, params: empty_list() }, e))
    }
}

/// Reads a slash and an action.
pub fn read_slash_action(s: &Vec<char>, p: usize) -> (r: Result<(Action, usize), Fault>)
    requires
        p <= s.len(),
    ensures
        agrees(r, grammar::slash_action(s@, p as int)),
        advances(r, p, s.len()),
{
    let q = read_symbol(s, p, '/', Expected::Slash)?;
    read_action(s, q)
}

/// Reads a slash and an action if a slash comes next.
pub fn read_optional_action(s: &Vec<char>, p: usize) -> (r: Result<(Option<Action>, usize), Fault>)
    requires
        p <= s.len(),
    ensures
        agrees(r, grammar::optional_action(s@, p as int)),
        stays(r, p, s.len()),
{
    let q = skip_blank(s, p);
    if at_char(s, q, '/') {
        let (a, e) = read_action(s, q + 1)?;
        Ok((Some(a), e))
    } else {
        Ok((None, p))
    }
}

/// Reads the description after a colon.
pub fn read_description(s: &Vec<char>, p: usize) -> (r: Result<(String, usize), Fault>)
    requires
        p <= s.len(),
    ensures
        agrees(r, grammar::description(s@, p as int)),
        stays(r, p, s.len()),
{
    let e = find_description_end(s, p);
    let (a, _b) = trim_bounds(s, p, e);
    if at_char(s, a, '"') {
        let close = seek_char(s, a + 1, '"');
        if close < s.len() {
            Ok((from_chars(s, a + 1, close), close + 1))
        } else {
            Err(Fault { at: close, expected: Expected::Quote })
        }
    } else {
        Ok((trimmed_string(s, p, e), e))
    }
}

/// The action that starts or stops the timer `timer`.
pub fn make_timer_action(prefix: &str, timer: String) -> (a: Action)
    ensures
        a@ == grammar::timer_action(prefix@, timer@),
{
    let mut name = prefix.to_owned();
    name.append(timer.as_str());
    let mut params: Vec<String> = empty_list();
    push_item(&mut params, timer);
    assert(params.deep_view() =~= seq![timer@]);
    Action { name, params }
}

/// Reads the declaration inside a state that begins with the name at `q`.
pub fn read_body_item(s: &Vec<char>, q: usize, state: &String) -> (r: Result<
    (BodyItem, usize),
    Fault,
>)
    requires
        q <= s.len(),
    ensures
        agrees(r, grammar::body_item(s@, q as int, state@)),
        advances(r, q, s.len()),
{
    let e = find_name_end(s, q);
    if !(q < e) {
        return Err(Fault { at: q, expected: Expected::BodyItem });
    }
    if word_is(s, q, e, "entry") {
        let (a, e2) = read_slash_action(s, e)?;
        Ok((BodyItem::Entry(a), e2))
    } else if word_is(s, q, e, "exit") {
        let (a, e2) = read_slash_action(s, e)?;
        Ok((BodyItem::Exit(a), e2))
    } else if word_is(s, q, e, "start_timer") {
        let (t, e2) = read_name(s, e, Expected::Name)?;
        Ok((BodyItem::Entry(make_timer_action("start_timer_", t)), e2))
    } else if word_is(s, q, e, "stop_timer") {
        let (t, e2) = read_name(s, e, Expected::Name)?;
        Ok((BodyItem::Exit(make_timer_action("stop_timer_", t)), e2))
    } else {
        let event = from_chars(s, q, e);
        let (g, e2) = read_optional_guard(s, e)?;
        let (a, e3) = read_slash_action(s, e2)?;
        let guard = match g {
            Some(text) => Some(Guard { expression: text }),
            None => None,
        };
        let t = Transition {
            source: state.clone(),
            target: state.clone(),
            event: Some(Event { name: event }),
            guard,
            action: Some(a),
            kind: TransitionKind::Internal,
        };
        Ok((BodyItem::Internal(t), e3))
    }
}

/// Reads the body of a state up to the closing brace, added to `base`.
pub fn read_body(s: &Vec<char>, p: usize, base: State) -> (r: Result<(State, usize), Fault>)
    requires
        p <= s.len(),
    ensures
        agrees(r, grammar::body(s@, p as int, base@)),
        advances(r, p, s.len()),
{
    let mut acc = base;
    let mut at: usize = p;
    loop
        invariant
            p <= at <= s.len(),
            grammar::body(s@, p as int, base@) == grammar::body(s@, at as int, acc@),
        decreases s.len() - at,
    {
        let q = skip_blank(s, at);
        if at_char(s, q, '}') {
            return Ok((acc, q + 1));
        }
        let ghost before = acc@;
        let (item, e) = read_body_item(s, q, &acc.name)?;
        match item {
            BodyItem::Entry(a) => {
                push_item(&mut acc.entry_actions, a);
            },
            BodyItem::Exit(a) => {
                push_item(&mut acc.exit_actions, a);
            },
            BodyItem::Internal(t) => {
                push_item(&mut acc.internal_transitions, t);
            },
        }
        assert(acc@ == grammar::with_body_item(before, item@));
        at = e;
    }
}

/// Reads a description if a colon comes next.
pub fn read_optional_description(s: &Vec<char>, p: usize) -> (r: Result<
    (Option<String>, usize),
    Fault,
>)
    requires
        p <= s.len(),
    ensures
        agrees(r, grammar::optional_description(s@, p as int)),
        stays(r, p, s.len()),
{
    let q = skip_blank(s, p);
    if at_char(s, q, ':') {
        let (d, e) = read_description(s, q + 1)?;
        Ok((Some(d), e))
    } else {
        Ok((None, p))
    }
}

/// Reads a state declaration after the word `state`.
pub fn read_state(s: &Vec<char>, p: usize) -> (r: Result<(State, usize), Fault>)
    requires
        p <= s.len(),
    ensures
        agrees(r, grammar::state(s@, p as int)),
        advances(r, p, s.len()),
{
    let (name, e) = read_name(s, p, Expected::Name)?;
    let (description, e2) = read_optional_description(s, e)?;
    let base = State {
        name,
        description,
        state_type: StateType::Simple,
        entry_actions: empty_list(),
        exit_actions: empty_list(),
        internal_transitions: empty_list(),
        sub_fsm: None,
    };
    let q = skip_blank(s, e2);
    if at_char(s, q, '{') {
        read_body(s, q + 1, base)
    } else {
        Ok((base, e2))
    }
}

/// Reads the digits of a duration as the next token.
pub fn read_duration_token(s: &Vec<char>, p: usize) -> (r: Result<(u32, usize), Fault>)
    requires
        p <= s.len(),
    ensures
        agrees(r, grammar::duration(s@, p as int)),
        advances(r, p, s.len()),
{
    let q = skip_blank(s, p);
    let e = find_digits_end(s, q);
    if q < e {
        Ok((read_duration(s, q, e), e))
    } else {
        Err(Fault { at: q, expected: Expected::Number })
    }
}

/// Reads the mode of a timer.
pub fn read_timer_mode(s: &Vec<char>, p: usize) -> (r: (TimerMode, usize))
    requires
        p <= s.len(),
    ensures
        r.0 == grammar::timer_mode(s@, p as int).0,
        r.1 == grammar::timer_mode(s@, p as int).1,
        p <= r.1 <= s.len(),
{
    let q = skip_blank(s, p);
    let e = find_name_end(s, q);
    if q < e && word_is(s, q, e, "periodic") {
        (TimerMode::Periodic, e)
    } else {
        (TimerMode::OneShot, p)
    }
}

/// Reads a timer declaration after the word `timer`.
pub fn read_timer(s: &Vec<char>, p: usize) -> (r: Result<(Timer, usize), Fault>)
    requires
        p <= s.len(),
    ensures
        agrees(r, grammar::timer(s@, p as int)),
        advances(r, p, s.len()),
{
    let (name, e1) = read_name(s, p, Expected::Name)?;
    let e2 = read_symbol(s, e1, '=', Expected::Equals)?;
    let (duration_ms, e3) = read_duration_token(s, e2)?;
    let e4 = read_arrow(s, e3)?;
    let (event, e5) = read_name(s, e4, Expected::Name)?;
    let (mode, e6) = read_timer_mode(s, e5);
    Ok((Timer { name, duration_ms, event: Event { name: event }, mode, auto_start_state: None }, e6))
}

/// Reads the branch of a choice point whose guard begins at `q`.
pub fn read_branch(s: &Vec<char>, q: usize) -> (r: Result<(ChoiceBranch, usize), Fault>)
    requires
        q < s.len(),
    ensures
        agrees(r, grammar::branch(s@, q as int)),
        advances(r, q, s.len()),
{
    let (g, e1) = read_guard(s, q)?;
    let e2 = read_arrow(s, e1)?;
    let (target, e3) = read_name(s, e2, Expected::Name)?;
    let (action, e4) = read_optional_action(s, e3)?;
    Ok((ChoiceBranch { guard: Guard { expression: g }, target, action }, e4))
}

/// Reads the branches of a choice point up to the closing brace.
pub fn read_branches(s: &Vec<char>, p: usize) -> (r: Result<(Vec<ChoiceBranch>, usize), Fault>)
    requires
        p <= s.len(),
    ensures
        agrees(r, grammar::branches(s@, p as int, Seq::empty())),
        advances(r, p, s.len()),
{
    let mut acc: Vec<ChoiceBranch> = empty_list();
    let mut at: usize = p;
    loop
        invariant
            p <= at <= s.len(),
            grammar::branches(s@, p as int, Seq::empty()) == grammar::branches(
                s@,
                at as int,
                acc.deep_view(),
            ),
        decreases s.len() - at,
    {
        let q = skip_blank(s, at);
        if at_char(s, q, '}') {
            return Ok((acc, q + 1));
        } else if at_char(s, q, '[') {
            let (b, e) = read_branch(s, q)?;
            push_item(&mut acc, b);
            at = e;
        } else {
            return Err(Fault { at: q, expected: Expected::Branch });
        }
    }
}

/// Reads a choice point after the word `choice`.
pub fn read_choice(s: &Vec<char>, p: usize) -> (r: Result<(ChoicePoint, usize), Fault>)
    requires
        p <= s.len(),
    ensures
        agrees(r, grammar::choice(s@, p as int)),
        advances(r, p, s.len()),
{
    let (name, e1) = read_name(s, p, Expected::Name)?;
    let e2 = read_symbol(s, e1, '{', Expected::OpenBrace)?;
    let (branches, e3) = read_branches(s, e2)?;
    Ok((ChoicePoint { name, branches }, e3))
}

/// Reads the target of a transition.
pub fn read_target(s: &Vec<char>, p: usize) -> (r: Result<(String, usize), Fault>)
    requires
        p <= s.len(),
    ensures
        agrees(r, grammar::target(s@, p as int)),
        advances(r, p, s.len()),
{
    let q = skip_blank(s, p);
    if at_pair(s, q, '<', '<') {
        let (n, e) = read_name(s, q + 2, Expected::Name)?;
        let c = skip_blank(s, e);
        if at_pair(s, c, '>', '>') {
            let mut text = String::new();
            text.push('<');
            text.push('<');
            text.append(n.as_str());
            text.push('>');
            text.push('>');
            assert(text@ =~= choice_ref(n@));
            Ok((text, c + 2))
        } else {
            Err(Fault { at: c, expected: Expected::CloseChoice })
        }
    } else if at_marker(s, q) {
        let mut text = String::new();
        text.push('[');
        text.push('*');
        text.push(']');
        assert(text@ =~= initial_marker());
        Ok((text, q + 3))
    } else {
        read_name(s, p, Expected::Target)
    }
}

/// Reads a name if one comes next.
pub fn read_optional_name(s: &Vec<char>, p: usize) -> (r: (Option<String>, usize))
    requires
        p <= s.len(),
    ensures
        r.0.deep_view() == grammar::optional_name(s@, p as int).0,
        r.1 == grammar::optional_name(s@, p as int).1,
        p <= r.1 <= s.len(),
{
    let q = skip_blank(s, p);
    let e = find_name_end(s, q);
    if q < e {
        (Some(from_chars(s, q, e)), e)
    } else {
        (None, p)
    }
}

/// Reads the label of a transition after its colon.
pub fn read_label(s: &Vec<char>, p: usize, base: Transition) -> (r: Result<
    (Transition, usize),
    Fault,
>)
    requires
        p <= s.len(),
    ensures
        agrees(r, grammar::label(s@, p as int, base@)),
        stays(r, p, s.len()),
{
    let (event, e1) = read_optional_name(s, p);
    let (g, e2) = read_optional_guard(s, e1)?;
    let (action, e3) = read_optional_action(s, e2)?;
    let mut t = base;
    t.event = match event {
        Some(name) => Some(Event { name }),
        None => None,
    };
    t.guard = match g {
        Some(text) => Some(Guard { expression: text }),
        None => None,
    };
    t.action = action;
    Ok((t, e3))
}

/// Reads a transition after its source name.
pub fn read_transition(s: &Vec<char>, p: usize, source: String) -> (r: Result<
    (Transition, usize),
    Fault,
>)
    requires
        p <= s.len(),
    ensures
        agrees(r, grammar::transition(s@, p as int, source@)),
        advances(r, p, s.len()),
{
    let e1 = read_arrow(s, p)?;
    let (target, e2) = read_target(s, e1)?;
    let base = Transition {
        source,
        target,
        event: None,
        guard: None,
        action: None,
        kind: TransitionKind::External,
    };
    let q = skip_blank(s, e2);
    if at_char(s, q, ':') {
        read_label(s, q + 1, base)
    } else {
        Ok((base, e2))
    }
}

/// Reads the declaration inside a machine that begins at `q`.
pub fn read_item(s: &Vec<char>, q: usize) -> (r: Result<(Item, usize), Fault>)
    requires
        q <= s.len(),
    ensures
        agrees(r, grammar::item(s@, q as int)),
        advances(r, q, s.len()),
{
    if at_marker(s, q) {
        let e1 = read_arrow(s, q + 3)?;
        let (n, e2) = read_name(s, e1, Expected::Name)?;
        return Ok((Item::Initial(n), e2));
    }
    let e = find_name_end(s, q);
    if !(q < e) {
        return Err(Fault { at: q, expected: Expected::Item });
    }
    if word_is(s, q, e, "state") {
        let (v, e2) = read_state(s, e)?;
        Ok((Item::State(v), e2))
    } else if word_is(s, q, e, "timer") {
        let (v, e2) = read_timer(s, e)?;
        Ok((Item::Timer(v), e2))
    } else if word_is(s, q, e, "choice") {
        let (v, e2) = read_choice(s, e)?;
        Ok((Item::Choice(v), e2))
    } else {
        let source = from_chars(s, q, e);
        let (v, e2) = read_transition(s, e, source)?;
        Ok((Item::Transition(v), e2))
    }
}

/// Reads the declarations of a machine up to the closing brace.
pub fn read_items(s: &Vec<char>, p: usize) -> (r: Result<(Vec<Item>, usize), Fault>)
    requires
        p <= s.len(),
    ensures
        agrees(r, grammar::items(s@, p as int, Seq::empty())),
        advances(r, p, s.len()),
{
    let mut acc: Vec<Item> = empty_list();
    let mut at: usize = p;
    loop
        invariant
            p <= at <= s.len(),
            grammar::items(s@, p as int, Seq::empty()) == grammar::items(
                s@,
                at as int,
                acc.deep_view(),
            ),
        decreases s.len() - at,
    {
        let q = skip_blank(s, at);
        if at_char(s, q, '}') {
            return Ok((acc, q + 1));
        }
        let (it, e) = read_item(s, q)?;
        push_item(&mut acc, it);
        at = e;
    }
}

/// Reads the `fsm` block that begins at `q`.
pub fn read_block(s: &Vec<char>, q: usize) -> (r: Result<(Block, usize), Fault>)
    requires
        q <= s.len(),
    ensures
        agrees(r, grammar::block(s@, q as int)),
        advances(r, q, s.len()),
{
    let e = find_name_end(s, q);
    if q < e && word_is(s, q, e, "fsm") {
        let (name, e1) = read_name(s, e, Expected::Name)?;
        let e2 = read_symbol(s, e1, '{', Expected::OpenBrace)?;
        let (items, e3) = read_items(s, e2)?;
        Ok((Block { name, items }, e3))
    } else {
        Err(Fault { at: q, expected: Expected::Machine })
    }
}

/// Reads a whole text: its `fsm` blocks, in order.
pub fn read_file(s: &Vec<char>) -> (r: Result<Vec<Block>, Fault>)
    ensures
        match r {
            Ok(bs) => grammar::file(s@) == Ok::<Seq<grammar::BlockView>, Failure>(bs.deep_view()),
            Err(f) => grammar::file(s@) == Err::<Seq<grammar::BlockView>, Failure>(f@) && f.at
                <= s.len(),
        },
{
    let mut acc: Vec<Block> = empty_list();
    let mut at: usize = 0;
    loop
        invariant
            at <= s.len(),
            grammar::blocks(s@, 0, Seq::empty()) == grammar::blocks(
                s@,
                at as int,
                acc.deep_view(),
            ),
        decreases s.len() - at,
    {
        let q = skip_blank(s, at);
        if q >= s.len() {
            return Ok(acc);
        }
        match read_block(s, q) {
            Err(f) => {
                return Err(f);
            },
            Ok((b, e)) => {
                push_item(&mut acc, b);
                at = e;
            },
        }
    }
}

} // verus!
