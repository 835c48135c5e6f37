//! The grammar of the description language, as functions from a text and
//! a position in it to what stands there.
//!
//! The grammar is predictive: what comes next is decided by looking at the
//! next token, and nothing is read twice. Each function passes over white
//! space and comments before each token. It returns what it read and
//! the position just after it, or the place where the text stops being
//! a description and what was expected there.
//!
//! ```text
//! file       := block*
//! block      := "fsm" name "{" item* "}"
//! item       := "[*]" arrow name
//!             | "state" name [":" description] ["{" body* "}"]
//!             | "timer" name "=" digits arrow name ["periodic"]
//!             | "choice" name "{" branch* "}"
//!             | name arrow target [":" [name] [guard] ["/" action]]
//! body       := "entry" "/" action | "exit" "/" action
//!             | "start_timer" name | "stop_timer" name
//!             | name [guard] "/" action
//! branch     := guard arrow name ["/" action]
//! target     := "<<" name ">>" | "[*]" | name
//! arrow      := "-->" | "->"
//! guard      := "[" text "]"            (not "[*]")
//! action     := name ["(" [parameter ("," parameter)*] ")"]
//! ```

use vstd::prelude::*;
use crate::text::Text;
use crate::fsm::{
    ActionView, ChoiceBranchView, ChoicePointView, StateType, StateView, TimerMode, TimerView,
    TransitionKind, TransitionView, choice_ref, initial_marker,
};
use crate::parser::scan::{
    char_at, pair_at, marker_at, skip, name_end, digits_end, find_char, description_end,
    parameter_end, trim_start, trimmed, duration_of,
};

verus! {

/// What the parser expected at the place where it stopped.
#[derive(Debug, Clone, Copy, PartialEq, Eq, Structural)]
pub enum Expected {
    /// The word `fsm` that opens a machine.
    Machine,
    /// A name.
    Name,
    /// `{`.
    OpenBrace,
    /// `->` or `-->`.
    Arrow,
    /// `=`.
    Equals,
    /// A run of digits.
    Number,
    /// `/`.
    Slash,
    /// `]`.
    CloseBracket,
    /// `)`.
    CloseParen,
    /// `>>`.
    CloseChoice,
    /// The closing `"` of a description.
    Quote,
    /// A state name, `[*]` or `<<choice>>`.
    Target,
    /// A parameter.
    Parameter,
    /// A declaration inside a machine, or `}`.
    Item,
    /// A declaration inside a state, or `}`.
    BodyItem,
    /// A branch of a choice point, or `}`.
    Branch,
}

/// Where the text stops being a description, and what was expected there.
pub struct Failure {
    pub at: int,
    pub expected: Expected,
}

/// The executable form of a `Failure`.
#[derive(Debug, Clone, Copy, PartialEq, Eq, Structural)]
pub struct Fault {
    pub at: usize,
    pub expected: Expected,
}

impl View for Fault {
    type V = Failure;

    open spec fn view(&self) -> Failure {
        Failure { at: self.at as int, expected: self.expected }
    }
}

/// One declaration inside a state, as contracts see it.
pub enum BodyItemView {
    Entry(ActionView),
    Exit(ActionView),
    Internal(TransitionView),
}

/// One declaration inside a machine, as contracts see it.
pub enum ItemView {
    Initial(Text),
    Timer(TimerView),
    Choice(ChoicePointView),
    State(StateView),
    Transition(TransitionView),
}

/// One `fsm` block, as contracts see it.
pub struct BlockView {
    pub name: Text,
    pub items: Seq<ItemView>,
}

/// What a rule of the grammar yields: a value and the position after it.
pub type Parsed<V> = Result<(V, int), Failure>;

/// The character `c` as the next token.
pub open spec fn symbol(s: Text, p: int, c: char, expected: Expected) -> Result<int, Failure> {
    let q = skip(s, p);
    if char_at(s, q, c) {
        Ok(q + 1)
    } else {
        Err(Failure { at: q, expected })
    }
}

/// A name as the next token.
pub open spec fn name(s: Text, p: int, expected: Expected) -> Parsed<Text> {
    let q = skip(s, p);
    let e = name_end(s, q);
    if q < e <= s.len() {
        Ok((s.subrange(q, e), e))
    } else {
        Err(Failure { at: q, expected })
    }
}

/// An arrow as the next token.
pub open spec fn arrow(s: Text, p: int) -> Result<int, Failure> {
    let q = skip(s, p);
    if pair_at(s, q, '-', '-') && char_at(s, q + 2, '>') {
        Ok(q + 3)
    } else if pair_at(s, q, '-', '>') {
        Ok(q + 2)
    } else {
        Err(Failure { at: q, expected: Expected::Arrow })
    }
}

/// Whether a guard begins at `q`: a `[` that does not begin `[*]`.
pub open spec fn guard_at(s: Text, q: int) -> bool {
    char_at(s, q, '[') && !marker_at(s, q)
}

/// The guard whose `[` stands at `q`: the text up to the next `]`,
/// without the white space at its ends.
pub open spec fn guard(s: Text, q: int) -> Parsed<Text> {
    let e = find_char(s, q + 1, ']');
    if q < e < s.len() {
        Ok((trimmed(s, q + 1, e), e + 1))
    } else {
        Err(Failure { at: e, expected: Expected::CloseBracket })
    }
}

/// A guard if one comes next, and the position to go on from.
pub open spec fn optional_guard(s: Text, p: int) -> Parsed<Option<Text>> {
    let q = skip(s, p);
    if guard_at(s, q) {
        match guard(s, q) {
            Ok((g, e)) => Ok((Some(g), e)),
            Err(f) => Err(f),
        }
    } else {
        Ok((None, p))
    }
}

/// The parameters of an action from `p` on, after those in `acc`, up to
/// the closing parenthesis. A parameter is the text up to the next comma
/// or parenthesis, without the white space at its ends, and is not empty.
pub open spec fn parameters(s: Text, p: int, acc: Seq<Text>) -> Parsed<Seq<Text>>
    decreases s.len() - p,
{
    let q = skip(s, p);
    if acc.len() == 0 && char_at(s, q, ')') {
        Ok((acc, q + 1))
    } else {
        let e = parameter_end(s, q);
        let text = trimmed(s, q, e);
        if text.len() == 0 {
            Err(Failure { at: q, expected: Expected::Parameter })
        } else if char_at(s, e, ')') {
            Ok((acc.push(text), e + 1))
        } else if char_at(s, e, ',') && p <= e {
            parameters(s, e + 1, acc.push(text))
        } else {
            Err(Failure { at: e, expected: Expected::CloseParen })
        }
    }
}

/// An action: a name, and parameters in parentheses if they follow.
pub open spec fn action(s: Text, p: int) -> Parsed<ActionView> {
    match name(s, p, Expected::Name) {
        Err(f) => Err(f),
        Ok((n, e)) => {
            let q = skip(s, e);
            if char_at(s, q, '(') {
                match parameters(s, q + 1, Seq::empty()) {
                    Err(f) => Err(f),
                    Ok((ps, e2)) => Ok((ActionView { name: n, params: ps }, e2)),
                }
            } else {
                Ok((ActionView { name: n, params: Seq::empty() }, e))
            }
        },
    }
}

/// A slash and an action.
pub open spec fn slash_action(s: Text, p: int) -> Parsed<ActionView> {
    match symbol(s, p, '/', Expected::Slash) {
        Err(f) => Err(f),
        Ok(q) => action(s, q),
    }
}

/// A slash and an action if a slash comes next.
pub open spec fn optional_action(s: Text, p: int) -> Parsed<Option<ActionView>> {
    let q = skip(s, p);
    if char_at(s, q, '/') {
        match action(s, q + 1) {
            Ok((a, e)) => Ok((Some(a), e)),
            Err(f) => Err(f),
        }
    } else {
        Ok((None, p))
    }
}

/// The description after the colon at `p - 1`: the text between double
/// quotes if a quote comes first on the line, else the rest of the line up
/// to a brace, without the white space at its ends.
pub open spec fn description(s: Text, p: int) -> Parsed<Text> {
    let e = description_end(s, p);
    let a = trim_start(s, p, e);
    if char_at(s, a, '"') {
        let close = find_char(s, a + 1, '"');
        if a < close < s.len() {
            Ok((s.subrange(a + 1, close), close + 1))
        } else {
            Err(Failure { at: close, expected: Expected::Quote })
        }
    } else {
        Ok((trimmed(s, p, e), e))
    }
}

/// The action that starts or stops the timer `timer`.
pub open spec fn timer_action(prefix: Text, timer: Text) -> ActionView {
    ActionView { name: prefix + timer, params: seq![timer] }
}

/// A transition inside the state `state`.
pub open spec fn internal_transition(
    state: Text,
    event: Text,
    guard: Option<Text>,
    action: ActionView,
) -> TransitionView {
    TransitionView {
        source: state,
        target: state,
        event: Some(event),
        guard,
        action: Some(action),
        kind: TransitionKind::Internal,
    }
}

/// The declaration inside the state `state` that begins with the name at
/// `q`.
pub open spec fn body_item(s: Text, q: int, state: Text) -> Parsed<BodyItemView> {
    let e = name_end(s, q);
    if !(q < e <= s.len()) {
        Err(Failure { at: q, expected: Expected::BodyItem })
    } else {
        let word = s.subrange(q, e);
        if word == "entry"@ {
            match slash_action(s, e) {
                Err(f) => Err(f),
                Ok((a, e2)) => Ok((BodyItemView::Entry(a), e2)),
            }
        } else if word == "exit"@ {
            match slash_action(s, e) {
                Err(f) => Err(f),
                Ok((a, e2)) => Ok((BodyItemView::Exit(a), e2)),
            }
        } else if word == "start_timer"@ {
            match name(s, e, Expected::Name) {
                Err(f) => Err(f),
                Ok((t, e2)) => Ok((BodyItemView::Entry(timer_action("start_timer_"@, t)), e2)),
            }
        } else if word == "stop_timer"@ {
            match name(s, e, Expected::Name) {
                Err(f) => Err(f),
                Ok((t, e2)) => Ok((BodyItemView::Exit(timer_action("stop_timer_"@, t)), e2)),
            }
        } else {
            match optional_guard(s, e) {
                Err(f) => Err(f),
                Ok((g, e2)) => match slash_action(s, e2) {
                    Err(f) => Err(f),
                    Ok((a, e3)) => Ok(
                        (BodyItemView::Internal(internal_transition(state, word, g, a)), e3),
                    ),
                },
            }
        }
    }
}

/// The state `acc` with one more declaration of its body.
pub open spec fn with_body_item(acc: StateView, item: BodyItemView) -> StateView {
    match item {
        BodyItemView::Entry(a) => StateView { entry_actions: acc.entry_actions.push(a), ..acc },
        BodyItemView::Exit(a) => StateView { exit_actions: acc.exit_actions.push(a), ..acc },
        BodyItemView::Internal(t) => StateView {
            internal_transitions: acc.internal_transitions.push(t),
            ..acc
        },
    }
}

/// The body of a state from `p` on, up to the closing brace, added to
/// `acc`. (A declaration ends after it begins, as `progress` proves; the
/// test on `e` only makes that plain.)
pub open spec fn body(s: Text, p: int, acc: StateView) -> Parsed<StateView>
    decreases s.len() - p,
{
    let q = skip(s, p);
    if char_at(s, q, '}') {
        Ok((acc, q + 1))
    } else {
        match body_item(s, q, acc.name) {
            Err(f) => Err(f),
            Ok((item, e)) => if p < e <= s.len() {
                body(s, e, with_body_item(acc, item))
            } else {
                Err(Failure { at: q, expected: Expected::BodyItem })
            },
        }
    }
}

/// A simple state with a name and nothing else.
pub open spec fn plain_state(name: Text) -> StateView {
    StateView {
        name,
        description: None,
        state_type: StateType::Simple,
        entry_actions: Seq::empty(),
        exit_actions: Seq::empty(),
        internal_transitions: Seq::empty(),
        sub_fsm: None,
    }
}

/// A description if a colon comes next.
pub open spec fn optional_description(s: Text, p: int) -> Parsed<Option<Text>> {
    let q = skip(s, p);
    if char_at(s, q, ':') {
        match description(s, q + 1) {
            Ok((d, e)) => Ok((Some(d), e)),
            Err(f) => Err(f),
        }
    } else {
        Ok((None, p))
    }
}

/// A state declaration after the word `state`.
pub open spec fn state(s: Text, p: int) -> Parsed<StateView> {
    match name(s, p, Expected::Name) {
        Err(f) => Err(f),
        Ok((n, e)) => match optional_description(s, e) {
            Err(f) => Err(f),
            Ok((d, e2)) => {
                let base = StateView { description: d, ..plain_state(n) };
                let q = skip(s, e2);
                if char_at(s, q, '{') {
                    body(s, q + 1, base)
                } else {
                    Ok((base, e2))
                }
            },
        },
    }
}

/// The digits of a duration as the next token.
pub open spec fn duration(s: Text, p: int) -> Parsed<u32> {
    let q = skip(s, p);
    let e = digits_end(s, q);
    if q < e <= s.len() {
        Ok((duration_of(s.subrange(q, e)), e))
    } else {
        Err(Failure { at: q, expected: Expected::Number })
    }
}

/// The mode of a timer: periodic if the word `periodic` comes next.
pub open spec fn timer_mode(s: Text, p: int) -> (TimerMode, int) {
    let q = skip(s, p);
    let e = name_end(s, q);
    if q < e <= s.len() && s.subrange(q, e) == "periodic"@ {
        (TimerMode::Periodic, e)
    } else {
        (TimerMode::OneShot, p)
    }
}

/// A timer declaration after the word `timer`.
pub open spec fn timer(s: Text, p: int) -> Parsed<TimerView> {
    match name(s, p, Expected::Name) {
        Err(f) => Err(f),
        Ok((n, e1)) => match symbol(s, e1, '=', Expected::Equals) {
            Err(f) => Err(f),
            Ok(e2) => match duration(s, e2) {
                Err(f) => Err(f),
                Ok((d, e3)) => match arrow(s, e3) {
                    Err(f) => Err(f),
                    Ok(e4) => match name(s, e4, Expected::Name) {
                        Err(f) => Err(f),
                        Ok((ev, e5)) => {
                            let (mode, e6) = timer_mode(s, e5);
                            Ok(
                                (
                                    TimerView {
                                        name: n,
                                        duration_ms: d,
                                        event: ev,
                                        mode,
                                        auto_start_state: None,
                                    },
                                    e6,
                                ),
                            )
                        },
                    },
                },
            },
        },
    }
}

/// The branch of a choice point whose guard begins at `q`.
pub open spec fn branch(s: Text, q: int) -> Parsed<ChoiceBranchView> {
    match guard(s, q) {
        Err(f) => Err(f),
        Ok((g, e1)) => match arrow(s, e1) {
            Err(f) => Err(f),
            Ok(e2) => match name(s, e2, Expected::Name) {
                Err(f) => Err(f),
                Ok((t, e3)) => match optional_action(s, e3) {
                    Err(f) => Err(f),
                    Ok((a, e4)) => Ok((ChoiceBranchView { guard: g, target: t, action: a }, e4)),
                },
            },
        },
    }
}

/// The branches of a choice point from `p` on, after those in `acc`, up
/// to the closing brace.
pub open spec fn branches(s: Text, p: int, acc: Seq<ChoiceBranchView>) -> Parsed<
    Seq<ChoiceBranchView>,
>
    decreases s.len() - p,
{
    let q = skip(s, p);
    if char_at(s, q, '}') {
        Ok((acc, q + 1))
    } else if char_at(s, q, '[') {
        match branch(s, q) {
            Err(f) => Err(f),
            Ok((b, e)) => if p < e <= s.len() {
                branches(s, e, acc.push(b))
            } else {
                Err(Failure { at: q, expected: Expected::Branch })
            },
        }
    } else {
        Err(Failure { at: q, expected: Expected::Branch })
    }
}

/// A choice point after the word `choice`.
pub open spec fn choice(s: Text, p: int) -> Parsed<ChoicePointView> {
    match name(s, p, Expected::Name) {
        Err(f) => Err(f),
        Ok((n, e1)) => match symbol(s, e1, '{', Expected::OpenBrace) {
            Err(f) => Err(f),
            Ok(e2) => match branches(s, e2, Seq::empty()) {
                Err(f) => Err(f),
                Ok((bs, e3)) => Ok((ChoicePointView { name: n, branches: bs }, e3)),
            },
        },
    }
}

/// The target of a transition: a choice point in double angle brackets,
/// the pseudostate `[*]`, or a state name.
pub open spec fn target(s: Text, p: int) -> Parsed<Text> {
    let q = skip(s, p);
    if pair_at(s, q, '<', '<') {
        match name(s, q + 2, Expected::Name) {
            Err(f) => Err(f),
            Ok((n, e)) => {
                let c = skip(s, e);
                if pair_at(s, c, '>', '>') {
                    Ok((choice_ref(n), c + 2))
                } else {
                    Err(Failure { at: c, expected: Expected::CloseChoice })
                }
            },
        }
    } else if marker_at(s, q) {
        Ok((initial_marker(), q + 3))
    } else {
        name(s, p, Expected::Target)
    }
}

/// A name if one comes next.
pub open spec fn optional_name(s: Text, p: int) -> (Option<Text>, int) {
    let q = skip(s, p);
    let e = name_end(s, q);
    if q < e <= s.len() {
        (Some(s.subrange(q, e)), e)
    } else {
        (None, p)
    }
}

/// The label of a transition after its colon: an event name, a guard and
/// an action after a slash, each of which may be missing.
pub open spec fn label(s: Text, p: int, base: TransitionView) -> Parsed<TransitionView> {
    let (event, e1) = optional_name(s, p);
    match optional_guard(s, e1) {
        Err(f) => Err(f),
        Ok((g, e2)) => match optional_action(s, e2) {
            Err(f) => Err(f),
            Ok((a, e3)) => Ok((TransitionView { event, guard: g, action: a, ..base }, e3)),
        },
    }
}

/// A transition without a label.
pub open spec fn plain_transition(source: Text, target: Text) -> TransitionView {
    TransitionView {
        source,
        target,
        event: None,
        guard: None,
        action: None,
        kind: TransitionKind::External,
    }
}

/// A transition after its source name.
pub open spec fn transition(s: Text, p: int, source: Text) -> Parsed<TransitionView> {
    match arrow(s, p) {
        Err(f) => Err(f),
        Ok(e1) => match target(s, e1) {
            Err(f) => Err(f),
            Ok((t, e2)) => {
                let base = plain_transition(source, t);
                let q = skip(s, e2);
                if char_at(s, q, ':') {
                    label(s, q + 1, base)
                } else {
                    Ok((base, e2))
                }
            },
        },
    }
}

/// The declaration inside a machine that begins at `q`.
pub open spec fn item(s: Text, q: int) -> Parsed<ItemView> {
    if marker_at(s, q) {
        match arrow(s, q + 3) {
            Err(f) => Err(f),
            Ok(e1) => match name(s, e1, Expected::Name) {
                Err(f) => Err(f),
                Ok((n, e2)) => Ok((ItemView::Initial(n), e2)),
            },
        }
    } else {
        let e = name_end(s, q);
        if !(q < e <= s.len()) {
            Err(Failure { at: q, expected: Expected::Item })
        } else {
            let word = s.subrange(q, e);
            if word == "state"@ {
                match state(s, e) {
                    Err(f) => Err(f),
                    Ok((v, e2)) => Ok((ItemView::State(v), e2)),
                }
            } else if word == "timer"@ {
                match timer(s, e) {
                    Err(f) => Err(f),
                    Ok((v, e2)) => Ok((ItemView::Timer(v), e2)),
                }
            } else if word == "choice"@ {
                match choice(s, e) {
                    Err(f) => Err(f),
                    Ok((v, e2)) => Ok((ItemView::Choice(v), e2)),
                }
            } else {
                match transition(s, e, word) {
                    Err(f) => Err(f),
                    Ok((v, e2)) => Ok((ItemView::Transition(v), e2)),
                }
            }
        }
    }
}

/// The declarations of a machine from `p` on, after those in `acc`, up to
/// the closing brace. (A declaration ends after it begins, as `progress`
/// proves; the test on `e` only makes that plain.)
pub open spec fn items(s: Text, p: int, acc: Seq<ItemView>) -> Parsed<Seq<ItemView>>
    decreases s.len() - p,
{
    let q = skip(s, p);
    if char_at(s, q, '}') {
        Ok((acc, q + 1))
    } else {
        match item(s, q) {
            Err(f) => Err(f),
            Ok((it, e)) => if p < e <= s.len() {
                items(s, e, acc.push(it))
            } else {
                Err(Failure { at: q, expected: Expected::Item })
            },
        }
    }
}

/// The `fsm` block that begins at `q`.
pub open spec fn block(s: Text, q: int) -> Parsed<BlockView> {
    let e = name_end(s, q);
    if q < e <= s.len() && s.subrange(q, e) == "fsm"@ {
        match name(s, e, Expected::Name) {
            Err(f) => Err(f),
            Ok((n, e1)) => match symbol(s, e1, '{', Expected::OpenBrace) {
                Err(f) => Err(f),
                Ok(e2) => match items(s, e2, Seq::empty()) {
                    Err(f) => Err(f),
                    Ok((its, e3)) => Ok((BlockView { name: n, items: its }, e3)),
                },
            },
        }
    } else {
        Err(Failure { at: q, expected: Expected::Machine })
    }
}

/// The blocks of a text from `p` on, after those in `acc`, up to its end.
pub open spec fn blocks(s: Text, p: int, acc: Seq<BlockView>) -> Result<Seq<BlockView>, Failure>
    decreases s.len() - p,
{
    let q = skip(s, p);
    if q < 0 || q >= s.len() {
        Ok(acc)
    } else {
        match block(s, q) {
            Err(f) => Err(f),
            Ok((b, e)) => if p < e <= s.len() {
                blocks(s, e, acc.push(b))
            } else {
                Err(Failure { at: q, expected: Expected::Machine })
            },
        }
    }
}

/// The blocks of a whole text.
pub open spec fn file(s: Text) -> Result<Seq<BlockView>, Failure> {
    blocks(s, 0, Seq::empty())
}

} // verus!
