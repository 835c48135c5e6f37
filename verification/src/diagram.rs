//! Helpers for drawing a machine: what kind of arrow a transition gets,
//! how its label is broken into lines, and on which level each state
//! stands.

use vstd::prelude::*;
use crate::text::{
    Text, byte_len, contains_text, from_chars, has_text, lemma_trim_range, to_chars, trim_range,
    trim_text,
};
use crate::fsm::{Transition, TransitionView};
use crate::parser::scan::{find_char, seek_char};

verus! {

/// How a transition is drawn.
#[derive(Debug, Clone, Copy, PartialEq, Eq, Structural)]
pub enum TransitionType {
    /// Main flow.
    Forward,
    /// Against the main flow.
    Return,
    /// Guarded.
    Conditional,
    /// Triggered by a timer event.
    Timer,
}

impl Default for TransitionType {
    fn default() -> (t: TransitionType)
        ensures
            t == TransitionType::Forward,
    {
        TransitionType::Forward
    }
}

/// The text in lower case, as `str::to_lowercase` gives it.
pub uninterp spec fn lowercase(t: Text) -> Text;

/// `str::to_lowercase` returns the lowercase equivalent of the string as a
/// new string; it depends on the characters alone.
pub assume_specification[ str::to_lowercase ](s: &str) -> (out: String)
    ensures
        out@ == lowercase(s@),
;

/// Whether an event name, in lower case, is that of a timer event.
pub open spec fn names_timer(lower: Text) -> bool {
    contains_text(lower, "timeout"@) || contains_text(lower, "timer"@) || contains_text(
        lower,
        "expired"@,
    )
}

/// The kind of arrow for a transition with the given event name in lower
/// case: a timer event wins over a guard, a guard over the direction.
pub open spec fn type_by_name(lower: Text, has_guard: bool, is_reverse: bool) -> TransitionType {
    if names_timer(lower) {
        TransitionType::Timer
    } else if has_guard {
        TransitionType::Conditional
    } else if is_reverse {
        TransitionType::Return
    } else {
        TransitionType::Forward
    }
}

/// The kind of arrow for a transition.
pub open spec fn transition_type(t: TransitionView, is_reverse: bool) -> TransitionType {
    let lower = match t.event {
        Some(e) => lowercase(e),
        None => Seq::<char>::empty(),
    };
    type_by_name(lower, t.guard is Some, is_reverse)
}

/// Classifies a transition by its event name in lower case, by whether it
/// has a guard and by whether it runs against the main flow.
pub fn classify_by_name(lower: &str, has_guard: bool, is_reverse: bool) -> (t: TransitionType)
    ensures
        t == type_by_name(lower@, has_guard, is_reverse),
{
    let name = to_chars(lower);
    let timeout = to_chars("timeout");
    let timer = to_chars("timer");
    let expired = to_chars("expired");
    if has_text(&name, &timeout) || has_text(&name, &timer) || has_text(&name, &expired) {
        TransitionType::Timer
    } else if has_guard {
        TransitionType::Conditional
    } else if is_reverse {
        TransitionType::Return
    } else {
        TransitionType::Forward
    }
}

/// Classifies a transition for drawing. A transition whose event name
/// holds `timeout`, `timer` or `expired`, in any case, is a timer
/// transition; else one with a guard is conditional; else it is a return
/// or a forward transition by `is_reverse`.
pub fn classify_transition(transition: &Transition, is_reverse: bool) -> (t: TransitionType)
    ensures
        t == transition_type(transition@, is_reverse),
{
    let lower = match &transition.event {
        Some(e) => e.name.as_str().to_lowercase(),
        None => String::new(),
    };
    classify_by_name(lower.as_str(), transition.guard.is_some(), is_reverse)
}

/// The pieces of `s` from `from` on that the character `c` separates,
/// after those in `acc`.
pub open spec fn pieces(s: Text, c: char, from: int, acc: Seq<Text>) -> Seq<Text>
    decreases s.len() - from,
{
    let i = find_char(s, from, c);
    if from <= i < s.len() {
        pieces(s, c, i + 1, acc.push(s.subrange(from, i)))
    } else {
        acc.push(s.subrange(from, s.len() as int))
    }
}

/// The pieces of `s` that the character `c` separates. There is always at
/// least one; a separator at an end gives an empty piece.
pub open spec fn split_text(s: Text, c: char) -> Seq<Text> {
    pieces(s, c, 0, Seq::empty())
}

/// Splits the text between `p` and `q` at each `c`.
pub fn split_range(s: &Vec<char>, p: usize, q: usize, c: char) -> (out: Vec<String>)
    requires
        p <= q <= s.len(),
    ensures
        out.deep_view() == split_text(s@.subrange(p as int, q as int), c),
        out.len() > 0,
{
    let ghost t = s@.subrange(p as int, q as int);
    let mut out: Vec<String> = Vec::new();
    assert(out.deep_view() =~= Seq::<Text>::empty());
    let mut from: usize = p;
    loop
        invariant
            p <= from <= q <= s.len(),
            t == s@.subrange(p as int, q as int),
            split_text(t, c) == pieces(t, c, from - p, out.deep_view()),
        decreases q - from,
    {
        let mut i: usize = from;
        while i < q && s[i] != c
            invariant
                from <= i <= q <= s.len(),
                p <= from,
                t == s@.subrange(p as int, q as int),
                find_char(t, from - p, c) == find_char(t, i - p, c),
            decreases q - i,
        {
            assert(t[i - p] == s@[i as int]);
            i += 1;
        }
        let ghost before = out.deep_view();
        let piece = from_chars(s, from, i);
        assert(piece@ =~= t.subrange(from - p, i - p));
        out.push(piece);
        assert(out.deep_view() =~= before.push(piece@));
        if i < q {
            assert(t[i - p] == s@[i as int]);
            from = i + 1;
        } else {
            return out;
        }
    }
}

/// Lays the pieces from `i` on out in lines: a piece joins the current
/// line with an underscore unless the line would then hold more than
/// twelve bytes; then the line is closed and the piece begins the next
/// one. `line` is the current line and `done` what has been closed.
pub open spec fn wrap_from(parts: Seq<Text>, i: int, line: Text, done: Text) -> Text
    decreases parts.len() - i,
{
    if i < 0 || i >= parts.len() {
        done
    } else {
        let part = parts[i];
        let breaks = byte_len(line) + byte_len(part) > 12 && line.len() > 0;
        let line2 = if breaks {
            part
        } else if line.len() > 0 {
            line.push('_') + part
        } else {
            part
        };
        let done2 = if breaks {
            done + line + seq!['\n']
        } else {
            done
        };
        let done3 = if i == parts.len() - 1 {
            done2 + line2
        } else {
            done2
        };
        wrap_from(parts, i + 1, line2, done3)
    }
}

/// A long name broken into short lines at its underscores.
pub open spec fn wrapped(text: Text) -> Text {
    wrap_from(split_text(text, '_'), 0, Seq::empty(), Seq::empty())
}

/// Breaks the text between `p` and `q` into short lines at its
/// underscores.
pub fn wrap_range(s: &Vec<char>, p: usize, q: usize) -> (out: String)
    requires
        p <= q <= s.len(),
    ensures
        out@ == wrapped(s@.subrange(p as int, q as int)),
{
    let parts = split_range(s, p, q, '_');
    let ghost ps = parts.deep_view();
    let mut done = String::new();
    let mut line = String::new();
    let mut i: usize = 0;
    while i < parts.len()
        invariant
            i <= parts.len(),
            ps == parts.deep_view(),
            wrap_from(ps, 0, Seq::empty(), Seq::empty()) == wrap_from(ps, i as int, line@, done@),
        decreases parts.len() - i,
    {
        let part = &parts[i];
        assert(ps[i as int] == part@);
        let ghost line0 = line@;
        let ghost done0 = done@;
        let line_empty = line.as_str().is_empty();
        let part_bytes = part.as_str().as_bytes().len();
        let line_bytes = line.as_str().as_bytes().len();
        assert(part_bytes == byte_len(part@));
        assert(line_bytes == byte_len(line@));
        let fits = part_bytes <= 12 && line_bytes <= 12 - part_bytes;
        if !fits && !line_empty {
            done.append(line.as_str());
            done.push('\n');
            line = part.clone();
            assert(done@ =~= done0 + line0 + seq!['\n']);
        } else {
            if !line_empty {
                line.push('_');
            }
            line.append(part.as_str());
            assert(line0.len() == 0 ==> line@ =~= part@);
        }
        if i == parts.len() - 1 {
            done.append(line.as_str());
        }
        i += 1;
    }
    done
}

/// A label laid out for drawing. With a guard: the event name, without
/// the white space at its ends and broken into lines if it takes more
/// than fifteen bytes, then on a line of its own everything from the
/// first `[` on. Without one: the label, broken into lines if it takes
/// more than fifteen bytes.
pub open spec fn label_layout(label: Text) -> Text {
    let b = find_char(label, 0, '[');
    if 0 <= b < label.len() {
        let event = trim_text(label.subrange(0, b));
        (if byte_len(event) > 15 {
            wrapped(event)
        } else {
            event
        }) + seq!['\n'] + label.subrange(b, label.len() as int)
    } else if byte_len(label) > 15 {
        wrapped(label)
    } else {
        label
    }
}

/// Lays a transition label out for drawing: the guard, if there is one,
/// on a line of its own, and long names broken at their underscores.
pub fn format_label_text(label: &str) -> (out: String)
    ensures
        out@ == label_layout(label@),
{
    let s = to_chars(label);
    let b = seek_char(&s, 0, '[');
    if b < s.len() {
        let (lo, hi) = trim_range(&s, 0, b);
        proof {
            lemma_trim_range(s@, 0, b as int);
        }
        let event = from_chars(&s, lo, hi);
        assert(event@ == trim_text(s@.subrange(0, b as int)));
        let event_bytes = event.as_str().as_bytes().len();
        assert(event_bytes == byte_len(event@));
        let mut out = if event_bytes > 15 {
            assert(s@.subrange(lo as int, hi as int) == event@);
            wrap_range(&s, lo, hi)
        } else {
            event
        };
        out.push('\n');
        let guard = from_chars(&s, b, s.len());
        out.append(guard.as_str());
        out
    } else if label.as_bytes().len() > 15 {
        assert(s@.subrange(0, s.len() as int) =~= s@);
        wrap_range(&s, 0, s.len())
    } else {
        label.to_owned()
    }
}

} // verus!
