//! Helpers for editing descriptions as text: cutting a text into its
//! `fsm` blocks, writing the text of a new machine, and turning the name
//! of a machine into the name of a file.

use vstd::prelude::*;
use crate::text::{
    Text, found_at, from_chars, lemma_trim_range, starts_with_text, to_chars, trim_range,
    trim_text,
};
use crate::parser::scan::{find_line_end, line_end};

verus! {

/// Whether `c` is an uppercase letter as `char::is_uppercase` tells it.
pub uninterp spec fn is_upper(c: char) -> bool;

/// `char::is_uppercase` depends on the character alone.
pub assume_specification[ char::is_uppercase ](c: char) -> (b: bool)
    ensures
        b == is_upper(c),
;

/// The lowercase form of `c`, as `char::to_lowercase` gives it.
pub uninterp spec fn lower_of(c: char) -> Text;

/// `char::to_lowercase` yields the lowercase form of a character as one
/// or more characters; this is all of them, in order.
#[verifier::external_body]
fn lowercase_string(c: char) -> (r: String)
    ensures
        r@ == lower_of(c),
        r@.len() >= 1,
{
    c.to_lowercase().collect::<String>()
}

/// Whether `c` is a letter as `char::is_alphabetic` tells it.
pub uninterp spec fn is_letter(c: char) -> bool;

/// `char::is_alphabetic` depends on the character alone.
pub assume_specification[ char::is_alphabetic ](c: char) -> (b: bool)
    ensures
        b == is_letter(c),
;

/// Whether `c` is a letter or a digit as `char::is_alphanumeric` tells it.
pub uninterp spec fn is_letter_or_digit(c: char) -> bool;

/// `char::is_alphanumeric` depends on the character alone.
pub assume_specification[ char::is_alphanumeric ](c: char) -> (b: bool)
    ensures
        b == is_letter_or_digit(c),
;

/// The uppercase form of `c`, as `char::to_uppercase` gives it.
pub uninterp spec fn upper_of(c: char) -> Text;

/// `char::to_uppercase` yields the uppercase form of a character as one
/// or more characters; this is all of them, in order.
#[verifier::external_body]
fn uppercase_string(c: char) -> (r: String)
    ensures
        r@ == upper_of(c),
{
    c.to_uppercase().collect::<String>()
}

/// A character of a name with what its case asks for: the character,
/// and, where it is an uppercase letter, the character that stands for
/// it in snake case.
pub type Mark = (char, Option<char>);

/// The first `n` marked characters in snake case: before each character
/// that has a replacement, but the first of all, stands an underscore,
/// and the replacement stands in its place.
pub open spec fn snake_of_marks(marks: Seq<Mark>, n: int) -> Text
    decreases n,
{
    if n <= 0 {
        Seq::empty()
    } else {
        let before = snake_of_marks(marks, n - 1);
        match marks[n - 1].1 {
            Some(lower) => (if n - 1 > 0 {
                before.push('_')
            } else {
                before
            }).push(lower),
            None => before.push(marks[n - 1].0),
        }
    }
}

/// The mark of a character: an uppercase letter is replaced by the first
/// character of its lowercase form.
pub open spec fn mark_of(c: char) -> Mark {
    if is_upper(c) {
        (c, Some(lower_of(c)[0]))
    } else {
        (c, None)
    }
}

/// The first `n` characters of `s`, marked.
pub open spec fn marks_of(s: Text, n: int) -> Seq<Mark>
    decreases n,
{
    if n <= 0 {
        Seq::empty()
    } else {
        marks_of(s, n - 1).push(mark_of(s[n - 1]))
    }
}

/// The text in snake case.
pub open spec fn snake_case(s: Text) -> Text {
    snake_of_marks(marks_of(s, s.len() as int), s.len() as int)
}

/// Writes marked characters in snake case.
pub fn snake_from(marks: &Vec<Mark>) -> (out: String)
    ensures
        out@ == snake_of_marks(marks@, marks.len() as int),
{
    let mut out = String::new();
    let mut i: usize = 0;
    while i < marks.len()
        invariant
            i <= marks.len(),
            out@ == snake_of_marks(marks@, i as int),
        decreases marks.len() - i,
    {
        match marks[i].1 {
            Some(lower) => {
                if i > 0 {
                    out.push('_');
                }
                out.push(lower);
            },
            None => {
                out.push(marks[i].0);
            },
        }
        i += 1;
    }
    out
}

/// Turns a name written in Pascal case into snake case: before each
/// uppercase letter but the first character stands an underscore, and in
/// place of the letter itself the first character of its lowercase form.
pub fn to_snake_case(s: &str) -> (out: String)
    ensures
        out@ == snake_case(s@),
{
    let chars = to_chars(s);
    let mut marks: Vec<Mark> = Vec::new();
    let mut i: usize = 0;
    while i < chars.len()
        invariant
            i <= chars.len(),
            chars@ == s@,
            marks.len() == i,
            marks@ == marks_of(s@, i as int),
        decreases chars.len() - i,
    {
        let c = chars[i];
        if c.is_uppercase() {
            let lower = to_chars(lowercase_string(c).as_str());
            marks.push((c, Some(lower[0])));
        } else {
            marks.push((c, None));
        }
        i += 1;
    }
    snake_from(&marks)
}

/// Where the cutting of a text into blocks stands after some lines.
pub struct Cutting {
    /// The blocks that are complete.
    pub blocks: Seq<Text>,
    /// The block that is open.
    pub current: Text,
    /// How many more `{` than `}` the open block has seen.
    pub depth: int,
    /// Whether a block is open.
    pub in_block: bool,
    /// The comment and blank lines seen since the last block.
    pub pending: Text,
}

/// The number of times `c` stands in `s`.
pub open spec fn count_of(s: Text, c: char) -> int
    decreases s.len(),
{
    if s.len() == 0 {
        0
    } else {
        count_of(s.drop_last(), c) + if s.last() == c {
            1int
        } else {
            0int
        }
    }
}

/// The cutting after one more line. Outside a block, comment lines and
/// blank lines are kept for the next block; a line that begins with
/// `fsm ` opens a block, which begins with the lines kept; any other line
/// drops them. Inside a block every line belongs to it, and the block is
/// complete when its braces balance and it has seen a `{`.
pub open spec fn cut_line(st: Cutting, line: Text) -> Cutting {
    let t = trim_text(line);
    if !st.in_block && (starts_with_text(t, "//"@) || t.len() == 0) {
        Cutting { pending: st.pending + line + seq!['\n'], ..st }
    } else {
        let opens = starts_with_text(t, "fsm "@);
        let st1 = if opens {
            Cutting { in_block: true, current: st.pending, pending: Seq::empty(), ..st }
        } else {
            st
        };
        if st1.in_block {
            let current = st1.current + line + seq!['\n'];
            let depth = st1.depth + count_of(line, '{') - count_of(line, '}');
            if depth == 0 && current.contains('{') {
                Cutting {
                    blocks: st1.blocks.push(trim_text(current)),
                    current: Seq::empty(),
                    depth,
                    in_block: false,
                    ..st1
                }
            } else {
                Cutting { current, depth, ..st1 }
            }
        } else {
            Cutting { pending: Seq::empty(), ..st1 }
        }
    }
}

/// The line that begins at `p`: up to the next line feed, without the
/// carriage return that may stand before it.
pub open spec fn line_at(s: Text, p: int) -> Text {
    let e = line_end(s, p);
    if p < e < s.len() && s[e - 1] == '\r' {
        s.subrange(p, e - 1)
    } else {
        s.subrange(p, e)
    }
}

/// The cutting after the lines of `s` from `p` on.
pub open spec fn cut_from(s: Text, p: int, st: Cutting) -> Cutting
    decreases s.len() - p,
{
    if p < 0 || p >= s.len() {
        st
    } else {
        let e = line_end(s, p);
        let next = cut_line(st, line_at(s, p));
        if p <= e < s.len() {
            cut_from(s, e + 1, next)
        } else {
            next
        }
    }
}

/// The blocks of a text: each `fsm` block with the comment lines just
/// before it, without the white space at its ends. A block that is still
/// open at the end of the text is the last one.
pub open spec fn block_sources(s: Text) -> Seq<Text> {
    let st = cut_from(
        s,
        0,
        Cutting {
            blocks: Seq::empty(),
            current: Seq::empty(),
            depth: 0,
            in_block: false,
            pending: Seq::empty(),
        },
    );
    if trim_text(st.current).len() == 0 {
        st.blocks
    } else {
        st.blocks.push(trim_text(st.current))
    }
}

/// The text without the white space at its ends.
pub fn trim_string(s: &str) -> (out: String)
    ensures
        out@ == trim_text(s@),
{
    let chars = to_chars(s);
    let (a, b) = trim_range(&chars, 0, chars.len());
    from_chars(&chars, a, b)
}

/// Counts the `{` and `}` between `p` and `q`.
fn count_braces(s: &Vec<char>, p: usize, q: usize) -> (r: (usize, usize))
    requires
        p <= q <= s.len(),
    ensures
        r.0 == count_of(s@.subrange(p as int, q as int), '{'),
        r.1 == count_of(s@.subrange(p as int, q as int), '}'),
        r.0 + r.1 <= q - p,
{
    let mut opens: usize = 0;
    let mut closes: usize = 0;
    let mut i: usize = p;
    assert(s@.subrange(p as int, p as int) =~= Seq::<char>::empty());
    while i < q
        invariant
            p <= i <= q <= s.len(),
            opens == count_of(s@.subrange(p as int, i as int), '{'),
            closes == count_of(s@.subrange(p as int, i as int), '}'),
            opens + closes <= i - p,
        decreases q - i,
    {
        assert(s@.subrange(p as int, i + 1).drop_last() =~= s@.subrange(p as int, i as int));
        assert(s@.subrange(p as int, i + 1).last() == s@[i as int]);
        if s[i] == '{' {
            opens += 1;
        } else if s[i] == '}' {
            closes += 1;
        }
        i += 1;
    }
    (opens, closes)
}

/// Whether the string holds the character `c`.
fn holds_char(s: &str, c: char) -> (b: bool)
    ensures
        b == s@.contains(c),
{
    let chars = to_chars(s);
    let mut i: usize = 0;
    while i < chars.len()
        invariant
            i <= chars.len(),
            chars@ == s@,
            forall|k: int| 0 <= k < i ==> s@[k] != c,
        decreases chars.len() - i,
    {
        if chars[i] == c {
            return true;
        }
        i += 1;
    }
    false
}

/// Cuts a text into its `fsm` blocks, each with the comment lines just
/// before it.
pub fn extract_fsm_sources(source: &str) -> (out: Vec<String>)
    ensures
        out.deep_view() == block_sources(source@),
{
    let s = to_chars(source);
    let slashes = to_chars("//");
    let keyword = to_chars("fsm ");
    let mut blocks: Vec<String> = Vec::new();
    assert(blocks.deep_view() =~= Seq::<Text>::empty());
    let mut current = String::new();
    let mut depth: i128 = 0;
    let mut in_block = false;
    let mut pending = String::new();
    let mut p: usize = 0;
    let ghost start = Cutting {
        blocks: Seq::empty(),
        current: Seq::empty(),
        depth: 0,
        in_block: false,
        pending: Seq::empty(),
    };
    while p < s.len()
        invariant
            p <= s.len(),
            s@ == source@,
            slashes@ == "//"@,
            keyword@ == "fsm "@,
            -(p as int) <= depth <= p,
            cut_from(s@, 0, start) == cut_from(
                s@,
                p as int,
                Cutting {
                    blocks: blocks.deep_view(),
                    current: current@,
                    depth: depth as int,
                    in_block,
                    pending: pending@,
                },
            ),
        decreases s.len() - p,
    {
        let e = find_line_end(&s, p);
        let stop = if p < e && e < s.len() && s[e - 1] == '\r' {
            e - 1
        } else {
            e
        };
        let ghost line = line_at(s@, p as int);
        assert(line == s@.subrange(p as int, stop as int));
        let ghost st = Cutting {
            blocks: blocks.deep_view(),
            current: current@,
            depth: depth as int,
            in_block,
            pending: pending@,
        };
        let (a, b) = trim_range(&s, p, stop);
        proof {
            lemma_trim_range(s@, p as int, stop as int);
        }
        let ghost t = trim_text(line);
        assert(t == s@.subrange(a as int, b as int));
        let text = from_chars(&s, p, stop);
        let trimmed = crate::text::to_chars(from_chars(&s, a, b).as_str());
        assert(trimmed@ == t);
        let comment = found_at(&trimmed, &slashes, 0);
        assert(comment == starts_with_text(t, "//"@));
        if !in_block && (comment || trimmed.len() == 0) {
            pending.append(text.as_str());
            pending.push('\n');
            assert(pending@ =~= st.pending + line + seq!['\n']);
        } else {
            let opens_block = found_at(&trimmed, &keyword, 0);
            assert(opens_block == starts_with_text(t, "fsm "@));
            if opens_block {
                in_block = true;
                current = pending;
                pending = String::new();
            }
            let ghost st1 = Cutting {
                blocks: blocks.deep_view(),
                current: current@,
                depth: depth as int,
                in_block,
                pending: pending@,
            };
            if in_block {
                current.append(text.as_str());
                current.push('\n');
                assert(current@ =~= st1.current + line + seq!['\n']);
                let (opens, closes) = count_braces(&s, p, stop);
                depth = depth + opens as i128 - closes as i128;
                assert(depth == st1.depth + count_of(line, '{') - count_of(line, '}'));
                if depth == 0 && holds_char(current.as_str(), '{') {
                    let ghost before = blocks.deep_view();
                    let block = trim_string(current.as_str());
                    blocks.push(block);
                    assert(blocks.deep_view() =~= before.push(block@));
                    current = String::new();
                    in_block = false;
                }
            } else {
                pending = String::new();
            }
        }
        assert(Cutting {
            blocks: blocks.deep_view(),
            current: current@,
            depth: depth as int,
            in_block,
            pending: pending@,
        } == cut_line(st, line));
        if e < s.len() {
            p = e + 1;
        } else {
            p = s.len();
        }
    }
    let last = trim_string(current.as_str());
    if last.as_str().is_empty() {
        blocks
    } else {
        let ghost before = blocks.deep_view();
        blocks.push(last);
        assert(blocks.deep_view() =~= before.push(last@));
        blocks
    }
}

/// The first line of a text of new machines.
pub const HEADER: &'static str = "// State Machines - Created with Oxidate FSM Visualizer\n\n";

/// The text of a new machine with three states, cut where its name goes.
pub const FULL_TEMPLATE_HEAD: &'static str = "// ";

/// Between the two places of the name.
pub const FULL_TEMPLATE_MIDDLE: &'static str = " State Machine\n\nfsm ";

/// After the name: the body of the machine.
pub const FULL_TEMPLATE_TAIL: &'static str = " {\n    [*] -> Idle\n\n    state Idle {\n        entry / initialize\n    }\n    \n    state Active {\n        entry / on_activate\n        exit / on_deactivate\n    }\n    \n    state Error {\n        entry / handle_error\n    }\n\n    Idle -> Active : start\n    Active -> Idle : stop\n    Active -> Error : fault\n    Error -> Idle : reset\n}";

/// The text of a new machine with two states, cut where its name goes.
pub const SHORT_TEMPLATE_HEAD: &'static str = "\n\n// ";

/// Between the two places of the name.
pub const SHORT_TEMPLATE_MIDDLE: &'static str = " State Machine\n\nfsm ";

/// After the name: the body of the machine.
pub const SHORT_TEMPLATE_TAIL: &'static str = " {\n    [*] -> Idle\n\n    state Idle {\n        entry / initialize\n    }\n    \n    state Active {\n        entry / on_activate\n        exit / on_deactivate\n    }\n\n    Idle -> Active : start\n    Active -> Idle : stop\n}";

/// Whether `c` separates names in a list of names.
pub open spec fn separates_names(c: char) -> bool {
    c == ',' || c == ';' || c == '\n'
}

/// The end of the name that begins at `p` in a list of names.
pub open spec fn listed_name_end(s: Text, p: int) -> int
    decreases s.len() - p,
{
    if p < 0 || p >= s.len() || separates_names(s[p]) {
        p
    } else {
        listed_name_end(s, p + 1)
    }
}

/// Whether a piece of a list of names is a name: it begins with a letter.
pub open spec fn usable_name(t: Text) -> bool {
    t.len() > 0 && is_letter(t[0])
}

/// The names in the list `s` from `from` on, after those in `acc`: the
/// pieces between commas, semicolons and line feeds, without the white
/// space at their ends, as far as they begin with a letter.
pub open spec fn listed_names(s: Text, from: int, acc: Seq<Text>) -> Seq<Text>
    decreases s.len() - from,
{
    let e = listed_name_end(s, from);
    let t = trim_text(s.subrange(from, e));
    let acc2 = if usable_name(t) {
        acc.push(t)
    } else {
        acc
    };
    if 0 <= from <= e < s.len() {
        listed_names(s, e + 1, acc2)
    } else {
        acc2
    }
}

/// The first `n` characters of `s` as far as they may stand in a name:
/// letters, digits and underscores.
pub open spec fn clean_prefix(s: Text, n: int) -> Text
    decreases n,
{
    if n <= 0 {
        Seq::empty()
    } else if is_letter_or_digit(s[n - 1]) || s[n - 1] == '_' {
        clean_prefix(s, n - 1).push(s[n - 1])
    } else {
        clean_prefix(s, n - 1)
    }
}

/// The characters of `s` that may stand in a name.
pub open spec fn clean_name(s: Text) -> Text {
    clean_prefix(s, s.len() as int)
}

/// A name with its first character in upper case.
pub open spec fn pascal_name(clean: Text) -> Text {
    upper_of(clean[0]) + clean.subrange(1, clean.len() as int)
}

/// The text of a new machine with three states.
pub open spec fn full_template(name: Text) -> Text {
    FULL_TEMPLATE_HEAD@ + name + FULL_TEMPLATE_MIDDLE@ + name + FULL_TEMPLATE_TAIL@
}

/// The text of a new machine with two states, to follow a text.
pub open spec fn short_template(name: Text) -> Text {
    SHORT_TEMPLATE_HEAD@ + name + SHORT_TEMPLATE_MIDDLE@ + name + SHORT_TEMPLATE_TAIL@
}

/// The name of the machine for a name of a list: its clean form in
/// Pascal case, or none where nothing of it is left.
pub open spec fn machine_name(name: Text) -> Option<Text> {
    let clean = clean_name(name);
    if clean.len() == 0 {
        None
    } else {
        Some(pascal_name(clean))
    }
}

/// The names of the machines for the first `n` names of a list.
pub open spec fn machine_names(names: Seq<Text>, n: int) -> Seq<Option<Text>>
    decreases n,
{
    if n <= 0 {
        Seq::empty()
    } else {
        machine_names(names, n - 1).push(machine_name(names[n - 1]))
    }
}

/// The texts of the machines for the names from `i` on, after `acc`. A
/// place without a name gives nothing; the text for any place but the
/// first of the list begins with an empty line.
pub open spec fn machines_text(names: Seq<Option<Text>>, i: int, acc: Text) -> Text
    decreases names.len() - i,
{
    if i < 0 || i >= names.len() {
        acc
    } else {
        match names[i] {
            None => machines_text(names, i + 1, acc),
            Some(name) => machines_text(
                names,
                i + 1,
                acc + (if i > 0 {
                    "\n\n"@
                } else {
                    Seq::<char>::empty()
                }) + full_template(name),
            ),
        }
    }
}

/// The text that describes machines with the given names, if there is
/// one.
pub open spec fn machines_for(names: Seq<Option<Text>>) -> Option<Text> {
    let all = machines_text(names, 0, Seq::empty());
    if all.len() == 0 {
        None
    } else {
        Some(HEADER@ + all)
    }
}

/// The text that describes new machines with the names listed in `s`, if
/// the list holds a name.
pub open spec fn new_machines(s: Text) -> Option<Text> {
    let listed = listed_names(s, 0, Seq::empty());
    machines_for(machine_names(listed, listed.len() as int))
}

/// The text `source` with a new machine called after `name` at its end,
/// if `name` holds a character that may stand in a name.
pub open spec fn with_new_machine(source: Text, name: Text) -> Option<Text> {
    match machine_name(name) {
        None => None,
        Some(pascal) => Some(source + short_template(pascal)),
    }
}

/// The characters of `s` that may stand in a name.
fn cleaned(s: &str) -> (out: Vec<char>)
    ensures
        out@ == clean_name(s@),
{
    let chars = to_chars(s);
    let mut out: Vec<char> = Vec::new();
    let mut i: usize = 0;
    while i < chars.len()
        invariant
            i <= chars.len(),
            chars@ == s@,
            out@ == clean_prefix(s@, i as int),
        decreases chars.len() - i,
    {
        let c = chars[i];
        if c.is_alphanumeric() || c == '_' {
            out.push(c);
        }
        i += 1;
    }
    out
}

/// A name with its first character in upper case.
fn pascal(clean: &Vec<char>) -> (out: String)
    requires
        clean.len() > 0,
    ensures
        out@ == pascal_name(clean@),
{
    let mut out = uppercase_string(clean[0]);
    let rest = from_chars(clean, 1, clean.len());
    out.append(rest.as_str());
    out
}

/// The names in a list of names.
fn names_in(s: &Vec<char>) -> (out: Vec<String>)
    ensures
        out.deep_view() == listed_names(s@, 0, Seq::empty()),
{
    let mut out: Vec<String> = Vec::new();
    assert(out.deep_view() =~= Seq::<Text>::empty());
    let mut from: usize = 0;
    loop
        invariant
            from <= s.len(),
            listed_names(s@, 0, Seq::empty()) == listed_names(s@, from as int, out.deep_view()),
        decreases s.len() - from,
    {
        let mut e: usize = from;
        while e < s.len() && !(s[e] == ',' || s[e] == ';' || s[e] == '\n')
            invariant
                from <= e <= s.len(),
                listed_name_end(s@, from as int) == listed_name_end(s@, e as int),
            decreases s.len() - e,
        {
            e += 1;
        }
        let (a, b) = trim_range(s, from, e);
        proof {
            lemma_trim_range(s@, from as int, e as int);
        }
        if a < b && s[a].is_alphabetic() {
            let ghost before = out.deep_view();
            let name = from_chars(s, a, b);
            out.push(name);
            assert(out.deep_view() =~= before.push(name@));
        }
        if e < s.len() {
            from = e + 1;
        } else {
            return out;
        }
    }
}

/// The name of the machine for a name of a list.
fn machine_name_of(name: &str) -> (out: Option<String>)
    ensures
        out.deep_view() == machine_name(name@),
{
    let clean = cleaned(name);
    if clean.len() == 0 {
        None
    } else {
        Some(pascal(&clean))
    }
}

/// Writes the description of machines with the given names: for each
/// place that holds a name a machine with three states, and before all of
/// them one line of comment. Returns nothing where no place holds a name.
pub fn machines_from(names: &Vec<Option<String>>) -> (out: Option<String>)
    ensures
        out.deep_view() == machines_for(names.deep_view()),
{
    let ghost ns = names.deep_view();
    let mut all = String::new();
    let mut i: usize = 0;
    while i < names.len()
        invariant
            i <= names.len(),
            ns == names.deep_view(),
            machines_text(ns, 0, Seq::empty()) == machines_text(ns, i as int, all@),
        decreases names.len() - i,
    {
        assert(ns[i as int] == names[i as int].deep_view());
        match &names[i] {
            Some(name) => {
                let ghost before = all@;
                if i > 0 {
                    all.append("\n\n");
                }
                all.append(FULL_TEMPLATE_HEAD);
                all.append(name.as_str());
                all.append(FULL_TEMPLATE_MIDDLE);
                all.append(name.as_str());
                all.append(FULL_TEMPLATE_TAIL);
                assert(all@ =~= before + (if i > 0 {
                    "\n\n"@
                } else {
                    Seq::<char>::empty()
                }) + full_template(name@));
            },
            None => {},
        }
        i += 1;
    }
    if all.as_str().is_empty() {
        None
    } else {
        let mut out = HEADER.to_owned();
        out.append(all.as_str());
        Some(out)
    }
}

/// Writes the description of new machines, one for each name in a list
/// of names separated by commas, semicolons or line feeds. A name begins
/// with a letter; of its characters only letters, digits and underscores
/// are kept, and the first is put in upper case. Returns nothing where
/// the list holds no name.
pub fn create_new_fsms(names_input: &str) -> (out: Option<String>)
    ensures
        out.deep_view() == new_machines(names_input@),
{
    let s = to_chars(names_input);
    let listed = names_in(&s);
    let mut names: Vec<Option<String>> = Vec::new();
    assert(names.deep_view() =~= Seq::<Option<Text>>::empty());
    let mut i: usize = 0;
    while i < listed.len()
        invariant
            i <= listed.len(),
            names.deep_view() == machine_names(listed.deep_view(), i as int),
        decreases listed.len() - i,
    {
        assert(listed.deep_view()[i as int] == listed[i as int]@);
        let ghost before = names.deep_view();
        let name = machine_name_of(listed[i].as_str());
        names.push(name);
        assert(names.deep_view() =~= before.push(machine_name(listed[i as int]@)));
        i += 1;
    }
    machines_from(&names)
}

/// Writes the description `source` with one more machine at its end: a
/// machine with two states called `name`.
pub fn append_machine(source: &str, name: &str) -> (out: String)
    ensures
        out@ == source@ + short_template(name@),
{
    let mut out = source.to_owned();
    let ghost before = out@;
    out.append(SHORT_TEMPLATE_HEAD);
    out.append(name);
    out.append(SHORT_TEMPLATE_MIDDLE);
    out.append(name);
    out.append(SHORT_TEMPLATE_TAIL);
    assert(out@ =~= before + short_template(name@));
    out
}

/// Writes the description `source` with one more machine at its end,
/// called after `name`: of the characters of `name` only letters, digits
/// and underscores are kept, and the first is put in upper case. Returns
/// nothing where `name` holds no character that may stand in a name.
pub fn add_new_fsm(source: &str, name: &str) -> (out: Option<String>)
    ensures
        out.deep_view() == with_new_machine(source@, name@),
{
    match machine_name_of(name) {
        None => None,
        Some(pascal) => Some(append_machine(source, pascal.as_str())),
    }
}

} // verus!
