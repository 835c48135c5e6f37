//! Names in emitted code: type and variant names in Pascal case, method
//! names as identifiers, and lists of names without repetition.

use vstd::prelude::*;
use crate::text::{Text, to_chars};

verus! {

/// A lowercase letter of the Latin alphabet.
pub open spec fn is_lower(c: char) -> bool {
    'a' <= c && c <= 'z'
}

/// A letter of the Latin alphabet or a digit.
pub open spec fn is_plain(c: char) -> bool {
    ('a' <= c && c <= 'z') || ('A' <= c && c <= 'Z') || ('0' <= c && c <= '9')
}

/// The uppercase form of a lowercase Latin letter; any other character
/// as it is.
pub open spec fn upper(c: char) -> char {
    if is_lower(c) {
        ((c as u8) - 32) as char
    } else {
        c
    }
}

/// Puts a lowercase Latin letter in upper case.
pub fn to_upper(c: char) -> (r: char)
    ensures
        r == upper(c),
{
    if c >= 'a' && c <= 'z' {
        ((c as u8) - 32) as char
    } else {
        c
    }
}

/// Whether `c` is a Latin letter or a digit.
pub fn plain(c: char) -> (b: bool)
    ensures
        b == is_plain(c),
{
    (c >= 'a' && c <= 'z') || (c >= 'A' && c <= 'Z') || (c >= '0' && c <= '9')
}

/// The first `n` characters of `s` in Pascal case: only letters and
/// digits stay, and a letter that begins the text or follows a character
/// that does not stay is put in upper case.
pub open spec fn pascal_prefix(s: Text, n: int) -> Text
    decreases n,
{
    if n <= 0 {
        Seq::empty()
    } else if !is_plain(s[n - 1]) {
        pascal_prefix(s, n - 1)
    } else if n == 1 || !is_plain(s[n - 2]) {
        pascal_prefix(s, n - 1).push(upper(s[n - 1]))
    } else {
        pascal_prefix(s, n - 1).push(s[n - 1])
    }
}

/// The text in Pascal case, as the name of a type or of a variant.
pub open spec fn pascal_case(s: Text) -> Text {
    pascal_prefix(s, s.len() as int)
}

/// Puts a name in Pascal case.
pub fn pascal_string(s: &str) -> (out: String)
    ensures
        out@ == pascal_case(s@),
{
    let chars = to_chars(s);
    let mut out = String::new();
    let mut i: usize = 0;
    while i < chars.len()
        invariant
            i <= chars.len(),
            chars@ == s@,
            out@ == pascal_prefix(s@, i as int),
        decreases chars.len() - i,
    {
        let c = chars[i];
        if plain(c) {
            if i == 0 || !plain(chars[i - 1]) {
                out.push(to_upper(c));
            } else {
                out.push(c);
            }
        }
        i += 1;
    }
    out
}

/// The first `n` characters of `s` as an identifier: every character
/// that is neither a letter nor a digit nor an underscore becomes an
/// underscore.
pub open spec fn ident_prefix(s: Text, n: int) -> Text
    decreases n,
{
    if n <= 0 {
        Seq::empty()
    } else if is_plain(s[n - 1]) || s[n - 1] == '_' {
        ident_prefix(s, n - 1).push(s[n - 1])
    } else {
        ident_prefix(s, n - 1).push('_')
    }
}

/// The text as an identifier, as the name of a method.
pub open spec fn ident(s: Text) -> Text {
    ident_prefix(s, s.len() as int)
}

/// Turns a text into an identifier.
pub fn ident_string(s: &str) -> (out: String)
    ensures
        out@ == ident(s@),
{
    let chars = to_chars(s);
    let mut out = String::new();
    let mut i: usize = 0;
    while i < chars.len()
        invariant
            i <= chars.len(),
            chars@ == s@,
            out@ == ident_prefix(s@, i as int),
        decreases chars.len() - i,
    {
        let c = chars[i];
        if plain(c) || c == '_' {
            out.push(c);
        } else {
            out.push('_');
        }
        i += 1;
    }
    out
}

/// The first `n` of the names, each once, in the order in which they
/// first stand.
pub open spec fn distinct(names: Seq<Text>, n: int) -> Seq<Text>
    decreases n,
{
    if n <= 0 {
        Seq::empty()
    } else if distinct(names, n - 1).contains(names[n - 1]) {
        distinct(names, n - 1)
    } else {
        distinct(names, n - 1).push(names[n - 1])
    }
}

/// Whether the list holds the name.
pub fn holds_name(names: &Vec<String>, name: &String) -> (b: bool)
    ensures
        b == names.deep_view().contains(name@),
{
    let mut i: usize = 0;
    while i < names.len()
        invariant
            i <= names.len(),
            forall|k: int| 0 <= k < i ==> names.deep_view()[k] != name@,
        decreases names.len() - i,
    {
        assert(names.deep_view()[i as int] == names[i as int]@);
        if names[i] == *name {
            return true;
        }
        i += 1;
    }
    false
}

/// The names, each once, in the order in which they first stand.
pub fn distinct_names(names: &Vec<String>) -> (out: Vec<String>)
    ensures
        out.deep_view() == distinct(names.deep_view(), names.len() as int),
{
    let mut out: Vec<String> = Vec::new();
    assert(out.deep_view() =~= Seq::<Text>::empty());
    let mut i: usize = 0;
    while i < names.len()
        invariant
            i <= names.len(),
            out.deep_view() == distinct(names.deep_view(), i as int),
        decreases names.len() - i,
    {
        assert(names.deep_view()[i as int] == names[i as int]@);
        if !holds_name(&out, &names[i]) {
            let ghost before = out.deep_view();
            out.push(names[i].clone());
            assert(out.deep_view() =~= before.push(names[i as int]@));
        }
        i += 1;
    }
    out
}

/// The lines made of the first `n` of the names, each between `before`
/// and `after`.
pub open spec fn lines(before: Text, names: Seq<Text>, after: Text, n: int) -> Text
    decreases n,
{
    if n <= 0 {
        Seq::empty()
    } else {
        lines(before, names, after, n - 1) + before + names[n - 1] + after
    }
}

/// Writes one line for each name: the name between `before` and `after`.
pub fn write_lines(out: &mut String, before: &str, names: &Vec<String>, after: &str)
    ensures
        final(out)@ == old(out)@ + lines(
            before@,
            names.deep_view(),
            after@,
            names.len() as int,
        ),
{
    let ghost start = out@;
    let mut i: usize = 0;
    assert(start + lines(before@, names.deep_view(), after@, 0) =~= start);
    while i < names.len()
        invariant
            i <= names.len(),
            out@ == start + lines(before@, names.deep_view(), after@, i as int),
        decreases names.len() - i,
    {
        assert(names.deep_view()[i as int] == names[i as int]@);
        out.append(before);
        out.append(names[i].as_str());
        out.append(after);
        i += 1;
        assert(out@ =~= start + lines(before@, names.deep_view(), after@, i as int));
    }
}

} // verus!
