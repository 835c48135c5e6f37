//! The lexical layer: white space, comments, names, numbers and the other
//! runs of characters that the grammar is built from.
//!
//! Every function comes in two forms: a spec function over the text and a
//! position in it, and an executable function over `Vec<char>` that
//! returns what the spec function says.

use vstd::prelude::*;
use crate::text::Text;

verus! {

/// A blank, a tab or a line break.
pub open spec fn is_space(c: char) -> bool {
    c == ' ' || c == '\t' || c == '\n' || c == '\r'
}

/// A character that may begin a name.
pub open spec fn is_name_start(c: char) -> bool {
    ('a' <= c && c <= 'z') || ('A' <= c && c <= 'Z') || c == '_'
}

/// A decimal digit.
pub open spec fn is_digit(c: char) -> bool {
    '0' <= c && c <= '9'
}

/// A character that may continue a name.
pub open spec fn is_name_char(c: char) -> bool {
    is_name_start(c) || is_digit(c)
}

/// A character that ends an unquoted description.
pub open spec fn ends_description(c: char) -> bool {
    c == '\n' || c == '\r' || c == '{' || c == '}'
}

/// A character that ends a parameter.
pub open spec fn ends_parameter(c: char) -> bool {
    c == ',' || c == ')' || c == '(' || c == '\n'
}

/// Whether `c` is a blank, a tab or a line break.
pub fn space(c: char) -> (b: bool)
    ensures
        b == is_space(c),
{
    c == ' ' || c == '\t' || c == '\n' || c == '\r'
}

/// Whether `c` may begin a name.
pub fn name_start(c: char) -> (b: bool)
    ensures
        b == is_name_start(c),
{
    (c >= 'a' && c <= 'z') || (c >= 'A' && c <= 'Z') || c == '_'
}

/// Whether `c` is a decimal digit.
pub fn digit(c: char) -> (b: bool)
    ensures
        b == is_digit(c),
{
    c >= '0' && c <= '9'
}

/// Whether `c` may continue a name.
pub fn name_char(c: char) -> (b: bool)
    ensures
        b == is_name_char(c),
{
    name_start(c) || digit(c)
}

/// Whether the character at `p` is `c`.
pub open spec fn char_at(s: Text, p: int, c: char) -> bool {
    0 <= p < s.len() && s[p] == c
}

/// Whether the character at `p` is `c`.
pub fn at_char(s: &Vec<char>, p: usize, c: char) -> (b: bool)
    ensures
        b == char_at(s@, p as int, c),
{
    p < s.len() && s[p] == c
}

/// Whether the two characters at `p` are `a` and `b`.
pub open spec fn pair_at(s: Text, p: int, a: char, b: char) -> bool {
    char_at(s, p, a) && char_at(s, p + 1, b)
}

/// Whether the two characters at `p` are `a` and `b`.
pub fn at_pair(s: &Vec<char>, p: usize, a: char, b: char) -> (r: bool)
    ensures
        r == pair_at(s@, p as int, a, b),
{
    p < s.len() && s[p] == a && p + 1 < s.len() && s[p + 1] == b
}

/// Whether the entry pseudostate `[*]` stands at `p`.
pub open spec fn marker_at(s: Text, p: int) -> bool {
    char_at(s, p, '[') && char_at(s, p + 1, '*') && char_at(s, p + 2, ']')
}

/// Whether the entry pseudostate `[*]` stands at `p`.
pub fn at_marker(s: &Vec<char>, p: usize) -> (r: bool)
    ensures
        r == marker_at(s@, p as int),
{
    p < s.len() && s.len() - p >= 3 && s[p] == '[' && s[p + 1] == '*' && s[p + 2] == ']'
}

/// The first position from `p` on that holds a line feed, or the end of
/// the text.
pub open spec fn line_end(s: Text, p: int) -> int
    decreases s.len() - p,
{
    if p < 0 || p >= s.len() {
        s.len() as int
    } else if s[p] == '\n' {
        p
    } else {
        line_end(s, p + 1)
    }
}

/// Finds the end of the line that holds `p`.
pub fn find_line_end(s: &Vec<char>, p: usize) -> (q: usize)
    requires
        p <= s.len(),
    ensures
        q == line_end(s@, p as int),
        p <= q <= s.len(),
{
    let mut q: usize = p;
    while q < s.len() && s[q] != '\n'
        invariant
            p <= q <= s.len(),
            line_end(s@, p as int) == line_end(s@, q as int),
        decreases s.len() - q,
    {
        q += 1;
    }
    q
}

/// The position just after the first `*/` that begins at `p` or later, if
/// there is one.
pub open spec fn comment_end(s: Text, p: int) -> Option<int>
    decreases s.len() - p,
{
    if p < 0 || p + 1 >= s.len() {
        None
    } else if s[p] == '*' && s[p + 1] == '/' {
        Some(p + 2)
    } else {
        comment_end(s, p + 1)
    }
}

/// Finds the end of the block comment whose text begins at `p`.
pub fn find_comment_end(s: &Vec<char>, p: usize) -> (r: Option<usize>)
    requires
        p <= s.len(),
    ensures
        match r {
            Some(q) => comment_end(s@, p as int) == Some(q as int) && p + 2 <= q <= s.len(),
            None => comment_end(s@, p as int) is None,
        },
{
    let mut q: usize = p;
    while q < s.len() && q + 1 < s.len()
        invariant
            p <= q <= s.len(),
            comment_end(s@, p as int) == comment_end(s@, q as int),
        decreases s.len() - q,
    {
        if s[q] == '*' && s[q + 1] == '/' {
            return Some(q + 2);
        }
        q += 1;
    }
    None
}

/// The position reached from `p` by passing over white space, line
/// comments (`//` to the end of the line) and block comments (`/*` to the
/// next `*/`). A block comment that is never closed is not passed over.
pub open spec fn skip(s: Text, p: int) -> int
    decreases s.len() - p,
{
    if p < 0 || p >= s.len() {
        p
    } else if is_space(s[p]) {
        skip(s, p + 1)
    } else if pair_at(s, p, '/', '/') {
        let q = line_end(s, p + 2);
        if p < q <= s.len() {
            skip(s, q)
        } else {
            p
        }
    } else if pair_at(s, p, '/', '*') {
        match comment_end(s, p + 2) {
            Some(q) => if p < q <= s.len() {
                skip(s, q)
            } else {
                p
            },
            None => p,
        }
    } else {
        p
    }
}

/// Passes over white space and comments.
pub fn skip_blank(s: &Vec<char>, p: usize) -> (q: usize)
    requires
        p <= s.len(),
    ensures
        q == skip(s@, p as int),
        p <= q <= s.len(),
{
    let mut q: usize = p;
    loop
        invariant
            p <= q <= s.len(),
            skip(s@, p as int) == skip(s@, q as int),
        ensures
            q == skip(s@, p as int),
        decreases s.len() - q,
    {
        if q >= s.len() {
            break ;
        }
        if space(s[q]) {
            q += 1;
        } else if at_pair(s, q, '/', '/') {
            q = find_line_end(s, q + 2);
        } else if at_pair(s, q, '/', '*') {
            match find_comment_end(s, q + 2) {
                Some(e) => {
                    q = e;
                },
                None => {
                    break ;
                },
            }
        } else {
            break ;
        }
    }
    q
}

/// The end of the run of name characters that begins at `p`.
pub open spec fn name_run_end(s: Text, p: int) -> int
    decreases s.len() - p,
{
    if p < 0 || p >= s.len() || !is_name_char(s[p]) {
        p
    } else {
        name_run_end(s, p + 1)
    }
}

/// The end of the name that begins at `p`; `p` itself if no name begins
/// there.
pub open spec fn name_end(s: Text, p: int) -> int {
    if 0 <= p < s.len() && is_name_start(s[p]) {
        name_run_end(s, p + 1)
    } else {
        p
    }
}

/// Finds the end of the name that begins at `p`.
pub fn find_name_end(s: &Vec<char>, p: usize) -> (q: usize)
    requires
        p <= s.len(),
    ensures
        q == name_end(s@, p as int),
        p <= q <= s.len(),
{
    if p < s.len() && name_start(s[p]) {
        let mut q: usize = p + 1;
        while q < s.len() && name_char(s[q])
            invariant
                p < q <= s.len(),
                name_run_end(s@, p + 1) == name_run_end(s@, q as int),
            decreases s.len() - q,
        {
            q += 1;
        }
        q
    } else {
        p
    }
}

/// The end of the run of digits that begins at `p`.
pub open spec fn digits_end(s: Text, p: int) -> int
    decreases s.len() - p,
{
    if p < 0 || p >= s.len() || !is_digit(s[p]) {
        p
    } else {
        digits_end(s, p + 1)
    }
}

/// Finds the end of the run of digits that begins at `p`.
pub fn find_digits_end(s: &Vec<char>, p: usize) -> (q: usize)
    requires
        p <= s.len(),
    ensures
        q == digits_end(s@, p as int),
        p <= q <= s.len(),
        forall|i: int| p <= i < q ==> is_digit(#[trigger] s@[i]),
{
    let mut q: usize = p;
    while q < s.len() && digit(s[q])
        invariant
            p <= q <= s.len(),
            digits_end(s@, p as int) == digits_end(s@, q as int),
            forall|i: int| p <= i < q ==> is_digit(#[trigger] s@[i]),
        decreases s.len() - q,
    {
        q += 1;
    }
    q
}

/// The first position from `p` on that holds `c`, or the end of the text.
pub open spec fn find_char(s: Text, p: int, c: char) -> int
    decreases s.len() - p,
{
    if p < 0 || p >= s.len() {
        s.len() as int
    } else if s[p] == c {
        p
    } else {
        find_char(s, p + 1, c)
    }
}

/// Finds the first `c` from `p` on.
pub fn seek_char(s: &Vec<char>, p: usize, c: char) -> (q: usize)
    requires
        p <= s.len(),
    ensures
        q == find_char(s@, p as int, c),
        p <= q <= s.len(),
        q < s.len() ==> s@[q as int] == c,
{
    let mut q: usize = p;
    while q < s.len() && s[q] != c
        invariant
            p <= q <= s.len(),
            find_char(s@, p as int, c) == find_char(s@, q as int, c),
        decreases s.len() - q,
    {
        q += 1;
    }
    q
}

/// The end of the unquoted description that begins at `p`: the first
/// line break or brace, or the end of the text.
pub open spec fn description_end(s: Text, p: int) -> int
    decreases s.len() - p,
{
    if p < 0 || p >= s.len() {
        s.len() as int
    } else if ends_description(s[p]) {
        p
    } else {
        description_end(s, p + 1)
    }
}

/// Finds the end of the unquoted description that begins at `p`.
pub fn find_description_end(s: &Vec<char>, p: usize) -> (q: usize)
    requires
        p <= s.len(),
    ensures
        q == description_end(s@, p as int),
        p <= q <= s.len(),
{
    let mut q: usize = p;
    while q < s.len() && !(s[q] == '\n' || s[q] == '\r' || s[q] == '{' || s[q] == '}')
        invariant
            p <= q <= s.len(),
            description_end(s@, p as int) == description_end(s@, q as int),
        decreases s.len() - q,
    {
        q += 1;
    }
    q
}

/// The end of the parameter that begins at `p`: the first comma,
/// parenthesis or line feed, or the end of the text.
pub open spec fn parameter_end(s: Text, p: int) -> int
    decreases s.len() - p,
{
    if p < 0 || p >= s.len() {
        s.len() as int
    } else if ends_parameter(s[p]) {
        p
    } else {
        parameter_end(s, p + 1)
    }
}

/// Finds the end of the parameter that begins at `p`.
pub fn find_parameter_end(s: &Vec<char>, p: usize) -> (q: usize)
    requires
        p <= s.len(),
    ensures
        q == parameter_end(s@, p as int),
        p <= q <= s.len(),
{
    let mut q: usize = p;
    while q < s.len() && !(s[q] == ',' || s[q] == ')' || s[q] == '(' || s[q] == '\n')
        invariant
            p <= q <= s.len(),
            parameter_end(s@, p as int) == parameter_end(s@, q as int),
        decreases s.len() - q,
    {
        q += 1;
    }
    q
}

/// The position reached from `p` by passing over white space, without
/// going beyond `q`.
pub open spec fn trim_start(s: Text, p: int, q: int) -> int
    decreases q - p,
{
    if p < 0 || p >= q || p >= s.len() || !is_space(s[p]) {
        p
    } else {
        trim_start(s, p + 1, q)
    }
}

/// The position reached from `q` by going back over white space, without
/// going before `p`.
pub open spec fn trim_end(s: Text, p: int, q: int) -> int
    decreases q - p,
{
    if q <= p || q > s.len() || q <= 0 || !is_space(s[q - 1]) {
        q
    } else {
        trim_end(s, p, q - 1)
    }
}

/// The text between `p` and `q` without the white space at its ends.
pub open spec fn trimmed(s: Text, p: int, q: int) -> Text {
    let a = trim_start(s, p, q);
    let b = trim_end(s, a, q);
    s.subrange(a, b)
}

/// The bounds of the text between `p` and `q` without the white space at
/// its ends.
pub fn trim_bounds(s: &Vec<char>, p: usize, q: usize) -> (r: (usize, usize))
    requires
        p <= q <= s.len(),
    ensures
        r.0 == trim_start(s@, p as int, q as int),
        r.1 == trim_end(s@, r.0 as int, q as int),
        p <= r.0 <= r.1 <= q,
{
    let mut a: usize = p;
    while a < q && space(s[a])
        invariant
            p <= a <= q <= s.len(),
            trim_start(s@, p as int, q as int) == trim_start(s@, a as int, q as int),
        decreases q - a,
    {
        a += 1;
    }
    let mut b: usize = q;
    while b > a && space(s[b - 1])
        invariant
            a <= b <= q <= s.len(),
            trim_end(s@, a as int, q as int) == trim_end(s@, a as int, b as int),
        decreases b - a,
    {
        b -= 1;
    }
    (a, b)
}

/// The string of the text between `p` and `q` without the white space at
/// its ends.
pub fn trimmed_string(s: &Vec<char>, p: usize, q: usize) -> (out: String)
    requires
        p <= q <= s.len(),
    ensures
        out@ == trimmed(s@, p as int, q as int),
{
    let (a, b) = trim_bounds(s, p, q);
    crate::text::from_chars(s, a, b)
}

/// The number that a run of digits writes in base ten.
pub open spec fn digits_value(ds: Text) -> nat
    decreases ds.len(),
{
    if ds.len() == 0 {
        0
    } else {
        digits_value(ds.drop_last()) * 10 + ((ds.last() as int) - ('0' as int)) as nat
    }
}

/// The duration that a run of digits stands for: its value, or 1000 where
/// the value does not fit in 32 bits.
pub open spec fn duration_of(ds: Text) -> u32 {
    if digits_value(ds) <= u32::MAX {
        digits_value(ds) as u32
    } else {
        1000
    }
}

/// Longer runs of digits write larger or equal numbers.
pub proof fn lemma_digits_value_grows(ds: Text, n: int)
    requires
        0 <= n <= ds.len(),
        forall|i: int| 0 <= i < ds.len() ==> is_digit(#[trigger] ds[i]),
    ensures
        digits_value(ds.take(n)) <= digits_value(ds),
    decreases ds.len() - n,
{
    if n == ds.len() {
        assert(ds.take(n) == ds);
    } else {
        assert(ds.take(n + 1).drop_last() == ds.take(n));
        assert(is_digit(ds[n]));
        assert(ds.take(n + 1).last() == ds[n]);
        lemma_digits_value_grows(ds, n + 1);
    }
}

/// The duration written by the digits between `p` and `q`.
pub fn read_duration(s: &Vec<char>, p: usize, q: usize) -> (d: u32)
    requires
        p <= q <= s.len(),
        forall|i: int| p <= i < q ==> is_digit(#[trigger] s@[i]),
    ensures
        d == duration_of(s@.subrange(p as int, q as int)),
{
    let ghost ds = s@.subrange(p as int, q as int);
    let mut value: u64 = 0;
    let mut i: usize = p;
    while i < q
        invariant
            p <= i <= q <= s.len(),
            ds == s@.subrange(p as int, q as int),
            forall|k: int| 0 <= k < ds.len() ==> is_digit(#[trigger] ds[k]),
            value == digits_value(ds.take(i - p)),
            value <= u32::MAX,
        decreases q - i,
    {
        let c = s[i];
        assert(ds[i - p] == c);
        assert(is_digit(c));
        let d: u64 = (c as u32 - '0' as u32) as u64;
        let next: u64 = value * 10 + d;
        proof {
            assert(ds.take(i - p + 1).drop_last() == ds.take(i - p));
            assert(ds.take(i - p + 1).last() == c);
            assert(next == digits_value(ds.take(i - p + 1)));
        }
        if next > 0xFFFF_FFFF {
            proof {
                lemma_digits_value_grows(ds, i - p + 1);
            }
            return 1000;
        }
        value = next;
        i += 1;
    }
    assert(ds.take(q - p) == ds);
    value as u32
}

/// The number of the line that holds position `p`, counting from one.
pub open spec fn line_of(s: Text, p: int) -> nat
    decreases p,
{
    if p <= 0 || p > s.len() {
        1
    } else if s[p - 1] == '\n' {
        line_of(s, p - 1) + 1
    } else {
        line_of(s, p - 1)
    }
}

/// The line number as a machine integer: it stops at the largest one.
pub open spec fn line_number(s: Text, p: int) -> usize {
    if line_of(s, p) <= usize::MAX {
        line_of(s, p) as usize
    } else {
        usize::MAX
    }
}

/// Counts the line that holds `p`.
pub fn find_line(s: &Vec<char>, p: usize) -> (n: usize)
    requires
        p <= s.len(),
    ensures
        n == line_number(s@, p as int),
{
    let mut n: usize = 1;
    let mut i: usize = 0;
    while i < p
        invariant
            i <= p <= s.len(),
            n == line_number(s@, i as int),
        decreases p - i,
    {
        if s[i] == '\n' && n < usize::MAX {
            n += 1;
        }
        i += 1;
    }
    n
}

} // verus!
