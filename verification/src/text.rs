//! Text helpers: strings seen as sequences of characters.
//!
//! Every contract in this crate speaks of a string through its view, the
//! sequence of its characters. The functions here move between `String`,
//! `&str` and `Vec<char>` and define the order used to sort names.

use vstd::prelude::*;

verus! {

/// A piece of text as contracts see it.
pub type Text = Seq<char>;

/// `String::push` appends one character to the end of the string and
/// changes nothing else.
pub assume_specification[ String::push ](s: &mut String, c: char)
    ensures
        final(s)@ == old(s)@.push(c),
;

/// The characters of `s`, in order.
pub fn to_chars(s: &str) -> (out: Vec<char>)
    ensures
        out@ == s@,
{
    let mut out: Vec<char> = Vec::new();
    for c in it: s.chars()
        invariant
            out@ == it.seq().take(it.index()),
            it.seq() == s@,
    {
        out.push(c);
    }
    out
}

/// The string made of `chars[from..to]`.
pub fn from_chars(chars: &Vec<char>, from: usize, to: usize) -> (out: String)
    requires
        from <= to <= chars.len(),
    ensures
        out@ == chars@.subrange(from as int, to as int),
{
    let mut out = String::new();
    let mut i: usize = from;
    while i < to
        invariant
            from <= i <= to <= chars.len(),
            out@ == chars@.subrange(from as int, i as int),
        decreases to - i,
    {
        out.push(chars[i]);
        i += 1;
        assert(chars@.subrange(from as int, i as int) == chars@.subrange(
            from as int,
            i - 1,
        ).push(chars@[i - 1]));
    }
    out
}

/// Strict lexicographic order on text, characters compared by code point.
/// A proper prefix comes before any of its extensions.
pub open spec fn text_lt(a: Text, b: Text) -> bool
    decreases a.len(),
{
    if b.len() == 0 {
        false
    } else if a.len() == 0 {
        true
    } else if a[0] != b[0] {
        (a[0] as int) < (b[0] as int)
    } else {
        text_lt(a.drop_first(), b.drop_first())
    }
}

/// Dropping a common prefix does not change how two texts compare.
pub proof fn lemma_text_lt_skip(a: Text, b: Text, n: int)
    requires
        0 <= n <= a.len(),
        n <= b.len(),
        a.take(n) == b.take(n),
    ensures
        text_lt(a, b) == text_lt(a.skip(n), b.skip(n)),
    decreases n,
{
    if n == 0 {
        assert(a.skip(0) == a);
        assert(b.skip(0) == b);
    } else {
        assert(a[0] == a.take(n)[0]);
        assert(b[0] == b.take(n)[0]);
        assert(a.drop_first().take(n - 1) == a.take(n).drop_first());
        assert(b.drop_first().take(n - 1) == b.take(n).drop_first());
        lemma_text_lt_skip(a.drop_first(), b.drop_first(), n - 1);
        assert(a.drop_first().skip(n - 1) == a.skip(n));
        assert(b.drop_first().skip(n - 1) == b.skip(n));
    }
}

/// No text comes before itself.
pub proof fn lemma_text_lt_irreflexive(a: Text)
    ensures
        !text_lt(a, a),
    decreases a.len(),
{
    if a.len() > 0 {
        lemma_text_lt_irreflexive(a.drop_first());
    }
}

/// The order is transitive.
pub proof fn lemma_text_lt_transitive(a: Text, b: Text, c: Text)
    requires
        text_lt(a, b),
        text_lt(b, c),
    ensures
        text_lt(a, c),
    decreases a.len(),
{
    if a.len() > 0 && a[0] == b[0] && b[0] == c[0] {
        lemma_text_lt_transitive(a.drop_first(), b.drop_first(), c.drop_first());
    }
}

/// Of two different texts one comes before the other.
pub proof fn lemma_text_lt_total(a: Text, b: Text)
    ensures
        a == b || text_lt(a, b) || text_lt(b, a),
    decreases a.len(),
{
    if a.len() == 0 || b.len() == 0 {
        if a.len() == 0 && b.len() == 0 {
            assert(a =~= b);
        }
    } else if a[0] != b[0] {
        assert((a[0] as int) != (b[0] as int));
    } else {
        lemma_text_lt_total(a.drop_first(), b.drop_first());
        if a.drop_first() == b.drop_first() {
            assert(a =~= seq![a[0]] + a.drop_first());
            assert(b =~= seq![b[0]] + b.drop_first());
        }
    }
}

/// Whether `a` comes strictly before `b`.
pub fn text_before(a: &str, b: &str) -> (r: bool)
    ensures
        r == text_lt(a@, b@),
{
    let x = to_chars(a);
    let y = to_chars(b);
    let mut i: usize = 0;
    while i < x.len() && i < y.len()
        invariant
            i <= x.len(),
            i <= y.len(),
            x@ == a@,
            y@ == b@,
            x@.take(i as int) == y@.take(i as int),
        decreases x.len() - i,
    {
        if x[i] != y[i] {
            proof {
                lemma_text_lt_skip(x@, y@, i as int);
                assert(x@.skip(i as int)[0] == x@[i as int]);
                assert(y@.skip(i as int)[0] == y@[i as int]);
            }
            return x[i] < y[i];
        }
        i += 1;
        assert(x@.take(i as int) == x@.take(i - 1).push(x@[i - 1]));
        assert(y@.take(i as int) == y@.take(i - 1).push(y@[i - 1]));
    }
    proof {
        lemma_text_lt_skip(x@, y@, i as int);
    }
    i < y.len()
}

/// The texts of `parts`, one after the other, with `sep` between
/// neighbours.
pub open spec fn join_text(parts: Seq<Text>, sep: Text) -> Text
    decreases parts.len(),
{
    if parts.len() == 0 {
        Seq::empty()
    } else if parts.len() == 1 {
        parts[0]
    } else {
        join_text(parts.drop_last(), sep) + sep + parts.last()
    }
}

/// Joins `parts` with `sep` between neighbours.
pub fn join_strings(parts: &Vec<String>, sep: &str) -> (out: String)
    ensures
        out@ == join_text(parts.deep_view(), sep@),
{
    let mut out = String::new();
    let mut i: usize = 0;
    while i < parts.len()
        invariant
            i <= parts.len(),
            out@ == join_text(parts.deep_view().take(i as int), sep@),
        decreases parts.len() - i,
    {
        let ghost before = parts.deep_view().take(i as int);
        let ghost after = parts.deep_view().take(i + 1);
        proof {
            assert(after.drop_last() == before);
            assert(after.last() == parts[i as int]@);
        }
        if i > 0 {
            out.append(sep);
        } else {
            assert(out@ + parts[i as int]@ == parts[i as int]@);
        }
        out.append(parts[i].as_str());
        i += 1;
    }
    assert(parts.deep_view().take(parts.len() as int) == parts.deep_view());
    out
}

/// The decimal digit that writes `d`; `0` for anything above nine.
pub open spec fn digit_char(d: nat) -> char {
    if d == 1 {
        '1'
    } else if d == 2 {
        '2'
    } else if d == 3 {
        '3'
    } else if d == 4 {
        '4'
    } else if d == 5 {
        '5'
    } else if d == 6 {
        '6'
    } else if d == 7 {
        '7'
    } else if d == 8 {
        '8'
    } else if d == 9 {
        '9'
    } else {
        '0'
    }
}

/// The number `n` written in base ten, without leading zeros.
pub open spec fn decimal(n: nat) -> Text
    decreases n,
{
    if n < 10 {
        seq![digit_char(n)]
    } else {
        decimal(n / 10).push(digit_char(n % 10))
    }
}

fn digit_of(d: usize) -> (c: char)
    requires
        d < 10,
    ensures
        c == digit_char(d as nat),
{
    if d == 1 {
        '1'
    } else if d == 2 {
        '2'
    } else if d == 3 {
        '3'
    } else if d == 4 {
        '4'
    } else if d == 5 {
        '5'
    } else if d == 6 {
        '6'
    } else if d == 7 {
        '7'
    } else if d == 8 {
        '8'
    } else if d == 9 {
        '9'
    } else {
        '0'
    }
}

/// Writes `n` in base ten.
pub fn decimal_string(n: usize) -> (out: String)
    ensures
        out@ == decimal(n as nat),
    decreases n,
{
    if n < 10 {
        let mut out = String::new();
        out.push(digit_of(n));
        assert(out@ =~= seq![digit_char(n as nat)]);
        out
    } else {
        let mut out = decimal_string(n / 10);
        out.push(digit_of(n % 10));
        out
    }
}

/// Whether `c` is white space: a character with the Unicode property
/// `White_Space`.
pub open spec fn is_white(c: char) -> bool {
    ('\t' <= c && c <= '\r') || c == ' ' || c == '\u{85}' || c == '\u{A0}' || c == '\u{1680}' || (
    '\u{2000}' <= c && c <= '\u{200A}') || c == '\u{2028}' || c == '\u{2029}' || c == '\u{202F}'
        || c == '\u{205F}' || c == '\u{3000}'
}

/// Whether `c` is white space.
pub fn white(c: char) -> (b: bool)
    ensures
        b == is_white(c),
{
    (c >= '\t' && c <= '\r') || c == ' ' || c == '\u{85}' || c == '\u{A0}' || c == '\u{1680}' || (c
        >= '\u{2000}' && c <= '\u{200A}') || c == '\u{2028}' || c == '\u{2029}' || c == '\u{202F}'
        || c == '\u{205F}' || c == '\u{3000}'
}

/// The position reached from `p` by passing over white space, without
/// going beyond `q`.
pub open spec fn white_start(s: Text, p: int, q: int) -> int
    decreases q - p,
{
    if p < 0 || p >= q || p >= s.len() || !is_white(s[p]) {
        p
    } else {
        white_start(s, p + 1, q)
    }
}

/// The position reached from `q` by going back over white space, without
/// going before `p`.
pub open spec fn white_end(s: Text, p: int, q: int) -> int
    decreases q - p,
{
    if q <= p || q > s.len() || q <= 0 || !is_white(s[q - 1]) {
        q
    } else {
        white_end(s, p, q - 1)
    }
}

/// The text between `p` and `q` without the white space at its ends.
pub open spec fn trim_between(s: Text, p: int, q: int) -> Text {
    let a = white_start(s, p, q);
    let b = white_end(s, a, q);
    s.subrange(a, b)
}

/// The text without the white space at its ends.
pub open spec fn trim_text(s: Text) -> Text {
    trim_between(s, 0, s.len() as int)
}

/// The bounds of the text between `p` and `q` without the white space at
/// its ends.
pub fn trim_range(s: &Vec<char>, p: usize, q: usize) -> (r: (usize, usize))
    requires
        p <= q <= s.len(),
    ensures
        r.0 == white_start(s@, p as int, q as int),
        r.1 == white_end(s@, r.0 as int, q as int),
        p <= r.0 <= r.1 <= q,
        s@.subrange(r.0 as int, r.1 as int) == trim_between(s@, p as int, q as int),
{
    let mut a: usize = p;
    while a < q && white(s[a])
        invariant
            p <= a <= q <= s.len(),
            white_start(s@, p as int, q as int) == white_start(s@, a as int, q as int),
        decreases q - a,
    {
        a += 1;
    }
    let mut b: usize = q;
    while b > a && white(s[b - 1])
        invariant
            a <= b <= q <= s.len(),
            white_end(s@, a as int, q as int) == white_end(s@, a as int, b as int),
        decreases b - a,
    {
        b -= 1;
    }
    (a, b)
}

/// Whether `needle` stands in `hay` at position `i`.
pub open spec fn occurs_at(hay: Text, needle: Text, i: int) -> bool {
    0 <= i && i + needle.len() <= hay.len() && hay.subrange(i, i + needle.len()) == needle
}

/// Whether `needle` stands somewhere in `hay`.
pub open spec fn contains_text(hay: Text, needle: Text) -> bool {
    exists|i: int| occurs_at(hay, needle, i)
}

/// Whether `needle` stands in `hay` at position `i`.
pub fn found_at(hay: &Vec<char>, needle: &Vec<char>, i: usize) -> (b: bool)
    ensures
        b == occurs_at(hay@, needle@, i as int),
{
    if i > hay.len() || needle.len() > hay.len() - i {
        return false;
    }
    let mut k: usize = 0;
    while k < needle.len()
        invariant
            k <= needle.len(),
            i + needle.len() <= hay.len(),
            forall|j: int| 0 <= j < k ==> hay@[i + j] == needle@[j],
        decreases needle.len() - k,
    {
        if hay[i + k] != needle[k] {
            assert(hay@.subrange(i as int, i + needle.len())[k as int] != needle@[k as int]);
            return false;
        }
        k += 1;
    }
    assert(hay@.subrange(i as int, i + needle.len()) =~= needle@);
    true
}

/// Whether `needle` stands somewhere in `hay`.
pub fn has_text(hay: &Vec<char>, needle: &Vec<char>) -> (b: bool)
    ensures
        b == contains_text(hay@, needle@),
{
    let mut i: usize = 0;
    while i < hay.len()
        invariant
            i <= hay.len(),
            forall|j: int| 0 <= j < i ==> !occurs_at(hay@, needle@, j),
        decreases hay.len() - i,
    {
        if found_at(hay, needle, i) {
            return true;
        }
        i += 1;
    }
    found_at(hay, needle, i)
}

/// Whether `s` begins with `prefix`.
pub open spec fn starts_with_text(s: Text, prefix: Text) -> bool {
    occurs_at(s, prefix, 0)
}

/// The number of bytes that a text takes in UTF-8.
pub open spec fn byte_len(t: Text) -> nat {
    vstd::utf8::encode_utf8(t).len()
}

/// Trimming a part of a text is trimming the part taken by itself.
pub proof fn lemma_trim_range(s: Text, p: int, q: int)
    requires
        0 <= p <= q <= s.len(),
    ensures
        trim_text(s.subrange(p, q)) == trim_between(s, p, q),
{
    let t = s.subrange(p, q);
    lemma_start(s, t, p, p, q);
    let a = white_start(s, p, q);
    lemma_start_bounds(s, p, q);
    lemma_end(s, t, p, a, q);
    lemma_end_bounds(s, a, q);
    assert(t.subrange(a - p, white_end(s, a, q) - p) =~= s.subrange(
        a,
        white_end(s, a, q),
    ));
}

proof fn lemma_start_bounds(s: Text, p: int, q: int)
    requires
        0 <= p <= q <= s.len(),
    ensures
        p <= white_start(s, p, q) <= q,
    decreases q - p,
{
    if p < q && is_white(s[p]) {
        lemma_start_bounds(s, p + 1, q);
    }
}

proof fn lemma_end_bounds(s: Text, p: int, q: int)
    requires
        0 <= p <= q <= s.len(),
    ensures
        p <= white_end(s, p, q) <= q,
    decreases q - p,
{
    if p < q && is_white(s[q - 1]) {
        lemma_end_bounds(s, p, q - 1);
    }
}

proof fn lemma_start(s: Text, t: Text, base: int, p: int, q: int)
    requires
        0 <= base <= p <= q <= s.len(),
        t == s.subrange(base, q),
    ensures
        white_start(t, p - base, q - base) == white_start(s, p, q)
            - base,
    decreases q - p,
{
    if p < q {
        assert(t[p - base] == s[p]);
        if is_white(s[p]) {
            lemma_start(s, t, base, p + 1, q);
        }
    }
}

proof fn lemma_end(s: Text, t: Text, base: int, p: int, q: int)
    requires
        0 <= base <= p <= q <= s.len(),
        base + t.len() <= s.len(),
        q - base <= t.len(),
        forall|i: int| base <= i < q ==> s[i] == t[i - base],
    ensures
        white_end(t, p - base, q - base) == white_end(s, p, q) - base,
    decreases q - p,
{
    if p < q {
        assert(t[q - 1 - base] == s[q - 1]);
        if is_white(s[q - 1]) {
            lemma_end(s, t, base, p, q - 1);
        }
    }
}

} // verus!
