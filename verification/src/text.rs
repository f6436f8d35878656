//! Characters and strings: the small vocabulary the parsers are written in.
//!
//! Text is read as a sequence of `char`s. Every function here states its
//! result over `Seq<char>`, the view of `str` and `String`.

use vstd::prelude::*;

verus! {

/// `String::push` appends one character to the end of the string.
pub assume_specification[ String::push ](s: &mut String, c: char)
    ensures
        final(s)@ == old(s)@.push(c),
;

/// What `str::to_lowercase` returns for the text `s`: its Unicode lowercase
/// form, which the Unicode character database defines character by character.
pub uninterp spec fn lowercase_of(s: Seq<char>) -> Seq<char>;

/// `str::to_lowercase` returns the lowercase form of the text as a new
/// `String`; the result depends on the characters of the text alone.
pub assume_specification[ str::to_lowercase ](s: &str) -> (lowered: String)
    ensures
        lowered@ == lowercase_of(s@),
;

/// The characters of `s`, in order.
pub fn chars_of(s: &str) -> (v: Vec<char>)
    ensures
        v@ == s@,
{
    let mut v: Vec<char> = Vec::new();
    for c in it: s.chars()
        invariant
            v@ == it.seq().take(it.index()),
            it.seq() == s@,
    {
        v.push(c);
    }
    v
}

/// The string whose characters are those of `v`.
pub fn string_of(v: &Vec<char>) -> (s: String)
    ensures
        s@ == v@,
{
    let mut s = String::new();
    let mut i: usize = 0;
    while i < v.len()
        invariant
            i <= v.len(),
            s@ == v@.take(i as int),
        decreases v.len() - i,
    {
        s.push(v[i]);
        i += 1;
    }
    s
}

/// A copy of `v[from..to]`.
pub fn slice_of(v: &Vec<char>, from: usize, to: usize) -> (part: Vec<char>)
    requires
        from <= to <= v.len(),
    ensures
        part@ == v@.subrange(from as int, to as int),
{
    let mut part: Vec<char> = Vec::new();
    let mut i: usize = from;
    while i < to
        invariant
            from <= i <= to <= v.len(),
            part@ == v@.subrange(from as int, i as int),
        decreases to - i,
    {
        part.push(v[i]);
        i += 1;
    }
    part
}

/// Whether the characters of `v` spell exactly `literal`.
pub fn spells(v: &Vec<char>, literal: &str) -> (same: bool)
    ensures
        same == (v@ == literal@),
{
    let l = chars_of(literal);
    if v.len() != l.len() {
        return false;
    }
    let mut i: usize = 0;
    while i < v.len()
        invariant
            i <= v.len(),
            v.len() == l.len(),
            l@ == literal@,
            v@.take(i as int) == l@.take(i as int),
        decreases v.len() - i,
    {
        if v[i] != l[i] {
            return false;
        }
        i += 1;
    }
    assert(v@ == v@.take(v.len() as int));
    assert(l@ == l@.take(l.len() as int));
    true
}

/// Whether two texts hold the same characters.
pub fn same_text(a: &str, b: &str) -> (same: bool)
    ensures
        same == (a@ == b@),
{
    let v = chars_of(a);
    spells(&v, b)
}

// ---------------------------------------------------------------------------
// White space and trimming
// ---------------------------------------------------------------------------

/// The code points with the Unicode `White_Space` property.
pub open spec fn is_white_space(c: char) -> bool {
    let n = c as u32;
    ||| 0x09 <= n <= 0x0D
    ||| n == 0x20
    ||| n == 0x85
    ||| n == 0xA0
    ||| n == 0x1680
    ||| 0x2000 <= n <= 0x200A
    ||| n == 0x2028
    ||| n == 0x2029
    ||| n == 0x202F
    ||| n == 0x205F
    ||| n == 0x3000
}

/// Decides [`is_white_space`].
pub fn white_space(c: char) -> (b: bool)
    ensures
        b == is_white_space(c),
{
    let n: u32 = c as u32;
    (0x09 <= n && n <= 0x0D) || n == 0x20 || n == 0x85 || n == 0xA0 || n == 0x1680 || (0x2000 <= n
        && n <= 0x200A) || n == 0x2028 || n == 0x2029 || n == 0x202F || n == 0x205F || n == 0x3000
}

/// `s` without its leading white space.
pub open spec fn trim_start(s: Seq<char>) -> Seq<char>
    decreases s.len(),
{
    if s.len() > 0 && is_white_space(s[0]) {
        trim_start(s.drop_first())
    } else {
        s
    }
}

/// `s` without its trailing white space.
pub open spec fn trim_end(s: Seq<char>) -> Seq<char>
    decreases s.len(),
{
    if s.len() > 0 && is_white_space(s.last()) {
        trim_end(s.drop_last())
    } else {
        s
    }
}

/// `s` without leading and trailing white space.
pub open spec fn trim(s: Seq<char>) -> Seq<char> {
    trim_end(trim_start(s))
}

proof fn lemma_trim_start(s: Seq<char>, i: int)
    requires
        0 <= i <= s.len(),
        forall|k: int| 0 <= k < i ==> is_white_space(#[trigger] s[k]),
        i == s.len() || !is_white_space(s[i]),
    ensures
        trim_start(s) == s.subrange(i, s.len() as int),
    decreases i,
{
    if i != 0 {
        let t = s.drop_first();
        lemma_trim_start(t, i - 1);
    }
}

proof fn lemma_trim_end(s: Seq<char>, j: int)
    requires
        0 <= j <= s.len(),
        forall|k: int| j <= k < s.len() ==> is_white_space(#[trigger] s[k]),
        j == 0 || !is_white_space(s[j - 1]),
    ensures
        trim_end(s) == s.subrange(0, j),
    decreases s.len() - j,
{
    if j != s.len() {
        let t = s.drop_last();
        lemma_trim_end(t, j);
    }
}

/// The characters of `v` without leading and trailing white space.
pub fn trimmed(v: &Vec<char>) -> (t: Vec<char>)
    ensures
        t@ == trim(v@),
{
    let n = v.len();
    let mut i: usize = 0;
    while i < n && white_space(v[i])
        invariant
            i <= n,
            n == v.len(),
            forall|k: int| 0 <= k < i ==> is_white_space(#[trigger] v@[k]),
        decreases n - i,
    {
        i += 1;
    }
    let mut j: usize = n;
    while j > i && white_space(v[j - 1])
        invariant
            i <= j <= n,
            n == v.len(),
            forall|k: int| j <= k < n ==> is_white_space(#[trigger] v@[k]),
        decreases j,
    {
        j -= 1;
    }
    let t = slice_of(v, i, j);
    proof {
        lemma_trim_start(v@, i as int);
        let rest = v@.subrange(i as int, n as int);
        lemma_trim_end(rest, j - i);
    }
    t
}

/// The characters of `s` without leading and trailing white space.
pub fn trimmed_chars(s: &str) -> (t: Vec<char>)
    ensures
        t@ == trim(s@),
{
    let v = chars_of(s);
    trimmed(&v)
}

// ---------------------------------------------------------------------------
// ASCII case
// ---------------------------------------------------------------------------

/// `c` with the upper-case ASCII letters mapped to lower case.
pub open spec fn ascii_lower(c: char) -> char {
    if 'A' <= c <= 'Z' {
        ((c as u32) + 32) as char
    } else {
        c
    }
}

/// `s` with the upper-case ASCII letters mapped to lower case.
pub open spec fn ascii_lowercase(s: Seq<char>) -> Seq<char> {
    Seq::new(s.len(), |i: int| ascii_lower(s[i]))
}

/// Whether `a` and `b` are equal up to the case of ASCII letters.
pub open spec fn eq_ignoring_ascii_case(a: Seq<char>, b: Seq<char>) -> bool {
    ascii_lowercase(a) == ascii_lowercase(b)
}

fn lower_code(c: char) -> (n: u32)
    ensures
        n == ascii_lower(c) as u32,
{
    let n: u32 = c as u32;
    if c >= 'A' && c <= 'Z' {
        n + 32
    } else {
        n
    }
}

/// Decides [`eq_ignoring_ascii_case`] between `v` and `literal`.
pub fn spells_ignoring_ascii_case(v: &Vec<char>, literal: &str) -> (same: bool)
    ensures
        same == eq_ignoring_ascii_case(v@, literal@),
{
    let l = chars_of(literal);
    if v.len() != l.len() {
        return false;
    }
    let mut i: usize = 0;
    while i < v.len()
        invariant
            i <= v.len(),
            v.len() == l.len(),
            l@ == literal@,
            forall|k: int| 0 <= k < i ==> ascii_lower(#[trigger] v@[k]) == ascii_lower(l@[k]),
        decreases v.len() - i,
    {
        if lower_code(v[i]) != lower_code(l[i]) {
            assert(ascii_lowercase(v@)[i as int] == ascii_lower(v@[i as int]));
            return false;
        }
        i += 1;
    }
    assert(ascii_lowercase(v@) =~= ascii_lowercase(l@));
    true
}

// ---------------------------------------------------------------------------
// Searching and splitting
// ---------------------------------------------------------------------------

/// The text of an optional string.
pub open spec fn text_of(s: Option<String>) -> Option<Seq<char>> {
    match s {
        Some(t) => Some(t@),
        None => None,
    }
}

/// The index of the first `c` in `s`; the length of `s` where it holds none.
pub open spec fn position_of(s: Seq<char>, c: char) -> int
    decreases s.len(),
{
    if s.len() == 0 || s[0] == c {
        0
    } else {
        1 + position_of(s.drop_first(), c)
    }
}

/// How many times `c` occurs in `s`.
pub open spec fn occurrences(s: Seq<char>, c: char) -> nat
    decreases s.len(),
{
    if s.len() == 0 {
        0
    } else {
        occurrences(s.drop_last(), c) + if s.last() == c {
            1nat
        } else {
            0nat
        }
    }
}

/// `s` with every `from` replaced by `to`.
pub open spec fn replaced(s: Seq<char>, from: char, to: char) -> Seq<char> {
    Seq::new(
        s.len(),
        |i: int|
            if s[i] == from {
                to
            } else {
                s[i]
            },
    )
}

pub proof fn lemma_position_of(s: Seq<char>, c: char, k: int)
    requires
        0 <= k <= s.len(),
        forall|i: int| 0 <= i < k ==> #[trigger] s[i] != c,
        k == s.len() || s[k] == c,
    ensures
        position_of(s, c) == k,
    decreases k,
{
    if k > 0 {
        let t = s.drop_first();
        lemma_position_of(t, c, k - 1);
    }
}

/// The occurrences in a text are those in its first character and those in
/// the rest.
pub proof fn lemma_occurrences_from_front(s: Seq<char>, c: char)
    requires
        s.len() > 0,
    ensures
        occurrences(s, c) == occurrences(s.drop_first(), c) + if s[0] == c {
            1nat
        } else {
            0nat
        },
    decreases s.len(),
{
    if s.len() == 1 {
        assert(s.drop_first() == s.drop_last());
        assert(occurrences(s.drop_last(), c) == 0);
    } else {
        lemma_occurrences_from_front(s.drop_last(), c);
        assert(s.drop_last().drop_first() == s.drop_first().drop_last());
    }
}

/// A character occurs in a text if and only if it has a first position
/// within it.
pub proof fn lemma_occurs_within(s: Seq<char>, c: char)
    ensures
        occurrences(s, c) > 0 <==> position_of(s, c) < s.len(),
        0 <= position_of(s, c) <= s.len(),
    decreases s.len(),
{
    if s.len() > 0 {
        lemma_occurs_within(s.drop_first(), c);
        lemma_occurrences_from_front(s, c);
    }
}

/// What follows the first occurrence of a character holds one occurrence
/// less than the whole.
pub proof fn lemma_second_occurrence(s: Seq<char>, c: char)
    requires
        occurrences(s, c) > 0,
    ensures
        occurrences(s.skip(position_of(s, c) + 1), c) == occurrences(s, c) - 1,
    decreases s.len(),
{
    lemma_occurs_within(s, c);
    lemma_occurrences_from_front(s, c);
    if s[0] != c {
        lemma_second_occurrence(s.drop_first(), c);
        assert(s.drop_first().skip(position_of(s.drop_first(), c) + 1) == s.skip(
            position_of(s, c) + 1,
        ));
    }
}

/// Computes [`position_of`], searching `v` from `from` on.
pub fn find_char(v: &Vec<char>, from: usize, c: char) -> (at: usize)
    requires
        from <= v.len(),
    ensures
        from <= at <= v.len(),
        at - from == position_of(v@.subrange(from as int, v.len() as int), c),
{
    let mut at: usize = from;
    while at < v.len() && v[at] != c
        invariant
            from <= at <= v.len(),
            forall|k: int| from <= k < at ==> #[trigger] v@[k] != c,
        decreases v.len() - at,
    {
        at += 1;
    }
    proof {
        let rest = v@.subrange(from as int, v.len() as int);
        assert forall|i: int| 0 <= i < at - from implies #[trigger] rest[i] != c by {}
        lemma_position_of(rest, c, at - from);
    }
    at
}

/// Computes [`occurrences`].
pub fn count_char(v: &Vec<char>, c: char) -> (n: usize)
    ensures
        n == occurrences(v@, c),
{
    let mut n: usize = 0;
    let mut i: usize = 0;
    while i < v.len()
        invariant
            i <= v.len(),
            n <= i,
            n == occurrences(v@.take(i as int), c),
        decreases v.len() - i,
    {
        assert(v@.take(i + 1).drop_last() == v@.take(i as int));
        if v[i] == c {
            n += 1;
        }
        i += 1;
    }
    assert(v@.take(v.len() as int) == v@);
    n
}

/// Computes [`replaced`].
pub fn replace_char(v: &Vec<char>, from: char, to: char) -> (out: Vec<char>)
    ensures
        out@ == replaced(v@, from, to),
{
    let mut out: Vec<char> = Vec::new();
    let mut i: usize = 0;
    while i < v.len()
        invariant
            i <= v.len(),
            out@ == replaced(v@.take(i as int), from, to),
        decreases v.len() - i,
    {
        out.push(if v[i] == from {
            to
        } else {
            v[i]
        });
        i += 1;
    }
    out
}

/// Whether `s` begins with `prefix`.
pub open spec fn starts_with(s: Seq<char>, prefix: Seq<char>) -> bool {
    prefix.len() <= s.len() && s.take(prefix.len() as int) == prefix
}

/// Decides [`starts_with`] between `v` and `literal`.
pub fn begins_with(v: &Vec<char>, literal: &str) -> (b: bool)
    ensures
        b == starts_with(v@, literal@),
{
    let l = chars_of(literal);
    if l.len() > v.len() {
        return false;
    }
    let head = slice_of(v, 0, l.len());
    spells(&head, literal)
}

/// Whether `s` holds `needle` as a run of consecutive characters.
pub open spec fn contains_text(s: Seq<char>, needle: Seq<char>) -> bool {
    exists|i: int| 0 <= i <= s.len() - needle.len() && #[trigger] s.subrange(i, i + needle.len()) == needle
}

/// Decides [`contains_text`] between `v` and `literal`.
pub fn holds_text(v: &Vec<char>, literal: &str) -> (b: bool)
    ensures
        b == contains_text(v@, literal@),
{
    let l = chars_of(literal);
    if l.len() > v.len() {
        return false;
    }
    let last = v.len() - l.len();
    let mut i: usize = 0;
    loop
        invariant
            i <= last,
            last == v.len() - l.len(),
            l@ == literal@,
            forall|k: int| 0 <= k < i ==> #[trigger] v@.subrange(k, k + l.len()) != l@,
        decreases last - i,
    {
        let window = slice_of(v, i, i + l.len());
        if spells(&window, literal) {
            return true;
        }
        if i == last {
            return false;
        }
        i += 1;
    }
}

} // verus!
