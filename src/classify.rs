use vstd::prelude::*;

use crate::text::chars_of;

verus! {

/// Unicode's `White_Space` property, which `char::is_whitespace` tests.
pub open spec fn is_space(c: char) -> bool {
    ('\u{9}' <= c && c <= '\u{d}') || c == ' ' || c == '\u{85}' || c == '\u{a0}'
        || c == '\u{1680}' || ('\u{2000}' <= c && c <= '\u{200a}') || c == '\u{2028}'
        || c == '\u{2029}' || c == '\u{202f}' || c == '\u{205f}' || c == '\u{3000}'
}

/// How many whitespace characters `s` starts with.
pub open spec fn leading_spaces(s: Seq<char>) -> nat
    decreases s.len(),
{
    if s.len() > 0 && is_space(s[0]) {
        1 + leading_spaces(s.drop_first())
    } else {
        0
    }
}

/// `s` with its leading whitespace taken off.
pub open spec fn trim_start(s: Seq<char>) -> Seq<char> {
    s.skip(leading_spaces(s) as int)
}

/// A line is not code when, once whitespace is trimmed off, nothing is left
/// or what is left starts with `//`, `/*` or `*`. Trailing whitespace cannot
/// change that outcome, so only the leading whitespace is skipped here.
pub open spec fn is_non_code(s: Seq<char>) -> bool {
    let t = trim_start(s);
    t.len() == 0 || t[0] == '*' || (t.len() >= 2 && t[0] == '/' && (t[1] == '/' || t[1] == '*'))
}

/// Whether `c` is whitespace.
pub fn is_space_char(c: char) -> (r: bool)
    ensures
        r == is_space(c),
{
    ('\u{9}' <= c && c <= '\u{d}') || c == ' ' || c == '\u{85}' || c == '\u{a0}'
        || c == '\u{1680}' || ('\u{2000}' <= c && c <= '\u{200a}') || c == '\u{2028}'
        || c == '\u{2029}' || c == '\u{202f}' || c == '\u{205f}' || c == '\u{3000}'
}

proof fn lemma_leading_spaces_step(s: Seq<char>, i: int)
    requires
        0 <= i < s.len(),
        is_space(s[i]),
    ensures
        leading_spaces(s.skip(i)) == 1 + leading_spaces(s.skip(i + 1)),
{
    assert(s.skip(i).drop_first() =~= s.skip(i + 1));
}

proof fn lemma_leading_spaces_bound(s: Seq<char>)
    ensures
        leading_spaces(s) <= s.len(),
        leading_spaces(s) < s.len() ==> !is_space(s[leading_spaces(s) as int]),
    decreases s.len(),
{
    if s.len() > 0 && is_space(s[0]) {
        lemma_leading_spaces_bound(s.drop_first());
    }
}

proof fn lemma_leading_spaces_append(ws: Seq<char>, t: Seq<char>)
    requires
        forall|i: int| 0 <= i < ws.len() ==> is_space(#[trigger] ws[i]),
    ensures
        leading_spaces(ws + t) == ws.len() + leading_spaces(t),
    decreases ws.len(),
{
    if ws.len() > 0 {
        assert((ws + t).drop_first() =~= ws.drop_first() + t);
        assert(is_space(ws[0]));
        lemma_leading_spaces_append(ws.drop_first(), t);
    } else {
        assert(ws + t =~= t);
    }
}

/// A line of whitespace alone is not code, and neither is one where
/// whitespace is followed by `//`, `/*` or `*`, whatever comes after.
pub proof fn lemma_comment_prefix_non_code(ws: Seq<char>, rest: Seq<char>)
    requires
        forall|i: int| 0 <= i < ws.len() ==> is_space(#[trigger] ws[i]),
    ensures
        is_non_code(ws),
        is_non_code(ws + seq!['/', '/'] + rest),
        is_non_code(ws + seq!['/', '*'] + rest),
        is_non_code(ws + seq!['*'] + rest),
{
    lemma_leading_spaces_append(ws, Seq::<char>::empty());
    assert(ws + Seq::<char>::empty() =~= ws);
    let a = seq!['/', '/'] + rest;
    let b = seq!['/', '*'] + rest;
    let c = seq!['*'] + rest;
    lemma_leading_spaces_append(ws, a);
    lemma_leading_spaces_append(ws, b);
    lemma_leading_spaces_append(ws, c);
    assert(ws + seq!['/', '/'] + rest =~= ws + a);
    assert(ws + seq!['/', '*'] + rest =~= ws + b);
    assert(ws + seq!['*'] + rest =~= ws + c);
    assert((ws + a).skip(ws.len() as int) =~= a);
    assert((ws + b).skip(ws.len() as int) =~= b);
    assert((ws + c).skip(ws.len() as int) =~= c);
}

/// Whether the line held in `v` is blank or starts with a comment marker.
pub fn is_non_code_chars(v: &[char]) -> (r: bool)
    ensures
        r == is_non_code(v@),
{
    let n = v.len();
    let mut i: usize = 0;
    assert(v@.skip(0) =~= v@);
    while i < n && is_space_char(v[i])
        invariant
            n == v@.len(),
            0 <= i <= n,
            leading_spaces(v@) == i + leading_spaces(v@.skip(i as int)),
        decreases n - i,
    {
        proof {
            lemma_leading_spaces_step(v@, i as int);
        }
        i = i + 1;
    }
    proof {
        if i < n {
            assert(!is_space(v@.skip(i as int)[0]));
        } else {
            assert(v@.skip(i as int).len() == 0);
        }
        assert(leading_spaces(v@) == i);
        let t = trim_start(v@);
        assert(t =~= v@.skip(i as int));
    }
    if i == n {
        return true;
    }
    if v[i] == '*' {
        return true;
    }
    i + 1 < n && v[i] == '/' && (v[i + 1] == '/' || v[i + 1] == '*')
}

/// Whether a line is blank or a comment line: once trimmed of whitespace it is
/// empty or starts with `//`, `/*` or `*`.
pub fn is_comment_or_empty(line: &str) -> (r: bool)
    ensures
        r == is_non_code(line@),
{
    let v = chars_of(line);
    is_non_code_chars(v.as_slice())
}

} // verus!
