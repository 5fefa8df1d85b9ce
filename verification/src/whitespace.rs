//! Trimming Unicode white space, as `str::trim` does.

use vstd::prelude::*;
use crate::text::{chars_of, string_of};

verus! {

/// A Unicode `White_Space` character (`char::is_whitespace`).
pub open spec fn is_white_space(c: char) -> bool {
    ||| ('\u{9}' <= c && c <= '\u{d}')
    ||| c == ' ' || c == '\u{85}' || c == '\u{a0}' || c == '\u{1680}'
    ||| ('\u{2000}' <= c && c <= '\u{200a}')
    ||| c == '\u{2028}' || c == '\u{2029}' || c == '\u{202f}' || c == '\u{205f}' || c == '\u{3000}'
}

fn white_space(c: char) -> (r: bool)
    ensures
        r == is_white_space(c),
{
    ('\u{9}' <= c && c <= '\u{d}') || c == ' ' || c == '\u{85}' || c == '\u{a0}' || c == '\u{1680}'
        || ('\u{2000}' <= c && c <= '\u{200a}') || c == '\u{2028}' || c == '\u{2029}' || c == '\u{202f}'
        || c == '\u{205f}' || c == '\u{3000}'
}

/// `s` without its leading white space.
pub open spec fn trim_start(s: Seq<char>) -> Seq<char>
    decreases s.len(),
{
    if s.len() > 0 && is_white_space(s[0]) {
        trim_start(s.drop_first())
    } else {
        s
    }
}

/// `s` without its trailing white space.
pub open spec fn trim_end(s: Seq<char>) -> Seq<char>
    decreases s.len(),
{
    if s.len() > 0 && is_white_space(s.last()) {
        trim_end(s.drop_last())
    } else {
        s
    }
}

/// `s` without leading and trailing white space.
pub open spec fn trim_text(s: Seq<char>) -> Seq<char> {
    trim_end(trim_start(s))
}

proof fn lemma_trim_start(s: Seq<char>, a: int)
    requires
        0 <= a <= s.len(),
        forall|i: int| 0 <= i < a ==> is_white_space(#[trigger] s[i]),
        a < s.len() ==> !is_white_space(s[a]),
    ensures
        trim_start(s) == s.skip(a),
    decreases a,
{
    if a > 0 {
        lemma_trim_start(s.drop_first(), a - 1);
        assert(s.drop_first().skip(a - 1) == s.skip(a));
    } else {
        assert(s.skip(0) == s);
    }
}

proof fn lemma_trim_end(s: Seq<char>, b: int)
    requires
        0 <= b <= s.len(),
        forall|i: int| b <= i < s.len() ==> is_white_space(#[trigger] s[i]),
        b > 0 ==> !is_white_space(s[b - 1]),
    ensures
        trim_end(s) == s.take(b),
    decreases s.len() - b,
{
    if b < s.len() {
        lemma_trim_end(s.drop_last(), b);
        assert(s.drop_last().take(b) == s.take(b));
    } else {
        assert(s.take(b) == s);
    }
}

/// `s` with leading and trailing white space removed.
pub fn trim(s: &str) -> (r: String)
    ensures
        r@ == trim_text(s@),
{
    let v = chars_of(s);
    let mut start: usize = 0;
    while start < v.len() && white_space(v[start])
        invariant
            start <= v.len(),
            forall|i: int| 0 <= i < start ==> is_white_space(#[trigger] v@[i]),
        decreases v.len() - start,
    {
        start += 1;
    }
    let mut end: usize = v.len();
    while end > start && white_space(v[end - 1])
        invariant
            start <= end <= v.len(),
            forall|i: int| end <= i < v.len() ==> is_white_space(#[trigger] v@[i]),
        decreases end,
    {
        end -= 1;
    }
    let mut out: Vec<char> = Vec::new();
    let mut k: usize = start;
    while k < end
        invariant
            start <= k <= end <= v.len(),
            out@ == v@.subrange(start as int, k as int),
        decreases end - k,
    {
        out.push(v[k]);
        k += 1;
    }
    let r = string_of(&out);
    proof {
        lemma_trim_start(v@, start as int);
        let rest = v@.skip(start as int);
        assert forall|i: int| end - start <= i < rest.len() implies is_white_space(#[trigger] rest[i]) by {
            assert(rest[i] == v@[i + start]);
        }
        if end > start {
            assert(rest[end - start - 1] == v@[end - 1]);
        }
        lemma_trim_end(rest, end - start);
        assert(rest.take(end - start) == v@.subrange(start as int, end as int));
    }
    r
}

proof fn lemma_trim_start_shape(s: Seq<char>) -> (a: int)
    ensures
        0 <= a <= s.len(),
        trim_start(s) == s.skip(a),
        forall|i: int| 0 <= i < a ==> is_white_space(#[trigger] s[i]),
        a < s.len() ==> !is_white_space(s[a]),
    decreases s.len(),
{
    if s.len() > 0 && is_white_space(s[0]) {
        let a = lemma_trim_start_shape(s.drop_first());
        assert(s.drop_first().skip(a) == s.skip(a + 1));
        assert forall|i: int| 0 <= i < a + 1 implies is_white_space(#[trigger] s[i]) by {
            if i > 0 {
                assert(s[i] == s.drop_first()[i - 1]);
            }
        }
        if a + 1 < s.len() {
            assert(s[a + 1] == s.drop_first()[a]);
        }
        a + 1
    } else {
        assert(s.skip(0) == s);
        0
    }
}

proof fn lemma_trim_end_shape(s: Seq<char>) -> (b: int)
    ensures
        0 <= b <= s.len(),
        trim_end(s) == s.take(b),
        forall|i: int| b <= i < s.len() ==> is_white_space(#[trigger] s[i]),
        b > 0 ==> !is_white_space(s[b - 1]),
    decreases s.len(),
{
    if s.len() > 0 && is_white_space(s.last()) {
        let b = lemma_trim_end_shape(s.drop_last());
        assert(s.drop_last().take(b) == s.take(b));
        assert forall|i: int| b <= i < s.len() implies is_white_space(#[trigger] s[i]) by {
            if i < s.len() - 1 {
                assert(s[i] == s.drop_last()[i]);
            }
        }
        if b > 0 {
            assert(s[b - 1] == s.drop_last()[b - 1]);
        }
        b
    } else {
        assert(s.take(s.len() as int) == s);
        s.len() as int
    }
}

/// Trimming keeps a contiguous part of the text: everything before it and
/// after it is white space, and the part neither starts nor ends with white
/// space (it is empty exactly when the whole text is white space).
pub proof fn law_trim_cuts_white_space(s: Seq<char>)
    ensures
        exists|a: int, b: int| {
            &&& 0 <= a <= b <= s.len()
            &&& #[trigger] s.subrange(a, b) == trim_text(s)
            &&& forall|i: int| 0 <= i < a ==> is_white_space(#[trigger] s[i])
            &&& forall|i: int| b <= i < s.len() ==> is_white_space(#[trigger] s[i])
        },
        trim_text(s).len() > 0 ==> !is_white_space(trim_text(s)[0]) && !is_white_space(trim_text(s).last()),
{
    let a = lemma_trim_start_shape(s);
    let rest = s.skip(a);
    let b = lemma_trim_end_shape(rest);
    assert(rest.take(b) == s.subrange(a, a + b));
    assert forall|i: int| a + b <= i < s.len() implies is_white_space(#[trigger] s[i]) by {
        assert(s[i] == rest[i - a]);
    }
    if b > 0 {
        assert(trim_text(s)[0] == rest[0]);
        assert(rest[0] == s[a]);
        assert(trim_text(s).last() == rest[b - 1]);
    }
    assert(s.subrange(a, a + b) == trim_text(s));
}

} // verus!
