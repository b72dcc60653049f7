//! White space, trimming, and runs of characters at either end of a text.
//!
//! Texts are modelled as `Seq<char>`, the view of `str` and `String`.

use vstd::prelude::*;

verus! {

/// Whether `c` is white space: one of the code points that carry Unicode's
/// `White_Space` property.
pub open spec fn is_whitespace(c: char) -> bool {
    let u = c as u32;
    ||| 0x09 <= u <= 0x0d
    ||| u == 0x20
    ||| u == 0x85
    ||| u == 0xa0
    ||| u == 0x1680
    ||| 0x2000 <= u <= 0x200a
    ||| u == 0x2028
    ||| u == 0x2029
    ||| u == 0x202f
    ||| u == 0x205f
    ||| u == 0x3000
}

/// How many characters at the start of `s` satisfy `p`, counted up to the
/// first one that does not.
pub open spec fn leading_run(s: Seq<char>, p: spec_fn(char) -> bool) -> nat
    decreases s.len(),
{
    if s.len() > 0 && p(s.first()) {
        1 + leading_run(s.drop_first(), p)
    } else {
        0
    }
}

/// How many characters at the end of `s` satisfy `p`, counted back to the
/// last one that does not.
pub open spec fn trailing_run(s: Seq<char>, p: spec_fn(char) -> bool) -> nat
    decreases s.len(),
{
    if s.len() > 0 && p(s.last()) {
        1 + trailing_run(s.drop_last(), p)
    } else {
        0
    }
}

/// `s` without its leading white space.
pub open spec fn trim_start(s: Seq<char>) -> Seq<char> {
    s.skip(leading_run(s, |c: char| is_whitespace(c)) as int)
}

/// `s` without its trailing white space.
pub open spec fn trim_end(s: Seq<char>) -> Seq<char> {
    s.take(s.len() - trailing_run(s, |c: char| is_whitespace(c)))
}

/// `s` without its leading and trailing white space.
pub open spec fn trim(s: Seq<char>) -> Seq<char> {
    trim_end(trim_start(s))
}

/// A leading run is characterised by where it stops: every character before
/// `i` satisfies `p`, and the one at `i`, if there is one, does not.
pub proof fn lemma_leading_run(s: Seq<char>, p: spec_fn(char) -> bool, i: int)
    requires
        0 <= i <= s.len(),
        forall|j: int| 0 <= j < i ==> p(#[trigger] s[j]),
        i < s.len() ==> !p(s[i]),
    ensures
        leading_run(s, p) == i,
    decreases i,
{
    if i > 0 {
        let t = s.drop_first();
        assert forall|j: int| 0 <= j < i - 1 implies p(#[trigger] t[j]) by {
            assert(t[j] == s[j + 1]);
        }
        if i - 1 < t.len() {
            assert(t[i - 1] == s[i]);
        }
        lemma_leading_run(t, p, i - 1);
    }
}

/// A trailing run is characterised by where it starts: every character from
/// `i` on satisfies `p`, and the one before `i`, if there is one, does not.
pub proof fn lemma_trailing_run(s: Seq<char>, p: spec_fn(char) -> bool, i: int)
    requires
        0 <= i <= s.len(),
        forall|j: int| i <= j < s.len() ==> p(#[trigger] s[j]),
        i > 0 ==> !p(s[i - 1]),
    ensures
        trailing_run(s, p) == s.len() - i,
    decreases s.len() - i,
{
    if i < s.len() {
        let t = s.drop_last();
        assert forall|j: int| i <= j < t.len() implies p(#[trigger] t[j]) by {
            assert(t[j] == s[j]);
        }
        if i > 0 {
            assert(t[i - 1] == s[i - 1]);
        }
        lemma_trailing_run(t, p, i);
    }
}

/// A run never exceeds the text, every character in a leading run satisfies
/// `p`, and the character after it, if any, does not.
pub proof fn lemma_leading_run_bounds(s: Seq<char>, p: spec_fn(char) -> bool)
    ensures
        leading_run(s, p) <= s.len(),
        forall|j: int| 0 <= j < leading_run(s, p) ==> p(#[trigger] s[j]),
        leading_run(s, p) < s.len() ==> !p(s[leading_run(s, p) as int]),
    decreases s.len(),
{
    if s.len() > 0 && p(s.first()) {
        let t = s.drop_first();
        lemma_leading_run_bounds(t, p);
        assert forall|j: int| 0 <= j < leading_run(s, p) implies p(#[trigger] s[j]) by {
            if j > 0 {
                assert(s[j] == t[j - 1]);
            }
        }
        if leading_run(s, p) < s.len() {
            assert(s[leading_run(s, p) as int] == t[leading_run(t, p) as int]);
        }
    }
}

/// The counterpart of `lemma_leading_run_bounds` for the end of a text.
pub proof fn lemma_trailing_run_bounds(s: Seq<char>, p: spec_fn(char) -> bool)
    ensures
        trailing_run(s, p) <= s.len(),
        forall|j: int| s.len() - trailing_run(s, p) <= j < s.len() ==> p(#[trigger] s[j]),
        trailing_run(s, p) < s.len() ==> !p(s[s.len() - trailing_run(s, p) - 1]),
    decreases s.len(),
{
    if s.len() > 0 && p(s.last()) {
        let t = s.drop_last();
        lemma_trailing_run_bounds(t, p);
        assert forall|j: int| s.len() - trailing_run(s, p) <= j < s.len() implies p(
            #[trigger] s[j],
        ) by {
            if j < s.len() - 1 {
                assert(s[j] == t[j]);
            }
        }
        if trailing_run(s, p) < s.len() {
            assert(s[s.len() - trailing_run(s, p) - 1] == t[t.len() - trailing_run(t, p) - 1]);
        }
    }
}

/// A trimmed text neither starts nor ends with white space.
pub proof fn lemma_trim_is_tight(s: Seq<char>)
    ensures
        trim(s).len() > 0 ==> !is_whitespace(trim(s).first()) && !is_whitespace(trim(s).last()),
{
    let ws = |c: char| is_whitespace(c);
    let t = trim_start(s);
    lemma_leading_run_bounds(s, ws);
    lemma_trailing_run_bounds(t, ws);
    if trim(s).len() > 0 {
        let a = leading_run(s, ws) as int;
        let b = t.len() - trailing_run(t, ws);
        assert(trim(s).last() == t[b - 1]);
        assert(trim(s).first() == t[0]);
        assert(t[0] == s[a]);
    }
}

/// Trimming a text that ends with a character other than white space keeps
/// that end: the result is not empty and ends with the same character.
pub proof fn lemma_trim_keeps_last(s: Seq<char>)
    requires
        s.len() > 0,
        !is_whitespace(s.last()),
    ensures
        trim(s).len() > 0,
        trim(s).last() == s.last(),
        trim(s) == trim_start(s),
{
    let ws = |c: char| is_whitespace(c);
    lemma_leading_run_bounds(s, ws);
    let a = leading_run(s, ws) as int;
    if a >= s.len() {
        assert(ws(s[s.len() - 1]));
    }
    let t = trim_start(s);
    assert(t.last() == s.last());
}

/// Decides whether `c` is white space.
pub fn char_is_whitespace(c: char) -> (r: bool)
    ensures
        r == is_whitespace(c),
{
    let u: u32 = c as u32;
    (0x09 <= u && u <= 0x0d) || u == 0x20 || u == 0x85 || u == 0xa0 || u == 0x1680 || (0x2000 <= u
        && u <= 0x200a) || u == 0x2028 || u == 0x2029 || u == 0x202f || u == 0x205f || u == 0x3000
}

/// The characters of `s`, for indexing in constant time.
pub fn chars_of(s: &str) -> (v: Vec<char>)
    ensures
        v@ == s@,
{
    let mut v: Vec<char> = Vec::new();
    for c in it: s.chars()
        invariant
            v@ == it.seq().take(it.index() as int),
    {
        v.push(c);
    }
    v
}

/// Whether `a` and `b` hold the same text.
pub fn same_text(a: &str, b: &str) -> (same: bool)
    ensures
        same == (a@ == b@),
{
    let left = chars_of(a);
    let right = chars_of(b);
    if left.len() != right.len() {
        return false;
    }
    let n = left.len();
    let mut i: usize = 0;
    while i < n
        invariant
            left@ == a@,
            right@ == b@,
            n == left@.len(),
            n == right@.len(),
            i <= n,
            forall|j: int| 0 <= j < i ==> left@[j] == right@[j],
        decreases n - i,
    {
        if left[i] != right[i] {
            return false;
        }
        i = i + 1;
    }
    assert(left@ =~= right@);
    true
}

/// Where the white space at the end of `chars` starts: the length of `chars`
/// without its trailing white space.
pub fn trim_end_bound(chars: &Vec<char>) -> (to: usize)
    ensures
        to <= chars.len(),
        chars@.take(to as int) == trim_end(chars@),
{
    let ghost ws = |c: char| is_whitespace(c);
    let mut b: usize = chars.len();
    while b > 0 && char_is_whitespace(chars[b - 1])
        invariant
            b <= chars.len(),
            forall|j: int| b <= j < chars.len() ==> is_whitespace(#[trigger] chars@[j]),
        decreases b,
    {
        b = b - 1;
    }
    proof {
        assert forall|j: int| b <= j < chars@.len() implies ws(#[trigger] chars@[j]) by {}
        lemma_trailing_run(chars@, ws, b as int);
    }
    b
}

/// Where the trimmed part of `chars[from..to]` lies: the bounds of that range
/// without its leading and trailing white space.
pub fn trim_bounds(chars: &Vec<char>, from: usize, to: usize) -> (r: (usize, usize))
    requires
        from <= to <= chars.len(),
    ensures
        from <= r.0 <= r.1 <= to,
        chars@.subrange(r.0 as int, r.1 as int) == trim(chars@.subrange(from as int, to as int)),
{
    let ghost s = chars@.subrange(from as int, to as int);
    let ghost ws = |c: char| is_whitespace(c);
    let mut a: usize = from;
    while a < to && char_is_whitespace(chars[a])
        invariant
            from <= a <= to <= chars.len(),
            forall|j: int| from <= j < a ==> is_whitespace(#[trigger] chars@[j]),
        decreases to - a,
    {
        a = a + 1;
    }
    let mut b: usize = to;
    while b > a && char_is_whitespace(chars[b - 1])
        invariant
            from <= a <= b <= to <= chars.len(),
            forall|j: int| b <= j < to ==> is_whitespace(#[trigger] chars@[j]),
        decreases b - a,
    {
        b = b - 1;
    }
    proof {
        assert forall|j: int| 0 <= j < a - from implies ws(#[trigger] s[j]) by {
            assert(s[j] == chars@[from + j]);
        }
        lemma_leading_run(s, ws, a - from);
        let t = trim_start(s);
        assert forall|j: int| b - a <= j < t.len() implies ws(#[trigger] t[j]) by {
            assert(t[j] == chars@[a + j]);
        }
        if b > a {
            assert(t[b - a - 1] == chars@[b - 1]);
        }
        lemma_trailing_run(t, ws, b - a);
        assert(t.take(b - a) == chars@.subrange(a as int, b as int));
    }
    (a, b)
}

} // verus!
