//! Directives: input lines that start with the marker `.` and address the
//! shell itself.
//!
//! Behind the marker stands the directive's name, which runs to the first
//! space or to the end of the line. What follows that space is split into
//! arguments at white space.

use vstd::prelude::*;
use vstd::string::StringExecFns;
use crate::accumulator::is_directive;
use crate::text::{
    char_is_whitespace, chars_of, is_whitespace, leading_run, lemma_leading_run,
    lemma_leading_run_bounds, trim_start,
};

verus! {

/// The words of `s`: its stretches of characters other than white space, in
/// order.
pub open spec fn words(s: Seq<char>) -> Seq<Seq<char>>
    decreases s.len(),
{
    let rest = trim_start(s);
    let len = leading_run(rest, |c: char| !is_whitespace(c)) as int;
    if rest.len() == 0 {
        Seq::empty()
    } else {
        proof {
            lemma_leading_run_bounds(s, |c: char| is_whitespace(c));
            lemma_leading_run_bounds(rest, |c: char| !is_whitespace(c));
        }
        seq![rest.take(len)] + words(rest.skip(len))
    }
}

/// Where the name of the directive `unit` ends, counted from behind the
/// marker: at the first space, or at the end of the line.
pub open spec fn name_len(unit: Seq<char>) -> int {
    leading_run(unit.drop_first(), |c: char| c != ' ') as int
}

/// The name of the directive `unit`.
pub open spec fn directive_name(unit: Seq<char>) -> Seq<char> {
    unit.drop_first().take(name_len(unit))
}

/// The arguments of the directive `unit`: the words behind the space that
/// ends the name; none if no space follows the name.
pub open spec fn directive_args(unit: Seq<char>) -> Seq<Seq<char>> {
    if name_len(unit) < unit.drop_first().len() {
        words(unit.drop_first().skip(name_len(unit) + 1))
    } else {
        Seq::empty()
    }
}

/// White space in front of the words of a text does not change them.
pub proof fn lemma_words_skip_whitespace(s: Seq<char>, i: int)
    requires
        0 <= i < s.len(),
        is_whitespace(s[i]),
    ensures
        words(s.skip(i)) == words(s.skip(i + 1)),
{
    let ws = |c: char| is_whitespace(c);
    let a = s.skip(i);
    let b = s.skip(i + 1);
    assert(a.drop_first() == b);
    lemma_leading_run_bounds(b, ws);
    assert(a.skip(1 + leading_run(b, ws) as int) == b.skip(leading_run(b, ws) as int));
}

/// The first word of a text that starts with one runs to the next white
/// space, and the other words are those of what follows it.
pub proof fn lemma_words_take_word(s: Seq<char>, i: int, end: int)
    requires
        0 <= i < end <= s.len(),
        forall|j: int| i <= j < end ==> !is_whitespace(#[trigger] s[j]),
        end < s.len() ==> is_whitespace(s[end]),
    ensures
        words(s.skip(i)) == seq![s.subrange(i, end)] + words(s.skip(end)),
{
    let ws = |c: char| is_whitespace(c);
    let other = |c: char| !is_whitespace(c);
    let a = s.skip(i);
    assert(a.skip(0) == a);
    assert forall|j: int| 0 <= j < end - i implies other(#[trigger] a[j]) by {
        assert(a[j] == s[i + j]);
    }
    if end < s.len() {
        assert(a[end - i] == s[end]);
    }
    lemma_leading_run(a, other, end - i);
    assert(a.take(end - i) == s.subrange(i, end));
    assert(a.skip(end - i) == s.skip(end));
}

/// A directive: its name and its arguments.
pub struct Directive {
    pub name: String,
    pub args: Vec<String>,
}

/// Splits `source[from..]` into its words.
pub fn split_words(source: &str, chars: &Vec<char>, from: usize) -> (found: Vec<String>)
    requires
        chars@ == source@,
        from <= chars.len(),
    ensures
        found.deep_view() == words(chars@.skip(from as int)),
{
    let n = chars.len();
    let ghost s = chars@;
    let mut found: Vec<String> = Vec::new();
    let mut i: usize = from;
    while i < n
        invariant
            s == chars@,
            s == source@,
            n == s.len(),
            from <= i <= n,
            found.deep_view() + words(s.skip(i as int)) == words(s.skip(from as int)),
        decreases n - i,
    {
        if char_is_whitespace(chars[i]) {
            proof {
                lemma_words_skip_whitespace(s, i as int);
            }
            i = i + 1;
        } else {
            let mut end: usize = i + 1;
            while end < n && !char_is_whitespace(chars[end])
                invariant
                    s == chars@,
                    n == s.len(),
                    i < end <= n,
                    forall|j: int| i <= j < end ==> !is_whitespace(#[trigger] s[j]),
                decreases n - end,
            {
                end = end + 1;
            }
            let word = source.substring_char(i, end).to_owned();
            proof {
                lemma_words_take_word(s, i as int, end as int);
                assert(found.deep_view().push(word@) + words(s.skip(end as int))
                    == found.deep_view() + (seq![word@] + words(s.skip(end as int))));
            }
            found.push(word);
            i = end;
        }
    }
    found
}

/// Reads `unit` as a directive. Returns `None` if `unit` does not start with
/// the marker.
pub fn parse_directive(unit: &str) -> (parsed: Option<Directive>)
    ensures
        is_directive(unit@) <==> parsed is Some,
        parsed matches Some(directive) ==> {
            &&& directive.name@ == directive_name(unit@)
            &&& directive.args.deep_view() == directive_args(unit@)
        },
{
    let chars = chars_of(unit);
    let n = chars.len();
    if n == 0 || chars[0] != '.' {
        return None;
    }
    let ghost body = unit@.drop_first();
    let ghost other = |c: char| c != ' ';
    let mut end: usize = 1;
    while end < n && chars[end] != ' '
        invariant
            chars@ == unit@,
            n == chars.len(),
            1 <= end <= n,
            forall|j: int| 1 <= j < end ==> #[trigger] chars@[j] != ' ',
        decreases n - end,
    {
        end = end + 1;
    }
    proof {
        assert forall|j: int| 0 <= j < end - 1 implies other(#[trigger] body[j]) by {
            assert(body[j] == chars@[j + 1]);
        }
        if end < n {
            assert(body[end - 1] == chars@[end as int]);
        }
        lemma_leading_run(body, other, end - 1);
        assert(body.take(end - 1) == unit@.subrange(1, end as int));
    }
    let name = unit.substring_char(1, end).to_owned();
    let args = if end < n {
        assert(body.skip(end - 1 + 1) == chars@.skip(end + 1));
        split_words(unit, &chars, end + 1)
    } else {
        Vec::new()
    };
    Some(Directive { name, args })
}

} // verus!
