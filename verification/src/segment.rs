//! Splitting a buffer of SQL text into statements.
//!
//! A statement ends at a `;` that stands outside single quotes. Terminators
//! with nothing before them are discarded, and what is handed out is trimmed
//! of surrounding white space.

use vstd::prelude::*;
use crate::text::{
    chars_of, is_whitespace, leading_run, lemma_leading_run, lemma_leading_run_bounds,
    lemma_trim_is_tight, lemma_trim_keeps_last, trim, trim_bounds,
};

verus! {

/// The number of single quotes among the first `i` characters of `s`.
pub open spec fn quotes_before(s: Seq<char>, i: int) -> nat
    decreases i,
{
    if i <= 0 {
        0
    } else {
        quotes_before(s, i - 1) + if s[i - 1] == '\'' {
            1nat
        } else {
            0nat
        }
    }
}

/// Whether position `i` of `s` lies inside a single-quoted literal: every
/// single quote before it toggles the state, which starts outside.
pub open spec fn embedded(s: Seq<char>, i: int) -> bool {
    quotes_before(s, i) % 2 == 1
}

/// Whether `s` has a statement boundary at `i`: a terminator outside quotes.
pub open spec fn is_boundary(s: Seq<char>, i: int) -> bool {
    0 <= i < s.len() && s[i] == ';' && !embedded(s, i)
}

/// The first boundary of `s` at or after `i`; `s.len()` if there is none.
pub open spec fn next_boundary(s: Seq<char>, i: int) -> int
    decreases s.len() - i,
{
    if i < 0 || i >= s.len() {
        s.len() as int
    } else if is_boundary(s, i) {
        i
    } else {
        next_boundary(s, i + 1)
    }
}

/// Where the first statement of `s` starts: behind the terminators that
/// `s` begins with, which are discarded.
pub open spec fn statement_start(s: Seq<char>) -> int {
    leading_run(s, |c: char| c == ';') as int
}

/// Where the first statement of `s` ends: at the first boundary behind the
/// discarded terminators. It is `s.len()` if `s` holds no statement.
pub open spec fn statement_end(s: Seq<char>) -> int {
    next_boundary(s, statement_start(s))
}

/// Whether `s` holds a complete statement.
pub open spec fn has_statement(s: Seq<char>) -> bool {
    0 <= statement_end(s) < s.len()
}

/// The span of the first statement of `s`, terminator included, as it
/// stands in `s`.
pub open spec fn first_span(s: Seq<char>) -> Seq<char> {
    s.subrange(statement_start(s), statement_end(s) + 1)
}

/// The first statement of `s`: its span without surrounding white space.
pub open spec fn first_statement(s: Seq<char>) -> Seq<char> {
    trim(first_span(s))
}

/// What is left of `s` behind its first statement.
pub open spec fn after_first(s: Seq<char>) -> Seq<char> {
    s.skip(statement_end(s) + 1)
}

/// The statements that repeated extraction hands out of `s`, in order.
pub open spec fn statements(s: Seq<char>) -> Seq<Seq<char>>
    decreases s.len(),
{
    if has_statement(s) {
        seq![first_statement(s)] + statements(after_first(s))
    } else {
        Seq::empty()
    }
}

/// What repeated extraction leaves in the buffer once it hands out no more.
pub open spec fn leftover(s: Seq<char>) -> Seq<char>
    decreases s.len(),
{
    if has_statement(s) {
        leftover(after_first(s))
    } else {
        s
    }
}

/// The stretches of `s` that repeated extraction consumes, in order: each
/// runs from where the one before it ended through the terminator of the
/// statement that was handed out.
pub open spec fn consumed(s: Seq<char>) -> Seq<Seq<char>>
    decreases s.len(),
{
    if has_statement(s) {
        seq![s.take(statement_end(s) + 1)] + consumed(after_first(s))
    } else {
        Seq::empty()
    }
}

/// Whether the single quotes of `s` come in pairs.
pub open spec fn balanced(s: Seq<char>) -> bool {
    !embedded(s, s.len() as int)
}

/// A text that consists of terminators holds no single quote.
pub proof fn lemma_terminators_hold_no_quote(s: Seq<char>, i: int)
    requires
        0 <= i <= s.len(),
        forall|j: int| 0 <= j < i ==> #[trigger] s[j] == ';',
    ensures
        quotes_before(s, i) == 0,
    decreases i,
{
    if i > 0 {
        lemma_terminators_hold_no_quote(s, i - 1);
    }
}

/// The first boundary at or after `i` is `e` if none lies in between and `e`
/// is one, or the end of the text.
pub proof fn lemma_next_boundary(s: Seq<char>, i: int, e: int)
    requires
        0 <= i <= e <= s.len(),
        forall|j: int| i <= j < e ==> !is_boundary(s, j),
        e < s.len() ==> is_boundary(s, e),
    ensures
        next_boundary(s, i) == e,
    decreases e - i,
{
    if i < e {
        lemma_next_boundary(s, i + 1, e);
    }
}

/// The least boundary at or after `i` is what `next_boundary` gives.
pub proof fn lemma_next_boundary_is_least(s: Seq<char>, i: int)
    requires
        0 <= i <= s.len(),
    ensures
        i <= next_boundary(s, i) <= s.len(),
        forall|j: int| i <= j < next_boundary(s, i) ==> !is_boundary(s, j),
        next_boundary(s, i) < s.len() ==> is_boundary(s, next_boundary(s, i)),
    decreases s.len() - i,
{
    if i < s.len() && !is_boundary(s, i) {
        lemma_next_boundary_is_least(s, i + 1);
    }
}

/// The first statement of `s` starts at `start` and ends at `end` if only
/// terminators stand before `start`, none stands at `start`, and `end` is the
/// first boundary from there on, or the end of the text.
pub proof fn lemma_statement_bounds(s: Seq<char>, start: int, end: int)
    requires
        0 <= start <= end <= s.len(),
        forall|j: int| 0 <= j < start ==> #[trigger] s[j] == ';',
        start < s.len() ==> s[start] != ';',
        forall|j: int| start <= j < end ==> !is_boundary(s, j),
        end < s.len() ==> is_boundary(s, end),
    ensures
        statement_start(s) == start,
        statement_end(s) == end,
{
    let terminator = |c: char| c == ';';
    assert forall|j: int| 0 <= j < start implies terminator(#[trigger] s[j]) by {}
    lemma_leading_run(s, terminator, start);
    lemma_next_boundary(s, start, end);
}

/// The bounds of the first statement: only terminators stand before its
/// start, none at its start, no boundary lies inside it, and it ends at one.
pub proof fn lemma_first_statement_bounds(s: Seq<char>)
    ensures
        0 <= statement_start(s) <= statement_end(s) <= s.len(),
        forall|j: int| 0 <= j < statement_start(s) ==> #[trigger] s[j] == ';',
        statement_start(s) < s.len() ==> s[statement_start(s)] != ';',
        forall|j: int| statement_start(s) <= j < statement_end(s) ==> !is_boundary(s, j),
        has_statement(s) ==> is_boundary(s, statement_end(s)),
        has_statement(s) ==> statement_start(s) < statement_end(s),
{
    lemma_leading_run_bounds(s, |c: char| c == ';');
    lemma_next_boundary_is_least(s, statement_start(s));
}

/// A statement that is handed out is not empty, ends with its terminator,
/// and neither starts nor ends with white space.
pub proof fn lemma_statement_shape(s: Seq<char>)
    requires
        has_statement(s),
    ensures
        first_statement(s).len() > 0,
        first_statement(s).last() == ';',
        !is_whitespace(first_statement(s).first()),
{
    lemma_first_statement_bounds(s);
    let span = first_span(s);
    lemma_trim_keeps_last(span);
    lemma_trim_is_tight(span);
}

/// Nothing is handed out twice and nothing is lost: the stretches that
/// extraction consumes, put end to end, and what it leaves behind make up
/// the buffer it started from.
pub proof fn lemma_consumed_and_leftover_make_up_the_buffer(s: Seq<char>)
    ensures
        consumed(s).flatten() + leftover(s) == s,
    decreases s.len(),
{
    if has_statement(s) {
        let head = s.take(statement_end(s) + 1);
        let rest = after_first(s);
        lemma_consumed_and_leftover_make_up_the_buffer(rest);
        let all = seq![head] + consumed(rest);
        assert(all.drop_first() == consumed(rest));
        assert(all.flatten() == head + consumed(rest).flatten());
        assert(head + consumed(rest).flatten() + leftover(rest) == head + (consumed(rest).flatten()
            + leftover(rest)));
    }
}

/// Each consumed stretch holds exactly one statement, the one handed out for
/// it: the stretch ends at that statement's terminator, and the statement is
/// the stretch without the terminators it starts with and without
/// surrounding white space.
pub proof fn lemma_each_stretch_holds_its_statement(s: Seq<char>, i: int)
    requires
        0 <= i < consumed(s).len(),
    ensures
        consumed(s).len() == statements(s).len(),
        has_statement(consumed(s)[i]),
        statement_end(consumed(s)[i]) == consumed(s)[i].len() - 1,
        first_statement(consumed(s)[i]) == statements(s)[i],
    decreases s.len(),
{
    lemma_same_number_of_stretches(s);
    if i == 0 {
        let head = s.take(statement_end(s) + 1);
        lemma_first_statement_bounds(s);
        assert forall|j: int| 0 <= j < head.len() implies is_boundary(head, j) == is_boundary(
            s,
            j,
        ) by {
            lemma_quotes_of_prefix(s, head, j);
        }
        lemma_statement_bounds(head, statement_start(s), statement_end(s));
        assert(first_span(head) == first_span(s));
    } else {
        lemma_each_stretch_holds_its_statement(after_first(s), i - 1);
    }
}

/// Extraction consumes one stretch for each statement it hands out.
pub proof fn lemma_same_number_of_stretches(s: Seq<char>)
    ensures
        consumed(s).len() == statements(s).len(),
    decreases s.len(),
{
    if has_statement(s) {
        lemma_same_number_of_stretches(after_first(s));
    }
}

/// Two texts that agree on their first `i` characters hold the same number
/// of single quotes there.
pub proof fn lemma_quotes_of_prefix(s: Seq<char>, t: Seq<char>, i: int)
    requires
        0 <= i <= s.len(),
        i <= t.len(),
        forall|j: int| 0 <= j < i ==> s[j] == t[j],
    ensures
        quotes_before(t, i) == quotes_before(s, i),
    decreases i,
{
    if i > 0 {
        lemma_quotes_of_prefix(s, t, i - 1);
    }
}

/// The single quotes before a position behind `k` are those before `k` and
/// those of the text from `k` on.
pub proof fn lemma_quotes_of_suffix(s: Seq<char>, k: int, i: int)
    requires
        0 <= k <= s.len(),
        0 <= i <= s.len() - k,
    ensures
        quotes_before(s, k + i) == quotes_before(s, k) + quotes_before(s.skip(k), i),
    decreases i,
{
    if i > 0 {
        lemma_quotes_of_suffix(s, k, i - 1);
        assert(s.skip(k)[i - 1] == s[k + i - 1]);
    }
}

/// Where the single quotes of the buffer come in pairs and the buffer ends
/// with a terminator, extraction leaves nothing behind but terminators that
/// it discards: every statement of the buffer is handed out.
pub proof fn lemma_balanced_buffer_is_used_up(s: Seq<char>)
    requires
        balanced(s),
        s.len() > 0,
        s.last() == ';',
    ensures
        forall|j: int| 0 <= j < leftover(s).len() ==> #[trigger] leftover(s)[j] == ';',
    decreases s.len(),
{
    lemma_first_statement_bounds(s);
    if has_statement(s) {
        let end = statement_end(s);
        let rest = after_first(s);
        if rest.len() > 0 {
            lemma_quotes_of_suffix(s, end + 1, rest.len() as int);
            assert(quotes_before(s, end + 1) == quotes_before(s, end));
            assert(rest.last() == s.last());
            lemma_balanced_buffer_is_used_up(rest);
            assert(leftover(s) == leftover(rest));
        }
    } else {
        let last = s.len() - 1;
        assert(quotes_before(s, last + 1) == quotes_before(s, last));
        assert(is_boundary(s, last));
        assert(statement_start(s) == s.len());
    }
}

/// The statements that remain in a buffer of SQL text, handed out one by one.
pub struct StrStatements {
    value: String,
}

impl View for StrStatements {
    type V = Seq<char>;

    /// The text not yet handed out.
    closed spec fn view(&self) -> Seq<char> {
        self.value@
    }
}

/// Starts splitting `str` into statements.
pub fn get_str_statements(str: String) -> (statements: StrStatements)
    ensures
        statements@ == str@,
{
    StrStatements { value: str }
}

impl StrStatements {
    /// The text not yet handed out.
    pub fn remaining(&self) -> (text: &str)
        ensures
            text@ == self@,
    {
        self.value.as_str()
    }

    /// Hands out the next statement and keeps what follows it, or, where the
    /// buffer holds no complete statement, returns `None` and keeps the buffer.
    pub fn next(&mut self) -> (statement: Option<String>)
        ensures
            match statement {
                Some(text) => {
                    &&& has_statement(old(self)@)
                    &&& text@ == first_statement(old(self)@)
                    &&& text@.len() > 0
                    &&& text@.last() == ';'
                    &&& final(self)@ == after_first(old(self)@)
                    &&& final(self)@.len() < old(self)@.len()
                },
                None => !has_statement(old(self)@) && final(self)@ == old(self)@,
            },
    {
        let chars = chars_of(self.value.as_str());
        let n = chars.len();
        let ghost s = chars@;
        let mut embedded = false;
        let mut pos: usize = 0;
        let mut index: usize = 0;
        while index < n
            invariant
                s == chars@,
                s == self.value@,
                s == old(self)@,
                n == s.len(),
                pos <= index <= n,
                embedded == self::embedded(s, index as int),
                forall|j: int| 0 <= j < pos ==> #[trigger] s[j] == ';',
                forall|j: int| pos <= j < index ==> !is_boundary(s, j),
            decreases n - index,
        {
            let c = chars[index];
            proof {
                if pos < index && s[pos as int] == ';' {
                    lemma_terminators_hold_no_quote(s, pos as int);
                    assert(is_boundary(s, pos as int));
                }
            }
            if c == '\'' {
                embedded = !embedded;
            } else if !embedded && c == ';' {
                if chars[pos] == ';' {
                    pos = index + 1;
                } else {
                    proof {
                        lemma_statement_bounds(s, pos as int, index as int);
                        lemma_statement_shape(s);
                    }
                    let (from, to) = trim_bounds(&chars, pos, index + 1);
                    let text = self.value.as_str().substring_char(from, to).to_owned();
                    let rest = self.value.as_str().substring_char(index + 1, n).to_owned();
                    self.value = rest;
                    return Some(text);
                }
            }
            index = index + 1;
        }
        proof {
            if pos < n && s[pos as int] == ';' {
                lemma_terminators_hold_no_quote(s, pos as int);
                assert(is_boundary(s, pos as int));
            }
            lemma_statement_bounds(s, pos as int, n as int);
        }
        None
    }
}

} // verus!
