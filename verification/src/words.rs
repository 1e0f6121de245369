//! Whitespace-separated words of a text.

use crate::text::{char_is_whitespace, is_whitespace};
use vstd::prelude::*;

verus! {

/// For each character of `text`, whether it is whitespace.
pub open spec fn space_flags(text: Seq<char>) -> Seq<bool> {
    Seq::new(text.len(), |i: int| is_whitespace(text[i]))
}

/// A word begins at `i`: a character that is no whitespace, at the start or
/// right after whitespace.
pub open spec fn is_word_start(space: Seq<bool>, i: int) -> bool {
    &&& 0 <= i < space.len()
    &&& !space[i]
    &&& (i == 0 || space[i - 1])
}

/// `span` is a word: a run of characters without whitespace that cannot be
/// extended to either side.
pub open spec fn is_word(space: Seq<bool>, span: (int, int)) -> bool {
    &&& is_word_start(space, span.0)
    &&& span.0 < span.1 <= space.len()
    &&& forall|k: int| span.0 <= k < span.1 ==> !#[trigger] space[k]
    &&& (span.1 == space.len() || space[span.1])
}

/// The number of words that begin before index `i`.
pub open spec fn words_before(space: Seq<bool>, i: int) -> nat
    decreases i,
{
    if i <= 0 {
        0
    } else if is_word_start(space, i - 1) {
        words_before(space, i - 1) + 1
    } else {
        words_before(space, i - 1)
    }
}

/// The number of words.
pub open spec fn word_count(space: Seq<bool>) -> nat {
    words_before(space, space.len() as int)
}

/// `span` is the word with exactly `n` words before it.
pub open spec fn is_nth_word(space: Seq<bool>, n: nat, span: (int, int)) -> bool {
    is_word(space, span) && words_before(space, span.0) == n
}

/// The span of the word with index `n`, counted from zero, if there are that
/// many words.
pub open spec fn nth_word_span(space: Seq<bool>, n: nat) -> Option<(int, int)> {
    if exists|span: (int, int)| is_nth_word(space, n, span) {
        Some(choose|span: (int, int)| is_nth_word(space, n, span))
    } else {
        None
    }
}

/// The word of `text` with index `n`, counted from zero.
pub open spec fn nth_word(text: Seq<char>, n: nat) -> Option<Seq<char>> {
    match nth_word_span(space_flags(text), n) {
        Some(span) => Some(text.subrange(span.0, span.1)),
        None => None,
    }
}

/// The count of word starts never decreases.
pub proof fn lemma_words_before_monotone(space: Seq<bool>, i: int, j: int)
    requires
        i <= j,
    ensures
        words_before(space, i) <= words_before(space, j),
    decreases j - i,
{
    if i < j {
        lemma_words_before_monotone(space, i, j - 1);
    }
}

/// There is at most one word with index `n`.
pub proof fn lemma_nth_word_unique(space: Seq<bool>, n: nat, p: (int, int), q: (int, int))
    requires
        is_nth_word(space, n, p),
        is_nth_word(space, n, q),
    ensures
        p == q,
{
    if p.0 < q.0 {
        lemma_words_before_monotone(space, p.0 + 1, q.0);
    }
    if q.0 < p.0 {
        lemma_words_before_monotone(space, q.0 + 1, p.0);
    }
}

/// A word with index `n` exists exactly when there are more than `n` words.
pub proof fn lemma_nth_word_exists(space: Seq<bool>, n: nat)
    ensures
        nth_word_span(space, n) is Some <==> n < word_count(space),
        nth_word_span(space, n) matches Some(span) ==> is_nth_word(space, n, span),
{
    if nth_word_span(space, n) is Some {
        let span = nth_word_span(space, n).unwrap();
        lemma_words_before_monotone(space, span.0 + 1, space.len() as int);
    } else if n < word_count(space) {
        let a = lemma_find_start(space, n, space.len() as int);
        let b = lemma_find_end(space, a, a + 1);
        assert(is_nth_word(space, n, (a, b)));
    }
}

/// A word is not empty and holds no whitespace.
pub proof fn lemma_word_has_no_whitespace(text: Seq<char>, n: nat)
    ensures
        nth_word(text, n) matches Some(w) ==> w.len() > 0 && forall|i: int|
            0 <= i < w.len() ==> !is_whitespace(#[trigger] w[i]),
{
    let space = space_flags(text);
    lemma_nth_word_exists(space, n);
    if nth_word_span(space, n) is Some {
        let span = nth_word_span(space, n).unwrap();
        let w = text.subrange(span.0, span.1);
        assert forall|i: int| 0 <= i < w.len() implies !is_whitespace(#[trigger] w[i]) by {
            assert(!space[span.0 + i]);
        }
    }
}

proof fn lemma_find_start(space: Seq<bool>, n: nat, i: int) -> (a: int)
    requires
        0 <= i <= space.len(),
        n < words_before(space, i),
    ensures
        is_word_start(space, a),
        words_before(space, a) == n,
    decreases i,
{
    if is_word_start(space, i - 1) && words_before(space, i - 1) == n {
        i - 1
    } else {
        lemma_find_start(space, n, i - 1)
    }
}

proof fn lemma_find_end(space: Seq<bool>, a: int, j: int) -> (b: int)
    requires
        0 <= a < j <= space.len(),
        forall|k: int| a <= k < j ==> !#[trigger] space[k],
    ensures
        a < b <= space.len(),
        forall|k: int| a <= k < b ==> !#[trigger] space[k],
        b == space.len() || space[b],
    decreases space.len() - j,
{
    if j == space.len() || space[j] {
        j
    } else {
        lemma_find_end(space, a, j + 1)
    }
}

/// Finds the word with index `n`, counted from zero, in a text of which
/// `space` tells for each character whether it is whitespace.
pub fn find_nth_word(space: &[bool], n: usize) -> (r: Option<(usize, usize)>)
    ensures
        match r {
            Some((a, b)) => is_nth_word(space@, n as nat, (a as int, b as int)) && nth_word_span(
                space@,
                n as nat,
            ) == Some((a as int, b as int)),
            None => word_count(space@) <= n && nth_word_span(space@, n as nat) is None,
        },
{
    let len = space.len();
    let mut seen: usize = 0;
    let mut i: usize = 0;
    while i < len
        invariant
            len == space@.len(),
            i <= len,
            seen <= n,
            seen == words_before(space@, i as int),
        decreases len - i,
    {
        if !space[i] && (i == 0 || space[i - 1]) {
            if seen == n {
                let mut j: usize = i + 1;
                while j < len && !space[j]
                    invariant
                        len == space@.len(),
                        i < j <= len,
                        forall|k: int| i <= k < j ==> !#[trigger] space@[k],
                    decreases len - j,
                {
                    j = j + 1;
                }
                proof {
                    let span = (i as int, j as int);
                    assert(is_nth_word(space@, n as nat, span));
                    lemma_nth_word_unique(
                        space@,
                        n as nat,
                        span,
                        nth_word_span(space@, n as nat).unwrap(),
                    );
                }
                return Some((i, j));
            }
            seen = seen + 1;
        }
        i = i + 1;
    }
    proof {
        lemma_nth_word_exists(space@, n as nat);
    }
    None
}

/// Tells for each character of `text` whether it is whitespace.
pub fn classify(text: &str) -> (flags: Vec<bool>)
    ensures
        flags@ == space_flags(text@),
{
    let len = text.unicode_len();
    let mut flags: Vec<bool> = Vec::new();
    let mut i: usize = 0;
    while i < len
        invariant
            len == text@.len(),
            i <= len,
            flags@.len() == i,
            forall|k: int| 0 <= k < i ==> flags@[k] == is_whitespace(text@[k]),
        decreases len - i,
    {
        flags.push(char_is_whitespace(text.get_char(i)));
        i = i + 1;
    }
    flags
}

/// The word of `text` with index `n`, counted from zero: what
/// `split_whitespace` yields at that position.
pub fn word<'a>(text: &'a str, n: usize) -> (r: Option<&'a str>)
    ensures
        match r {
            Some(w) => nth_word(text@, n as nat) == Some(w@),
            None => nth_word(text@, n as nat) is None,
        },
{
    let flags = classify(text);
    match find_nth_word(flags.as_slice(), n) {
        Some((a, b)) => Some(text.substring_char(a, b)),
        None => None,
    }
}

} // verus!
