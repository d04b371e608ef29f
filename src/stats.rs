//! The statistics engine: pure functions over a byte sequence, each stated
//! against a spec function that says what it counts.

use vstd::prelude::*;

verus! {

/// The newline byte.
pub const NEWLINE: u8 = 10;

/// Number of `\n` bytes in `s`.
pub open spec fn newline_count(s: Seq<u8>) -> nat
    decreases s.len(),
{
    if s.len() == 0 {
        0
    } else {
        newline_count(s.drop_last()) + if s.last() == NEWLINE { 1nat } else { 0nat }
    }
}

/// [`newline_count`] is the length of the subsequence of `\n` bytes.
pub proof fn lemma_newline_count_is_filter(s: Seq<u8>)
    ensures
        newline_count(s) == s.filter(|b: u8| b == NEWLINE).len(),
    decreases s.len(),
{
    reveal(Seq::filter);
    if s.len() > 0 {
        lemma_newline_count_is_filter(s.drop_last());
    }
}

/// ASCII whitespace: space, tab, line feed, vertical tab, form feed and
/// carriage return.
pub open spec fn is_ws(b: u8) -> bool {
    b == 32 || b == 9 || b == 10 || b == 11 || b == 12 || b == 13
}

/// Position `i` of `s` starts a word: the byte there is not whitespace and
/// the one before it, if any, is.
pub open spec fn starts_word(s: Seq<u8>, i: int) -> bool {
    0 <= i < s.len() && !is_ws(s[i]) && (i == 0 || is_ws(s[i - 1]))
}

/// Number of maximal runs of non-whitespace bytes in `s`, counted by their
/// first positions.
pub open spec fn word_count(s: Seq<u8>) -> nat
    decreases s.len(),
{
    if s.len() == 0 {
        0
    } else {
        word_count(s.drop_last()) + if starts_word(s, s.len() - 1) { 1nat } else { 0nat }
    }
}

/// `p` occurs in `s` starting at position `i`.
pub open spec fn occurs_at(s: Seq<u8>, p: Seq<u8>, i: int) -> bool {
    0 <= i && i + p.len() <= s.len() && s.subrange(i, i + p.len()) == p
}

/// Number of positions below `n` at which `p` occurs in `s`.
pub open spec fn occurrences_below(s: Seq<u8>, p: Seq<u8>, n: int) -> nat
    decreases n,
{
    if n <= 0 {
        0
    } else {
        occurrences_below(s, p, n - 1) + if occurs_at(s, p, n - 1) { 1nat } else { 0nat }
    }
}

/// Number of (possibly overlapping) occurrences of `p` in `s`: the starting
/// positions `0 ..= |s| - |p|` at which `p` matches byte for byte.
pub open spec fn occurrence_count(s: Seq<u8>, p: Seq<u8>) -> nat {
    if p.len() > s.len() {
        0
    } else {
        occurrences_below(s, p, s.len() - p.len() + 1)
    }
}

proof fn lemma_prefix_drop_last(s: Seq<u8>, i: int)
    requires
        0 <= i < s.len(),
    ensures
        s.subrange(0, i + 1).drop_last() == s.subrange(0, i),
        s.subrange(0, i + 1).last() == s[i],
{
    assert(s.subrange(0, i + 1).drop_last() =~= s.subrange(0, i));
}

/// Counts the `\n` bytes of `buf`.
pub fn count_lines(buf: &[u8]) -> (n: usize)
    ensures
        n == newline_count(buf@),
{
    let mut n: usize = 0;
    let mut i: usize = 0;
    while i < buf.len()
        invariant
            i <= buf@.len(),
            n <= i,
            n == newline_count(buf@.subrange(0, i as int)),
        decreases buf.len() - i,
    {
        proof {
            lemma_prefix_drop_last(buf@, i as int);
        }
        if buf[i] == NEWLINE {
            n = n + 1;
        }
        i = i + 1;
    }
    assert(buf@.subrange(0, i as int) =~= buf@);
    n
}

/// The executable form of [`is_ws`].
pub fn is_whitespace(b: u8) -> (r: bool)
    ensures
        r == is_ws(b),
{
    b == 32 || b == 9 || b == 10 || b == 11 || b == 12 || b == 13
}

/// Counts the words of `buf`: its maximal runs of non-whitespace bytes.
/// A single left-to-right scan counts a word when it closes, and once more
/// for a word still open at the end.
pub fn count_words(buf: &[u8]) -> (n: usize)
    ensures
        n == word_count(buf@),
{
    let mut words: usize = 0;
    let mut in_word = false;
    let mut i: usize = 0;
    while i < buf.len()
        invariant
            i <= buf@.len(),
            words + (if in_word { 1int } else { 0int }) <= i,
            words + (if in_word { 1int } else { 0int }) == word_count(buf@.subrange(0, i as int)),
            in_word == (i > 0 && !is_ws(buf@[i - 1])),
        decreases buf.len() - i,
    {
        proof {
            lemma_prefix_drop_last(buf@, i as int);
            let pre = buf@.subrange(0, i as int + 1);
            assert(starts_word(pre, i as int) == starts_word(buf@, i as int));
        }
        if is_whitespace(buf[i]) {
            if in_word {
                words = words + 1;
                in_word = false;
            }
        } else {
            in_word = true;
        }
        i = i + 1;
    }
    assert(buf@.subrange(0, i as int) =~= buf@);
    if in_word {
        words = words + 1;
    }
    words
}

/// Whether `pat` occurs in `buf` starting at position `at`.
pub fn matches_at(buf: &[u8], pat: &[u8], at: usize) -> (r: bool)
    requires
        at + pat@.len() <= buf@.len(),
    ensures
        r == occurs_at(buf@, pat@, at as int),
{
    let mut j: usize = 0;
    while j < pat.len()
        invariant
            at + pat@.len() <= buf@.len(),
            j <= pat@.len(),
            forall|k: int| 0 <= k < j ==> buf@[at + k] == pat@[k],
        decreases pat.len() - j,
    {
        assert(at + j < buf.len());
        if buf[at + j] != pat[j] {
            assert(buf@.subrange(at as int, at + pat@.len())[j as int] != pat@[j as int]);
            return false;
        }
        j = j + 1;
    }
    assert(buf@.subrange(at as int, at + pat@.len()) =~= pat@);
    true
}

/// Counts the (possibly overlapping) occurrences of `pat` in `buf`; none
/// when `pat` is longer than `buf`. An empty pattern occurs at every one of
/// the `|buf| + 1` positions, so that count must fit in `usize`.
pub fn find_pattern(buf: &[u8], pat: &[u8]) -> (n: usize)
    requires
        pat@.len() > 0 || buf@.len() < usize::MAX,
    ensures
        n == occurrence_count(buf@, pat@),
{
    if buf.len() < pat.len() {
        return 0;
    }
    let last = buf.len() - pat.len();
    let mut n: usize = 0;
    let mut i: usize = 0;
    while i <= last
        invariant
            last == buf@.len() - pat@.len(),
            last < usize::MAX,
            i <= last + 1,
            n <= i,
            n == occurrences_below(buf@, pat@, i as int),
        decreases last + 1 - i,
    {
        if matches_at(buf, pat, i) {
            n = n + 1;
        }
        i = i + 1;
    }
    n
}

/// Counting is repeatable: on the same unchanged bytes and pattern, any two
/// results that meet the contracts of [`count_lines`], [`count_words`] and
/// [`find_pattern`] are equal, so calling them a second time returns what the
/// first call did.
pub proof fn lemma_counts_repeatable(
    s: Seq<u8>,
    p: Seq<u8>,
    first: (usize, usize, usize),
    second: (usize, usize, usize),
)
    requires
        first.0 == newline_count(s),
        first.1 == word_count(s),
        first.2 == occurrence_count(s, p),
        second.0 == newline_count(s),
        second.1 == word_count(s),
        second.2 == occurrence_count(s, p),
    ensures
        first == second,
{
}

} // verus!
