//! Reading runs of characters, and moving text in and out of strings.

use crate::parser::grammar::{http, https, occurrences, protocol_len, span_end, CharSet};
use vstd::prelude::*;
use vstd::slice::slice_subrange;
use vstd::std_specs::iter::IteratorSpec;

verus! {

impl CharSet {
    /// Whether `c` is in the set.
    pub fn contains(self, c: char) -> (r: bool)
        ensures
            r == self.has(c),
    {
        match self {
            CharSet::Except(a) => c != a,
            CharSet::Except2(a, b) => c != a && c != b,
            CharSet::Only(a) => c == a,
            CharSet::Markers => c == '*' || c == '/' || c == '-',
            CharSet::Digits => '0' <= c && c <= '9',
        }
    }
}

/// A run ends inside the text or at its end; every character of the run is
/// in the set, and the character that the run ends at is not.
pub proof fn lemma_span_end(s: Seq<char>, from: int, set: CharSet)
    requires
        0 <= from <= s.len(),
    ensures
        from <= span_end(s, from, set) <= s.len(),
        forall|k: int| from <= k < span_end(s, from, set) ==> set.has(#[trigger] s[k]),
        span_end(s, from, set) < s.len() ==> !set.has(s[span_end(s, from, set)]),
    decreases s.len() - from,
{
    if from < s.len() && set.has(s[from]) {
        lemma_span_end(s, from + 1, set);
    }
}

/// How often a character occurs in a text is the sum of how often it occurs
/// in the two parts of the text.
pub broadcast proof fn lemma_occurrences_add(a: Seq<char>, b: Seq<char>, c: char)
    ensures
        #[trigger] occurrences(a + b, c) == occurrences(a, c) + occurrences(b, c),
    decreases b.len(),
{
    if b.len() == 0 {
        assert(a + b =~= a);
    } else {
        lemma_occurrences_add(a, b.drop_last(), c);
        assert((a + b).drop_last() =~= a + b.drop_last());
    }
}

/// Where the run of characters of `set` that starts at `from` ends.
pub fn span(s: &[char], from: usize, set: CharSet) -> (end: usize)
    requires
        from <= s@.len(),
    ensures
        end == span_end(s@, from as int, set),
        from <= end <= s@.len() <= usize::MAX,
{
    let mut i: usize = from;
    while i < s.len() && set.contains(s[i])
        invariant
            from <= i <= s@.len(),
            span_end(s@, from as int, set) == span_end(s@, i as int, set),
        decreases s@.len() - i,
    {
        i += 1;
    }
    i
}

/// Whether the text holds the character `c` at index `i`.
pub fn holds(s: &[char], i: usize, c: char) -> (r: bool)
    ensures
        r == (i < s@.len() && s@[i as int] == c),
        s@.len() <= usize::MAX,
{
    i < s.len() && s[i] == c
}

/// The length of the protocol that the text begins with, or 0.
pub fn protocol(s: &[char]) -> (n: usize)
    ensures
        n == protocol_len(s@),
{
    if holds(s, 0, 'h') && holds(s, 1, 't') && holds(s, 2, 't') && holds(s, 3, 'p') {
        if holds(s, 4, 's') && holds(s, 5, ':') && holds(s, 6, '/') && holds(s, 7, '/') {
            assert(https() =~= s@.subrange(0, 8));
            8
        } else if holds(s, 4, ':') && holds(s, 5, '/') && holds(s, 6, '/') {
            assert(http() =~= s@.subrange(0, 7));
            assert(!https().is_prefix_of(s@)) by {
                if https().is_prefix_of(s@) {
                    assert(s@.subrange(0, 8)[4] == https()[4]);
                }
            }
            7
        } else {
            assert(!https().is_prefix_of(s@)) by {
                if https().is_prefix_of(s@) {
                    let p = s@.subrange(0, 8);
                    assert(p[4] == https()[4] && p[5] == https()[5] && p[6] == https()[6] && p[7]
                        == https()[7]);
                }
            }
            assert(!http().is_prefix_of(s@)) by {
                if http().is_prefix_of(s@) {
                    let p = s@.subrange(0, 7);
                    assert(p[4] == http()[4] && p[5] == http()[5] && p[6] == http()[6]);
                }
            }
            0
        }
    } else {
        assert(!https().is_prefix_of(s@)) by {
            if https().is_prefix_of(s@) {
                let p = s@.subrange(0, 8);
                assert(p[0] == https()[0] && p[1] == https()[1] && p[2] == https()[2] && p[3]
                    == https()[3]);
            }
        }
        assert(!http().is_prefix_of(s@)) by {
            if http().is_prefix_of(s@) {
                let p = s@.subrange(0, 7);
                assert(p[0] == http()[0] && p[1] == http()[1] && p[2] == http()[2] && p[3]
                    == http()[3]);
            }
        }
        0
    }
}

/// How often `c` occurs in the text, counted up to 255.
pub fn count_capped(s: &[char], c: char) -> (n: u8)
    ensures
        n == crate::parser::grammar::capped(occurrences(s@, c)),
{
    let mut n: u8 = 0;
    let mut i: usize = 0;
    while i < s.len()
        invariant
            i <= s@.len(),
            n == crate::parser::grammar::capped(occurrences(s@.take(i as int), c)),
        decreases s@.len() - i,
    {
        proof {
            assert(s@.take(i + 1).drop_last() == s@.take(i as int));
        }
        if s[i] == c && n < 255 {
            n += 1;
        }
        i += 1;
    }
    assert(s@.take(s@.len() as int) == s@);
    n
}

/// The part of the text from index `from` up to index `to`.
pub fn part(s: &[char], from: usize, to: usize) -> (r: &[char])
    requires
        from <= to <= s@.len(),
    ensures
        r@ == s@.subrange(from as int, to as int),
{
    slice_subrange(s, from, to)
}

/// The part of the text from index `from` on.
pub fn rest(s: &[char], from: usize) -> (r: &[char])
    requires
        from <= s@.len(),
    ensures
        r@ == s@.skip(from as int),
{
    slice_subrange(s, from, s.len())
}

/// `String::push` of the standard library: the string afterwards is the
/// string before with `c` as one more character at its end.
#[verifier::external_body]
fn push_char(s: &mut String, c: char)
    ensures
        final(s)@ == old(s)@.push(c),
{
    s.push(c);
}

/// The characters as a string.
pub fn string_of(s: &[char]) -> (r: String)
    ensures
        r@ == s@,
{
    let mut out = String::new();
    let mut i: usize = 0;
    while i < s.len()
        invariant
            i <= s@.len(),
            out@ == s@.take(i as int),
        decreases s@.len() - i,
    {
        push_char(&mut out, s[i]);
        assert(s@.take(i + 1) == s@.take(i as int).push(s@[i as int]));
        i += 1;
    }
    assert(s@.take(s@.len() as int) == s@);
    out
}

/// The characters of a string.
pub fn chars_of(s: &str) -> (r: Vec<char>)
    ensures
        r@ == s@,
{
    let mut out: Vec<char> = Vec::new();
    for c in it: s.chars()
        invariant
            it.seq() == s@,
            out@ == s@.take(it.index() as int),
    {
        out.push(c);
        assert(s@.take(it.index() + 1) == s@.take(it.index() as int).push(c));
    }
    assert(s@.take(s@.len() as int) == s@);
    out
}

} // verus!
