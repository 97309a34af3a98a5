//! Multi-pattern search with leftmost-first semantics.
//!
//! The search itself is done by the `aho-corasick` crate; this module states
//! what a leftmost-first match is, over the bytes of the patterns and of the
//! haystack, and offers the search as a function with that contract.

use crate::error::{Failure, ParserError};
use crate::text::texts;
use aho_corasick::{AhoCorasick, BuildError, MatchKind};
use vstd::prelude::*;
use vstd::utf8::encode_utf8;

verus! {

/// `aho_corasick::BuildError`: why an automaton could not be built. Its inside
/// is not looked at.
#[verifier::external_type_specification]
#[verifier::external_body]
pub struct ExBuildError(BuildError);

/// Where a pattern was found: the index of the pattern in the list that was
/// searched for, and the byte offsets in the haystack at which the match
/// starts and ends.
#[derive(Debug, Copy, Clone, PartialEq, Eq, Structural)]
pub struct PatternMatch {
    pub pattern: usize,
    pub start: usize,
    pub end: usize,
}

/// A match as a mathematical value.
pub struct Occurrence {
    pub pattern: int,
    pub start: int,
    pub end: int,
}

impl View for PatternMatch {
    type V = Occurrence;

    open spec fn view(&self) -> Occurrence {
        Occurrence { pattern: self.pattern as int, start: self.start as int, end: self.end as int }
    }
}

/// The view of an optional match.
pub open spec fn found_view(found: Option<PatternMatch>) -> Option<Occurrence> {
    match found {
        Some(m) => Some(m@),
        None => None,
    }
}

/// The UTF-8 bytes of each text of a list.
pub open spec fn encoded(patterns: Seq<Seq<char>>) -> Seq<Seq<u8>> {
    Seq::new(patterns.len(), |i: int| encode_utf8(patterns[i]))
}

/// Whether `pattern` stands in `haystack` at byte offset `start`.
pub open spec fn occurs_at(pattern: Seq<u8>, haystack: Seq<u8>, start: int) -> bool {
    &&& 0 <= start
    &&& start + pattern.len() <= haystack.len()
    &&& haystack.subrange(start, start + pattern.len()) == pattern
}

/// Whether any of `patterns` stands anywhere in `haystack`.
pub open spec fn occurs_anywhere(patterns: Seq<Seq<u8>>, haystack: Seq<u8>) -> bool {
    exists|p: int, s: int| 0 <= p < patterns.len() && #[trigger] occurs_at(patterns[p], haystack, s)
}

/// Whether `m` is the leftmost-first match of `patterns` in `haystack`: the
/// pattern it names stands at its start, no pattern stands further left, and of
/// the patterns that stand at its start none comes earlier in the list.
pub open spec fn is_leftmost_first(
    patterns: Seq<Seq<u8>>,
    haystack: Seq<u8>,
    m: Occurrence,
) -> bool {
    &&& 0 <= m.pattern < patterns.len()
    &&& occurs_at(patterns[m.pattern], haystack, m.start)
    &&& m.end == m.start + patterns[m.pattern].len()
    &&& forall|p: int, s: int|
        0 <= p < patterns.len() && #[trigger] occurs_at(patterns[p], haystack, s) ==> m.start < s
            || (m.start == s && m.pattern <= p)
}

/// The leftmost-first match of `patterns` in `haystack`, if any pattern occurs.
pub open spec fn leftmost_first(patterns: Seq<Seq<u8>>, haystack: Seq<u8>) -> Option<Occurrence> {
    if occurs_anywhere(patterns, haystack) {
        Some(choose|m: Occurrence| is_leftmost_first(patterns, haystack, m))
    } else {
        None
    }
}

/// Whether `aho-corasick` can build an automaton for these patterns. The crate
/// refuses a pattern list that exceeds one of its internal limits (number of
/// patterns, length of a pattern, number of states) and documents no figure for
/// them.
pub uninterp spec fn automaton_builds(patterns: Seq<Seq<u8>>) -> bool;

/// What a search for `patterns` in `text` gives: nothing for an empty list, a
/// build failure where the automaton cannot be built, else the leftmost-first
/// match.
pub open spec fn search(patterns: Seq<Seq<char>>, text: Seq<char>) -> Result<
    Option<Occurrence>,
    Failure,
> {
    if patterns.len() == 0 {
        Ok(None)
    } else if !automaton_builds(encoded(patterns)) {
        Err(Failure::Build)
    } else {
        Ok(leftmost_first(encoded(patterns), encode_utf8(text)))
    }
}

/// Two leftmost-first matches of the same search are the same match.
pub proof fn lemma_leftmost_first_unique(
    patterns: Seq<Seq<u8>>,
    haystack: Seq<u8>,
    a: Occurrence,
    b: Occurrence,
)
    requires
        is_leftmost_first(patterns, haystack, a),
        is_leftmost_first(patterns, haystack, b),
    ensures
        a == b,
{
    assert(occurs_at(patterns[a.pattern], haystack, a.start));
    assert(occurs_at(patterns[b.pattern], haystack, b.start));
}

/// Among the patterns up to index `p` that stand at `start`, the one that
/// comes first in the list.
proof fn lemma_first_pattern_at(
    patterns: Seq<Seq<u8>>,
    haystack: Seq<u8>,
    start: int,
    p: int,
) -> (first: int)
    requires
        0 <= p < patterns.len(),
        occurs_at(patterns[p], haystack, start),
    ensures
        0 <= first <= p,
        occurs_at(patterns[first], haystack, start),
        forall|q: int| 0 <= q < first ==> !(#[trigger] occurs_at(patterns[q], haystack, start)),
    decreases p,
{
    if exists|q: int| 0 <= q < p && #[trigger] occurs_at(patterns[q], haystack, start) {
        let q = choose|q: int| 0 <= q < p && #[trigger] occurs_at(patterns[q], haystack, start);
        lemma_first_pattern_at(patterns, haystack, start, q)
    } else {
        p
    }
}

/// The least offset, not above `s`, at which some pattern stands.
proof fn lemma_leftmost_start(patterns: Seq<Seq<u8>>, haystack: Seq<u8>, p: int, s: int) -> (r: (
    int,
    int,
))
    requires
        0 <= p < patterns.len(),
        occurs_at(patterns[p], haystack, s),
    ensures
        0 <= r.0 < patterns.len(),
        0 <= r.1 <= s,
        occurs_at(patterns[r.0], haystack, r.1),
        forall|q: int, t: int|
            0 <= q < patterns.len() && #[trigger] occurs_at(patterns[q], haystack, t) ==> r.1 <= t,
    decreases s,
{
    if exists|q: int, t: int|
        0 <= q < patterns.len() && t < s && #[trigger] occurs_at(patterns[q], haystack, t) {
        let (q, t) = choose|q: int, t: int|
            0 <= q < patterns.len() && t < s && #[trigger] occurs_at(patterns[q], haystack, t);
        lemma_leftmost_start(patterns, haystack, q, t)
    } else {
        (p, s)
    }
}

/// Where any pattern occurs, the search has a leftmost-first match, and
/// `leftmost_first` is that match.
pub proof fn lemma_leftmost_first_exists(patterns: Seq<Seq<u8>>, haystack: Seq<u8>)
    requires
        occurs_anywhere(patterns, haystack),
    ensures
        leftmost_first(patterns, haystack) is Some,
        is_leftmost_first(patterns, haystack, leftmost_first(patterns, haystack)->Some_0),
{
    let (p, s) = choose|p: int, s: int|
        0 <= p < patterns.len() && #[trigger] occurs_at(patterns[p], haystack, s);
    let (q, t) = lemma_leftmost_start(patterns, haystack, p, s);
    let first = lemma_first_pattern_at(patterns, haystack, t, q);
    let m = Occurrence { pattern: first, start: t, end: t + patterns[first].len() };
    assert(is_leftmost_first(patterns, haystack, m));
}

/// `leftmost_first` gives `m` exactly where `m` is the leftmost-first match.
pub proof fn lemma_leftmost_first_is(patterns: Seq<Seq<u8>>, haystack: Seq<u8>, m: Occurrence)
    ensures
        leftmost_first(patterns, haystack) == Some(m) <==> is_leftmost_first(patterns, haystack, m),
{
    if is_leftmost_first(patterns, haystack, m) {
        assert(occurs_at(patterns[m.pattern], haystack, m.start));
        lemma_leftmost_first_exists(patterns, haystack);
        lemma_leftmost_first_unique(
            patterns,
            haystack,
            m,
            leftmost_first(patterns, haystack)->Some_0,
        );
    }
    if leftmost_first(patterns, haystack) == Some(m) {
        lemma_leftmost_first_exists(patterns, haystack);
    }
}

/// Whether `pattern` stands in `text` at character offset `start`.
pub open spec fn stands_at(pattern: Seq<char>, text: Seq<char>, start: int) -> bool {
    &&& 0 <= start
    &&& start + pattern.len() <= text.len()
    &&& text.subrange(start, start + pattern.len()) == pattern
}

/// Whether no text of the list is empty.
pub open spec fn none_empty(patterns: Seq<Seq<char>>) -> bool {
    forall|i: int| 0 <= i < patterns.len() ==> (#[trigger] patterns[i]).len() > 0
}

/// Builds an `aho-corasick` automaton for `patterns` with
/// `MatchKind::LeftmostFirst` and calls `AhoCorasick::find` on `haystack`.
/// Trusted, as the crate documents it: the build fails only where the pattern
/// list exceeds an internal limit; `find` reports the leftmost match, and of
/// several patterns that match there the one given earliest to the builder,
/// with the byte offsets of the match; it reports nothing exactly where no
/// pattern occurs. Of a list that holds an empty pattern nothing is claimed
/// but whether the automaton can be built.
#[verifier::external_body]
fn leftmost_first_search(patterns: &[String], haystack: &str) -> (r: Result<
    Option<PatternMatch>,
    BuildError,
>)
    ensures
        r is Ok <==> automaton_builds(encoded(texts(patterns@))),
        none_empty(texts(patterns@)) ==> match r {
            Ok(Some(m)) => is_leftmost_first(
                encoded(texts(patterns@)),
                encode_utf8(haystack@),
                m@,
            ),
            Ok(None) => !occurs_anywhere(encoded(texts(patterns@)), encode_utf8(haystack@)),
            Err(_) => true,
        },
{
    let automaton = AhoCorasick::builder().match_kind(MatchKind::LeftmostFirst).build(patterns)?;
    Ok(
        automaton.find(haystack).map(
            |m| PatternMatch { pattern: m.pattern().as_usize(), start: m.start(), end: m.end() },
        ),
    )
}

/// Whether `haystack` starts with `pattern`.
fn starts_with(haystack: &[u8], pattern: &[u8]) -> (r: bool)
    ensures
        r == occurs_at(pattern@, haystack@, 0),
{
    if pattern.len() > haystack.len() {
        return false;
    }
    let mut i: usize = 0;
    while i < pattern.len()
        invariant
            i <= pattern.len(),
            pattern.len() <= haystack.len(),
            forall|j: int| 0 <= j < i ==> haystack@[j] == pattern@[j],
        decreases pattern.len() - i,
    {
        if haystack[i] != pattern[i] {
            assert(haystack@.subrange(0, pattern@.len() as int)[i as int] != pattern@[i as int]);
            return false;
        }
        i += 1;
    }
    assert(haystack@.subrange(0, pattern@.len() as int) =~= pattern@);
    true
}

/// The match of the first pattern of the list that `haystack` starts with.
pub fn match_at_start(patterns: &[String], haystack: &str) -> (r: Option<PatternMatch>)
    ensures
        match r {
            Some(m) => {
                &&& m.pattern < patterns@.len()
                &&& m.start == 0
                &&& m.end == encode_utf8(patterns@[m.pattern as int]@).len()
                &&& occurs_at(encode_utf8(patterns@[m.pattern as int]@), encode_utf8(haystack@), 0)
                &&& forall|q: int|
                    0 <= q < m.pattern ==> !occurs_at(
                        encode_utf8((#[trigger] patterns@[q])@),
                        encode_utf8(haystack@),
                        0,
                    )
            },
            None => forall|q: int|
                0 <= q < patterns@.len() ==> !occurs_at(
                    encode_utf8((#[trigger] patterns@[q])@),
                    encode_utf8(haystack@),
                    0,
                ),
        },
{
    let hay = haystack.as_bytes();
    let mut i: usize = 0;
    while i < patterns.len()
        invariant
            i <= patterns.len(),
            hay@ == encode_utf8(haystack@),
            forall|q: int|
                0 <= q < i ==> !occurs_at(
                    encode_utf8((#[trigger] patterns@[q])@),
                    encode_utf8(haystack@),
                    0,
                ),
        decreases patterns.len() - i,
    {
        let pattern = patterns[i].as_str().as_bytes();
        if starts_with(hay, pattern) {
            return Some(PatternMatch { pattern: i, start: 0, end: pattern.len() });
        }
        i += 1;
    }
    None
}

/// Whether a pattern of the list is empty.
fn holds_empty(patterns: &[String]) -> (r: bool)
    ensures
        r == !none_empty(texts(patterns@)),
{
    let mut i: usize = 0;
    while i < patterns.len()
        invariant
            i <= patterns.len(),
            forall|j: int| 0 <= j < i ==> (#[trigger] texts(patterns@)[j]).len() > 0,
        decreases patterns.len() - i,
    {
        if patterns[i].as_str().is_empty() {
            assert(texts(patterns@)[i as int].len() == 0);
            return true;
        }
        assert(texts(patterns@)[i as int] == patterns@[i as int]@);
        i += 1;
    }
    false
}

/// Searches `haystack` for the leftmost-first match of `patterns`.
///
/// An empty pattern list matches nothing. An empty pattern occurs at the start
/// of every haystack, so that a list that holds one matches at offset zero.
/// Matching is by bytes and therefore case-sensitive. Fails only where the
/// automaton cannot be built.
pub fn aho_parse(patterns: &[String], haystack: &str) -> (r: Result<
    Option<PatternMatch>,
    ParserError,
>)
    ensures
        match r {
            Ok(found) => search(texts(patterns@), haystack@) == Ok::<Option<Occurrence>, Failure>(
                found_view(found),
            ),
            Err(e) => search(texts(patterns@), haystack@) == Err::<Option<Occurrence>, Failure>(e@),
        },
        r matches Ok(Some(m)) ==> m.pattern < patterns@.len() && is_leftmost_first(
            encoded(texts(patterns@)),
            encode_utf8(haystack@),
            m@,
        ),
{
    if patterns.len() == 0 {
        return Ok(None);
    }
    let found = match leftmost_first_search(patterns, haystack) {
        Ok(found) => found,
        Err(cause) => {
            return Err(ParserError::AhoCorasickBuild(cause.to_string()));
        },
    };
    let found = if holds_empty(patterns) {
        let at_start = match_at_start(patterns, haystack);
        proof {
            let list = encoded(texts(patterns@));
            let hay = encode_utf8(haystack@);
            let e = choose|e: int| 0 <= e < patterns@.len() && texts(patterns@)[e].len() == 0;
            assert(list[e] =~= Seq::<u8>::empty());
            assert(hay.subrange(0, 0) =~= list[e]);
            assert(occurs_at(list[e], hay, 0));
            assert(at_start is Some);
            assert forall|p: int, s: int|
                0 <= p < list.len() && #[trigger] occurs_at(list[p], hay, s) implies 0 < s || (0
                == s && at_start->Some_0.pattern <= p) by {}
        }
        at_start
    } else {
        found
    };
    proof {
        if let Some(m) = found {
            lemma_leftmost_first_is(encoded(texts(patterns@)), encode_utf8(haystack@), m@);
        }
    }
    Ok(found)
}

} // verus!
