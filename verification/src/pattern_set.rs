//! The boundary to the regex crate: a compiled multi-pattern matcher.
//!
//! A `regex::RegexSet` tests one string against all patterns of a rule set
//! in a single pass.  The set itself is opaque to the verifier; the spec
//! functions below name what it holds and what its queries return, and the
//! wrappers state those contracts.

use vstd::prelude::*;

verus! {

#[verifier::external_type_specification]
#[verifier::external_body]
pub struct ExRegexSet(regex::RegexSet);

#[verifier::external_type_specification]
#[verifier::external_body]
pub struct ExRegexError(regex::Error);

/// The pattern list a compiled set was built from, in the order the
/// patterns were given.
pub uninterp spec fn set_patterns(set: regex::RegexSet) -> Seq<Seq<char>>;

/// Whether regex compilation accepts this pattern list as a whole: every
/// pattern is a valid regular expression and the combined matcher can be
/// built.
pub uninterp spec fn patterns_compile(patterns: Seq<Seq<char>>) -> bool;

/// Whether a compiled pattern matches somewhere inside a text.  The match
/// is a substring match unless the pattern anchors itself.
pub uninterp spec fn pattern_matches(pattern: Seq<char>, text: Seq<char>) -> bool;

/// The indices below `n` of the patterns that match the text, ascending.
pub open spec fn matched_indices_upto(patterns: Seq<Seq<char>>, text: Seq<char>, n: int) -> Seq<int>
    decreases n,
{
    if n <= 0 {
        Seq::empty()
    } else if pattern_matches(patterns[n - 1], text) {
        matched_indices_upto(patterns, text, n - 1).push(n - 1)
    } else {
        matched_indices_upto(patterns, text, n - 1)
    }
}

/// The ascending list of indices of the patterns that match the text.
pub open spec fn matched_indices(patterns: Seq<Seq<char>>, text: Seq<char>) -> Seq<int> {
    matched_indices_upto(patterns, text, patterns.len() as int)
}

proof fn lemma_matched_indices_upto_exact(patterns: Seq<Seq<char>>, text: Seq<char>, n: int)
    ensures
        forall|j: int|
            0 <= j < matched_indices_upto(patterns, text, n).len() ==> 0 <= #[trigger] matched_indices_upto(
                patterns,
                text,
                n,
            )[j] < n,
        forall|a: int, b: int|
            0 <= a < b < matched_indices_upto(patterns, text, n).len() ==> matched_indices_upto(
                patterns,
                text,
                n,
            )[a] < matched_indices_upto(patterns, text, n)[b],
        forall|k: int|
            matched_indices_upto(patterns, text, n).contains(k) <==> (0 <= k < n
                && pattern_matches(patterns[k], text)),
    decreases n,
{
    if n > 0 {
        lemma_matched_indices_upto_exact(patterns, text, n - 1);
        let prev = matched_indices_upto(patterns, text, n - 1);
        let cur = matched_indices_upto(patterns, text, n);
        assert forall|k: int| cur.contains(k) implies (0 <= k < n && pattern_matches(
            patterns[k],
            text,
        )) by {
            if pattern_matches(patterns[n - 1], text) {
                if k != n - 1 {
                    let j = choose|j: int| 0 <= j < cur.len() && cur[j] == k;
                    assert(prev[j] == k);
                    assert(prev.contains(k));
                }
            }
        }
        assert forall|k: int| (0 <= k < n && pattern_matches(patterns[k], text)) implies cur.contains(
            k,
        ) by {
            if k < n - 1 {
                assert(prev.contains(k));
                let j = choose|j: int| 0 <= j < prev.len() && prev[j] == k;
                assert(cur[j] == k);
            } else {
                assert(cur.last() == k);
            }
        }
    }
}

/// Law: the matched-index list holds an index `k` exactly when pattern `k`
/// matches the text, every index points into the pattern list, and the
/// list is strictly ascending.
pub proof fn lemma_matched_indices_exact(patterns: Seq<Seq<char>>, text: Seq<char>)
    ensures
        forall|j: int|
            0 <= j < matched_indices(patterns, text).len() ==> 0 <= #[trigger] matched_indices(
                patterns,
                text,
            )[j] < patterns.len(),
        forall|a: int, b: int|
            0 <= a < b < matched_indices(patterns, text).len() ==> matched_indices(
                patterns,
                text,
            )[a] < matched_indices(patterns, text)[b],
        forall|k: int|
            matched_indices(patterns, text).contains(k) <==> (0 <= k < patterns.len()
                && pattern_matches(patterns[k], text)),
{
    lemma_matched_indices_upto_exact(patterns, text, patterns.len() as int);
}

/// Relies on regex::RegexSet::new: it compiles every pattern of the list
/// into one combined matcher, keeping the given order, and returns an
/// error if the list cannot be compiled (in particular when any pattern
/// is not a valid regular expression).
#[verifier::external_body]
pub(crate) fn compile_pattern_set(patterns: &Vec<String>) -> (r: Result<
    regex::RegexSet,
    regex::Error,
>)
    ensures
        r is Ok <==> patterns_compile(patterns@.map_values(|p: String| p@)),
        r matches Ok(set) ==> set_patterns(set) == patterns@.map_values(|p: String| p@),
{
    regex::RegexSet::new(patterns.iter().map(|p| p.as_str()))
}

/// Relies on regex::RegexSet::matches and regex::SetMatches::into_iter:
/// the query reports the index of every pattern that matches somewhere in
/// the text (unanchored unless the pattern anchors itself), and iteration
/// yields those indices in ascending order.
#[verifier::external_body]
pub(crate) fn pattern_set_matches(set: &regex::RegexSet, text: &str) -> (r: Vec<usize>)
    ensures
        r@.map_values(|u: usize| u as int) == matched_indices(set_patterns(*set), text@),
        forall|k: int|
            0 <= k < set_patterns(*set).len() ==> (r@.contains(k as usize) <==> pattern_matches(
                #[trigger] set_patterns(*set)[k],
                text@,
            )),
{
    set.matches(text).into_iter().collect()
}

/// Relies on the Display impl of regex::Error: a human-readable
/// description of a failed compilation, naming the offending pattern.
#[verifier::external_body]
pub(crate) fn regex_error_message(err: &regex::Error) -> String {
    format!("{}", err)
}

} // verus!
