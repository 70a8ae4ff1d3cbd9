//! Regular expressions, by way of the `regex` crate.

use vstd::prelude::*;

verus! {

/// Whether `regex::Regex::new` accepts `pattern`.
pub uninterp spec fn regex_compiles(pattern: Seq<char>) -> bool;

/// What `regex::Regex::captures_iter` finds of the group `name`: for each of
/// the successive non-overlapping matches of `pattern` in `haystack`, what
/// `regex::Captures::name` gives for `name`, that is, the text that the group
/// matched, or `None` where the pattern has no such group or the group took
/// no part in the match.
pub uninterp spec fn regex_captures(
    pattern: Seq<char>,
    haystack: Seq<char>,
    name: Seq<char>,
) -> Seq<Option<Seq<char>>>;

/// The values of `found` that are there, in order.
pub open spec fn present(found: Seq<Option<Seq<char>>>) -> Seq<Seq<char>>
    decreases found.len(),
{
    if found.len() == 0 {
        Seq::empty()
    } else {
        let init = present(found.drop_last());
        match found.last() {
            Some(text) => init.push(text),
            None => init,
        }
    }
}

/// A group yields at most one value for each match.
pub proof fn lemma_present_len(found: Seq<Option<Seq<char>>>)
    ensures
        present(found).len() <= found.len(),
    decreases found.len(),
{
    if found.len() > 0 {
        lemma_present_len(found.drop_last());
    }
}

/// `regex::Regex::new`, asked only whether it accepts the pattern.
#[verifier::external_body]
pub(crate) fn compiles(pattern: &str) -> (ok: bool)
    ensures
        ok == regex_compiles(pattern@),
{
    regex::Regex::new(pattern).is_ok()
}

/// `regex::Regex::captures_iter` on `haystack`, each match reduced by
/// `regex::Captures::name` to what the group `name` matched in it.
#[verifier::external_body]
pub(crate) fn captures_named(pattern: &str, haystack: &str, name: &str) -> (found: Vec<
    Option<String>,
>)
    requires
        regex_compiles(pattern@),
    ensures
        found.deep_view() == regex_captures(pattern@, haystack@, name@),
{
    let regex = regex::Regex::new(pattern).unwrap();
    regex.captures_iter(haystack).map(|c| c.name(name).map(|m| m.as_str().to_owned())).collect()
}

/// Whether every pattern of `patterns` compiles.
pub open spec fn all_compile(patterns: Seq<Seq<char>>) -> bool {
    forall|i: int| 0 <= i < patterns.len() ==> regex_compiles(#[trigger] patterns[i])
}

/// Whether every pattern of `patterns` compiles.
pub fn patterns_compile(patterns: &Vec<String>) -> (ok: bool)
    ensures
        ok == all_compile(patterns.deep_view()),
{
    let mut i: usize = 0;
    while i < patterns.len()
        invariant
            i <= patterns.len(),
            forall|j: int| 0 <= j < i ==> regex_compiles(#[trigger] patterns.deep_view()[j]),
        decreases patterns.len() - i,
    {
        if !compiles(patterns[i].as_str()) {
            assert(!regex_compiles(patterns.deep_view()[i as int]));
            return false;
        }
        i += 1;
    }
    true
}

} // verus!
