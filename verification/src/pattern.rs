//! Regular-expression matching, done by the `regex` crate, and access to the
//! capture groups that it reports.
use vstd::prelude::*;

verus! {

/// The capture groups that the `regex` crate reports for the first match of
/// `pattern` in `text`: `None` when `pattern` does not compile or does not
/// match; otherwise one entry per group, group 0 (the whole match) first,
/// each `None` where the group took no part in the match.
pub uninterp spec fn regex_captures(pattern: Seq<char>, text: Seq<char>) -> Option<
    Seq<Option<Seq<char>>>,
>;

/// Compiles `pattern` with `regex::Regex::new` and runs `Regex::captures` on
/// `text`, copying each group's text out (`Captures::iter`, `Match::as_str`).
/// Trusted: the result is taken to be `regex_captures` of the two arguments,
/// which holds because both calls depend on nothing but their arguments.
/// What the groups hold for a given pattern and text is not stated.
#[verifier::external_body]
pub(crate) fn captures_of(pattern: &str, text: &str) -> (r: Option<Vec<Option<String>>>)
    ensures
        r.deep_view() == regex_captures(pattern@, text@),
{
    match regex::Regex::new(pattern) {
        Ok(re) => re.captures(text).map(
            |c| c.iter().map(|m| m.map(|m| m.as_str().to_string())).collect(),
        ),
        Err(_) => None,
    }
}

/// Group `i` of a capture result, `None` where the group did not take part or
/// does not exist (the reading of `Captures::get`).
pub open spec fn capture_group(caps: Seq<Option<Seq<char>>>, i: int) -> Option<Seq<char>> {
    if 0 <= i < caps.len() {
        caps[i]
    } else {
        None
    }
}

/// The text of group `i` of `caps`, if there is one.
pub fn group_at(caps: &Vec<Option<String>>, i: usize) -> (r: Option<&str>)
    ensures
        match r {
            Some(s) => capture_group(caps.deep_view(), i as int) == Some(s@),
            None => capture_group(caps.deep_view(), i as int) is None,
        },
{
    if i < caps.len() {
        match &caps[i] {
            Some(s) => Some(s.as_str()),
            None => None,
        }
    } else {
        None
    }
}

} // verus!
