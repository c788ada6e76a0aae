//! Regular expressions, matched by the `regex` crate. Each call compiles the
//! pattern; a pattern that does not compile matches nothing.
use vstd::prelude::*;

verus! {

/// What `Regex::new(pattern)` followed by `is_match(text)` answers.
pub uninterp spec fn regex_matches(pattern: Seq<char>, text: Seq<char>) -> bool;

/// What `Regex::new(pattern)` followed by `captures(text)` gives: `None`
/// where there is no match, else each group of the leftmost match (group 0
/// first) as the matched text, `None` for a group that did not take part.
pub uninterp spec fn regex_captures(pattern: Seq<char>, text: Seq<char>) -> Option<Seq<Option<Seq<char>>>>;

/// What `Regex::new(pattern)` followed by `find(text)` gives: the text of the
/// leftmost match.
pub uninterp spec fn regex_find(pattern: Seq<char>, text: Seq<char>) -> Option<Seq<char>>;

/// What `Regex::new(pattern)` followed by `replace(text, "")` gives: the text
/// with its leftmost match removed.
pub uninterp spec fn regex_remove_first(pattern: Seq<char>, text: Seq<char>) -> Seq<char>;

/// Calls `regex::Regex::new` and `Regex::is_match`; a pattern that fails to
/// compile gives `false`. The answer is named, a function of its arguments.
#[verifier::external_body]
pub(crate) fn is_match(pattern: &str, text: &str) -> (r: bool)
    ensures
        r == regex_matches(pattern@, text@),
{
    match regex::Regex::new(pattern) {
        Ok(re) => re.is_match(text),
        Err(_) => false,
    }
}

/// Calls `regex::Regex::new` and `Regex::captures`, handing each group out as
/// an owned string; a pattern that fails to compile gives `None`. The result
/// is named, a function of its arguments.
#[verifier::external_body]
pub(crate) fn captures(pattern: &str, text: &str) -> (r: Option<Vec<Option<String>>>)
    ensures
        match r {
            None => regex_captures(pattern@, text@) is None,
            Some(groups) => regex_captures(pattern@, text@) == Some(
                groups@.map_values(|g: Option<String>| opt_text(g)),
            ),
        },
{
    match regex::Regex::new(pattern) {
        Ok(re) => re.captures(text).map(|c| c.iter().map(|g| g.map(|m| m.as_str().to_string())).collect()),
        Err(_) => None,
    }
}

/// Calls `regex::Regex::new` and `Regex::find`; a pattern that fails to
/// compile gives `None`. The result is named, a function of its arguments.
#[verifier::external_body]
pub(crate) fn find(pattern: &str, text: &str) -> (r: Option<String>)
    ensures
        opt_text(r) == regex_find(pattern@, text@),
{
    match regex::Regex::new(pattern) {
        Ok(re) => re.find(text).map(|m| m.as_str().to_string()),
        Err(_) => None,
    }
}

/// Calls `regex::Regex::new` and `Regex::replace` with an empty replacement;
/// a pattern that fails to compile leaves the text as it is. The result is
/// named, a function of its arguments.
#[verifier::external_body]
pub(crate) fn remove_first(pattern: &str, text: &str) -> (r: String)
    ensures
        r@ == regex_remove_first(pattern@, text@),
{
    match regex::Regex::new(pattern) {
        Ok(re) => re.replace(text, "").into_owned(),
        Err(_) => text.to_string(),
    }
}

/// The characters of an optional string.
pub open spec fn opt_text(o: Option<String>) -> Option<Seq<char>> {
    match o {
        Some(s) => Some(s@),
        None => None,
    }
}

} // verus!
