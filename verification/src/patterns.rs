//! Regular-expression matching, done by the `regex` crate.

use vstd::prelude::*;
use crate::text::opt_view;

verus! {

/// The captured groups of a match, by group index: group 0 is the whole
/// match, the others follow the order of their opening parentheses.
pub open spec fn groups_view(g: Vec<Option<String>>) -> Seq<Option<Seq<char>>> {
    g@.map_values(|o: Option<String>| opt_view(o))
}

/// The view of an optional match.
pub open spec fn captures_view(c: Option<Vec<Option<String>>>) -> Option<Seq<Option<Seq<char>>>> {
    match c {
        Some(g) => Some(groups_view(g)),
        None => None,
    }
}

/// The groups that the `regex` crate captures when `pattern` is compiled
/// and its leftmost-first match in `haystack` is taken; `None` when there is
/// no match (or when `pattern` does not compile).
pub uninterp spec fn regex_captures_of(pattern: Seq<char>, haystack: Seq<char>) -> Option<
    Seq<Option<Seq<char>>>,
>;

/// The text that the `regex` crate's `replace_all` gives when every
/// non-overlapping match of `pattern` in `haystack` is replaced by
/// `replacement`; `None` when `pattern` does not compile.
pub uninterp spec fn regex_replaced(
    pattern: Seq<char>,
    haystack: Seq<char>,
    replacement: Seq<char>,
) -> Option<Seq<char>>;

/// Compiles `pattern` with `regex::Regex::new` and runs `Regex::captures`
/// on `haystack`; each group of the match is turned into an owned string.
/// The result depends on the pattern and the haystack alone and is named
/// `regex_captures_of`; nothing more about regex semantics is stated.
#[verifier::external_body]
pub(crate) fn regex_captures(pattern: &str, haystack: &str) -> (r: Option<Vec<Option<String>>>)
    ensures
        captures_view(r) == regex_captures_of(pattern@, haystack@),
{
    let re = regex::Regex::new(pattern).ok()?;
    let caps = re.captures(haystack)?;
    Some(caps.iter().map(|m| m.map(|m| m.as_str().to_string())).collect())
}

/// Compiles `pattern` with `regex::Regex::new` and calls `Regex::replace_all`
/// on `haystack` with the literal-free `replacement`. The result depends on
/// the three arguments alone and is named `regex_replaced`.
#[verifier::external_body]
pub(crate) fn regex_replace_all(pattern: &str, haystack: &str, replacement: &str) -> (r: Option<
    String,
>)
    ensures
        opt_view(r) == regex_replaced(pattern@, haystack@, replacement@),
{
    let re = regex::Regex::new(pattern).ok()?;
    Some(re.replace_all(haystack, replacement).into_owned())
}

/// Group `i` of a match, if it took part in the match.
pub open spec fn group(g: Seq<Option<Seq<char>>>, i: int) -> Option<Seq<char>> {
    if 0 <= i < g.len() {
        g[i]
    } else {
        None
    }
}

/// Group `i` of a match, or the empty text.
pub open spec fn group_or_empty(g: Seq<Option<Seq<char>>>, i: int) -> Seq<char> {
    match group(g, i) {
        Some(s) => s,
        None => Seq::empty(),
    }
}

/// A copy of group `i` of captured groups.
pub fn group_text(g: &Vec<Option<String>>, i: usize) -> (r: Option<String>)
    ensures
        opt_view(r) == group(groups_view(*g), i as int),
{
    if i < g.len() {
        match &g[i] {
            Some(s) => Some(s.clone()),
            None => None,
        }
    } else {
        None
    }
}

/// A copy of group `i`, or the empty string when it did not take part.
pub fn group_text_or_empty(g: &Vec<Option<String>>, i: usize) -> (r: String)
    ensures
        r@ == group_or_empty(groups_view(*g), i as int),
{
    match group_text(g, i) {
        Some(s) => s,
        None => String::new(),
    }
}

/// Whether group `i` took part in the match.
pub fn has_group(g: &Vec<Option<String>>, i: usize) -> (r: bool)
    ensures
        r == group(groups_view(*g), i as int) is Some,
{
    i < g.len() && g[i].is_some()
}

} // verus!
