use vstd::prelude::*;

verus! {

/// Whether the regex class `\d` (Unicode decimal digits, `\p{Nd}`) holds `c`.
pub uninterp spec fn regex_digit(c: char) -> bool;

/// `regex::Regex::is_match` of the pattern `^\d$` on the one-character
/// string `c`: whether `c` is a Unicode decimal digit.  The ASCII digits are
/// among them (the crate documents `\d` as `\p{Nd}`).
#[verifier::external_body]
pub fn is_regex_digit(c: char) -> (r: bool)
    ensures
        r == regex_digit(c),
        '0' <= c && c <= '9' ==> r,
{
    regex::Regex::new(r"^\d$").map(|re| re.is_match(&c.to_string())).unwrap_or(false)
}

/// The message with which `regex::Regex::new` refuses `pattern`, or `None`
/// when it compiles.
pub uninterp spec fn regex_error(pattern: Seq<char>) -> Option<Seq<char>>;

/// The matches that `regex::Regex::captures_iter` yields for `pattern` on
/// `haystack`, leftmost first and without overlap, each as its capture
/// groups (group 0 the whole match, `None` for a group that took no part).
pub uninterp spec fn regex_captures(pattern: Seq<char>, haystack: Seq<char>) -> Seq<Seq<Option<Seq<char>>>>;

pub open spec fn group_view(g: Option<String>) -> Option<Seq<char>> {
    match g {
        Some(x) => Some(x@),
        None => None,
    }
}

pub open spec fn groups_view(m: Seq<Option<String>>) -> Seq<Option<Seq<char>>> {
    m.map_values(|g: Option<String>| group_view(g))
}

pub open spec fn captures_view(v: Seq<Vec<Option<String>>>) -> Seq<Seq<Option<Seq<char>>>> {
    v.map_values(|m: Vec<Option<String>>| groups_view(m@))
}

/// `regex::Regex::new(pattern)`, then `captures_iter(haystack)`, each match
/// turned into the texts of its groups.  A compile error comes back as its
/// message (`regex_error`); otherwise the matches are `regex_captures`, and
/// every match has its group 0 (the crate documents that the whole match is
/// always group 0).
#[verifier::external_body]
pub(crate) fn captures_all(pattern: &str, haystack: &str) -> (r: Result<Vec<Vec<Option<String>>>, String>)
    ensures
        match r {
            Ok(v) => regex_error(pattern@) is None && captures_view(v@) == regex_captures(pattern@, haystack@)
                && forall|i: int| 0 <= i < v@.len() ==> #[trigger] v@[i]@.len() >= 1 && v@[i]@[0] is Some,
            Err(e) => regex_error(pattern@) == Some(e@),
        },
{
    let re = regex::Regex::new(pattern).map_err(|e| e.to_string())?;
    Ok(re.captures_iter(haystack).map(|c| c.iter().map(|g| g.map(|m| m.as_str().to_string())).collect()).collect())
}

} // verus!
