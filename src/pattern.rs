use vstd::prelude::*;

verus! {

/// For each match of the regular expression `pattern` in `text`, left to right, the text of
/// the capture group named `group` (`None` where the group took no part in the match).
pub uninterp spec fn regex_groups(pattern: Seq<char>, text: Seq<char>, group: Seq<char>) -> Seq<Option<Seq<char>>>;

pub open spec fn opt_text(o: Option<String>) -> Option<Seq<char>> {
    match o {
        Some(s) => Some(s@),
        None => None,
    }
}

/// Relies on `regex::Regex::new` and `regex::Regex::captures_iter`: the named group of each
/// non-overlapping match, in order. A pattern that does not compile has no matches.
#[verifier::external_body]
pub fn captures(pattern: &str, text: &str, group: &str) -> (r: Vec<Option<String>>)
    ensures
        r@.map_values(|o: Option<String>| opt_text(o)) == regex_groups(pattern@, text@, group@),
{
    match regex::Regex::new(pattern) {
        Ok(re) => re
            .captures_iter(text)
            .map(|c| c.name(group).map(|m| m.as_str().to_string()))
            .collect(),
        Err(_) => Vec::new(),
    }
}

/// `text` with every non-overlapping match of the regular expression `pattern` replaced by
/// `replacement`, in which `$name` and `${name}` stand for capture groups.
pub uninterp spec fn regex_replaced(pattern: Seq<char>, text: Seq<char>, replacement: Seq<char>) -> Seq<char>;

/// Relies on `regex::Regex::new` and `regex::Regex::replace_all`. A pattern that does not
/// compile leaves the text as it is.
#[verifier::external_body]
pub fn replace_matches(pattern: &str, text: &str, replacement: &str) -> (r: String)
    ensures
        r@ == regex_replaced(pattern@, text@, replacement@),
{
    match regex::Regex::new(pattern) {
        Ok(re) => re.replace_all(text, replacement).into_owned(),
        Err(_) => text.to_string(),
    }
}

} // verus!
