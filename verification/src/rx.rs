use vstd::prelude::*;

verus! {

/// What `regex::Regex::find_iter` yields for a pattern and a text: the
/// non-overlapping matches, leftmost first; none when the pattern does not
/// compile.
pub uninterp spec fn regex_find_all_of(pat: Seq<char>, text: Seq<char>) -> Seq<Seq<char>>;

/// Relies on `regex::Regex::new` and `Regex::find_iter`: every
/// non-overlapping match of `pat` in `text`, leftmost first.
#[verifier::external_body]
pub fn regex_find_all(pat: &str, text: &str) -> (r: Vec<String>)
    ensures
        r.deep_view() == regex_find_all_of(pat@, text@),
{
    let re = match regex::Regex::new(pat) {
        Ok(re) => re,
        Err(_) => {
            return Vec::new();
        },
    };
    re.find_iter(text).map(|m| m.as_str().to_string()).collect()
}

/// What `regex::Regex::captures_iter` yields for the first capture group:
/// that group's text for each match that binds it, leftmost first; none
/// when the pattern does not compile.
pub uninterp spec fn regex_capture1_of(pat: Seq<char>, text: Seq<char>) -> Seq<Seq<char>>;

/// Relies on `regex::Regex::new` and `Regex::captures_iter`: the first
/// capture group's text for every match, leftmost first.
#[verifier::external_body]
pub fn regex_capture1_all(pat: &str, text: &str) -> (r: Vec<String>)
    ensures
        r.deep_view() == regex_capture1_of(pat@, text@),
{
    let re = match regex::Regex::new(pat) {
        Ok(re) => re,
        Err(_) => {
            return Vec::new();
        },
    };
    re.captures_iter(text).filter_map(|c| c.get(1).map(|g| g.as_str().to_string())).collect()
}

} // verus!
