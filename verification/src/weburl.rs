use vstd::prelude::*;

verus! {

/// What `url::Url::parse` yields for a string, when it parses: the
/// serialized form, the host (empty when the URL has none) and the path.
pub uninterp spec fn url_parse_of(s: Seq<char>) -> Option<(Seq<char>, Seq<char>, Seq<char>)>;

/// What joining `rel` against the URL parsed from `base` yields, when both
/// steps succeed: the joined URL's serialized form, host and path.
pub uninterp spec fn url_join_of(base: Seq<char>, rel: Seq<char>) -> Option<
    (Seq<char>, Seq<char>, Seq<char>),
>;

/// A parsed URL, reduced to the parts this library reads.
pub struct UrlInfo {
    pub full: String,
    pub host: String,
    pub path: String,
}

/// Relies on `url::Url::parse`, and on `Url::as_str`, `Url::host_str` and
/// `Url::path` to read the parsed value back.
#[verifier::external_body]
pub fn url_parse(s: &str) -> (r: Option<UrlInfo>)
    ensures
        match r {
            Some(u) => url_parse_of(s@) == Some((u.full@, u.host@, u.path@)),
            None => url_parse_of(s@) is None,
        },
{
    let u = url::Url::parse(s).ok()?;
    let full = u.as_str().to_string();
    let host = u.host_str().unwrap_or("").to_string();
    let path = u.path().to_string();
    Some(UrlInfo { full, host, path })
}

/// Relies on `url::Url::parse` followed by `url::Url::join`: resolves `rel`
/// against `base` under the WHATWG URL rules.
#[verifier::external_body]
pub fn url_join(base: &str, rel: &str) -> (r: Option<UrlInfo>)
    ensures
        match r {
            Some(u) => url_join_of(base@, rel@) == Some((u.full@, u.host@, u.path@)),
            None => url_join_of(base@, rel@) is None,
        },
{
    let b = url::Url::parse(base).ok()?;
    let u = b.join(rel).ok()?;
    let full = u.as_str().to_string();
    let host = u.host_str().unwrap_or("").to_string();
    let path = u.path().to_string();
    Some(UrlInfo { full, host, path })
}

} // verus!
