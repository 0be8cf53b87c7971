use vstd::prelude::*;

use crate::text::{eq_str, join_seq, join_strings, lemma_split_join, split_seq, split_str, starts_with_seq, starts_with_str};
use crate::weburl::{url_parse, url_parse_of, UrlInfo};
use std::io::Read;

verus! {

/// The mathematical content of a captured response.
pub ghost struct RespView {
    pub scheme: Seq<char>,
    pub host: Seq<char>,
    pub path: Seq<char>,
    pub content_encoding: Seq<char>,
    pub content_type: Seq<char>,
    pub body: Seq<u8>,
}

/// The unit of work flowing through the analysis pipeline: one upstream
/// response, fully buffered, with the body kept exactly as received.
pub struct InterceptedResponse {
    pub scheme: String,
    pub host: String,
    pub path: String,
    pub content_encoding: String,
    pub content_type: String,
    pub body: Vec<u8>,
}

impl View for InterceptedResponse {
    type V = RespView;

    open spec fn view(&self) -> RespView {
        RespView {
            scheme: self.scheme@,
            host: self.host@,
            path: self.path@,
            content_encoding: self.content_encoding@,
            content_type: self.content_type@,
            body: self.body@,
        }
    }
}

/// What `sanitize_filename::sanitize_with_options` yields with this
/// library's fixed options (no Windows rules, truncation, empty replacement).
pub uninterp spec fn sanitized(s: Seq<char>) -> Seq<char>;

/// Relies on `sanitize_filename::sanitize_with_options`: path separators,
/// backslashes and the other illegal characters are removed outright, and a
/// name consisting only of dots is replaced by the empty string.
#[verifier::external_body]
fn sanitize_component(s: &str) -> (r: String)
    ensures
        r@ == sanitized(s@),
        !r@.contains('/'),
        !r@.contains('\\'),
        r@ != seq!['.'],
        r@ != seq!['.', '.'],
{
    sanitize_filename::sanitize_with_options(
        s,
        sanitize_filename::Options { windows: false, truncate: true, replacement: "" },
    )
}

/// What decompressing the bytes as a gzip stream and reading the result as
/// text yields, with a partial prefix kept on a malformed stream.
pub uninterp spec fn gunzip_text_of(b: Seq<u8>) -> Seq<char>;

/// Relies on `flate2::read::GzDecoder` driven by `Read::read_to_string`:
/// best-effort decompression of a gzip stream into text.
#[verifier::external_body]
fn gunzip_text(b: &Vec<u8>) -> (r: String)
    ensures
        r@ == gunzip_text_of(b@),
{
    let mut gz = flate2::read::GzDecoder::new(b.as_slice());
    let mut s = String::new();
    let _ = gz.read_to_string(&mut s);
    s
}

/// What decompressing the bytes as a Brotli stream and reading the result as
/// text yields, with a partial prefix kept on a malformed stream.
pub uninterp spec fn brotli_text_of(b: Seq<u8>) -> Seq<char>;

/// Relies on `brotli::Decompressor` driven by `Read::read_to_string`:
/// best-effort decompression of a Brotli stream into text.
#[verifier::external_body]
fn brotli_text(b: &Vec<u8>) -> (r: String)
    ensures
        r@ == brotli_text_of(b@),
{
    let mut decoder = brotli::Decompressor::new(b.as_slice(), 4096);
    let mut s = String::new();
    let _ = decoder.read_to_string(&mut s);
    s
}

/// Relies on `core::str::from_utf8`: succeeds exactly on valid UTF-8 and
/// yields its decoding.
#[verifier::external_body]
pub fn utf8_decode(b: &Vec<u8>) -> (r: Option<String>)
    ensures
        match r {
            Some(s) => vstd::utf8::valid_utf8(b@) && s@ == vstd::utf8::decode_utf8(b@),
            None => !vstd::utf8::valid_utf8(b@),
        },
{
    match core::str::from_utf8(b.as_slice()) {
        Ok(s) => Some(s.to_string()),
        Err(_) => None,
    }
}

/// The decoded text of a captured body, per its `content_encoding`:
/// `gzip` and `br` through the decompressors, `identity` (or an empty
/// encoding) as plain UTF-8, anything else undecodable.
pub open spec fn spec_get_body(v: RespView) -> Option<Seq<char>> {
    if v.content_encoding == "gzip"@ {
        Some(gunzip_text_of(v.body))
    } else if v.content_encoding == "br"@ {
        Some(brotli_text_of(v.body))
    } else if v.content_encoding == "identity"@ || v.content_encoding == ""@ {
        if vstd::utf8::valid_utf8(v.body) {
            Some(vstd::utf8::decode_utf8(v.body))
        } else {
            None
        }
    } else {
        None
    }
}

/// The full URL string of a response: `scheme://host` followed by the path.
pub open spec fn spec_full_url(v: RespView) -> Seq<char> {
    v.scheme + "://"@ + v.host + v.path
}

/// The predicate keeping the non-empty components.
pub open spec fn nonempty_pred() -> spec_fn(Seq<char>) -> bool {
    |p: Seq<char>| p.len() > 0
}

/// Sanitization, as a function over component sequences.
pub open spec fn sanitize_fn() -> spec_fn(Seq<char>) -> Seq<char> {
    |p: Seq<char>| sanitized(p)
}

/// The components this library writes under the output root: the sanitized
/// host, then every non-empty sanitized piece of the path.
pub open spec fn spec_safe_components(v: RespView) -> Seq<Seq<char>> {
    (seq![sanitized(v.host)] + split_seq(v.path, '/').map_values(sanitize_fn())).filter(
        nonempty_pred(),
    )
}

/// The output path `safe_join` builds for a response it accepts.
pub open spec fn spec_safe_join_path(base: Seq<char>, v: RespView) -> Seq<char> {
    base + "/"@ + join_seq(spec_safe_components(v), "/"@)
}

/// A path-traversal attempt: a raw `..` among the path's components, or a
/// host of `..`.
pub open spec fn spec_traversal_attempt(v: RespView) -> bool {
    v.host == seq!['.', '.'] || split_seq(v.path, '/').contains(seq!['.', '.'])
}

/// `safe_join` refuses a traversal attempt outright; otherwise it yields
/// the sanitized path, which starts with `base` by construction.
pub open spec fn spec_safe_join(base: Seq<char>, v: RespView) -> Option<Seq<char>> {
    if spec_traversal_attempt(v) {
        None
    } else {
        Some(spec_safe_join_path(base, v))
    }
}

pub struct UrlParseFailed;

impl InterceptedResponse {
    /// Builds a captured response, defaulting a missing content type to
    /// `application/octet-stream` and a missing content encoding to
    /// `identity`.
    pub fn new(
        path: String,
        scheme: String,
        host: String,
        content_type: Option<String>,
        content_encoding: Option<String>,
        body: Vec<u8>,
    ) -> (r: Self)
        ensures
            r@.path == path@,
            r@.scheme == scheme@,
            r@.host == host@,
            r@.body == body@,
            r@.content_type == match content_type {
                Some(t) => t@,
                None => "application/octet-stream"@,
            },
            r@.content_encoding == match content_encoding {
                Some(e) => e@,
                None => "identity"@,
            },
    {
        let content_type = match content_type {
            Some(t) => t,
            None => "application/octet-stream".to_owned(),
        };
        let content_encoding = match content_encoding {
            Some(e) => e,
            None => "identity".to_owned(),
        };
        InterceptedResponse { path, scheme, host, content_encoding, content_type, body }
    }

    /// A copy with the same mathematical content.
    pub fn duplicate(&self) -> (r: Self)
        ensures
            r@ == self@,
    {
        InterceptedResponse {
            scheme: self.scheme.clone(),
            host: self.host.clone(),
            path: self.path.clone(),
            content_encoding: self.content_encoding.clone(),
            content_type: self.content_type.clone(),
            body: self.body.clone(),
        }
    }

    /// Joins this response's host and path under `base` with every component
    /// sanitized. A traversal attempt — a raw `..` component in the path, or
    /// a host of `..` — is refused outright. Any path yielded starts with
    /// `base` and has no `..` component after it.
    pub fn safe_join(&self, base: &str) -> (r: Option<String>)
        ensures
            match r {
                Some(p) => spec_safe_join(base@, self@) == Some(p@) && starts_with_seq(p@, base@)
                    && !split_seq(p@.skip(base@.len() as int + 1), '/').contains(seq!['.', '.']),
                None => spec_safe_join(base@, self@) is None,
            },
    {
        proof {
            reveal_strlit("..");
            assert("..".view() =~= seq!['.', '.']);
        }
        if eq_str(self.host.as_str(), "..") {
            return None;
        }
        let pieces = split_str(self.path.as_str(), '/');
        let mut t: usize = 0;
        while t < pieces.len()
            invariant
                pieces.deep_view() == split_seq(self@.path, '/'),
                pieces.deep_view().len() == pieces.len(),
                0 <= t <= pieces.len(),
                "..".view() == seq!['.', '.'],
                forall|j: int| 0 <= j < t ==> (#[trigger] pieces.deep_view()[j]) != seq!['.', '.'],
            decreases pieces.len() - t,
        {
            proof {
                assert(pieces.deep_view()[t as int] == pieces@[t as int]@);
            }
            if eq_str(pieces[t].as_str(), "..") {
                proof {
                    assert(split_seq(self@.path, '/').contains(seq!['.', '.'])) by {
                        assert(pieces.deep_view()[t as int] == seq!['.', '.']);
                    }
                }
                return None;
            }
            t = t + 1;
        }
        proof {
            assert(!spec_traversal_attempt(self@)) by {
                if split_seq(self@.path, '/').contains(seq!['.', '.']) {
                    let k = choose|k: int| 0 <= k < split_seq(self@.path, '/').len()
                        && split_seq(self@.path, '/')[k] == seq!['.', '.'];
                    assert(pieces.deep_view()[k] != seq!['.', '.']);
                }
            }
        }
        let clean_host = sanitize_component(self.host.as_str());
        let ghost all = seq![sanitized(self@.host)] + split_seq(self@.path, '/').map_values(
            sanitize_fn(),
        );
        let mut comps: Vec<String> = Vec::new();
        proof {
            reveal_with_fuel(Seq::<Seq<char>>::filter, 3);
            assert(all[0] == sanitized(self@.host));
            assert(all.take(1).drop_last() =~= Seq::<Seq<char>>::empty());
            assert(all.take(1).last() == sanitized(self@.host));
            assert(Seq::<Seq<char>>::empty().filter(nonempty_pred())
                =~= Seq::<Seq<char>>::empty());
        }
        if clean_host.as_str().unicode_len() > 0 {
            proof {
                reveal_with_fuel(Seq::<Seq<char>>::filter, 3);
                assert(nonempty_pred()(sanitized(self@.host)));
                assert(all.take(1).filter(nonempty_pred()) =~= seq![sanitized(self@.host)]);
            }
            comps.push(clean_host);
            proof {
                assert(comps.deep_view() =~= seq![sanitized(self@.host)]);
            }
        } else {
            proof {
                reveal_with_fuel(Seq::<Seq<char>>::filter, 3);
                assert(!nonempty_pred()(sanitized(self@.host)));
                assert(all.take(1).filter(nonempty_pred()) =~= Seq::<Seq<char>>::empty());
                assert(comps.deep_view() =~= Seq::<Seq<char>>::empty());
            }
        }
        let mut i: usize = 0;
        while i < pieces.len()
            invariant
                pieces.deep_view() == split_seq(self@.path, '/'),
                all == seq![sanitized(self@.host)] + split_seq(self@.path, '/').map_values(
                    sanitize_fn(),
                ),
                all.len() == 1 + pieces.deep_view().len(),
                0 <= i <= pieces.len(),
                pieces.deep_view().len() == pieces.len(),
                comps.deep_view() == all.take(1 + i as int).filter(nonempty_pred()),
                forall|k: int| 0 <= k < comps.deep_view().len() ==> {
                    &&& (#[trigger] comps.deep_view()[k]).len() > 0
                    &&& !comps.deep_view()[k].contains('/')
                    &&& comps.deep_view()[k] != seq!['.', '.']
                },
            decreases pieces.len() - i,
        {
            let piece = sanitize_component(pieces[i].as_str());
            let ghost pre = comps.deep_view();
            proof {
                assert(all[1 + i as int] == split_seq(self@.path, '/').map_values(sanitize_fn())[
                    i as int
                ]);
                assert(all[1 + i as int] == sanitized(pieces.deep_view()[i as int]));
                assert(pieces.deep_view()[i as int] == pieces@[i as int]@);
                assert(all.take(2 + i as int).drop_last() =~= all.take(1 + i as int));
                assert(all.take(2 + i as int).last() == all[1 + i as int]);
            }
            if piece.as_str().unicode_len() > 0 {
                proof {
                    reveal_with_fuel(Seq::<Seq<char>>::filter, 2);
                    assert(nonempty_pred()(all[1 + i as int]));
                    assert(all.take(2 + i as int).filter(nonempty_pred()) =~= pre.push(
                        all[1 + i as int],
                    ));
                }
                comps.push(piece);
                proof {
                    assert(comps.deep_view() =~= pre.push(sanitized(pieces.deep_view()[i as int])));
                }
            } else {
                proof {
                    reveal_with_fuel(Seq::<Seq<char>>::filter, 2);
                    assert(!nonempty_pred()(all[1 + i as int]));
                    assert(all.take(2 + i as int).filter(nonempty_pred()) =~= pre);
                }
            }
            i = i + 1;
        }
        proof {
            assert(all.take(1 + pieces.len() as int) =~= all);
            assert(comps.deep_view() == spec_safe_components(self@));
        }
        let joined = join_strings(&comps, "/");
        let mut out = base.to_owned();
        out.append("/");
        out.append(joined.as_str());
        proof {
            assert(out@ =~= spec_safe_join_path(base@, self@));
        }
        proof {
            assert(starts_with_seq(out@, base@)) by {
                assert(out@.subrange(0, base@.len() as int) =~= base@);
            }
        }
        {
            proof {
                reveal_strlit("/");
                let p = out@;
                let tail = p.skip(base@.len() as int + 1);
                assert(tail =~= join_seq(comps.deep_view(), "/"@));
                let dv = comps.deep_view();
                if dv.len() == 0 {
                    assert(tail =~= Seq::<char>::empty());
                    assert(split_seq(tail, '/') == seq![tail]);
                    assert(!split_seq(tail, '/').contains(seq!['.', '.'])) by {
                        if split_seq(tail, '/').contains(seq!['.', '.']) {
                            let k = choose|k: int| 0 <= k < split_seq(tail, '/').len()
                                && split_seq(tail, '/')[k] == seq!['.', '.'];
                            assert(k == 0);
                        }
                    }
                } else {
                    assert("/"@ =~= seq!['/']);
                    lemma_split_join(dv, '/');
                    assert(split_seq(tail, '/') == dv);
                    if dv.contains(seq!['.', '.']) {
                        let k = choose|k: int| 0 <= k < dv.len() && dv[k] == seq!['.', '.'];
                        assert(dv[k] != seq!['.', '.']);
                    }
                }
            }
            Some(out)
        }
    }

    /// The response's full URL, parsed; fails exactly when the URL library
    /// rejects the assembled string.
    pub fn get_url(&self) -> (r: Result<UrlInfo, UrlParseFailed>)
        ensures
            match r {
                Ok(u) => url_parse_of(spec_full_url(self@)) == Some((u.full@, u.host@, u.path@)),
                Err(_) => url_parse_of(spec_full_url(self@)) is None,
            },
    {
        let mut full = self.scheme.clone();
        full.append("://");
        full.append(self.host.as_str());
        full.append(self.path.as_str());
        match url_parse(full.as_str()) {
            Some(u) => Ok(u),
            None => Err(UrlParseFailed),
        }
    }

    /// The body as text, per the content encoding.
    pub fn get_body(&self) -> (r: Option<String>)
        ensures
            match r {
                Some(s) => spec_get_body(self@) == Some(s@),
                None => spec_get_body(self@) is None,
            },
    {
        if eq_str(self.content_encoding.as_str(), "gzip") {
            Some(gunzip_text(&self.body))
        } else if eq_str(self.content_encoding.as_str(), "br") {
            Some(brotli_text(&self.body))
        } else if eq_str(self.content_encoding.as_str(), "identity") || eq_str(
            self.content_encoding.as_str(),
            "",
        ) {
            utf8_decode(&self.body)
        } else {
            None
        }
    }
}

/// The UTF-8 bytes of a text, as `str::as_bytes` yields them.
pub fn text_to_bytes(s: &str) -> (r: Vec<u8>)
    ensures
        r@ == vstd::utf8::encode_utf8(s@),
{
    s.as_bytes_vec()
}

/// Body round-trip: on identity (or empty) encoding, a body that decodes
/// as text encodes back to exactly the original bytes.
pub proof fn lemma_body_round_trip(v: RespView)
    requires
        v.content_encoding == "identity"@ || v.content_encoding == ""@,
        spec_get_body(v) is Some,
    ensures
        vstd::utf8::encode_utf8(spec_get_body(v)->Some_0) == v.body,
{
    broadcast use vstd::string::group_string_axioms;

    reveal_strlit("identity");
    reveal_strlit("");
    reveal_strlit("gzip");
    reveal_strlit("br");
    assert("identity"@.len() == 8);
    assert(""@.len() == 0);
    assert("gzip"@.len() == 4);
    assert("br"@.len() == 2);
    assert(v.content_encoding != "gzip"@ && v.content_encoding != "br"@);
    assert(vstd::utf8::valid_utf8(v.body));
    vstd::utf8::decode_utf8_encode_utf8(v.body);
}

} // verus!
