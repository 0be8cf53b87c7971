use vstd::prelude::*;

use crate::text::{
    eq_str, find_char, lower_seq, parse_u16, rfind_char, spec_find_char, spec_parse_u16,
    spec_rfind_char, substring, to_lowercase_ascii,
};

verus! {

/// The hostname up to the first `:`, when one is present.
pub open spec fn spec_before_colon(h: Seq<char>) -> Seq<char> {
    match spec_find_char(h, ':') {
        Some(i) => h.take(i),
        None => h,
    }
}

/// Trailing `.` characters removed.
pub open spec fn spec_trim_trailing_dots(s: Seq<char>) -> Seq<char>
    decreases s.len(),
{
    if s.len() > 0 && s[s.len() - 1] == '.' {
        spec_trim_trailing_dots(s.take(s.len() - 1))
    } else {
        s
    }
}

/// Hostname normalization: the part before any `:`, trailing dots removed,
/// ASCII-lowercased.
pub open spec fn spec_normalize_hostname(h: Seq<char>) -> Seq<char> {
    lower_seq(spec_trim_trailing_dots(spec_before_colon(h)))
}

/// Normalizes a hostname for leaf-certificate lookup.
pub fn normalize_hostname(h: &str) -> (r: String)
    ensures
        r@ == spec_normalize_hostname(h@),
{
    let len = h.unicode_len();
    proof {
        crate::text::lemma_find_char(h@, ':');
    }
    let cut = match find_char(h, ':') {
        Some(i) => substring(h, 0, i),
        None => {
            proof {
                assert(h@.subrange(0, len as int) =~= h@);
            }
            substring(h, 0, len)
        },
    };
    let s = cut.as_str();
    let slen = s.unicode_len();
    let mut end: usize = slen;
    proof {
        assert(s@.take(slen as int) =~= s@);
    }
    while end > 0 && s.get_char(end - 1) == '.'
        invariant
            slen == s@.len(),
            0 <= end <= slen,
            spec_trim_trailing_dots(s@) == spec_trim_trailing_dots(s@.take(end as int)),
        decreases end,
    {
        proof {
            assert(s@.take(end as int).take(end - 1) =~= s@.take(end - 1));
            assert(s@.take(end as int)[end - 1] == s@[end - 1]);
        }
        end = end - 1;
    }
    proof {
        let t = s@.take(end as int);
        if end > 0 {
            assert(t[t.len() - 1] == s@[end - 1]);
        }
        assert(spec_trim_trailing_dots(t) == t);
    }
    let trimmed = substring(s, 0, end);
    to_lowercase_ascii(trimmed.as_str())
}

/// The default port for a scheme: 443 for `https`, otherwise 80.
pub open spec fn spec_default_port(scheme: Option<Seq<char>>) -> u16 {
    match scheme {
        Some(s) => if s == "https"@ {
            443u16
        } else {
            80u16
        },
        None => 80u16,
    }
}

pub fn default_port(scheme: Option<&str>) -> (r: u16)
    ensures
        r == spec_default_port(match scheme {
            Some(s) => Some(s@),
            None => None,
        }),
{
    match scheme {
        Some(s) => if eq_str(s, "https") {
            443
        } else {
            80
        },
        None => 80,
    }
}

/// How a `host[:port]` string splits: a leading `[` introduces a bracketed
/// host closed by `]` and followed by `:port`; otherwise the split is at
/// the last `:`, whose right side must parse as a port.
pub open spec fn spec_split_host_port(s: Seq<char>) -> Option<(Seq<char>, u16)> {
    if s.len() > 0 && s[0] == '[' {
        let stripped = s.skip(1);
        match spec_find_char(stripped, ']') {
            Some(end) => {
                let host = stripped.take(end);
                let rest = stripped.skip(end + 1);
                if rest.len() > 0 && rest[0] == ':' {
                    match spec_parse_u16(rest.skip(1)) {
                        Some(p) => Some((host, p)),
                        None => None,
                    }
                } else {
                    None
                }
            },
            None => None,
        }
    } else {
        match spec_rfind_char(s, ':') {
            Some(i) => match spec_parse_u16(s.skip(i + 1)) {
                Some(p) => Some((s.take(i), p)),
                None => None,
            },
            None => None,
        }
    }
}

/// Splits `host:port`, with bracketed IPv6 hosts handled first.
pub fn split_host_port(s: &str) -> (r: Option<(String, u16)>)
    ensures
        match r {
            Some((h, p)) => spec_split_host_port(s@) == Some((h@, p)),
            None => spec_split_host_port(s@) is None,
        },
{
    let len = s.unicode_len();
    if len > 0 && s.get_char(0) == '[' {
        let stripped = substring(s, 1, len);
        proof {
            assert(s@.subrange(1, len as int) =~= s@.skip(1));
        }
        let st = stripped.as_str();
        let stlen = st.unicode_len();
        proof {
            crate::text::lemma_find_char(st@, ']');
        }
        match find_char(st, ']') {
            Some(end) => {
                let host = substring(st, 0, end);
                let rest = substring(st, end + 1, stlen);
                proof {
                    assert(st@.subrange(0, end as int) =~= st@.take(end as int));
                    assert(st@.subrange(end + 1, stlen as int) =~= st@.skip(end + 1));
                }
                let rs = rest.as_str();
                let rlen = rs.unicode_len();
                if rlen > 0 && rs.get_char(0) == ':' {
                    let digits = substring(rs, 1, rlen);
                    proof {
                        assert(rs@.subrange(1, rlen as int) =~= rs@.skip(1));
                    }
                    match parse_u16(digits.as_str()) {
                        Some(p) => Some((host, p)),
                        None => None,
                    }
                } else {
                    None
                }
            },
            None => None,
        }
    } else {
        proof {
            crate::text::lemma_rfind_char(s@, ':');
        }
        match rfind_char(s, ':') {
            Some(i) => {
                let digits = substring(s, i + 1, len);
                proof {
                    assert(s@.subrange(i + 1, len as int) =~= s@.skip(i + 1));
                    assert(s@.subrange(0, i as int) =~= s@.take(i as int));
                }
                match parse_u16(digits.as_str()) {
                    Some(p) => {
                        let host = substring(s, 0, i);
                        Some((host, p))
                    },
                    None => None,
                }
            },
            None => None,
        }
    }
}

/// The request carries no usable host.
pub struct NoHostError;

/// How the proxy derives `(host, port)` for an upstream connection: the
/// request URI's own authority first, then a `Host`-like header split as
/// `host:port`, then the header whole with the scheme's default port.
pub open spec fn spec_resolve_host_port(
    uri_host: Option<Seq<char>>,
    uri_port: Option<u16>,
    uri_scheme: Option<Seq<char>>,
    header_host: Option<Seq<char>>,
    fallback_scheme: Option<Seq<char>>,
) -> Option<(Seq<char>, u16)> {
    match uri_host {
        Some(h) => {
            let port = match uri_port {
                Some(p) => p,
                None => spec_default_port(
                    match uri_scheme {
                        Some(s) => Some(s),
                        None => fallback_scheme,
                    },
                ),
            };
            Some((h, port))
        },
        None => match header_host {
            Some(hdr) => match spec_split_host_port(hdr) {
                Some((h, p)) => Some((h, p)),
                None => Some((hdr, spec_default_port(fallback_scheme))),
            },
            None => None,
        },
    }
}

/// Resolves the upstream host and port from the parts of a request, in the
/// order the proxy consults them. Fails exactly when neither the URI nor a
/// host-like header names a host.
pub fn resolve_host_port(
    uri_host: Option<String>,
    uri_port: Option<u16>,
    uri_scheme: Option<String>,
    header_host: Option<String>,
    fallback_scheme: Option<&str>,
) -> (r: Result<(String, u16), NoHostError>)
    ensures
        match r {
            Ok((h, p)) => spec_resolve_host_port(
                match uri_host {
                    Some(s) => Some(s@),
                    None => None,
                },
                uri_port,
                match uri_scheme {
                    Some(s) => Some(s@),
                    None => None,
                },
                match header_host {
                    Some(s) => Some(s@),
                    None => None,
                },
                match fallback_scheme {
                    Some(s) => Some(s@),
                    None => None,
                },
            ) == Some((h@, p)),
            Err(_) => spec_resolve_host_port(
                match uri_host {
                    Some(s) => Some(s@),
                    None => None,
                },
                uri_port,
                match uri_scheme {
                    Some(s) => Some(s@),
                    None => None,
                },
                match header_host {
                    Some(s) => Some(s@),
                    None => None,
                },
                match fallback_scheme {
                    Some(s) => Some(s@),
                    None => None,
                },
            ) is None,
        },
{
    match uri_host {
        Some(h) => {
            let port = match uri_port {
                Some(p) => p,
                None => match uri_scheme {
                    Some(s) => default_port(Some(s.as_str())),
                    None => default_port(fallback_scheme),
                },
            };
            Ok((h, port))
        },
        None => match header_host {
            Some(hdr) => match split_host_port(hdr.as_str()) {
                Some((h, p)) => Ok((h, p)),
                None => {
                    let p = default_port(fallback_scheme);
                    Ok((hdr, p))
                },
            },
            None => Err(NoHostError),
        },
    }
}

/// The host part of a CONNECT authority: everything before the first `:`.
pub fn strip_port(addr: &str) -> (r: String)
    ensures
        r@ == spec_before_colon(addr@),
{
    let len = addr.unicode_len();
    proof {
        crate::text::lemma_find_char(addr@, ':');
    }
    match find_char(addr, ':') {
        Some(i) => substring(addr, 0, i),
        None => {
            proof {
                assert(addr@.subrange(0, len as int) =~= addr@);
            }
            substring(addr, 0, len)
        },
    }
}

/// A header value as text for response rebuilding: the UTF-8 decoding of
/// the bytes; a value that is not valid UTF-8 is replaced by the empty
/// string.
pub open spec fn spec_header_value_text(b: Seq<u8>) -> Seq<char> {
    if vstd::utf8::valid_utf8(b) {
        vstd::utf8::decode_utf8(b)
    } else {
        Seq::empty()
    }
}

/// Round-trips a header value through UTF-8 decoding, substituting the
/// empty string for an invalid value.
pub fn header_value_text(b: &Vec<u8>) -> (r: String)
    ensures
        r@ == spec_header_value_text(b@),
{
    match crate::intercepted::utf8_decode(b) {
        Some(s) => s,
        None => {
            proof {
                reveal_strlit("");
                assert(""@ =~= Seq::<char>::empty());
            }
            "".to_owned()
        },
    }
}

} // verus!
