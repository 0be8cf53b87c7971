use vstd::prelude::*;

use crate::intercepted::{text_to_bytes, InterceptedResponse, RespView, spec_full_url};
use crate::rx::{regex_capture1_all, regex_capture1_of};
use crate::stage::{Event, EventView, StageId};
use crate::text::{replace_seq, replace_str, strip_prefix_char};
use crate::weburl::{url_join, url_join_of, url_parse_of};

verus! {

/// Source-map discovery: finds `sourceMappingURL` hints in a JS body,
/// resolves them against the response URL, and explodes fetched maps into
/// virtual responses for the save-file sink. Fetching itself is network
/// I/O and lives with the program around the library.
pub struct MapStage;

/// The `sourceMappingURL` comment pattern, whose first group captures the
/// referenced URL.
pub open spec fn spec_map_pattern() -> Seq<char> {
    "(?m)//[#@]\\s*sourceMappingURL\\s*=\\s*(?P<map>[^\\s]+)"@
}

/// The hinted URLs that resolve against the base URL, in match order.
pub open spec fn spec_join_all(base: Seq<char>, caps: Seq<Seq<char>>) -> Seq<Seq<char>>
    decreases caps.len(),
{
    if caps.len() == 0 {
        Seq::empty()
    } else {
        let rest = spec_join_all(base, caps.take(caps.len() - 1));
        match url_join_of(base, caps[caps.len() - 1]) {
            Some(u) => rest.push(u.0),
            None => rest,
        }
    }
}

/// The source-map URLs to fetch for one response body: every resolvable
/// explicit hint; with no hint resolving, the response URL with `.map`
/// appended to its path; nothing at all when the response URL itself does
/// not parse.
pub open spec fn spec_map_candidates(v: RespView, body: Seq<char>) -> Seq<Seq<char>> {
    match url_parse_of(spec_full_url(v)) {
        None => Seq::empty(),
        Some(base) => {
            let joined = spec_join_all(base.0, regex_capture1_of(spec_map_pattern(), body));
            if joined.len() == 0 {
                match url_join_of(base.0, base.2 + ".map"@) {
                    Some(f) => seq![f.0],
                    None => Seq::empty(),
                }
            } else {
                joined
            }
        },
    }
}

/// A fetched source's cleaned name: the `webpack://` and `webpack:/`
/// prefixes, `..`, `:` and doubled slashes collapsed away, any leading `/`
/// stripped, all under `/sourcemap/`.
pub open spec fn spec_clean_source_name(n: Seq<char>) -> Seq<char> {
    let t = replace_seq(
        replace_seq(
            replace_seq(replace_seq(replace_seq(n, "webpack://"@, ""@), "webpack:/"@, ""@), ".."@, ""@),
            ":"@,
            ""@,
        ),
        "//"@,
        "/"@,
    );
    let stripped = if t.len() > 0 && t[0] == '/' {
        t.skip(1)
    } else {
        t
    };
    "/sourcemap/"@ + stripped
}

/// What the decoded source map holds: each indexed source's name and
/// inlined content, for the sources that have both, in index order.
pub uninterp spec fn source_entries_of(content: Seq<char>) -> Seq<(Seq<char>, Seq<char>)>;

/// Relies on `sourcemap::decode_slice`: the name and inlined content of
/// every source of a regular v3 source map that carries both, in index
/// order; nothing for any other input.
#[verifier::external_body]
fn decode_source_entries(content: &str) -> (r: Vec<(String, String)>)
    ensures
        r.deep_view() == source_entries_of(content@),
{
    let mut out: Vec<(String, String)> = Vec::new();
    if let Ok(sourcemap::DecodedMap::Regular(sm)) = sourcemap::decode_slice(content.as_bytes()) {
        for i in 0..sm.get_source_count() {
            if let (Some(name), Some(text)) = (sm.get_source(i), sm.get_source_contents(i)) {
                out.push((name.to_string(), text.to_string()));
            }
        }
    }
    out
}

/// The virtual response for one exploded source.
pub open spec fn spec_source_event(v: RespView, path: Seq<char>, text: Seq<char>) -> EventView {
    EventView {
        stage: StageId::SaveFile,
        resp: RespView {
            scheme: v.scheme,
            host: v.host,
            path,
            content_encoding: "identity"@,
            content_type: "application/javascript"@,
            body: vstd::utf8::encode_utf8(text),
        },
    }
}

/// The emissions for a fetched source map: one virtual response per source
/// whose cleaned name resolves against the fetched URL, at the resolved
/// URL's path.
pub open spec fn spec_map_exploded(
    v: RespView,
    search: Seq<char>,
    entries: Seq<(Seq<char>, Seq<char>)>,
) -> Seq<EventView>
    decreases entries.len(),
{
    if entries.len() == 0 {
        Seq::empty()
    } else {
        let rest = spec_map_exploded(v, search, entries.take(entries.len() - 1));
        let e = entries[entries.len() - 1];
        match url_join_of(search, spec_clean_source_name(e.0)) {
            Some(u) => rest.push(spec_source_event(v, u.2, e.1)),
            None => rest,
        }
    }
}

/// After the source-map pass the original response goes on to the sink,
/// the secret scan and the JS analysis, in that order.
pub open spec fn spec_map_reemit(v: RespView) -> Seq<EventView> {
    seq![
        EventView { stage: StageId::SaveFile, resp: v },
        EventView { stage: StageId::Scan, resp: v },
        EventView { stage: StageId::JsScan, resp: v },
    ]
}

impl MapStage {
    pub fn new() -> (r: Self) {
        Self
    }

    /// The source-map URLs to fetch for one response, per
    /// `spec_map_candidates`.
    pub fn candidates(&self, resp: &InterceptedResponse, body: &str) -> (r: Vec<String>)
        ensures
            r.deep_view() == spec_map_candidates(resp@, body@),
    {
        let base = match resp.get_url() {
            Ok(u) => u,
            Err(_) => {
                let out: Vec<String> = Vec::new();
                proof {
                    assert(out.deep_view() =~= Seq::<Seq<char>>::empty());
                }
                return out;
            },
        };
        let caps = regex_capture1_all(
            "(?m)//[#@]\\s*sourceMappingURL\\s*=\\s*(?P<map>[^\\s]+)",
            body,
        );
        let mut joined: Vec<String> = Vec::new();
        let mut i: usize = 0;
        proof {
            assert(caps.deep_view().take(0) =~= Seq::<Seq<char>>::empty());
            assert(joined.deep_view() =~= Seq::<Seq<char>>::empty());
        }
        while i < caps.len()
            invariant
                0 <= i <= caps.len(),
                caps.deep_view().len() == caps.len(),
                caps.deep_view() == regex_capture1_of(spec_map_pattern(), body@),
                url_parse_of(spec_full_url(resp@)) == Some((base.full@, base.host@, base.path@)),
                joined.deep_view() == spec_join_all(base.full@, caps.deep_view().take(i as int)),
            decreases caps.len() - i,
        {
            let ghost pre = joined.deep_view();
            proof {
                let dv = caps.deep_view();
                assert(dv.take(i + 1).take(i as int) =~= dv.take(i as int));
                assert(dv.take(i + 1)[i as int] == dv[i as int]);
                assert(dv[i as int] == caps@[i as int]@);
            }
            match url_join(base.full.as_str(), caps[i].as_str()) {
                Some(u) => {
                    joined.push(u.full);
                    proof {
                        assert(joined.deep_view() =~= pre.push(
                            url_join_of(base.full@, caps.deep_view()[i as int])->Some_0.0,
                        ));
                    }
                },
                None => {},
            }
            i = i + 1;
        }
        proof {
            assert(caps.deep_view().take(caps.len() as int) =~= caps.deep_view());
        }
        if joined.len() == 0 {
            let mut fallback_rel = base.path.clone();
            fallback_rel.append(".map");
            let mut out: Vec<String> = Vec::new();
            match url_join(base.full.as_str(), fallback_rel.as_str()) {
                Some(u) => {
                    out.push(u.full);
                    proof {
                        assert(out.deep_view() =~= seq![
                            url_join_of(base.full@, base.path@ + ".map"@)->Some_0.0,
                        ]);
                    }
                },
                None => {
                    proof {
                        assert(out.deep_view() =~= Seq::<Seq<char>>::empty());
                    }
                },
            }
            out
        } else {
            joined
        }
    }

    /// Explodes one fetched source map into virtual responses, per
    /// `spec_map_exploded`.
    pub fn exploded(&self, resp: &InterceptedResponse, search_url: &str, content: &str) -> (r:
        Vec<Event>)
        ensures
            r.deep_view() == spec_map_exploded(resp@, search_url@, source_entries_of(content@)),
    {
        let entries = decode_source_entries(content);
        let mut out: Vec<Event> = Vec::new();
        let mut i: usize = 0;
        proof {
            assert(entries.deep_view().take(0) =~= Seq::<(Seq<char>, Seq<char>)>::empty());
            assert(out.deep_view() =~= Seq::<EventView>::empty());
        }
        while i < entries.len()
            invariant
                0 <= i <= entries.len(),
                entries.deep_view().len() == entries.len(),
                entries.deep_view() == source_entries_of(content@),
                out.deep_view() == spec_map_exploded(
                    resp@,
                    search_url@,
                    entries.deep_view().take(i as int),
                ),
            decreases entries.len() - i,
        {
            let ghost pre = out.deep_view();
            proof {
                let dv = entries.deep_view();
                assert(dv.take(i + 1).take(i as int) =~= dv.take(i as int));
                assert(dv.take(i + 1)[i as int] == dv[i as int]);
                assert(dv[i as int] == (entries@[i as int].0@, entries@[i as int].1@));
            }
            let name = clean_source_name(entries[i].0.as_str());
            match url_join(search_url, name.as_str()) {
                Some(u) => {
                    let e = Event {
                        stage: StageId::SaveFile,
                        resp: InterceptedResponse {
                            scheme: resp.scheme.clone(),
                            host: resp.host.clone(),
                            path: u.path,
                            content_encoding: "identity".to_owned(),
                            content_type: "application/javascript".to_owned(),
                            body: text_to_bytes(entries[i].1.as_str()),
                        },
                    };
                    proof {
                        let dv = entries.deep_view();
                        assert(e@ == spec_source_event(
                            resp@,
                            url_join_of(search_url@, spec_clean_source_name(dv[i as int].0))
                                ->Some_0.2,
                            dv[i as int].1,
                        ));
                    }
                    out.push(e);
                    proof {
                        assert(out.deep_view() =~= pre.push(
                            spec_source_event(
                                resp@,
                                url_join_of(search_url@, spec_clean_source_name(
                                    entries.deep_view()[i as int].0,
                                ))->Some_0.2,
                                entries.deep_view()[i as int].1,
                            ),
                        ));
                    }
                },
                None => {},
            }
            i = i + 1;
        }
        proof {
            assert(entries.deep_view().take(entries.len() as int) =~= entries.deep_view());
        }
        out
    }

    /// The unconditional re-emissions after the source-map pass.
    pub fn reemit(&self, resp: &InterceptedResponse) -> (r: Vec<Event>)
        ensures
            r.deep_view() == spec_map_reemit(resp@),
    {
        let mut out: Vec<Event> = Vec::new();
        out.push(Event { stage: StageId::SaveFile, resp: resp.duplicate() });
        out.push(Event { stage: StageId::Scan, resp: resp.duplicate() });
        out.push(Event { stage: StageId::JsScan, resp: resp.duplicate() });
        proof {
            assert(out.deep_view() =~= spec_map_reemit(resp@));
        }
        out
    }
}

/// Cleans one source name, realizing `spec_clean_source_name`.
pub fn clean_source_name(n: &str) -> (r: String)
    ensures
        r@ == spec_clean_source_name(n@),
{
    proof {
        reveal_strlit("webpack://");
        reveal_strlit("webpack:/");
        reveal_strlit("..");
        reveal_strlit(":");
        reveal_strlit("//");
        reveal_strlit("/");
    }
    let t1 = replace_str(n, "webpack://", "");
    let t2 = replace_str(t1.as_str(), "webpack:/", "");
    let t3 = replace_str(t2.as_str(), "..", "");
    let t4 = replace_str(t3.as_str(), ":", "");
    let t5 = replace_str(t4.as_str(), "//", "/");
    let stripped = match strip_prefix_char(t5.as_str(), '/') {
        Some(s) => s,
        None => t5,
    };
    let mut out = "/sourcemap/".to_owned();
    out.append(stripped.as_str());
    out
}

} // verus!
