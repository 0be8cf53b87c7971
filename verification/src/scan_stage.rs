use vstd::prelude::*;

use crate::intercepted::{text_to_bytes, InterceptedResponse, RespView, spec_get_body};
use crate::rx::{regex_find_all, regex_find_all_of};
use crate::stage::{Event, EventView, StageId};
use crate::text::{
    file_name, join_seq, join_strings, sort_dedup, sort_dedup_spec, spec_file_name,
};

verus! {

/// Regex-based secret scanning over decoded response bodies.
pub struct ScanStage;

/// The finding written for one category: the sorted, deduplicated matches
/// joined by newlines, addressed to the save-file sink under
/// `findings/<basename>/<label>`.
pub open spec fn spec_finding_event(
    v: RespView,
    label: Seq<char>,
    sorted: Seq<Seq<char>>,
) -> EventView {
    EventView {
        stage: StageId::SaveFile,
        resp: RespView {
            scheme: v.scheme,
            host: v.host,
            path: "findings/"@ + spec_file_name(v.path) + "/"@ + label,
            content_encoding: "identity"@,
            content_type: ""@,
            body: vstd::utf8::encode_utf8(join_seq(sorted, "\n"@)),
        },
    }
}

/// One category's emissions: nothing when the pattern has no match.
pub open spec fn spec_scan_label(
    v: RespView,
    body: Seq<char>,
    label: Seq<char>,
    pat: Seq<char>,
) -> Seq<EventView> {
    let sorted = sort_dedup_spec(regex_find_all_of(pat, body));
    if sorted.len() == 0 {
        Seq::empty()
    } else {
        seq![spec_finding_event(v, label, sorted)]
    }
}

/// Everything the scan stage emits for one response: one finding per
/// non-empty category, in the fixed category order, and nothing at all for
/// an undecodable body.
pub open spec fn spec_scan_events(v: RespView) -> Seq<EventView> {
    match spec_get_body(v) {
        None => Seq::empty(),
        Some(body) => spec_scan_label(v, body, "JWT"@, "(eyJ[A-Za-z0-9-_]+\\.[A-Za-z0-9-_]+\\.[A-Za-z0-9-_]+)"@)
            + spec_scan_label(v, body, "Bearer Token"@, "(?i)bearer\\s+([A-Za-z0-9\\-_\\.=]+)"@)
            + spec_scan_label(
            v,
            body,
            "API Key"@,
            "(?i)(api|access|secret)[_\\-]?key[\"']?\\s*[:=]\\s*[\"']?[A-Za-z0-9\\-_]{16,}"@,
        ) + spec_scan_label(v, body, "URL"@, "https?://[^\\s\"'<>]+"@) + spec_scan_label(
            v,
            body,
            "NODE_ENV"@,
            "(?m)^var.+?=.*NODE_ENV.+?$"@,
        ),
    }
}

/// Runs one pattern over the body and builds its finding, when any.
fn scan_one(resp: &InterceptedResponse, body: &str, label: &str, pat: &str) -> (r: Option<Event>)
    ensures
        match r {
            Some(e) => spec_scan_label(resp@, body@, label@, pat@) == seq![e@],
            None => spec_scan_label(resp@, body@, label@, pat@) == Seq::<EventView>::empty(),
        },
{
    let matches = regex_find_all(pat, body);
    let sorted = sort_dedup(&matches);
    if sorted.len() == 0 {
        proof {
            assert(sort_dedup_spec(regex_find_all_of(pat@, body@)).len() == 0);
        }
        return None;
    }
    let content = join_strings(&sorted, "\n");
    let base = file_name(resp.path.as_str());
    let mut path = "findings/".to_owned();
    path.append(base.as_str());
    path.append("/");
    path.append(label);
    let e = Event {
        stage: StageId::SaveFile,
        resp: InterceptedResponse {
            scheme: resp.scheme.clone(),
            host: resp.host.clone(),
            path,
            content_encoding: "identity".to_owned(),
            content_type: "".to_owned(),
            body: text_to_bytes(content.as_str()),
        },
    };
    proof {
        let sorted_spec = sort_dedup_spec(regex_find_all_of(pat@, body@));
        assert(e@.resp.path =~= "findings/"@ + spec_file_name(resp@.path) + "/"@ + label@);
        assert(e@ == spec_finding_event(resp@, label@, sorted_spec));
        assert(seq![e@] =~= spec_scan_label(resp@, body@, label@, pat@));
    }
    Some(e)
}

impl ScanStage {
    pub fn new() -> (r: Self) {
        Self
    }

    /// Scans a response body for the five secret categories and emits one
    /// finding per non-empty category, exactly as `spec_scan_events` says.
    pub fn process(&self, resp: &InterceptedResponse) -> (r: Vec<Event>)
        ensures
            r.deep_view() == spec_scan_events(resp@),
    {
        let mut out: Vec<Event> = Vec::new();
        let body = match resp.get_body() {
            Some(b) => b,
            None => {
                proof {
                    assert(out.deep_view() =~= spec_scan_events(resp@));
                }
                return out;
            },
        };
        let b = body.as_str();
        let e1 = scan_one(resp, b, "JWT", "(eyJ[A-Za-z0-9-_]+\\.[A-Za-z0-9-_]+\\.[A-Za-z0-9-_]+)");
        let e2 = scan_one(resp, b, "Bearer Token", "(?i)bearer\\s+([A-Za-z0-9\\-_\\.=]+)");
        let e3 = scan_one(
            resp,
            b,
            "API Key",
            "(?i)(api|access|secret)[_\\-]?key[\"']?\\s*[:=]\\s*[\"']?[A-Za-z0-9\\-_]{16,}",
        );
        let e4 = scan_one(resp, b, "URL", "https?://[^\\s\"'<>]+");
        let e5 = scan_one(resp, b, "NODE_ENV", "(?m)^var.+?=.*NODE_ENV.+?$");
        if let Some(e) = e1 {
            out.push(e);
        }
        if let Some(e) = e2 {
            out.push(e);
        }
        if let Some(e) = e3 {
            out.push(e);
        }
        if let Some(e) = e4 {
            out.push(e);
        }
        if let Some(e) = e5 {
            out.push(e);
        }
        proof {
            assert(out.deep_view() =~= spec_scan_events(resp@));
        }
        out
    }
}

} // verus!
