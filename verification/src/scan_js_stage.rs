use vstd::prelude::*;

use crate::intercepted::{text_to_bytes, InterceptedResponse, RespView};
use crate::js_ast::{walk_module_entries, JsModule, VarEntry};
use crate::js_usage::{run_js_analysis, usage_module_calls, HttpCallView, JsResult};
use crate::js_vars::{apply_entries, line_fn};
use crate::stage::{Event, EventView, StageId};
use crate::text::{file_name, join_seq, join_strings, sort_spec, sort_strings, spec_file_name};

verus! {

/// JS static analysis over decoded bodies: variable extraction and HTTP
/// call detection, emitted as findings. Parsing lives with the program
/// around the library, which hands over the reduced module.
pub struct ScanJsStage;

/// The separator line between rendered calls: fifty `=` and a newline.
pub open spec fn spec_call_sep() -> Seq<char> {
    "==================================================\n"@
}

/// One rendered call: URL, method and authorization (`-` when absent).
pub open spec fn spec_call_block(c: HttpCallView) -> Seq<char> {
    "Url: "@ + c.url + "\nMethod: "@ + c.method + "\nAuth: "@ + (match c.authorization {
        Some(a) => a,
        None => "-"@,
    }) + "\n"@
}

pub open spec fn spec_call_blocks(calls: Seq<HttpCallView>) -> Seq<Seq<char>>
    decreases calls.len(),
{
    if calls.len() == 0 {
        Seq::empty()
    } else {
        spec_call_blocks(calls.drop_last()).push(spec_call_block(calls.last()))
    }
}

/// A finding addressed to the sink under `findings/<basename>/<label>`.
pub open spec fn spec_js_finding(v: RespView, label: Seq<char>, content: Seq<char>) -> EventView {
    EventView {
        stage: StageId::SaveFile,
        resp: RespView {
            scheme: v.scheme,
            host: v.host,
            path: "findings/"@ + spec_file_name(v.path) + "/"@ + label,
            content_encoding: "identity"@,
            content_type: ""@,
            body: vstd::utf8::encode_utf8(content),
        },
    }
}

/// Everything the JS stage emits for one parsed module: the sorted
/// variable lines when any variable was recorded, then the rendered calls
/// when any call was detected.
pub open spec fn spec_js_events(v: RespView, m: JsModule) -> Seq<EventView> {
    let items = apply_entries(Seq::<VarEntry>::empty(), walk_module_entries(m));
    let calls = usage_module_calls(m, items);
    (if items.len() > 0 {
        seq![
            spec_js_finding(
                v,
                "VARS"@,
                join_seq(sort_spec(items.map_values(line_fn())), "\n"@),
            ),
        ]
    } else {
        Seq::<EventView>::empty()
    }) + (if calls.len() > 0 {
        seq![spec_js_finding(v, "CALLS"@, join_seq(spec_call_blocks(calls), spec_call_sep()))]
    } else {
        Seq::<EventView>::empty()
    })
}

fn build_finding(resp: &InterceptedResponse, label: &str, content: &str) -> (r: Event)
    ensures
        r@ == spec_js_finding(resp@, label@, content@),
{
    let base = file_name(resp.path.as_str());
    let mut path = "findings/".to_owned();
    path.append(base.as_str());
    path.append("/");
    path.append(label);
    let e = Event {
        stage: StageId::SaveFile,
        resp: InterceptedResponse {
            scheme: resp.scheme.clone(),
            host: resp.host.clone(),
            path,
            content_encoding: "identity".to_owned(),
            content_type: "".to_owned(),
            body: text_to_bytes(content),
        },
    };
    proof {
        assert(e@.resp.path =~= "findings/"@ + spec_file_name(resp@.path) + "/"@ + label@);
        assert(e@ == spec_js_finding(resp@, label@, content@));
    }
    e
}

fn render_calls(result: &JsResult) -> (r: Vec<String>)
    ensures
        r.deep_view() == spec_call_blocks(result.calls.deep_view()),
{
    let mut out: Vec<String> = Vec::new();
    let mut i: usize = 0;
    proof {
        assert(result.calls.deep_view().take(0) =~= Seq::<HttpCallView>::empty());
        assert(out.deep_view() =~= Seq::<Seq<char>>::empty());
    }
    while i < result.calls.len()
        invariant
            0 <= i <= result.calls@.len(),
            result.calls.deep_view().len() == result.calls@.len(),
            out.deep_view() == spec_call_blocks(result.calls.deep_view().take(i as int)),
        decreases result.calls@.len() - i,
    {
        let ghost pre = out.deep_view();
        let c = &result.calls[i];
        let mut block = "Url: ".to_owned();
        block.append(c.url.as_str());
        block.append("\nMethod: ");
        block.append(c.method.as_str());
        block.append("\nAuth: ");
        match &c.authorization {
            Some(a) => {
                block.append(a.as_str());
            },
            None => {
                block.append("-");
            },
        }
        block.append("\n");
        proof {
            let dv = result.calls.deep_view();
            assert(dv[i as int] == result.calls@[i as int]@);
            assert(block@ =~= spec_call_block(dv[i as int]));
        }
        out.push(block);
        proof {
            let dv = result.calls.deep_view();
            assert(dv.take(i + 1).drop_last() =~= dv.take(i as int));
            assert(dv.take(i + 1).last() == dv[i as int]);
            assert(out.deep_view() =~= pre.push(spec_call_block(dv[i as int])));
        }
        i = i + 1;
    }
    proof {
        let dv = result.calls.deep_view();
        assert(dv.take(dv.len() as int) =~= dv);
    }
    out
}

impl ScanJsStage {
    pub fn new() -> (r: Self) {
        Self
    }

    /// Analyzes one parsed module and emits its findings, exactly as
    /// `spec_js_events` says.
    pub fn process(&self, resp: &InterceptedResponse, m: &JsModule) -> (r: Vec<Event>)
        ensures
            r.deep_view() == spec_js_events(resp@, *m),
    {
        let result = run_js_analysis(m);
        let mut out: Vec<Event> = Vec::new();
        if !result.vars.is_empty() {
            let lines = result.vars.render_lines();
            let sorted = sort_strings(&lines);
            let content = join_strings(&sorted, "\n");
            out.push(build_finding(resp, "VARS", content.as_str()));
        }
        if result.calls.len() > 0 {
            proof {
                assert(result.calls.deep_view().len() == result.calls@.len());
            }
            let blocks = render_calls(&result);
            let content = join_strings(&blocks, "==================================================\n");
            out.push(build_finding(resp, "CALLS", content.as_str()));
        }
        proof {
            if result.calls@.len() == 0 {
                assert(result.calls.deep_view().len() == 0);
            }
            assert(out.deep_view() =~= spec_js_events(resp@, *m));
        }
        out
    }
}

} // verus!
