use mboitata::js_ast::{JsCallee, JsExpr, JsModule, JsStmt, JsVarDeclarator};
use mboitata::router::PipelineOutput;
use mboitata::{initialize_stages, AllowList, InterceptedResponse, ScanJsStage, StageId};

fn js_resp(host: &str, path: &str, body: &str) -> InterceptedResponse {
    InterceptedResponse {
        scheme: "https".to_string(),
        host: host.to_string(),
        path: path.to_string(),
        content_type: "application/javascript".to_string(),
        content_encoding: "identity".to_string(),
        body: body.as_bytes().to_vec(),
    }
}

const APP_JS: &str = "var API=\"https://api.example.com/v1\"; fetch(API+\"/users\");";

fn app_module() -> JsModule {
    JsModule {
        body: vec![
            JsStmt::VarDecl(vec![JsVarDeclarator {
                name: Some("API".to_string()),
                init: Some(JsExpr::StrLit("https://api.example.com/v1".to_string())),
            }]),
            JsStmt::Expr(JsExpr::Call {
                callee: JsCallee::Expr(Box::new(JsExpr::Ident("fetch".to_string()))),
                args: vec![JsExpr::Bin {
                    op: "+".to_string(),
                    left: Box::new(JsExpr::Ident("API".to_string())),
                    right: Box::new(JsExpr::StrLit("/users".to_string())),
                }],
            }),
        ],
    }
}

#[test]
fn javascript_response_flows_to_sink_scan_and_js_analysis() {
    let allow = AllowList::new(vec!["example.com".to_string()]);
    let (registry, mut d) = initialize_stages(allow, "output".to_string());
    let mut out = PipelineOutput::new();

    d.emit(StageId::Filter, js_resp("example.com", "/app.js", APP_JS));
    registry.drain(&mut d, &mut out);

    // The body itself is persisted under the output root.
    let saved = out
        .writes
        .iter()
        .find(|w| w.path == "output/example.com/app.js")
        .expect("the script is saved");
    assert_eq!(saved.text, APP_JS);

    // The URL in the body is reported by the secret scan.
    let url_finding = out
        .writes
        .iter()
        .find(|w| w.path == "output/example.com/findings/app.js/URL")
        .expect("URL finding");
    assert!(url_finding.text.contains("https://api.example.com/v1"));

    // The body is handed out for JS parsing; feeding the parsed module
    // back produces the CALLS finding.
    assert_eq!(out.js.len(), 1);
    assert_eq!(out.js[0].text, APP_JS);
    let js_stage = ScanJsStage::new();
    let events = js_stage.process(&out.js[0].resp, &app_module());
    for e in events {
        if d.can_emit() && !d.is_closed() {
            d.emit(e.stage, e.resp);
        }
    }
    registry.drain(&mut d, &mut out);

    let calls = out
        .writes
        .iter()
        .find(|w| w.path == "output/example.com/findings/app.js/CALLS")
        .expect("CALLS finding");
    assert!(calls.text.contains("Url: https://api.example.com/v1/users"));
    assert!(calls.text.contains("Method: fetch"));
    assert!(calls.text.contains("Auth: -"));

    let vars = out
        .writes
        .iter()
        .find(|w| w.path == "output/example.com/findings/app.js/VARS")
        .expect("VARS finding");
    assert!(vars.text.contains("::API=https://api.example.com/v1"));

    d.close_gracefully();
    assert_eq!(d.inflight_count(), 0);
    assert_eq!(d.emitted_count(), d.completed_count());
}

#[test]
fn out_of_scope_hosts_are_dropped() {
    let allow = AllowList::new(vec!["example.com".to_string()]);
    let (registry, mut d) = initialize_stages(allow, "output".to_string());
    let mut out = PipelineOutput::new();
    d.emit(StageId::Filter, js_resp("evil.net", "/app.js", APP_JS));
    registry.drain(&mut d, &mut out);
    assert!(out.writes.is_empty());
    assert!(out.js.is_empty());
    assert!(out.fetches.is_empty());
}

#[test]
fn images_and_css_are_dropped() {
    let allow = AllowList::new(vec![]);
    let (registry, mut d) = initialize_stages(allow, "output".to_string());
    let mut out = PipelineOutput::new();
    let mut img = js_resp("example.com", "/logo.png", "x");
    img.content_type = "image/png".to_string();
    d.emit(StageId::Filter, img);
    let mut css = js_resp("example.com", "/style.css", "x");
    css.content_type = "text/css".to_string();
    d.emit(StageId::Filter, css);
    registry.drain(&mut d, &mut out);
    assert!(out.writes.is_empty());
}

#[test]
fn traversal_attempt_writes_nothing_at_all() {
    let allow = AllowList::new(vec![]);
    let (registry, mut d) = initialize_stages(allow, "output".to_string());
    let mut out = PipelineOutput::new();
    let mut r = js_resp("evil", "/../../etc/passwd", "secret");
    r.content_type = "text/plain".to_string();
    d.emit(StageId::Filter, r);
    registry.drain(&mut d, &mut out);
    // The join refuses the traversal attempt, so the sink writes nothing;
    // and in general nothing a drain produces ever leaves the output root.
    assert!(out.writes.is_empty());
    for w in &out.writes {
        assert!(w.path.starts_with("output"));
        assert!(!w.path.split('/').any(|c| c == ".."));
    }
}

#[test]
fn queued_events_drain_before_close() {
    let allow = AllowList::new(vec![]);
    let (registry, mut d) = initialize_stages(allow, "output".to_string());
    let mut out = PipelineOutput::new();
    for i in 0..100 {
        d.emit(StageId::Filter, js_resp("example.com", &format!("/f{}.js", i), "var a=1;"));
    }
    assert_eq!(d.pending(), 100);
    registry.drain(&mut d, &mut out);
    assert_eq!(d.pending(), 0);
    d.close_gracefully();
    assert!(d.is_closed());
    assert_eq!(d.inflight_count(), 0);
}
