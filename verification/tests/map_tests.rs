use mboitata::{InterceptedResponse, MapStage, StageId};

fn js_resp(path: &str, body: &str) -> InterceptedResponse {
    InterceptedResponse {
        scheme: "https".to_string(),
        host: "example.com".to_string(),
        path: path.to_string(),
        content_type: "application/javascript".to_string(),
        content_encoding: "identity".to_string(),
        body: body.as_bytes().to_vec(),
    }
}

#[test]
fn explicit_hint_is_resolved_against_response_url() {
    let stage = MapStage::new();
    let resp = js_resp("/static/app.js", "var x=1;\n//# sourceMappingURL=app.js.map\n");
    let candidates = stage.candidates(&resp, "var x=1;\n//# sourceMappingURL=app.js.map\n");
    assert_eq!(candidates, vec!["https://example.com/static/app.js.map".to_string()]);
}

#[test]
fn absolute_hint_wins() {
    let stage = MapStage::new();
    let body = "//@ sourceMappingURL=https://cdn.example.net/m.map";
    let resp = js_resp("/a.js", body);
    assert_eq!(stage.candidates(&resp, body), vec!["https://cdn.example.net/m.map".to_string()]);
}

#[test]
fn missing_hint_falls_back_to_dot_map() {
    let stage = MapStage::new();
    let resp = js_resp("/static/app.js", "var x=1;");
    let candidates = stage.candidates(&resp, "var x=1;");
    assert_eq!(candidates, vec!["https://example.com/static/app.js.map".to_string()]);
}

#[test]
fn exploded_sources_become_virtual_responses() {
    let stage = MapStage::new();
    let resp = js_resp("/app.js", "");
    let mut map = String::new();
    map.push_str("{\"version\":3,");
    map.push_str("\"sources\":[\"webpack:///src/a.js\"],");
    map.push_str("\"sourcesContent\":[\"console.log(1)\"],");
    map.push_str("\"names\":[],\"mappings\":\"\"}");
    let events = stage.exploded(&resp, "https://example.com/app.js.map", map.as_str());
    assert_eq!(events.len(), 1);
    assert!(matches!(events[0].stage, StageId::SaveFile));
    assert_eq!(events[0].resp.path, "/sourcemap/src/a.js");
    assert_eq!(events[0].resp.body, b"console.log(1)".to_vec());
    assert_eq!(events[0].resp.content_type, "application/javascript");
}

#[test]
fn reemit_fans_out_to_three_stages() {
    let stage = MapStage::new();
    let resp = js_resp("/app.js", "x");
    let events = stage.reemit(&resp);
    assert_eq!(events.len(), 3);
    assert!(matches!(events[0].stage, StageId::SaveFile));
    assert!(matches!(events[1].stage, StageId::Scan));
    assert!(matches!(events[2].stage, StageId::JsScan));
    assert_eq!(events[0].resp.path, "/app.js");
}
