use mboitata::{InterceptedResponse, ScanStage, StageId};

fn text_resp(path: &str, body: &str) -> InterceptedResponse {
    InterceptedResponse {
        scheme: "https".to_string(),
        host: "example.com".to_string(),
        path: path.to_string(),
        content_type: "text/plain".to_string(),
        content_encoding: "identity".to_string(),
        body: body.as_bytes().to_vec(),
    }
}

#[test]
fn jwt_is_reported_once() {
    let jwt = "eyJhbGciOiJIUzI1NiJ9.eyJzdWIiOiIxIn0.abcDEF";
    let body = format!("prefix {} middle {} suffix", jwt, jwt);
    let stage = ScanStage::new();
    let events = stage.process(&text_resp("/js/app.js", &body));
    let jwt_events: Vec<_> =
        events.iter().filter(|e| e.resp.path == "findings/app.js/JWT").collect();
    assert_eq!(jwt_events.len(), 1);
    assert_eq!(jwt_events[0].resp.body, jwt.as_bytes());
    assert!(matches!(jwt_events[0].stage, StageId::SaveFile));
}

#[test]
fn urls_are_deduplicated_and_sorted() {
    let body = "see https://b.example/x and https://a.example/y and https://b.example/x";
    let stage = ScanStage::new();
    let events = stage.process(&text_resp("/app.js", body));
    let url_event = events.iter().find(|e| e.resp.path == "findings/app.js/URL").unwrap();
    let content = String::from_utf8(url_event.resp.body.clone()).unwrap();
    assert_eq!(content, "https://a.example/y\nhttps://b.example/x");
}

#[test]
fn bearer_and_api_key_and_node_env() {
    let body = "Authorization: Bearer abc.DEF-123=\n\
                api_key: \"A1234567890123456789\"\n\
                var env = process.env.NODE_ENV || 'dev';";
    let stage = ScanStage::new();
    let events = stage.process(&text_resp("/cfg.js", body));
    let paths: Vec<&str> = events.iter().map(|e| e.resp.path.as_str()).collect();
    assert!(paths.contains(&"findings/cfg.js/Bearer Token"));
    assert!(paths.contains(&"findings/cfg.js/API Key"));
    assert!(paths.contains(&"findings/cfg.js/NODE_ENV"));
}

#[test]
fn empty_categories_are_skipped() {
    let stage = ScanStage::new();
    let events = stage.process(&text_resp("/empty.txt", "nothing interesting here"));
    assert!(events.is_empty());
}

#[test]
fn undecodable_body_yields_nothing() {
    let mut r = text_resp("/x", "");
    r.body = vec![0xff, 0xfe];
    let stage = ScanStage::new();
    assert!(stage.process(&r).is_empty());
}
