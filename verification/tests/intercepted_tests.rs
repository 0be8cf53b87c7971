use std::io::Write;

use mboitata::InterceptedResponse;

fn resp(host: &str, path: &str, ctype: &str, enc: &str, body: &[u8]) -> InterceptedResponse {
    InterceptedResponse {
        scheme: "https".to_string(),
        host: host.to_string(),
        path: path.to_string(),
        content_type: ctype.to_string(),
        content_encoding: enc.to_string(),
        body: body.to_vec(),
    }
}

#[test]
fn new_applies_defaults() {
    let r = InterceptedResponse::new(
        "/a".to_string(),
        "http".to_string(),
        "h".to_string(),
        None,
        None,
        vec![1, 2],
    );
    assert_eq!(r.content_type, "application/octet-stream");
    assert_eq!(r.content_encoding, "identity");
    let r2 = InterceptedResponse::new(
        "/a".to_string(),
        "http".to_string(),
        "h".to_string(),
        Some("text/html".to_string()),
        Some("gzip".to_string()),
        vec![],
    );
    assert_eq!(r2.content_type, "text/html");
    assert_eq!(r2.content_encoding, "gzip");
}

#[test]
fn safe_join_builds_contained_path() {
    let r = resp("example.com", "/js/app.js", "text/plain", "identity", b"x");
    let p = r.safe_join("output").expect("path");
    assert_eq!(p, "output/example.com/js/app.js");
}

#[test]
fn safe_join_refuses_traversal_attempts() {
    // host `evil`, path `/../../etc/passwd`: the raw `..` components mark a
    // traversal attempt, and the join is refused outright.
    let r = resp("evil", "/../../etc/passwd", "text/plain", "identity", b"x");
    assert!(r.safe_join("output").is_none());
}

#[test]
fn safe_join_refuses_dotdot_host() {
    let r = resp("..", "/etc/passwd", "text/plain", "identity", b"x");
    assert!(r.safe_join("output").is_none());
}

#[test]
fn safe_join_sanitizes_host() {
    let r = resp("../up", "/ok", "text/plain", "identity", b"x");
    let p = r.safe_join("output").expect("path");
    // The separator of the hostile host is removed; the remaining name is
    // a single component, not a traversal.
    assert_eq!(p, "output/..up/ok");
    assert!(!p.split('/').any(|c| c == ".."));
}

#[test]
fn get_body_identity_round_trip() {
    let text = "hello körper";
    let r = resp("h", "/p", "text/plain", "identity", text.as_bytes());
    let body = r.get_body().expect("decodable");
    assert_eq!(body, text);
    assert_eq!(body.as_bytes(), r.body.as_slice());
}

#[test]
fn get_body_empty_encoding_is_identity() {
    let r = resp("h", "/p", "text/plain", "", b"plain");
    assert_eq!(r.get_body().as_deref(), Some("plain"));
}

#[test]
fn get_body_identity_invalid_utf8_is_none() {
    let r = resp("h", "/p", "text/plain", "identity", &[0xff, 0xfe]);
    assert!(r.get_body().is_none());
}

#[test]
fn get_body_gzip_decodes() {
    let mut enc = flate2::write::GzEncoder::new(Vec::new(), flate2::Compression::default());
    enc.write_all(b"compressed content").unwrap();
    let gz = enc.finish().unwrap();
    let r = resp("h", "/p", "text/plain", "gzip", &gz);
    assert_eq!(r.get_body().as_deref(), Some("compressed content"));
}

#[test]
fn get_body_brotli_decodes() {
    let mut out = Vec::new();
    {
        let mut w = brotli::CompressorWriter::new(&mut out, 4096, 5, 22);
        w.write_all(b"brotli content").unwrap();
    }
    let r = resp("h", "/p", "text/plain", "br", &out);
    assert_eq!(r.get_body().as_deref(), Some("brotli content"));
}

#[test]
fn get_body_unknown_encoding_is_none() {
    let r = resp("h", "/p", "text/plain", "zstd", b"whatever");
    assert!(r.get_body().is_none());
}

#[test]
fn get_url_parses_full_url() {
    let r = resp("example.com", "/a/b?q=1", "text/plain", "identity", b"");
    let u = r.get_url().ok().expect("parses");
    assert_eq!(u.host, "example.com");
    assert_eq!(u.path, "/a/b");
    assert_eq!(u.full, "https://example.com/a/b?q=1");
}

#[test]
fn duplicate_preserves_fields() {
    let r = resp("h", "/p", "t", "identity", b"abc");
    let d = r.duplicate();
    assert_eq!(d.host, r.host);
    assert_eq!(d.path, r.path);
    assert_eq!(d.body, r.body);
}
