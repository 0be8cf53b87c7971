use mboitata::host::{
    default_port, header_value_text, normalize_hostname, resolve_host_port, split_host_port,
    strip_port,
};
use mboitata::text::file_name;

#[test]
fn normalize_hostname_lowers_and_strips() {
    assert_eq!(normalize_hostname("Example.COM"), "example.com");
    assert_eq!(normalize_hostname("example.com:8443"), "example.com");
    assert_eq!(normalize_hostname("Example.com.:443"), "example.com");
    assert_eq!(normalize_hostname("HOST..."), "host");
    assert_eq!(normalize_hostname(""), "");
}

#[test]
fn default_ports() {
    assert_eq!(default_port(Some("https")), 443);
    assert_eq!(default_port(Some("http")), 80);
    assert_eq!(default_port(None), 80);
    assert_eq!(default_port(Some("ftp")), 80);
}

#[test]
fn split_host_port_plain() {
    assert_eq!(split_host_port("example.com:8080"), Some(("example.com".to_string(), 8080)));
    assert_eq!(split_host_port("example.com"), None);
    assert_eq!(split_host_port("example.com:notaport"), None);
    assert_eq!(split_host_port("example.com:99999"), None);
    assert_eq!(split_host_port("a:b:443"), Some(("a:b".to_string(), 443)));
}

#[test]
fn split_host_port_bracketed() {
    assert_eq!(split_host_port("[::1]:8080"), Some(("::1".to_string(), 8080)));
    assert_eq!(split_host_port("[::1]"), None);
    assert_eq!(split_host_port("[::1]8080"), None);
}

#[test]
fn resolve_prefers_uri_authority() {
    let r = resolve_host_port(
        Some("uri-host".to_string()),
        Some(444),
        Some("https".to_string()),
        Some("header-host:1234".to_string()),
        Some("http"),
    );
    assert_eq!(r.ok(), Some(("uri-host".to_string(), 444)));
}

#[test]
fn resolve_uses_uri_scheme_default() {
    let r = resolve_host_port(Some("h".to_string()), None, Some("https".to_string()), None, None);
    assert_eq!(r.ok(), Some(("h".to_string(), 443)));
}

#[test]
fn resolve_falls_back_to_header() {
    let r = resolve_host_port(None, None, None, Some("hdr:8080".to_string()), Some("https"));
    assert_eq!(r.ok(), Some(("hdr".to_string(), 8080)));
    let r2 = resolve_host_port(None, None, None, Some("hdr".to_string()), Some("https"));
    assert_eq!(r2.ok(), Some(("hdr".to_string(), 443)));
}

#[test]
fn resolve_without_any_host_fails() {
    assert!(resolve_host_port(None, None, None, None, Some("http")).is_err());
}

#[test]
fn strip_port_takes_leading_host() {
    assert_eq!(strip_port("example.com:443"), "example.com");
    assert_eq!(strip_port("example.com"), "example.com");
}

#[test]
fn header_value_text_round_trips_utf8() {
    assert_eq!(header_value_text(&b"text/html".to_vec()), "text/html");
    // Valid UTF-8 beyond ASCII is kept as decoded text.
    assert_eq!(header_value_text(&vec![0xC3u8, 0xA9]), "\u{e9}");
    // An invalid byte sequence is substituted with the empty string.
    assert_eq!(header_value_text(&vec![0x80u8, 0x81]), "");
}

#[test]
fn file_name_takes_basename() {
    assert_eq!(file_name("/js/app.js"), "app.js");
    assert_eq!(file_name("app.js"), "app.js");
    assert_eq!(file_name("/a/b/"), "b");
    assert_eq!(file_name("/"), "");
    assert_eq!(file_name(""), "");
}
