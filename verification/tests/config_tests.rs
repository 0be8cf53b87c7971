use mboitata::config::{build_allow_list, extract_domains_from_urls, Config};

#[test]
fn hosts_are_extracted_from_parsable_urls() {
    let urls = vec![
        "https://example.com/a".to_string(),
        "not a url".to_string(),
        "http://other.net".to_string(),
    ];
    assert_eq!(
        extract_domains_from_urls(&urls),
        vec!["example.com".to_string(), "other.net".to_string()],
    );
}

#[test]
fn merged_allow_list_skips_duplicates() {
    let urls = vec![
        "https://example.com/a".to_string(),
        "https://example.com/b".to_string(),
        "https://fresh.io".to_string(),
    ];
    let list = build_allow_list(vec!["example.com".to_string()], &urls);
    // example.com is already present; fresh.io is appended once.
    assert!(list.in_scope("example.com"));
    assert!(list.in_scope("fresh.io"));
    assert!(!list.in_scope("elsewhere.org"));
}

#[test]
fn config_carries_plain_values() {
    let c = Config {
        urls: Some(vec!["https://example.com".to_string()]),
        port: "8085".to_string(),
        output: "output".to_string(),
        certs_dir: "certs".to_string(),
        pretty: false,
        allow_list: vec![],
    };
    assert_eq!(c.port, "8085");
    assert_eq!(c.output, "output");
}
