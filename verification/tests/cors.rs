use stats_ingest::cors::{setup_cors, CORS_MAX_AGE};

#[test]
fn cors_rules_allow_listed_origins_only() {
    let domains = vec!["https://a.example".to_string(), "https://b.example".to_string()];
    let rules = setup_cors(&domains);
    assert!(rules.allows_origin(Some("https://a.example")));
    assert!(rules.allows_origin(Some("https://b.example")));
    assert!(!rules.allows_origin(Some("https://c.example")));
    assert!(!rules.allows_origin(Some("https://a.example/")));
    assert!(!rules.allows_origin(Some("HTTPS://A.EXAMPLE")));
    assert!(!rules.allows_origin(Some("")));
    assert!(!rules.allows_origin(None));
    assert!(rules.lists("https://a.example"));
    assert!(!rules.lists("https://z.example"));
}

#[test]
fn cors_rules_without_domains_allow_nothing() {
    let rules = setup_cors(&Vec::new());
    assert!(!rules.allows_origin(Some("https://a.example")));
    assert!(!rules.allows_origin(None));
}

#[test]
fn cors_rules_name_methods_headers_and_max_age() {
    let rules = setup_cors(&vec!["https://a.example".to_string()]);
    assert!(rules.lists("https://a.example"));
    assert_eq!(rules.allowed_methods, vec!["GET", "POST"]);
    assert_eq!(rules.allowed_headers, vec!["authorization", "accept", "content-type"]);
    assert_eq!(rules.max_age, 3600);
    assert_eq!(CORS_MAX_AGE, 3600);
}
