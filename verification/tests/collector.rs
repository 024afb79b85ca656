use stats_ingest::collector::{
    build_collector, generate_analytics_js, location_or_unknown, lookup_address, new_collector,
    CollectorRequest, UserAgent,
};
use stats_ingest::event::Timestamp;

const FIREFOX: &str =
    "Mozilla/5.0 (Windows NT 10.0; Win64; x64; rv:109.0) Gecko/20100101 Firefox/115.0";

fn request(origin: Option<&str>, user_agent: Option<&str>) -> CollectorRequest {
    CollectorRequest {
        forwarded_for: Some("203.0.113.9".to_string()),
        origin: origin.map(|s| s.to_string()),
        user_agent: user_agent.map(|s| s.to_string()),
    }
}

#[test]
fn lookup_address_defaults_to_the_unspecified_address() {
    assert_eq!(lookup_address(&Some("203.0.113.9".to_string())), "203.0.113.9");
    assert_eq!(lookup_address(&None), "0.0.0.0");
}

#[test]
fn location_falls_back_to_unknown() {
    let found = Some((Some("France".to_string()), Some("Paris".to_string())));
    assert_eq!(location_or_unknown(found), ("France".to_string(), "Paris".to_string()));
    let no_city = Some((Some("France".to_string()), None));
    assert_eq!(location_or_unknown(no_city), ("France".to_string(), "Unknown".to_string()));
    let no_country = Some((None, Some("Paris".to_string())));
    assert_eq!(location_or_unknown(no_country), ("Unknown".to_string(), "Paris".to_string()));
    assert_eq!(location_or_unknown(None), ("Unknown".to_string(), "Unknown".to_string()));
}

#[test]
fn build_collector_fills_every_field() {
    let stamp = Timestamp { secs: 1_700_000_000, nanos: 7 };
    let agent = UserAgent { os: "Linux".to_string(), browser: "Firefox".to_string() };
    let collector = build_collector(
        request(Some("https://a.example"), None),
        "01D39ZY06FGSCTVN4T2V9PKHFZ".to_string(),
        "France".to_string(),
        "Paris".to_string(),
        Some(agent),
        stamp,
    );
    assert_eq!(collector.id, "01D39ZY06FGSCTVN4T2V9PKHFZ");
    assert_eq!(collector.origin, "https://a.example");
    assert_eq!(collector.country, "France");
    assert_eq!(collector.city, "Paris");
    assert_eq!(collector.os, Some("Linux".to_string()));
    assert_eq!(collector.browser, Some("Firefox".to_string()));
    assert_eq!(collector.timestamp, stamp);
}

#[test]
fn build_collector_without_origin_or_agent() {
    let stamp = Timestamp { secs: 0, nanos: 0 };
    let collector = build_collector(
        request(None, None),
        "id".to_string(),
        "Unknown".to_string(),
        "Unknown".to_string(),
        None,
        stamp,
    );
    assert_eq!(collector.origin, "unknown");
    assert_eq!(collector.os, None);
    assert_eq!(collector.browser, None);
}

#[test]
fn new_collector_reads_the_user_agent() {
    let collector = new_collector(
        request(Some("https://a.example"), Some(FIREFOX)),
        Some((Some("France".to_string()), None)),
    );
    assert_eq!(collector.os, Some("Windows 10".to_string()));
    assert_eq!(collector.browser, Some("Firefox".to_string()));
    assert_eq!(collector.country, "France");
    assert_eq!(collector.city, "Unknown");
    assert_eq!(collector.origin, "https://a.example");
    assert_eq!(collector.id.len(), 26);
    assert!(collector.timestamp.secs > 1_600_000_000);
}

#[test]
fn new_collector_without_a_user_agent_names_no_browser() {
    let collector = new_collector(request(None, None), None);
    assert_eq!(collector.os, None);
    assert_eq!(collector.browser, None);
    assert_eq!(collector.country, "Unknown");
    assert_eq!(collector.city, "Unknown");
    assert_eq!(collector.origin, "unknown");
}

#[test]
fn new_collector_with_an_unrecognised_agent_names_no_browser() {
    let collector = new_collector(request(None, Some("zzz-not-a-browser")), None);
    assert_eq!(collector.os, None);
    assert_eq!(collector.browser, None);
}

#[test]
fn analytics_js_embeds_collector_and_address() {
    let script = generate_analytics_js("CID123", "https://stats.example");
    assert!(script.starts_with("\"use strict\";\n(function() {\n    var collectorId = \"CID123\";\n    var appUrl = \"https://stats.example\";\n"));
    assert!(script.ends_with("    window.addEventListener('load', function() {\n        init();\n    });\n})();\n"));
    assert!(script.contains("var url = new URL(appUrl + \"/collect\");"));
    assert!(script.contains("async function send(type = \"pageview\", url_override = null, referrer = document.referrer) {"));
    assert!(!script.contains("{{"));
    assert!(!script.contains("}}"));
    assert_eq!(script.matches("CID123").count(), 1);
    assert_eq!(script.matches("https://stats.example").count(), 1);
    let empty = generate_analytics_js("", "");
    assert_eq!(script.len(), empty.len() + "CID123".len() + "https://stats.example".len());
}
