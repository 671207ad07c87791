use proxy_core::models::Rule;
use proxy_core::rules::{match_rule, rule_matches, ProxyEngine};

fn rule(id: &str, kind: &str, pattern: &str, enabled: bool) -> Rule {
    Rule {
        id: id.to_string(),
        name: format!("rule {}", id),
        rule_type: kind.to_string(),
        pattern: pattern.to_string(),
        action: "proxy".to_string(),
        priority: 0,
        enabled,
    }
}

#[test]
fn domain_rule_is_exact() {
    let r = rule("1", "domain", "example.com", true);
    assert!(rule_matches(&r, "example.com", 443, false));
    assert!(!rule_matches(&r, "www.example.com", 443, false));
}

#[test]
fn suffix_rule_is_literal() {
    let r = rule("1", "domain-suffix", "x.com", true);
    assert!(rule_matches(&r, "a.x.com", 80, false));
    assert!(rule_matches(&r, "fakex.com", 80, false));
    assert!(!rule_matches(&r, "x.co", 80, false));
}

#[test]
fn keyword_rule_is_substring() {
    let r = rule("1", "domain-keyword", "goog", true);
    assert!(rule_matches(&r, "www.google.com", 80, false));
    assert!(!rule_matches(&r, "example.com", 80, false));
}

#[test]
fn cidr_rule_is_prefix_of_ip() {
    let r = rule("1", "ip-cidr", "192.168.1.0/24", true);
    assert!(rule_matches(&r, "192.168.1.0", 80, true));
    assert!(!rule_matches(&r, "192.168.1.0", 80, false));
    assert!(!rule_matches(&r, "192.168.2.7", 80, true));
    let base = rule("2", "ip-cidr", "10.", true);
    assert!(rule_matches(&base, "10.1.2.3", 80, true));
}

#[test]
fn port_rule_matches_number() {
    let r = rule("1", "dst-port", "443", true);
    assert!(rule_matches(&r, "any", 443, false));
    assert!(!rule_matches(&r, "any", 80, false));
    let bad = rule("2", "dst-port", "https", true);
    assert!(!rule_matches(&bad, "any", 443, false));
}

#[test]
fn unknown_kind_never_matches() {
    let r = rule("1", "geoip", "CN", true);
    assert!(!rule_matches(&r, "CN", 80, false));
}

#[test]
fn disabled_rules_never_match() {
    let rules = vec![
        rule("1", "domain-suffix", "x.com", false),
        rule("2", "domain-keyword", "x", true),
    ];
    assert_eq!(match_rule(&rules, "a.x.com", 80, false), Some(1));
    let only_disabled = vec![rule("1", "domain", "a.x.com", false)];
    assert_eq!(match_rule(&only_disabled, "a.x.com", 80, false), None);
}

#[test]
fn first_match_in_list_order_is_stable() {
    let rules = vec![
        rule("1", "domain", "other.com", true),
        rule("2", "domain-suffix", "x.com", true),
        rule("3", "domain-keyword", "x", true),
    ];
    let first = match_rule(&rules, "a.x.com", 80, false);
    let second = match_rule(&rules, "a.x.com", 80, false);
    assert_eq!(first, Some(1));
    assert_eq!(first, second);
    assert_eq!(match_rule(&rules, "nothing.org", 80, false), None);
}

#[test]
fn engine_finds_rule() {
    let mut engine = ProxyEngine::new();
    assert!(engine.servers.is_empty());
    assert!(engine.find_matching_rule("a.x.com", 80, false).is_none());
    engine.rules.push(rule("7", "domain-suffix", "x.com", true));
    let found = engine.find_matching_rule("a.x.com", 80, false).expect("a rule");
    assert_eq!(found.id, "7");
}
