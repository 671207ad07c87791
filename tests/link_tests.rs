use base64::Engine;
use proxy_core::links::{DecodeError, SubscriptionParser};
use proxy_core::models::{ProxyConfig, ProxyProtocol, ProxyServerV2};

fn b64(s: &str) -> String {
    base64::engine::general_purpose::STANDARD.encode(s.as_bytes())
}

fn vless_of(n: &ProxyServerV2) -> &proxy_core::models::VlessConfig {
    match &n.config {
        ProxyConfig::Vless(c) => c,
        other => panic!("not a VLESS config: {:?}", other),
    }
}

fn vmess_of(n: &ProxyServerV2) -> &proxy_core::models::VmessConfig {
    match &n.config {
        ProxyConfig::Vmess(c) => c,
        other => panic!("not a VMess config: {:?}", other),
    }
}

#[test]
fn vless_link_gives_its_fields() {
    let p = SubscriptionParser::new();
    let n = p
        .parse_vless_url("vless://abc-123@example.com:443?flow=xtls-rprx-vision&security=reality#My%20Node")
        .expect("decodes");
    assert_eq!(n.hostname, "example.com");
    assert_eq!(n.port, 443);
    assert_eq!(n.protocol, ProxyProtocol::VLESS);
    assert_eq!(n.name, "My Node");
    assert_eq!(n.id.len(), 36);
    assert!(n.subscription_id.is_none());
    assert!(n.latency_ms.is_none());
    assert!(!n.active);
    let c = vless_of(&n);
    assert_eq!(c.uuid, "abc-123");
    assert_eq!(c.flow.as_deref(), Some("xtls-rprx-vision"));
    assert_eq!(c.security, "reality");
    assert_eq!(c.encryption, "none");
    assert_eq!(c.network, "tcp");
    assert!(c.sni.is_none());
    assert!(c.alpn.is_none());
}

#[test]
fn vless_query_keys_are_read() {
    let p = SubscriptionParser::new();
    let n = p
        .parse_vless_url(
            "vless://u@h.example:8443?type=ws&encryption=aes&sni=cdn.example&alpn=h2%2Chttp%2F1.1&fp=chrome&pbk=KEY&sid=ab&spx=%2F&unknown=1&noequals#n",
        )
        .expect("decodes");
    let c = vless_of(&n);
    assert_eq!(c.network, "ws");
    assert_eq!(c.encryption, "aes");
    assert_eq!(c.security, "none");
    assert!(c.flow.is_none());
    assert_eq!(c.sni.as_deref(), Some("cdn.example"));
    assert_eq!(
        c.alpn,
        Some(vec!["h2".to_string(), "http/1.1".to_string()])
    );
    assert_eq!(c.fp.as_deref(), Some("chrome"));
    assert_eq!(c.pbk.as_deref(), Some("KEY"));
    assert_eq!(c.sid.as_deref(), Some("ab"));
    assert_eq!(c.spx.as_deref(), Some("/"));
    assert_eq!(n.port, 8443);
}

#[test]
fn vless_last_duplicate_key_wins_and_last_hash_splits() {
    let p = SubscriptionParser::new();
    let n = p
        .parse_vless_url("vless://u@h:1?sni=a&sni=b#x#y")
        .expect("decodes");
    assert_eq!(vless_of(&n).sni.as_deref(), Some("b#x"));
    assert_eq!(n.name, "y");
}

#[test]
fn vless_malformed_links_fail() {
    let p = SubscriptionParser::new();
    for bad in [
        "vless://u@h:443?flow=x",
        "vless://@h:443?a=b#n",
        "vless://u@h:?a=b#n",
        "vless://u@h:99999?a=b#n",
        "vless://u@h:44a?a=b#n",
        "vless://u@h#n",
        "vmess://u@h:1?a=b#n",
        "vless://u@h:1?a=b#%FF",
        "vless://u@h:1?a=%FF#n",
    ] {
        assert!(
            matches!(p.parse_vless_url(bad), Err(DecodeError::MalformedLink)),
            "{} should fail",
            bad
        );
    }
}

#[test]
fn vmess_link_gives_its_fields() {
    let p = SubscriptionParser::new();
    let link = format!("vmess://{}", b64(r#"{"id":"u","add":"h","port":443,"ps":"n"}"#));
    let n = p.parse_vmess_url(&link).expect("decodes");
    assert_eq!(n.hostname, "h");
    assert_eq!(n.port, 443);
    assert_eq!(n.name, "n");
    assert_eq!(n.protocol, ProxyProtocol::VMess);
    let c = vmess_of(&n);
    assert_eq!(c.uuid, "u");
    assert_eq!(c.security, "auto");
    assert_eq!(c.network, "tcp");
    assert_eq!(c.alter_id, 0);
    assert!(!c.tls);
}

#[test]
fn vmess_defaults_and_members() {
    let p = SubscriptionParser::new();
    let empty = p.parse_vmess_url(&format!("vmess://{}", b64("{}"))).expect("decodes");
    assert_eq!(empty.name, "VMess Server");
    assert_eq!(empty.hostname, "");
    assert_eq!(empty.port, 443);
    assert_eq!(vmess_of(&empty).uuid, "");
    let full = p
        .parse_vmess_url(&format!(
            "vmess://{}",
            b64(r#"{"id":"i","aid":4,"scy":"aes-128-gcm","net":"ws","tls":"tls","sni":"s","alpn":"h2,h3","ps":"p","add":"a","port":8080}"#)
        ))
        .expect("decodes");
    let c = vmess_of(&full);
    assert_eq!(c.alter_id, 4);
    assert_eq!(c.security, "aes-128-gcm");
    assert_eq!(c.network, "ws");
    assert!(c.tls);
    assert_eq!(c.sni.as_deref(), Some("s"));
    assert_eq!(c.alpn, Some(vec!["h2".to_string(), "h3".to_string()]));
    assert_eq!(full.port, 8080);
}

#[test]
fn vmess_port_is_cut_to_16_bits() {
    let p = SubscriptionParser::new();
    let n = p
        .parse_vmess_url(&format!("vmess://{}", b64(r#"{"port":65537}"#)))
        .expect("decodes");
    assert_eq!(n.port, 1);
}

#[test]
fn vmess_malformed_links_fail() {
    let p = SubscriptionParser::new();
    assert!(p.parse_vmess_url("vless://abc").is_err());
    assert!(p.parse_vmess_url("vmess://not base64!").is_err());
    assert!(p.parse_vmess_url(&format!("vmess://{}", b64("not json"))).is_err());
    let invalid_utf8 = base64::engine::general_purpose::STANDARD.encode([0xffu8, 0xfe]);
    assert!(p.parse_vmess_url(&format!("vmess://{}", invalid_utf8)).is_err());
}

#[test]
fn decoding_twice_differs_only_in_id() {
    let p = SubscriptionParser::new();
    let link = "vless://abc@example.com:443?flow=f&security=tls&alpn=h2#Name";
    let a = p.decode_link(link).expect("decodes");
    let b = p.decode_link(link).expect("decodes");
    assert_ne!(a.id, b.id);
    let mut b2 = b.clone();
    b2.id = a.id.clone();
    assert_eq!(format!("{:?}", a), format!("{:?}", b2));
}

#[test]
fn unknown_scheme_does_not_decode() {
    let p = SubscriptionParser::new();
    assert!(p.decode_link("trojan://pw@h:443").is_err());
}

#[test]
fn subscription_keeps_order_and_skips_bad_lines() {
    let p = SubscriptionParser::new();
    let vmess = format!("vmess://{}", b64(r#"{"id":"u","add":"second","port":443,"ps":"n"}"#));
    let body = format!(
        "vless://u@first:1?security=tls#a\nvless://broken\n{}\n",
        vmess
    );
    let nodes = p.parse_subscription(&body);
    assert_eq!(nodes.len(), 2);
    assert_eq!(nodes[0].hostname, "first");
    assert_eq!(nodes[0].protocol, ProxyProtocol::VLESS);
    assert_eq!(nodes[1].hostname, "second");
    assert_eq!(nodes[1].protocol, ProxyProtocol::VMess);
}

#[test]
fn subscription_body_may_be_base64() {
    let p = SubscriptionParser::new();
    let plain = "  vless://u@one:1?a=b#x  \r\n\r\nss://ignored\n\nvless://u@two:2?a=b#y";
    let nodes = p.parse_subscription(&b64(plain));
    assert_eq!(nodes.len(), 2);
    assert_eq!(nodes[0].hostname, "one");
    assert_eq!(nodes[1].hostname, "two");
    assert_eq!(nodes[1].port, 2);
}

#[test]
fn empty_subscription_has_no_nodes() {
    let p = SubscriptionParser::new();
    assert!(p.parse_subscription("").is_empty());
    assert!(p.parse_subscription("\n\n  \n").is_empty());
}
