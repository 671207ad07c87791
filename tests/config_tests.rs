use proxy_core::config::{ConfigError, ConfigManager, DEFAULT_CONFIG};
use proxy_core::models::{
    AppState, ConfigFormat, LogLevel, ProxyConfig, ProxyMode, ProxyProtocol,
};

#[test]
fn format_follows_extension() {
    assert_eq!(ConfigManager::format_for_path("a/config.yaml"), ConfigFormat::YAML);
    assert_eq!(ConfigManager::format_for_path("config.yml"), ConfigFormat::YAML);
    assert_eq!(ConfigManager::format_for_path("config.json"), ConfigFormat::JSON);
    assert_eq!(ConfigManager::format_for_path("config"), ConfigFormat::JSON);
}

#[test]
fn valid_documents_load() {
    let c = ConfigManager::load_from_text("c.yaml", "port: 7890\n".to_string()).expect("yaml");
    assert_eq!(c.raw_config, "port: 7890\n");
    assert_eq!(c.format, ConfigFormat::YAML);
    let j = ConfigManager::load_from_text("c.json", "{\"port\": 1}".to_string()).expect("json");
    assert_eq!(j.format, ConfigFormat::JSON);
}

#[test]
fn invalid_documents_are_refused() {
    assert_eq!(
        ConfigManager::load_from_text("c.yaml", "a: [1, 2".to_string()).unwrap_err(),
        ConfigError::InvalidYaml
    );
    assert_eq!(
        ConfigManager::load_from_text("c.json", "port: 1".to_string()).unwrap_err(),
        ConfigError::InvalidJson
    );
}

#[test]
fn default_config_is_yaml() {
    let c = ConfigManager::get_default_config();
    assert_eq!(c.format, ConfigFormat::YAML);
    assert_eq!(c.raw_config, DEFAULT_CONFIG);
    assert!(c.raw_config.contains("port: 7890"));
    assert!(ConfigManager::load_from_text("d.yaml", c.raw_config.clone()).is_ok());
}

#[test]
fn initial_state() {
    let s = AppState::new();
    assert!(!s.proxy_status.connected);
    assert_eq!(s.proxy_status.mode, ProxyMode::Global);
    assert_eq!(s.servers.len(), 2);
    assert_eq!(s.servers[0].id, "server1");
    assert_eq!(s.servers[1].protocol, "HTTPS");
    assert_eq!(s.rules.len(), 2);
    assert_eq!(s.rules[0].action, "block");
    assert_eq!(s.logs.len(), 1);
    assert_eq!(s.logs[0].level, LogLevel::INFO);
    assert_eq!(s.config.raw_config, "# Default config");
    assert!(s.servers[0].last_ping.unwrap() > 0);
}

#[test]
fn protocol_names_round_trip() {
    for p in [
        ProxyProtocol::HTTP,
        ProxyProtocol::HTTPS,
        ProxyProtocol::SOCKS5,
        ProxyProtocol::VLESS,
        ProxyProtocol::VMess,
        ProxyProtocol::Trojan,
        ProxyProtocol::Shadowsocks,
    ] {
        assert_eq!(ProxyProtocol::from_name(p.name()), Some(p));
    }
    assert_eq!(ProxyProtocol::VMess.name(), "VMess");
    assert_eq!(ProxyProtocol::from_name("vmess"), None);
    assert_eq!(ProxyProtocol::from_name(""), None);
}

#[test]
fn default_configs_agree_with_their_protocol() {
    assert!(matches!(ProxyConfig::default_for(ProxyProtocol::HTTP), ProxyConfig::Http));
    assert!(matches!(ProxyConfig::default_for(ProxyProtocol::SOCKS5), ProxyConfig::Socks5));
    match ProxyConfig::default_for(ProxyProtocol::Shadowsocks) {
        ProxyConfig::Shadowsocks { method, password } => {
            assert_eq!(method, "aes-256-gcm");
            assert_eq!(password, "default");
        }
        other => panic!("unexpected {:?}", other),
    }
    match ProxyConfig::default_for(ProxyProtocol::VLESS) {
        ProxyConfig::Vless(c) => {
            assert_eq!(c.uuid, "default-uuid");
            assert_eq!(c.security, "tls");
        }
        other => panic!("unexpected {:?}", other),
    }
    match ProxyConfig::default_for(ProxyProtocol::VMess) {
        ProxyConfig::Vmess(c) => assert_eq!(c.security, "auto"),
        other => panic!("unexpected {:?}", other),
    }
}
