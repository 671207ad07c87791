//! The data the proxy works on: nodes, rules, subscriptions, status and logs.
//! Points in time are Unix timestamps in seconds.
use vstd::prelude::*;

use crate::bindings::now_timestamp;
use crate::text::same_text;

verus! {

#[derive(Debug, Clone)]
pub struct ProxyStatus {
    pub connected: bool,
    pub mode: ProxyMode,
    pub uptime: u64,
    pub last_error: Option<String>,
}

#[derive(Debug, Clone, Copy, PartialEq, Eq, Structural)]
pub enum ProxyMode {
    Global,
    PAC,
    Bypass,
}

/// A proxy endpoint in the simple form shown on the status page.
#[derive(Debug, Clone)]
pub struct ProxyServer {
    pub id: String,
    pub name: String,
    pub hostname: String,
    pub port: u16,
    pub protocol: String,
    pub latency_ms: Option<u32>,
    pub last_ping: Option<i64>,
    pub active: bool,
}

#[derive(Debug, Clone, Copy)]
pub struct TrafficStats {
    pub bytes_up: u64,
    pub bytes_down: u64,
    pub active_connections: u32,
    pub total_requests: u64,
}

#[derive(Debug, Clone)]
pub struct LogEntry {
    pub timestamp: i64,
    pub level: LogLevel,
    pub message: String,
    pub server_id: Option<String>,
}

#[derive(Debug, Clone, Copy, PartialEq, Eq, Structural)]
pub enum LogLevel {
    INFO,
    WARN,
    ERROR,
    DEBUG,
}

/// A configuration document, kept as the text it was read from.
#[derive(Debug, Clone)]
pub struct MihomoConfig {
    pub raw_config: String,
    pub format: ConfigFormat,
    pub last_modified: i64,
}

#[derive(Debug, Clone, Copy, PartialEq, Eq, Structural)]
pub enum ConfigFormat {
    YAML,
    JSON,
}

#[derive(Debug)]
pub struct ApiResponse<T> {
    pub success: bool,
    pub data: Option<T>,
    pub error: Option<ApiError>,
}

#[derive(Debug)]
pub struct ApiError {
    pub code: u16,
    pub message: String,
}

/// One traffic-classification rule. `rule_type` is one of `domain`, `domain-suffix`,
/// `domain-keyword`, `ip-cidr` and `dst-port`; any other kind never matches.
#[derive(Debug, Clone)]
pub struct Rule {
    pub id: String,
    pub name: String,
    pub rule_type: String,
    pub pattern: String,
    pub action: String,
    pub priority: i32,
    pub enabled: bool,
}

#[derive(Debug, Clone, Copy, PartialEq, Eq, Structural)]
pub enum ProxyProtocol {
    HTTP,
    HTTPS,
    SOCKS5,
    VLESS,
    VMess,
    Trojan,
    Shadowsocks,
}

/// The name under which each protocol is stored and entered.
pub open spec fn protocol_name(p: ProxyProtocol) -> Seq<char> {
    match p {
        ProxyProtocol::HTTP => "HTTP"@,
        ProxyProtocol::HTTPS => "HTTPS"@,
        ProxyProtocol::SOCKS5 => "SOCKS5"@,
        ProxyProtocol::VLESS => "VLESS"@,
        ProxyProtocol::VMess => "VMess"@,
        ProxyProtocol::Trojan => "Trojan"@,
        ProxyProtocol::Shadowsocks => "Shadowsocks"@,
    }
}

impl ProxyProtocol {
    /// The stored name of the protocol.
    pub fn name(&self) -> (r: &'static str)
        ensures
            r@ == protocol_name(*self),
    {
        match self {
            ProxyProtocol::HTTP => "HTTP",
            ProxyProtocol::HTTPS => "HTTPS",
            ProxyProtocol::SOCKS5 => "SOCKS5",
            ProxyProtocol::VLESS => "VLESS",
            ProxyProtocol::VMess => "VMess",
            ProxyProtocol::Trojan => "Trojan",
            ProxyProtocol::Shadowsocks => "Shadowsocks",
        }
    }

    /// The protocol with the given stored name; names are matched exactly.
    pub fn from_name(s: &str) -> (r: Option<ProxyProtocol>)
        ensures
            match r {
                Some(p) => protocol_name(p) == s@,
                None => forall|p: ProxyProtocol| protocol_name(p) != s@,
            },
    {
        proof {
            reveal_strlit("HTTP");
            reveal_strlit("HTTPS");
            reveal_strlit("SOCKS5");
            reveal_strlit("VLESS");
            reveal_strlit("VMess");
            reveal_strlit("Trojan");
            reveal_strlit("Shadowsocks");
        }
        let all = [
            ProxyProtocol::HTTP,
            ProxyProtocol::HTTPS,
            ProxyProtocol::SOCKS5,
            ProxyProtocol::VLESS,
            ProxyProtocol::VMess,
            ProxyProtocol::Trojan,
            ProxyProtocol::Shadowsocks,
        ];
        let mut i: usize = 0;
        while i < 7
            invariant
                all@ == seq![
                    ProxyProtocol::HTTP,
                    ProxyProtocol::HTTPS,
                    ProxyProtocol::SOCKS5,
                    ProxyProtocol::VLESS,
                    ProxyProtocol::VMess,
                    ProxyProtocol::Trojan,
                    ProxyProtocol::Shadowsocks,
                ],
                i <= 7,
                forall|j: int| 0 <= j < i ==> protocol_name(#[trigger] all@[j]) != s@,
            decreases 7 - i,
        {
            let p = all[i];
            if same_text(p.name(), s) {
                return Some(p);
            }
            i = i + 1;
        }
        proof {
            assert forall|p: ProxyProtocol| protocol_name(p) != s@ by {
                let j: int = match p {
                    ProxyProtocol::HTTP => 0,
                    ProxyProtocol::HTTPS => 1,
                    ProxyProtocol::SOCKS5 => 2,
                    ProxyProtocol::VLESS => 3,
                    ProxyProtocol::VMess => 4,
                    ProxyProtocol::Trojan => 5,
                    ProxyProtocol::Shadowsocks => 6,
                };
                assert(all@[j] == p);
            }
        }
        None
    }
}

/// Distinct protocols have distinct stored names, so `from_name` applied to the name of
/// a protocol gives that protocol back.
pub proof fn lemma_protocol_name_round_trip(p: ProxyProtocol, q: ProxyProtocol)
    ensures
        protocol_name(p) == protocol_name(q) ==> p == q,
{
    reveal_strlit("HTTP");
    reveal_strlit("HTTPS");
    reveal_strlit("SOCKS5");
    reveal_strlit("VLESS");
    reveal_strlit("VMess");
    reveal_strlit("Trojan");
    reveal_strlit("Shadowsocks");
    if protocol_name(p) == protocol_name(q) {
        assert(protocol_name(p).len() == protocol_name(q).len());
        if protocol_name(p).len() == 4 {
            assert(protocol_name(p)[3] == protocol_name(q)[3]);
        }
        if protocol_name(p).len() == 5 {
            assert(protocol_name(p)[1] == protocol_name(q)[1]);
        }
        if protocol_name(p).len() == 6 {
            assert(protocol_name(p)[0] == protocol_name(q)[0]);
        }
    }
}

#[derive(Debug, Clone)]
pub struct VlessConfig {
    pub uuid: String,
    pub flow: Option<String>,
    pub encryption: String,
    pub network: String,
    pub security: String,
    pub sni: Option<String>,
    pub alpn: Option<Vec<String>>,
    pub fp: Option<String>,
    pub pbk: Option<String>,
    pub sid: Option<String>,
    pub spx: Option<String>,
}

#[derive(Debug, Clone)]
pub struct VmessConfig {
    pub uuid: String,
    pub alter_id: u16,
    pub security: String,
    pub network: String,
    pub tls: bool,
    pub sni: Option<String>,
    pub alpn: Option<Vec<String>>,
}

/// A proxy node with its protocol-specific configuration.
#[derive(Debug, Clone)]
pub struct ProxyServerV2 {
    pub id: String,
    pub name: String,
    pub hostname: String,
    pub port: u16,
    pub protocol: ProxyProtocol,
    pub config: ProxyConfig,
    pub latency_ms: Option<u32>,
    pub last_ping: Option<i64>,
    pub active: bool,
    pub country: Option<String>,
    pub city: Option<String>,
    pub upload_speed: Option<u64>,
    pub download_speed: Option<u64>,
    pub subscription_id: Option<String>,
}

#[derive(Debug, Clone)]
pub enum ProxyConfig {
    Http,
    Https,
    Socks5,
    Vless(VlessConfig),
    Vmess(VmessConfig),
    Trojan { password: String },
    Shadowsocks { method: String, password: String },
}

/// The configuration variant that belongs to each protocol tag.
pub open spec fn tag_agrees(protocol: ProxyProtocol, config: ProxyConfig) -> bool {
    match protocol {
        ProxyProtocol::HTTP => config is Http,
        ProxyProtocol::HTTPS => config is Https,
        ProxyProtocol::SOCKS5 => config is Socks5,
        ProxyProtocol::VLESS => config is Vless,
        ProxyProtocol::VMess => config is Vmess,
        ProxyProtocol::Trojan => config is Trojan,
        ProxyProtocol::Shadowsocks => config is Shadowsocks,
    }
}

impl ProxyConfig {
    /// The configuration a node of the given protocol starts with before its settings
    /// are known: placeholder credentials, and the usual transport defaults.
    pub fn default_for(protocol: ProxyProtocol) -> (r: ProxyConfig)
        ensures
            tag_agrees(protocol, r),
            r matches ProxyConfig::Vless(c) ==> c.uuid@ == "default-uuid"@ && c.flow is None
                && c.encryption@ == "none"@ && c.network@ == "tcp"@ && c.security@ == "tls"@
                && c.sni is None && c.alpn is None && c.fp is None && c.pbk is None && c.sid is None
                && c.spx is None,
            r matches ProxyConfig::Vmess(c) ==> c.uuid@ == "default-uuid"@ && c.alter_id == 0
                && c.security@ == "auto"@ && c.network@ == "tcp"@ && !c.tls && c.sni is None
                && c.alpn is None,
            r matches ProxyConfig::Trojan { password } ==> password@ == "default"@,
            r matches ProxyConfig::Shadowsocks { method, password } ==> method@ == "aes-256-gcm"@
                && password@ == "default"@,
    {
        match protocol {
            ProxyProtocol::HTTP => ProxyConfig::Http,
            ProxyProtocol::HTTPS => ProxyConfig::Https,
            ProxyProtocol::SOCKS5 => ProxyConfig::Socks5,
            ProxyProtocol::Shadowsocks => ProxyConfig::Shadowsocks {
                method: "aes-256-gcm".to_owned(),
                password: "default".to_owned(),
            },
            ProxyProtocol::Trojan => ProxyConfig::Trojan { password: "default".to_owned() },
            ProxyProtocol::VLESS => ProxyConfig::Vless(
                VlessConfig {
                    uuid: "default-uuid".to_owned(),
                    flow: None,
                    encryption: "none".to_owned(),
                    network: "tcp".to_owned(),
                    security: "tls".to_owned(),
                    sni: None,
                    alpn: None,
                    fp: None,
                    pbk: None,
                    sid: None,
                    spx: None,
                },
            ),
            ProxyProtocol::VMess => ProxyConfig::Vmess(
                VmessConfig {
                    uuid: "default-uuid".to_owned(),
                    alter_id: 0,
                    security: "auto".to_owned(),
                    network: "tcp".to_owned(),
                    tls: false,
                    sni: None,
                    alpn: None,
                },
            ),
        }
    }
}

impl ProxyServerV2 {
    /// A node is well formed when its protocol tag and configuration agree.
    pub open spec fn wf(&self) -> bool {
        tag_agrees(self.protocol, self.config)
    }
}

#[derive(Debug, Clone)]
pub struct Subscription {
    pub id: String,
    pub name: String,
    pub url: String,
    pub update_interval: u32,
    pub last_update: Option<i64>,
    pub servers_count: u32,
    pub active: bool,
    pub user_agent: Option<String>,
}

pub open spec fn opt_text(o: Option<String>) -> Option<Seq<char>> {
    match o {
        Some(s) => Some(s@),
        None => None,
    }
}

pub open spec fn opt_texts(o: Option<Vec<String>>) -> Option<Seq<Seq<char>>> {
    match o {
        Some(v) => Some(v@.map_values(|x: String| x@)),
        None => None,
    }
}

/// Everything the proxy shows about itself: status, counters, servers, rules and log.
#[derive(Debug, Clone)]
pub struct AppState {
    pub proxy_status: ProxyStatus,
    pub stats: TrafficStats,
    pub servers: Vec<ProxyServer>,
    pub current_server: Option<String>,
    pub config: MihomoConfig,
    pub rules: Vec<Rule>,
    pub logs: Vec<LogEntry>,
}

impl AppState {
    /// The state at start-up: disconnected, global mode, zero counters, two sample
    /// servers, two sample rules and one log entry, all stamped with the current time.
    pub fn new() -> (r: AppState)
        ensures
            !r.proxy_status.connected,
            r.proxy_status.mode == ProxyMode::Global,
            r.proxy_status.uptime == 0,
            r.proxy_status.last_error is None,
            r.stats.bytes_up == 0 && r.stats.bytes_down == 0,
            r.stats.active_connections == 0 && r.stats.total_requests == 0,
            r.servers@.len() == 2,
            r.servers@[0].id@ == "server1"@ && r.servers@[0].hostname@ == "proxy.example.com"@,
            r.servers@[0].port == 8080 && r.servers@[0].protocol@ == "HTTP"@,
            r.servers@[0].latency_ms == Some(45u32) && r.servers@[0].active,
            r.servers@[1].id@ == "server2"@ && r.servers@[1].hostname@ == "backup.example.com"@,
            r.servers@[1].port == 8080 && r.servers@[1].protocol@ == "HTTPS"@,
            r.servers@[1].latency_ms == Some(67u32) && !r.servers@[1].active,
            r.current_server is None,
            r.config.raw_config@ == "# Default config"@,
            r.config.format == ConfigFormat::YAML,
            r.rules@.len() == 2,
            r.rules@[0].rule_type@ == "domain"@ && r.rules@[0].pattern@ == "*.ads.google.com"@,
            r.rules@[0].action@ == "block"@ && r.rules@[0].priority == 1 && r.rules@[0].enabled,
            r.rules@[1].rule_type@ == "domain"@ && r.rules@[1].pattern@ == "*.local"@,
            r.rules@[1].action@ == "direct"@ && r.rules@[1].priority == 2 && r.rules@[1].enabled,
            r.logs@.len() == 1,
            r.logs@[0].level == LogLevel::INFO,
            opt_text(r.logs@[0].server_id) == Some("server1"@),
    {
        let now = now_timestamp();
        AppState {
            proxy_status: ProxyStatus {
                connected: false,
                mode: ProxyMode::Global,
                uptime: 0,
                last_error: None,
            },
            stats: TrafficStats {
                bytes_up: 0,
                bytes_down: 0,
                active_connections: 0,
                total_requests: 0,
            },
            servers: vec![
                ProxyServer {
                    id: "server1".to_owned(),
                    name: "Основной сервер".to_owned(),
                    hostname: "proxy.example.com".to_owned(),
                    port: 8080,
                    protocol: "HTTP".to_owned(),
                    latency_ms: Some(45),
                    last_ping: Some(now),
                    active: true,
                },
                ProxyServer {
                    id: "server2".to_owned(),
                    name: "Резервный сервер".to_owned(),
                    hostname: "backup.example.com".to_owned(),
                    port: 8080,
                    protocol: "HTTPS".to_owned(),
                    latency_ms: Some(67),
                    last_ping: Some(now),
                    active: false,
                },
            ],
            current_server: None,
            config: MihomoConfig {
                raw_config: "# Default config".to_owned(),
                format: ConfigFormat::YAML,
                last_modified: now,
            },
            rules: vec![
                Rule {
                    id: "1".to_owned(),
                    name: "Блокировка рекламы".to_owned(),
                    rule_type: "domain".to_owned(),
                    pattern: "*.ads.google.com".to_owned(),
                    action: "block".to_owned(),
                    priority: 1,
                    enabled: true,
                },
                Rule {
                    id: "2".to_owned(),
                    name: "Прямое соединение для локальных сайтов".to_owned(),
                    rule_type: "domain".to_owned(),
                    pattern: "*.local".to_owned(),
                    action: "direct".to_owned(),
                    priority: 2,
                    enabled: true,
                },
            ],
            logs: vec![
                LogEntry {
                    timestamp: now,
                    level: LogLevel::INFO,
                    message: "Прокси сервер запущен".to_owned(),
                    server_id: Some("server1".to_owned()),
                },
            ],
        }
    }
}

} // verus!
