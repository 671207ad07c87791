//! Configuration documents: choosing their format from the file name, checking
//! that they parse, and the built-in default.
use vstd::prelude::*;

use crate::bindings::{json_accepts, json_valid, now_timestamp, yaml_accepts, yaml_valid};
use crate::models::{ConfigFormat, MihomoConfig};
use crate::text::{chars_of, ends_with_chars, has_suffix};

verus! {

#[derive(Debug, Clone, Copy, PartialEq, Eq, Structural)]
pub enum ConfigError {
    /// The document was taken for YAML and does not parse as YAML.
    InvalidYaml,
    /// The document was taken for JSON and does not parse as JSON.
    InvalidJson,
}

/// Files ending in `.yaml` or `.yml` hold YAML; all others JSON.
pub open spec fn format_of(path: Seq<char>) -> ConfigFormat {
    if has_suffix(path, ".yaml"@) || has_suffix(path, ".yml"@) {
        ConfigFormat::YAML
    } else {
        ConfigFormat::JSON
    }
}

pub struct ConfigManager;

impl ConfigManager {
    /// The format of the file at `path`, read from its extension.
    pub fn format_for_path(path: &str) -> (r: ConfigFormat)
        ensures
            r == format_of(path@),
    {
        let p = chars_of(path);
        if ends_with_chars(&p, &chars_of(".yaml")) || ends_with_chars(&p, &chars_of(".yml")) {
            ConfigFormat::YAML
        } else {
            ConfigFormat::JSON
        }
    }

    /// A configuration read from the file at `path` whose text is `content`: the text is
    /// kept as it is once it parses in the format that the file name gives.
    pub fn load_from_text(path: &str, content: String) -> (r: Result<MihomoConfig, ConfigError>)
        ensures
            format_of(path@) == ConfigFormat::YAML ==> (r is Ok <==> yaml_valid(content@)),
            format_of(path@) == ConfigFormat::JSON ==> (r is Ok <==> json_valid(content@)),
            r matches Ok(c) ==> c.raw_config@ == content@ && c.format == format_of(path@),
            r matches Err(e) ==> (e == ConfigError::InvalidYaml <==> format_of(path@)
                == ConfigFormat::YAML),
    {
        let format = Self::format_for_path(path);
        match format {
            ConfigFormat::YAML => {
                if !yaml_accepts(content.as_str()) {
                    return Err(ConfigError::InvalidYaml);
                }
            },
            ConfigFormat::JSON => {
                if !json_accepts(content.as_str()) {
                    return Err(ConfigError::InvalidJson);
                }
            },
        }
        Ok(MihomoConfig { raw_config: content, format, last_modified: now_timestamp() })
    }

    /// The built-in configuration: a YAML document with one sample server, one proxy
    /// group and four rules.
    pub fn get_default_config() -> (r: MihomoConfig)
        ensures
            r.raw_config@ == DEFAULT_CONFIG@,
            r.format == ConfigFormat::YAML,
    {
        MihomoConfig {
            raw_config: DEFAULT_CONFIG.to_owned(),
            format: ConfigFormat::YAML,
            last_modified: now_timestamp(),
        }
    }
}

/// The text of the built-in configuration.
pub const DEFAULT_CONFIG: &'static str = "
port: 7890
socks-port: 7891
allow-lan: false
mode: Rule
log-level: info
external-controller: 127.0.0.1:9090

proxies:
  - name: \"example-server\"
    type: ss
    server: example.com
    port: 443
    cipher: aes-256-gcm
    password: password

proxy-groups:
  - name: \"Proxy\"
    type: select
    proxies:
      - \"example-server\"
      - DIRECT

rules:
  - DOMAIN-SUFFIX,google.com,Proxy
  - DOMAIN-KEYWORD,github,Proxy
  - GEOIP,CN,DIRECT
  - MATCH,Proxy
";

} // verus!
