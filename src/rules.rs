//! Matching a (host, port) pair against an ordered rule list.
use vstd::prelude::*;

use crate::bindings::now_timestamp;
use crate::models::{ConfigFormat, MihomoConfig, ProxyServer, Rule};
use crate::text::{
    chars_of, contains_chars, ends_with_chars, find_char, find_in, has_infix, has_prefix,
    has_suffix, parse_u16_in, same_text, starts_with_chars, u16_value,
};
use vstd::slice::{slice_subrange, slice_to_vec};

verus! {

/// The part of an `ip-cidr` pattern before its first `/`.
pub open spec fn cidr_base(p: Seq<char>) -> Seq<char> {
    p.subrange(0, find_in(p, 0, p.len() as int, '/'))
}

/// Whether the pattern of a rule of the given kind holds of `host` and `port`;
/// `host_is_ip` says whether `host` reads as an IP address.
pub open spec fn pattern_holds(
    kind: Seq<char>,
    pattern: Seq<char>,
    host: Seq<char>,
    port: u16,
    host_is_ip: bool,
) -> bool {
    if kind == "domain"@ {
        pattern == host
    } else if kind == "domain-suffix"@ {
        has_suffix(host, pattern)
    } else if kind == "domain-keyword"@ {
        has_infix(host, pattern)
    } else if kind == "ip-cidr"@ {
        host_is_ip && has_prefix(host, cidr_base(pattern))
    } else if kind == "dst-port"@ {
        u16_value(pattern) == Some(port)
    } else {
        false
    }
}

/// A rule applies when it is enabled and its pattern holds.
pub open spec fn rule_applies(rule: Rule, host: Seq<char>, port: u16, host_is_ip: bool) -> bool {
    rule.enabled && pattern_holds(rule.rule_type@, rule.pattern@, host, port, host_is_ip)
}

/// The position of the first rule at or after `i` that applies.
pub open spec fn first_match_from(
    rules: Seq<Rule>,
    i: int,
    host: Seq<char>,
    port: u16,
    host_is_ip: bool,
) -> Option<int>
    decreases rules.len() - i,
{
    if i < 0 || i >= rules.len() {
        None
    } else if rule_applies(rules[i], host, port, host_is_ip) {
        Some(i)
    } else {
        first_match_from(rules, i + 1, host, port, host_is_ip)
    }
}

pub open spec fn first_match(rules: Seq<Rule>, host: Seq<char>, port: u16, host_is_ip: bool) -> Option<
    int,
> {
    first_match_from(rules, 0, host, port, host_is_ip)
}

/// Whether `rule` applies to `host` and `port`.
pub fn rule_matches(rule: &Rule, host: &str, port: u16, host_is_ip: bool) -> (r: bool)
    ensures
        r == rule_applies(*rule, host@, port, host_is_ip),
{
    if !rule.enabled {
        return false;
    }
    let kind = rule.rule_type.as_str();
    let pattern = chars_of(rule.pattern.as_str());
    let h = chars_of(host);
    proof {
        reveal_strlit("domain");
        reveal_strlit("domain-suffix");
        reveal_strlit("domain-keyword");
        reveal_strlit("ip-cidr");
        reveal_strlit("dst-port");
    }
    if same_text(kind, "domain") {
        same_text(rule.pattern.as_str(), host)
    } else if same_text(kind, "domain-suffix") {
        ends_with_chars(&h, &pattern)
    } else if same_text(kind, "domain-keyword") {
        contains_chars(&h, &pattern)
    } else if same_text(kind, "ip-cidr") {
        if !host_is_ip {
            return false;
        }
        let slash = find_char(&pattern, 0, pattern.len(), '/');
        let base = slice_to_vec(slice_subrange(pattern.as_slice(), 0, slash));
        starts_with_chars(&h, &base)
    } else if same_text(kind, "dst-port") {
        assert(pattern@.subrange(0, pattern@.len() as int) =~= pattern@);
        match parse_u16_in(&pattern, 0, pattern.len()) {
            Some(p) => p == port,
            None => false,
        }
    } else {
        false
    }
}

/// The position of the first enabled rule, in list order, whose pattern holds.
pub fn match_rule(rules: &Vec<Rule>, host: &str, port: u16, host_is_ip: bool) -> (r: Option<
    usize,
>)
    ensures
        match r {
            Some(i) => first_match(rules@, host@, port, host_is_ip) == Some(i as int),
            None => first_match(rules@, host@, port, host_is_ip) is None,
        },
{
    let mut i: usize = 0;
    while i < rules.len()
        invariant
            i <= rules@.len(),
            first_match(rules@, host@, port, host_is_ip) == first_match_from(
                rules@,
                i as int,
                host@,
                port,
                host_is_ip,
            ),
        decreases rules@.len() - i,
    {
        if rule_matches(&rules[i], host, port, host_is_ip) {
            return Some(i);
        }
        i = i + 1;
    }
    None
}

/// The first match is the earliest rule that applies: it is enabled, and no rule before
/// it applies; with no match, no rule applies. Disabled rules are never returned.
pub proof fn lemma_first_match_is_earliest(
    rules: Seq<Rule>,
    host: Seq<char>,
    port: u16,
    host_is_ip: bool,
)
    ensures
        match first_match(rules, host, port, host_is_ip) {
            Some(i) => 0 <= i < rules.len() && rules[i].enabled && rule_applies(
                rules[i],
                host,
                port,
                host_is_ip,
            ) && forall|j: int| 0 <= j < i ==> !rule_applies(#[trigger] rules[j], host, port, host_is_ip),
            None => forall|j: int|
                0 <= j < rules.len() ==> !rule_applies(#[trigger] rules[j], host, port, host_is_ip),
        },
{
    lemma_first_match_from(rules, 0, host, port, host_is_ip);
}

proof fn lemma_first_match_from(
    rules: Seq<Rule>,
    i: int,
    host: Seq<char>,
    port: u16,
    host_is_ip: bool,
)
    requires
        0 <= i <= rules.len(),
    ensures
        match first_match_from(rules, i, host, port, host_is_ip) {
            Some(k) => i <= k < rules.len() && rule_applies(rules[k], host, port, host_is_ip)
                && forall|j: int| i <= j < k ==> !rule_applies(#[trigger] rules[j], host, port, host_is_ip),
            None => forall|j: int|
                i <= j < rules.len() ==> !rule_applies(#[trigger] rules[j], host, port, host_is_ip),
        },
    decreases rules.len() - i,
{
    if i < rules.len() && !rule_applies(rules[i], host, port, host_is_ip) {
        lemma_first_match_from(rules, i + 1, host, port, host_is_ip);
    }
}

/// The listener's view of the configured servers and rules.
pub struct ProxyEngine {
    pub config: MihomoConfig,
    pub servers: Vec<ProxyServer>,
    pub rules: Vec<Rule>,
}

impl ProxyEngine {
    /// An engine with an empty YAML configuration and no servers or rules.
    pub fn new() -> (r: ProxyEngine)
        ensures
            r.config.raw_config@.len() == 0,
            r.config.format == ConfigFormat::YAML,
            r.servers@.len() == 0,
            r.rules@.len() == 0,
    {
        ProxyEngine {
            config: MihomoConfig {
                raw_config: String::new(),
                format: ConfigFormat::YAML,
                last_modified: now_timestamp(),
            },
            servers: Vec::new(),
            rules: Vec::new(),
        }
    }

    /// The first of the engine's rules that applies to `host` and `port`.
    pub fn find_matching_rule(&self, host: &str, port: u16, host_is_ip: bool) -> (r: Option<&Rule>)
        ensures
            match first_match(self.rules@, host@, port, host_is_ip) {
                Some(i) => r == Some(&self.rules@[i]),
                None => r is None,
            },
    {
        proof {
            lemma_first_match_is_earliest(self.rules@, host@, port, host_is_ip);
        }
        match match_rule(&self.rules, host, port, host_is_ip) {
            Some(i) => Some(&self.rules[i]),
            None => None,
        }
    }
}

} // verus!
