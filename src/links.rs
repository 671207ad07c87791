//! Decoding proxy-node links (`vless://`, `vmess://`) and subscription documents
//! that list them one per line.
use vstd::prelude::*;
use vstd::utf8::{decode_utf8, valid_utf8};

use crate::bindings::{
    base64_decode, base64_decoded, fresh_id, json_accepts, json_str_at, json_str_member,
    json_u64_at, json_u64_member, json_valid, percent_decode, percent_decoded, utf8_text,
};
use crate::models::{
    opt_text, opt_texts, ProxyConfig, ProxyProtocol, ProxyServerV2, VlessConfig, VmessConfig,
};
use crate::text::{
    all_digits, chars_of, digits_end, digits_end_at, digits_value, is_ascii_digit,
    lemma_digits_end_at, lemma_find_in_at, lemma_rfind_in_at, find_char, find_in, has_prefix, parse_u16_in, rfind_char,
    rfind_in, split_in, split_text, starts_with_chars, text_between, texts, trim_text, trimmed,
    u16_value,
};

verus! {

#[derive(Debug, Clone, Copy, PartialEq, Eq, Structural)]
pub enum DecodeError {
    /// The link does not follow its scheme's grammar, or a part of it does not decode.
    MalformedLink,
}

/// Decoded `key=value` pairs of a query, in order.
pub type QueryPairs = Seq<(Seq<char>, Seq<char>)>;

/// The pairs of a query split at `&`: pieces without `=` are left out, the rest are cut
/// at their first `=` and both halves percent-decoded; `None` where one does not decode.
pub open spec fn query_pairs(pieces: Seq<Seq<char>>) -> Option<QueryPairs>
    decreases pieces.len(),
{
    if pieces.len() == 0 {
        Some(Seq::empty())
    } else {
        match query_pairs(pieces.drop_last()) {
            None => None,
            Some(ps) => {
                let p = pieces.last();
                let e = find_in(p, 0, p.len() as int, '=');
                if e < p.len() {
                    match (percent_decoded(p.subrange(0, e)), percent_decoded(
                        p.subrange(e + 1, p.len() as int),
                    )) {
                        (Some(k), Some(v)) => Some(ps.push((k, v))),
                        _ => None,
                    }
                } else {
                    Some(ps)
                }
            },
        }
    }
}

/// The value of the last pair with the given key.
pub open spec fn lookup(ps: QueryPairs, key: Seq<char>) -> Option<Seq<char>>
    decreases ps.len(),
{
    if ps.len() == 0 {
        None
    } else if ps.last().0 == key {
        Some(ps.last().1)
    } else {
        lookup(ps.drop_last(), key)
    }
}

pub open spec fn or_default(o: Option<Seq<char>>, d: Seq<char>) -> Seq<char> {
    match o {
        Some(s) => s,
        None => d,
    }
}

/// A comma-separated list, split into its items.
pub open spec fn comma_list(o: Option<Seq<char>>) -> Option<Seq<Seq<char>>> {
    match o {
        Some(s) => Some(split_in(s, 0, s.len() as int, ',')),
        None => None,
    }
}

pub open spec fn pair_views(v: Seq<(String, String)>) -> QueryPairs {
    v.map_values(|p: (String, String)| (p.0@, p.1@))
}

/// Where the parts of `vless://<uuid>@<host>:<port>?<query>#<name>` lie in `s`: the
/// positions of `@`, `:`, `?` and `#` and the end of the first line. The uuid runs to the
/// first `@`, the host to the next `:`, the port is a run of digits ended by `?`, and the
/// query runs to the last `#` of the line.
pub open spec fn vless_layout(s: Seq<char>) -> Option<(int, int, int, int, int)> {
    let n = s.len() as int;
    let start = "vless://"@.len() as int;
    let at = find_in(s, start, n, '@');
    let colon = find_in(s, at + 1, n, ':');
    let qmark = digits_end(s, colon + 1, n);
    let eol = find_in(s, qmark + 1, n, '\n');
    let hash = rfind_in(s, qmark + 1, eol, '#');
    if has_prefix(s, "vless://"@) && start < at < n && at + 1 < colon < n && colon + 1 < qmark < n
        && s[qmark] == '?' && hash >= 0 {
        Some((at, colon, qmark, hash, eol))
    } else {
        None
    }
}

/// Whether a `vless://` link decodes.
pub open spec fn vless_decodes(s: Seq<char>) -> bool {
    match vless_layout(s) {
        None => false,
        Some((at, colon, qmark, hash, eol)) => {
            &&& u16_value(s.subrange(colon + 1, qmark)) is Some
            &&& percent_decoded(s.subrange(hash + 1, eol)) is Some
            &&& query_pairs(split_in(s, qmark + 1, hash, '&')) is Some
        },
    }
}

/// The fields that a freshly decoded node leaves unset.
pub open spec fn fresh_node(n: ProxyServerV2) -> bool {
    &&& n.latency_ms is None
    &&& n.last_ping is None
    &&& !n.active
    &&& n.country is None
    &&& n.city is None
    &&& n.upload_speed is None
    &&& n.download_speed is None
    &&& n.subscription_id is None
}

/// The VLESS settings that a query gives.
pub open spec fn vless_config_from(ps: QueryPairs, uuid: Seq<char>, c: VlessConfig) -> bool {
    &&& c.uuid@ == uuid
    &&& opt_text(c.flow) == lookup(ps, "flow"@)
    &&& c.encryption@ == or_default(lookup(ps, "encryption"@), "none"@)
    &&& c.network@ == or_default(lookup(ps, "type"@), "tcp"@)
    &&& c.security@ == or_default(lookup(ps, "security"@), "none"@)
    &&& opt_text(c.sni) == lookup(ps, "sni"@)
    &&& opt_texts(c.alpn) == comma_list(lookup(ps, "alpn"@))
    &&& opt_text(c.fp) == lookup(ps, "fp"@)
    &&& opt_text(c.pbk) == lookup(ps, "pbk"@)
    &&& opt_text(c.sid) == lookup(ps, "sid"@)
    &&& opt_text(c.spx) == lookup(ps, "spx"@)
}

/// `n` is what the `vless://` link `s` decodes to, but for its generated id.
pub open spec fn vless_node(s: Seq<char>, n: ProxyServerV2) -> bool {
    match vless_layout(s) {
        None => false,
        Some((at, colon, qmark, hash, eol)) => {
            let ps = query_pairs(split_in(s, qmark + 1, hash, '&'))->0;
            &&& vless_decodes(s)
            &&& n.name@ == percent_decoded(s.subrange(hash + 1, eol))->0
            &&& n.hostname@ == s.subrange(at + 1, colon)
            &&& u16_value(s.subrange(colon + 1, qmark)) == Some(n.port)
            &&& n.protocol == ProxyProtocol::VLESS
            &&& n.config is Vless
            &&& vless_config_from(ps, s.subrange("vless://"@.len() as int, at), n.config->Vless_0)
            &&& n.id@.len() == 36
            &&& fresh_node(n)
        },
    }
}

/// The JSON text that a `vmess://` link carries: its payload, base64-decoded, as UTF-8.
pub open spec fn vmess_text(s: Seq<char>) -> Option<Seq<char>> {
    if has_prefix(s, "vmess://"@) {
        match base64_decoded(s.subrange("vmess://"@.len() as int, s.len() as int)) {
            Some(b) => if valid_utf8(b) {
                Some(decode_utf8(b))
            } else {
                None
            },
            None => None,
        }
    } else {
        None
    }
}

/// Whether a `vmess://` link decodes.
pub open spec fn vmess_decodes(s: Seq<char>) -> bool {
    vmess_text(s) matches Some(t) && json_valid(t)
}

/// A 64-bit number cut to its low 16 bits.
pub open spec fn low16(x: u64) -> u16 {
    (x % 65536) as u16
}

pub open spec fn u64_or(o: Option<u64>, d: u64) -> u64 {
    match o {
        Some(x) => x,
        None => d,
    }
}

/// The VMess settings that the members of a JSON document give.
pub open spec fn vmess_config_from(t: Seq<char>, c: VmessConfig) -> bool {
    &&& c.uuid@ == or_default(json_str_at(t, "id"@), ""@)
    &&& c.alter_id == low16(u64_or(json_u64_at(t, "aid"@), 0))
    &&& c.security@ == or_default(json_str_at(t, "scy"@), "auto"@)
    &&& c.network@ == or_default(json_str_at(t, "net"@), "tcp"@)
    &&& c.tls == (json_str_at(t, "tls"@) == Some("tls"@))
    &&& opt_text(c.sni) == json_str_at(t, "sni"@)
    &&& opt_texts(c.alpn) == comma_list(json_str_at(t, "alpn"@))
}

/// `n` is what the members of the JSON document `t` describe, but for its generated id.
pub open spec fn vmess_node_from(t: Seq<char>, n: ProxyServerV2) -> bool {
    &&& n.name@ == or_default(json_str_at(t, "ps"@), "VMess Server"@)
    &&& n.hostname@ == or_default(json_str_at(t, "add"@), ""@)
    &&& n.port == low16(u64_or(json_u64_at(t, "port"@), 443))
    &&& n.protocol == ProxyProtocol::VMess
    &&& n.config is Vmess
    &&& vmess_config_from(t, n.config->Vmess_0)
    &&& n.id@.len() == 36
    &&& fresh_node(n)
}

/// `n` is what the `vmess://` link `s` decodes to, but for its generated id.
pub open spec fn vmess_node(s: Seq<char>, n: ProxyServerV2) -> bool {
    vmess_decodes(s) && vmess_node_from(vmess_text(s)->0, n)
}

/// Whether a link of either scheme decodes; the scheme is read from its prefix.
pub open spec fn link_decodes(s: Seq<char>) -> bool {
    if has_prefix(s, "vless://"@) {
        vless_decodes(s)
    } else if has_prefix(s, "vmess://"@) {
        vmess_decodes(s)
    } else {
        false
    }
}

/// `n` is what the link `s` decodes to, but for its generated id.
pub open spec fn link_node(s: Seq<char>, n: ProxyServerV2) -> bool {
    if has_prefix(s, "vless://"@) {
        vless_node(s, n)
    } else {
        vmess_node(s, n)
    }
}

/// The text of a subscription document: the base64 decoding of the whole body where that
/// succeeds and gives UTF-8, else the body as it is.
pub open spec fn subscription_text(body: Seq<char>) -> Seq<char> {
    match base64_decoded(body) {
        Some(b) => if valid_utf8(b) {
            decode_utf8(b)
        } else {
            body
        },
        None => body,
    }
}

/// The trimmed lines that decode, in order.
pub open spec fn kept_lines(lines: Seq<Seq<char>>) -> Seq<Seq<char>>
    decreases lines.len(),
{
    if lines.len() == 0 {
        Seq::empty()
    } else {
        let rest = kept_lines(lines.drop_last());
        let t = trimmed(lines.last());
        if link_decodes(t) {
            rest.push(t)
        } else {
            rest
        }
    }
}

/// The links of a subscription document that decode, in order.
pub open spec fn subscription_links(body: Seq<char>) -> Seq<Seq<char>> {
    let t = subscription_text(body);
    kept_lines(split_in(t, 0, t.len() as int, '\n'))
}

proof fn lemma_query_pairs_fail(pieces: Seq<Seq<char>>, k: int)
    requires
        0 <= k <= pieces.len(),
        query_pairs(pieces.subrange(0, k)) is None,
    ensures
        query_pairs(pieces) is None,
    decreases pieces.len() - k,
{
    if k < pieces.len() {
        assert(pieces.subrange(0, k + 1).drop_last() =~= pieces.subrange(0, k));
        lemma_query_pairs_fail(pieces, k + 1);
    } else {
        assert(pieces.subrange(0, k) =~= pieces);
    }
}

/// Decodes the `key=value` pairs of the query `v[lo..hi]`.
fn parse_query_params(v: &Vec<char>, lo: usize, hi: usize) -> (r: Option<Vec<(String, String)>>)
    requires
        lo <= hi <= v@.len(),
    ensures
        match r {
            Some(ps) => query_pairs(split_in(v@, lo as int, hi as int, '&')) == Some(
                pair_views(ps@),
            ),
            None => query_pairs(split_in(v@, lo as int, hi as int, '&')) is None,
        },
{
    let pieces = split_text(v, lo, hi, '&');
    let ghost all = split_in(v@, lo as int, hi as int, '&');
    let mut out: Vec<(String, String)> = Vec::new();
    let mut k: usize = 0;
    assert(all.subrange(0, 0) =~= Seq::<Seq<char>>::empty());
    assert(pair_views(out@) =~= Seq::<(Seq<char>, Seq<char>)>::empty());
    while k < pieces.len()
        invariant
            k <= pieces@.len(),
            all == split_in(v@, lo as int, hi as int, '&'),
            texts(pieces@) == all,
            all.len() == pieces@.len(),
            query_pairs(all.subrange(0, k as int)) == Some(pair_views(out@)),
        decreases pieces@.len() - k,
    {
        let p = chars_of(pieces[k].as_str());
        assert(p@ == all[k as int]);
        assert(all.subrange(0, k + 1).drop_last() =~= all.subrange(0, k as int));
        assert(all.subrange(0, k + 1).last() == all[k as int]);
        let e = find_char(&p, 0, p.len(), '=');
        if e < p.len() {
            let key = percent_decode(text_between(&p, 0, e).as_str());
            let val = percent_decode(text_between(&p, e + 1, p.len()).as_str());
            match (key, val) {
                (Some(kk), Some(vv)) => {
                    let ghost before = out@;
                    out.push((kk, vv));
                    assert(pair_views(out@) =~= pair_views(before).push((kk@, vv@)));
                },
                _ => {
                    proof {
                        assert(query_pairs(all.subrange(0, k + 1)) is None);
                        lemma_query_pairs_fail(all, k + 1);
                    }
                    return None;
                },
            }
        }
        k = k + 1;
    }
    assert(all.subrange(0, k as int) =~= all);
    Some(out)
}

/// The value of the last pair with the given key.
fn lookup_param(ps: &Vec<(String, String)>, key: &str) -> (r: Option<String>)
    ensures
        opt_text(r) == lookup(pair_views(ps@), key@),
{
    let ghost all = pair_views(ps@);
    let k = chars_of(key);
    let mut i: usize = ps.len();
    assert(all.subrange(0, i as int) =~= all);
    while i > 0
        invariant
            i <= ps@.len(),
            all == pair_views(ps@),
            k@ == key@,
            lookup(all, key@) == lookup(all.subrange(0, i as int), key@),
        decreases i,
    {
        let pk = chars_of(ps[i - 1].0.as_str());
        assert(all.subrange(0, i as int).drop_last() =~= all.subrange(0, i - 1));
        assert(all.subrange(0, i as int).last() == (ps@[i - 1].0@, ps@[i - 1].1@));
        if pk.len() == k.len() && starts_with_chars(&pk, &k) {
            assert(pk@.subrange(0, k@.len() as int) =~= pk@);
            return Some(ps[i - 1].1.clone());
        }
        proof {
            if pk@ == k@ {
                assert(pk@.subrange(0, k@.len() as int) =~= pk@);
            }
        }
        i = i - 1;
    }
    None
}

/// The value of the last pair with the given key, or `default` where none has it.
fn param_or(ps: &Vec<(String, String)>, key: &str, default: &str) -> (r: String)
    ensures
        r@ == or_default(lookup(pair_views(ps@), key@), default@),
{
    match lookup_param(ps, key) {
        Some(v) => v,
        None => default.to_owned(),
    }
}

/// Splits an optional comma-separated list into its items.
fn split_list(o: Option<String>) -> (r: Option<Vec<String>>)
    ensures
        opt_texts(r) == comma_list(opt_text(o)),
{
    match o {
        Some(s) => {
            let v = chars_of(s.as_str());
            let items = split_text(&v, 0, v.len(), ',');
            Some(items)
        },
        None => None,
    }
}

pub struct SubscriptionParser;

impl SubscriptionParser {
    pub fn new() -> SubscriptionParser {
        SubscriptionParser
    }

    /// Decodes a `vless://<uuid>@<host>:<port>?<query>#<name>` link.
    pub fn parse_vless_url(&self, url: &str) -> (r: Result<ProxyServerV2, DecodeError>)
        ensures
            r is Ok <==> vless_decodes(url@),
            r matches Ok(n) ==> vless_node(url@, n) && n.wf(),
            r matches Err(e) ==> e == DecodeError::MalformedLink,
    {
        let v = chars_of(url);
        let n = v.len();
        let prefix = chars_of("vless://");
        if !starts_with_chars(&v, &prefix) {
            return Err(DecodeError::MalformedLink);
        }
        let start = prefix.len();
        let at = find_char(&v, start, n, '@');
        if !(start < at && at < n) {
            return Err(DecodeError::MalformedLink);
        }
        let colon = find_char(&v, at + 1, n, ':');
        if !(at + 1 < colon && colon < n) {
            return Err(DecodeError::MalformedLink);
        }
        let qmark = digits_end_at(&v, colon + 1, n);
        if !(colon + 1 < qmark && qmark < n && v[qmark] == '?') {
            return Err(DecodeError::MalformedLink);
        }
        let eol = find_char(&v, qmark + 1, n, '\n');
        let hash = match rfind_char(&v, qmark + 1, eol, '#') {
            Some(h) => h,
            None => {
                return Err(DecodeError::MalformedLink);
            },
        };
        let port = match parse_u16_in(&v, colon + 1, qmark) {
            Some(p) => p,
            None => {
                return Err(DecodeError::MalformedLink);
            },
        };
        let name = match percent_decode(text_between(&v, hash + 1, eol).as_str()) {
            Some(s) => s,
            None => {
                return Err(DecodeError::MalformedLink);
            },
        };
        let ps = match parse_query_params(&v, qmark + 1, hash) {
            Some(ps) => ps,
            None => {
                return Err(DecodeError::MalformedLink);
            },
        };
        let config = VlessConfig {
            uuid: text_between(&v, start, at),
            flow: lookup_param(&ps, "flow"),
            encryption: param_or(&ps, "encryption", "none"),
            network: param_or(&ps, "type", "tcp"),
            security: param_or(&ps, "security", "none"),
            sni: lookup_param(&ps, "sni"),
            alpn: split_list(lookup_param(&ps, "alpn")),
            fp: lookup_param(&ps, "fp"),
            pbk: lookup_param(&ps, "pbk"),
            sid: lookup_param(&ps, "sid"),
            spx: lookup_param(&ps, "spx"),
        };
        Ok(ProxyServerV2 {
            id: fresh_id(),
            name,
            hostname: text_between(&v, at + 1, colon),
            port,
            protocol: ProxyProtocol::VLESS,
            config: ProxyConfig::Vless(config),
            latency_ms: None,
            last_ping: None,
            active: false,
            country: None,
            city: None,
            upload_speed: None,
            download_speed: None,
            subscription_id: None,
        })
    }

    /// Decodes a `vmess://` link: base64 of a UTF-8 JSON document whose members give
    /// the node; absent members take their defaults.
    pub fn parse_vmess_url(&self, url: &str) -> (r: Result<ProxyServerV2, DecodeError>)
        ensures
            r is Ok <==> vmess_decodes(url@),
            r matches Ok(n) ==> vmess_node(url@, n) && n.wf(),
            r matches Err(e) ==> e == DecodeError::MalformedLink,
    {
        let v = chars_of(url);
        let prefix = chars_of("vmess://");
        if !starts_with_chars(&v, &prefix) {
            return Err(DecodeError::MalformedLink);
        }
        let payload = text_between(&v, prefix.len(), v.len());
        let bytes = match base64_decode(payload.as_str()) {
            Some(b) => b,
            None => {
                return Err(DecodeError::MalformedLink);
            },
        };
        let json = match utf8_text(bytes) {
            Some(t) => t,
            None => {
                return Err(DecodeError::MalformedLink);
            },
        };
        if !json_accepts(json.as_str()) {
            return Err(DecodeError::MalformedLink);
        }
        let t = json.as_str();
        let alter_id = match json_u64_member(t, "aid") {
            Some(x) => (x % 65536) as u16,
            None => 0,
        };
        let port = match json_u64_member(t, "port") {
            Some(x) => (x % 65536) as u16,
            None => 443,
        };
        let tls = match json_str_member(t, "tls") {
            Some(s) => {
                proof {
                    reveal_strlit("tls");
                }
                crate::text::same_text(s.as_str(), "tls")
            },
            None => false,
        };
        let config = VmessConfig {
            uuid: str_member_or(t, "id", ""),
            alter_id,
            security: str_member_or(t, "scy", "auto"),
            network: str_member_or(t, "net", "tcp"),
            tls,
            sni: json_str_member(t, "sni"),
            alpn: split_list(json_str_member(t, "alpn")),
        };
        Ok(ProxyServerV2 {
            id: fresh_id(),
            name: str_member_or(t, "ps", "VMess Server"),
            hostname: str_member_or(t, "add", ""),
            port,
            protocol: ProxyProtocol::VMess,
            config: ProxyConfig::Vmess(config),
            latency_ms: None,
            last_ping: None,
            active: false,
            country: None,
            city: None,
            upload_speed: None,
            download_speed: None,
            subscription_id: None,
        })
    }

    /// Decodes a link of either scheme, chosen by its prefix.
    pub fn decode_link(&self, line: &str) -> (r: Result<ProxyServerV2, DecodeError>)
        ensures
            r is Ok <==> link_decodes(line@),
            r matches Ok(n) ==> link_node(line@, n) && n.wf(),
    {
        let v = chars_of(line);
        if starts_with_chars(&v, &chars_of("vless://")) {
            self.parse_vless_url(line)
        } else if starts_with_chars(&v, &chars_of("vmess://")) {
            self.parse_vmess_url(line)
        } else {
            Err(DecodeError::MalformedLink)
        }
    }

    /// The nodes of a subscription document, in the order of their lines. Lines that are
    /// blank, of another scheme, or that do not decode are skipped.
    pub fn parse_subscription(&self, body: &str) -> (r: Vec<ProxyServerV2>)
        ensures
            r@.len() == subscription_links(body@).len(),
            forall|k: int|
                0 <= k < r@.len() ==> link_node(subscription_links(body@)[k], #[trigger] r@[k])
                    && r@[k].wf(),
    {
        let text = match base64_decode(body) {
            Some(b) => match utf8_text(b) {
                Some(t) => t,
                None => body.to_owned(),
            },
            None => body.to_owned(),
        };
        let tv = chars_of(text.as_str());
        let lines = split_text(&tv, 0, tv.len(), '\n');
        let ghost all = split_in(tv@, 0, tv@.len() as int, '\n');
        let mut out: Vec<ProxyServerV2> = Vec::new();
        let mut k: usize = 0;
        assert(all.subrange(0, 0) =~= Seq::<Seq<char>>::empty());
        while k < lines.len()
            invariant
                k <= lines@.len(),
                texts(lines@) == all,
                all.len() == lines@.len(),
                tv@ == subscription_text(body@),
                out@.len() == kept_lines(all.subrange(0, k as int)).len(),
                forall|j: int|
                    0 <= j < out@.len() ==> link_node(
                        kept_lines(all.subrange(0, k as int))[j],
                        #[trigger] out@[j],
                    ) && out@[j].wf(),
            decreases lines@.len() - k,
        {
            let ghost before = out@;
            let ghost prev = kept_lines(all.subrange(0, k as int));
            assert(all.subrange(0, k + 1).drop_last() =~= all.subrange(0, k as int));
            assert(all.subrange(0, k + 1).last() == all[k as int]);
            assert(lines@[k as int]@ == all[k as int]);
            let line = trim_text(lines[k].as_str());
            match self.decode_link(line.as_str()) {
                Ok(node) => {
                    out.push(node);
                    assert(kept_lines(all.subrange(0, k + 1)) == prev.push(line@));
                    assert forall|j: int| 0 <= j < out@.len() implies link_node(
                        kept_lines(all.subrange(0, k + 1))[j],
                        #[trigger] out@[j],
                    ) && out@[j].wf() by {
                        if j < before.len() {
                            assert(out@[j] == before[j]);
                        }
                    }
                },
                Err(_) => {
                    assert(kept_lines(all.subrange(0, k + 1)) == prev);
                },
            }
            k = k + 1;
        }
        assert(all.subrange(0, k as int) =~= all);
        out
    }
}

/// The string member `key` of the JSON document `t`, or `default` where it has none.
fn str_member_or(t: &str, key: &str, default: &str) -> (r: String)
    ensures
        r@ == or_default(json_str_at(t@, key@), default@),
{
    match json_str_member(t, key) {
        Some(s) => s,
        None => default.to_owned(),
    }
}

/// Two configurations hold the same settings.
pub open spec fn same_config(a: ProxyConfig, b: ProxyConfig) -> bool {
    match (a, b) {
        (ProxyConfig::Http, ProxyConfig::Http) => true,
        (ProxyConfig::Https, ProxyConfig::Https) => true,
        (ProxyConfig::Socks5, ProxyConfig::Socks5) => true,
        (ProxyConfig::Vless(x), ProxyConfig::Vless(y)) => {
            &&& x.uuid@ == y.uuid@
            &&& opt_text(x.flow) == opt_text(y.flow)
            &&& x.encryption@ == y.encryption@
            &&& x.network@ == y.network@
            &&& x.security@ == y.security@
            &&& opt_text(x.sni) == opt_text(y.sni)
            &&& opt_texts(x.alpn) == opt_texts(y.alpn)
            &&& opt_text(x.fp) == opt_text(y.fp)
            &&& opt_text(x.pbk) == opt_text(y.pbk)
            &&& opt_text(x.sid) == opt_text(y.sid)
            &&& opt_text(x.spx) == opt_text(y.spx)
        },
        (ProxyConfig::Vmess(x), ProxyConfig::Vmess(y)) => {
            &&& x.uuid@ == y.uuid@
            &&& x.alter_id == y.alter_id
            &&& x.security@ == y.security@
            &&& x.network@ == y.network@
            &&& x.tls == y.tls
            &&& opt_text(x.sni) == opt_text(y.sni)
            &&& opt_texts(x.alpn) == opt_texts(y.alpn)
        },
        (ProxyConfig::Trojan { password: p }, ProxyConfig::Trojan { password: q }) => p@ == q@,
        (
            ProxyConfig::Shadowsocks { method: m1, password: p1 },
            ProxyConfig::Shadowsocks { method: m2, password: p2 },
        ) => m1@ == m2@ && p1@ == p2@,
        _ => false,
    }
}

/// Two nodes agree in every field but their ids.
pub open spec fn same_but_id(a: ProxyServerV2, b: ProxyServerV2) -> bool {
    &&& a.name@ == b.name@
    &&& a.hostname@ == b.hostname@
    &&& a.port == b.port
    &&& a.protocol == b.protocol
    &&& same_config(a.config, b.config)
    &&& a.latency_ms == b.latency_ms
    &&& a.last_ping == b.last_ping
    &&& a.active == b.active
    &&& opt_text(a.country) == opt_text(b.country)
    &&& opt_text(a.city) == opt_text(b.city)
    &&& a.upload_speed == b.upload_speed
    &&& a.download_speed == b.download_speed
    &&& opt_text(a.subscription_id) == opt_text(b.subscription_id)
}

/// Decoding one link twice gives two nodes that differ at most in their generated ids.
pub proof fn lemma_decode_twice(s: Seq<char>, a: ProxyServerV2, b: ProxyServerV2)
    requires
        link_node(s, a),
        link_node(s, b),
    ensures
        same_but_id(a, b),
{
}

/// A VMess link whose JSON document has the members `id`, `add`, `port` and `ps`, and no
/// `scy`, decodes to a node with that uuid, host, port and name, and security `auto`.
pub proof fn lemma_vmess_link_fields(
    payload: Seq<char>,
    bytes: Seq<u8>,
    u: Seq<char>,
    h: Seq<char>,
    port: u64,
    name: Seq<char>,
)
    requires
        base64_decoded(payload) == Some(bytes),
        valid_utf8(bytes),
        json_valid(decode_utf8(bytes)),
        json_str_at(decode_utf8(bytes), "id"@) == Some(u),
        json_str_at(decode_utf8(bytes), "add"@) == Some(h),
        json_u64_at(decode_utf8(bytes), "port"@) == Some(port),
        json_str_at(decode_utf8(bytes), "ps"@) == Some(name),
        json_str_at(decode_utf8(bytes), "scy"@) is None,
        port <= 65535,
    ensures
        vmess_decodes("vmess://"@ + payload),
        forall|n: ProxyServerV2| #[trigger]
            vmess_node("vmess://"@ + payload, n) ==> {
                &&& n.hostname@ == h
                &&& n.port == port
                &&& n.protocol == ProxyProtocol::VMess
                &&& n.config is Vmess
                &&& n.config->Vmess_0.uuid@ == u
                &&& n.config->Vmess_0.security@ == "auto"@
                &&& n.name@ == name
            },
{
    let s = "vmess://"@ + payload;
    assert(s.subrange(0, "vmess://"@.len() as int) =~= "vmess://"@);
    assert(s.subrange("vmess://"@.len() as int, s.len() as int) =~= payload);
    assert(port % 65536 == port);
}

proof fn lemma_flow_security_query(x: Seq<char>, y: Seq<char>)
    requires
        percent_decoded("flow"@) == Some("flow"@),
        percent_decoded("security"@) == Some("security"@),
        percent_decoded(x) == Some(x),
        percent_decoded(y) == Some(y),
    ensures
        ({
            let ps = query_pairs(seq!["flow"@ + seq!['='] + x, "security"@ + seq!['='] + y]);
            &&& ps is Some
            &&& lookup(ps->0, "flow"@) == Some(x)
            &&& lookup(ps->0, "security"@) == Some(y)
        }),
{
    reveal_strlit("flow");
    reveal_strlit("security");
    let p1 = "flow"@ + seq!['='] + x;
    let p2 = "security"@ + seq!['='] + y;
    lemma_find_in_at(p1, 0, p1.len() as int, '=', 4);
    assert(p1.subrange(0, 4) =~= "flow"@);
    assert(p1.subrange(5, p1.len() as int) =~= x);
    lemma_find_in_at(p2, 0, p2.len() as int, '=', 8);
    assert(p2.subrange(0, 8) =~= "security"@);
    assert(p2.subrange(9, p2.len() as int) =~= y);
    assert(seq![p1, p2].drop_last() =~= seq![p1]);
    assert(seq![p1].drop_last() =~= Seq::<Seq<char>>::empty());
    assert(query_pairs(Seq::<Seq<char>>::empty()) == Some(Seq::<(Seq<char>, Seq<char>)>::empty()));
    let one = seq![("flow"@, x)];
    let ps = seq![("flow"@, x), ("security"@, y)];
    assert(Seq::<(Seq<char>, Seq<char>)>::empty().push(("flow"@, x)) =~= one);
    assert(query_pairs(seq![p1]) == Some(one));
    assert(one.push(("security"@, y)) =~= ps);
    assert(query_pairs(seq![p1, p2]) == Some(ps));
    assert(ps.drop_last() =~= one);
    assert(one.drop_last() =~= Seq::<(Seq<char>, Seq<char>)>::empty());
    assert("security"@ != "flow"@);
    assert(lookup(one, "flow"@) == Some(x));
    assert(lookup(ps, "flow"@) == Some(x));
    assert(lookup(ps, "security"@) == Some(y));
}

/// The link `vless://<u>@<h>:<p>?flow=<x>&security=<y>#<name>`.
pub open spec fn vless_link_of(
    u: Seq<char>,
    h: Seq<char>,
    p: Seq<char>,
    x: Seq<char>,
    y: Seq<char>,
    name: Seq<char>,
) -> Seq<char> {
    "vless://"@ + u + seq!['@'] + h + seq![':'] + p + seq!['?'] + "flow"@ + seq!['='] + x + seq![
        '&',
    ] + "security"@ + seq!['='] + y + seq!['#'] + name
}

/// A VLESS link with a uuid, a host, a decimal port, `flow` and `security` parameters and
/// a name decodes to a node with those fields; the name is percent-decoded. The
/// parameter values and their keys are taken to be free of escapes.
pub proof fn lemma_vless_link_fields(
    u: Seq<char>,
    h: Seq<char>,
    p: Seq<char>,
    x: Seq<char>,
    y: Seq<char>,
    name: Seq<char>,
)
    requires
        u.len() > 0,
        forall|i: int| 0 <= i < u.len() ==> u[i] != '@',
        h.len() > 0,
        forall|i: int| 0 <= i < h.len() ==> h[i] != ':',
        p.len() > 0,
        all_digits(p),
        digits_value(p) <= 65535,
        forall|i: int| 0 <= i < x.len() ==> x[i] != '&' && x[i] != '\n',
        forall|i: int| 0 <= i < y.len() ==> y[i] != '&' && y[i] != '\n',
        forall|i: int| 0 <= i < name.len() ==> name[i] != '#' && name[i] != '\n',
        percent_decoded("flow"@) == Some("flow"@),
        percent_decoded("security"@) == Some("security"@),
        percent_decoded(x) == Some(x),
        percent_decoded(y) == Some(y),
        percent_decoded(name) is Some,
    ensures
        vless_decodes(vless_link_of(u, h, p, x, y, name)),
        forall|n: ProxyServerV2| #[trigger]
            vless_node(vless_link_of(u, h, p, x, y, name), n) ==> {
                &&& n.hostname@ == h
                &&& n.port as nat == digits_value(p)
                &&& n.protocol == ProxyProtocol::VLESS
                &&& n.config is Vless
                &&& n.config->Vless_0.uuid@ == u
                &&& opt_text(n.config->Vless_0.flow) == Some(x)
                &&& n.config->Vless_0.security@ == y
                &&& n.name@ == percent_decoded(name)->0
            },
{
    reveal_strlit("vless://");
    reveal_strlit("flow");
    reveal_strlit("security");
    let s = vless_link_of(u, h, p, x, y, name);
    let n = s.len() as int;
    let at = 8 + u.len() as int;
    let colon = at + 1 + h.len() as int;
    let qmark = colon + 1 + p.len() as int;
    let f = qmark + 1;
    let amp = f + 5 + x.len() as int;
    let hash = amp + 10 + y.len() as int;
    assert(n == hash + 1 + name.len());
    assert(s.subrange(0, 8) =~= "vless://"@);
    assert(s.subrange(8, at) =~= u);
    assert(s[at] == '@');
    assert(s.subrange(at + 1, colon) =~= h);
    assert(s[colon] == ':');
    assert(s.subrange(colon + 1, qmark) =~= p);
    assert(s[qmark] == '?');
    let p1 = "flow"@ + seq!['='] + x;
    let p2 = "security"@ + seq!['='] + y;
    assert(s.subrange(f, amp) =~= p1);
    assert(s[amp] == '&');
    assert(s.subrange(amp + 1, hash) =~= p2);
    assert(s[hash] == '#');
    assert(s.subrange(hash + 1, n) =~= name);
    // the positions that the layout finds
    assert forall|k: int| 8 <= k < at implies s[k] != '@' by {
        assert(s.subrange(8, at)[k - 8] == s[k]);
    }
    lemma_find_in_at(s, 8, n, '@', at);
    assert forall|k: int| at + 1 <= k < colon implies s[k] != ':' by {
        assert(s.subrange(at + 1, colon)[k - at - 1] == s[k]);
    }
    lemma_find_in_at(s, at + 1, n, ':', colon);
    assert forall|k: int| colon + 1 <= k < qmark implies is_ascii_digit(s[k]) by {
        assert(s.subrange(colon + 1, qmark)[k - colon - 1] == s[k]);
    }
    lemma_digits_end_at(s, colon + 1, n, qmark);
    assert forall|k: int| qmark + 1 <= k < n implies s[k] != '\n' by {
        if k < amp {
            assert(s.subrange(f, amp)[k - f] == s[k]);
        } else if amp < k < hash {
            assert(s.subrange(amp + 1, hash)[k - amp - 1] == s[k]);
        } else if k > hash {
            assert(s.subrange(hash + 1, n)[k - hash - 1] == s[k]);
        }
    }
    lemma_find_in_at(s, qmark + 1, n, '\n', n);
    assert forall|k: int| hash < k < n implies s[k] != '#' by {
        assert(s.subrange(hash + 1, n)[k - hash - 1] == s[k]);
    }
    lemma_rfind_in_at(s, qmark + 1, n, '#', hash);
    assert(vless_layout(s) == Some((at, colon, qmark, hash, n)));
    // the port
    assert(u16_value(p) == Some(digits_value(p) as u16));
    // the query splits into two pieces at the one `&`
    assert forall|k: int| f <= k < amp implies s[k] != '&' by {
        assert(s.subrange(f, amp)[k - f] == s[k]);
    }
    lemma_find_in_at(s, f, hash, '&', amp);
    assert forall|k: int| amp + 1 <= k < hash implies s[k] != '&' by {
        assert(s.subrange(amp + 1, hash)[k - amp - 1] == s[k]);
    }
    lemma_find_in_at(s, amp + 1, hash, '&', hash);
    assert(split_in(s, amp + 1, hash, '&') == seq![s.subrange(amp + 1, hash)]);
    assert(split_in(s, f, hash, '&') =~= seq![p1, p2]);
    lemma_flow_security_query(x, y);
    assert(vless_decodes(s));
}

} // verus!
