//! The settings that the check reads.

use vstd::prelude::*;

use crate::text;

verus! {

/// Telegram proxy secrets carry 16 bytes of key.
pub const SECRET_KEY_LEN: usize = 16;

/// The data centre that every probe speaks to, as a representative one.
pub const PROBE_DC: i16 = 2;

/// The framing that a handshake announces.
#[derive(Debug, Clone, Copy, PartialEq, Eq)]
pub enum ProtoTag {
    Intermediate,
    PaddedIntermediate,
}

/// An upstream MTProto proxy.
#[derive(Debug)]
pub struct MtProtoProxy {
    pub host: String,
    pub port: u16,
    /// The secret as configured, in hexadecimal.
    pub secret: String,
    /// The key that the secret decodes to.
    pub secret_key: Vec<u8>,
    /// The host name that a FakeTLS secret carries.
    pub faketls_hostname: Option<String>,
}

/// What the check reads of the proxy's configuration. Timeouts are in seconds.
#[derive(Debug)]
pub struct Config {
    pub cf_domains: Vec<String>,
    pub cf_worker_domains: Vec<String>,
    pub mtproto_proxies: Vec<MtProtoProxy>,
    pub check_listener: bool,
    pub bind_host: String,
    pub port: u16,
    /// The decoded key of each configured secret, with any mode prefix stripped.
    pub normalized_secrets: Vec<Vec<u8>>,
    /// The domain of a listener that reads a TLS record before anything else.
    pub normalized_listen_faketls_domain: Option<String>,
    pub cf_connect_timeout: u64,
    pub upstream_connect_timeout: u64,
    pub handshake_timeout: u64,
    pub skip_tls_verify: bool,
    pub cf_disable_tls: bool,
}

/// Where a listener bound to `bind_host` is reached: there, unless it is a
/// wildcard, which is not a destination.
pub open spec fn reachable_host(bind_host: Seq<char>) -> Seq<char> {
    if bind_host == "0.0.0.0"@ || bind_host == "::"@ {
        "127.0.0.1"@
    } else {
        bind_host
    }
}

/// Address to reach our own listener on: the bind address, unless it is a
/// wildcard, which is not a destination.
pub fn listener_probe_host(config: &Config) -> (host: String)
    ensures
        host@ == reachable_host(config.bind_host@),
{
    let bind_host: &str = config.bind_host.as_str();
    if text::same_text(bind_host, "0.0.0.0") || text::same_text(bind_host, "::") {
        "127.0.0.1".to_owned()
    } else {
        bind_host.to_owned()
    }
}

/// The value of a hexadecimal digit.
pub open spec fn hex_digit(c: char) -> Option<nat> {
    if '0' <= c <= '9' {
        Some((c as int - '0' as int) as nat)
    } else if 'a' <= c <= 'f' {
        Some((c as int - 'a' as int + 10) as nat)
    } else if 'A' <= c <= 'F' {
        Some((c as int - 'A' as int + 10) as nat)
    } else {
        None
    }
}

/// The first byte of a secret in hexadecimal.
pub open spec fn first_secret_byte(secret: Seq<char>) -> Option<nat> {
    if secret.len() < 2 {
        None
    } else {
        match (hex_digit(secret[0]), hex_digit(secret[1])) {
            (Some(high), Some(low)) => Some(16 * high + low),
            _ => None,
        }
    }
}

/// The kind of proxy that a secret stands for: its first byte tells.
pub open spec fn secret_kind(secret: Seq<char>) -> Seq<char> {
    match first_secret_byte(secret) {
        Some(byte) => if byte == 0xee {
            "FakeTLS"@
        } else if byte == 0xdd {
            "padded"@
        } else {
            "plain"@
        },
        None => "plain"@,
    }
}

fn hex_value(c: char) -> (value: Option<u8>)
    ensures
        match value {
            Some(v) => hex_digit(c) == Some(v as nat) && v < 16,
            None => hex_digit(c) is None,
        },
{
    let code: u32 = c as u32;
    if '0' <= c && c <= '9' {
        Some((code - 48) as u8)
    } else if 'a' <= c && c <= 'f' {
        Some((code - 87) as u8)
    } else if 'A' <= c && c <= 'F' {
        Some((code - 55) as u8)
    } else {
        None
    }
}

/// The label of a proxy's kind, by the first byte of its decoded hex secret.
pub fn proxy_kind(proxy: &MtProtoProxy) -> (kind: &'static str)
    ensures
        kind@ == secret_kind(proxy.secret@),
{
    let secret: &str = proxy.secret.as_str();
    if secret.unicode_len() < 2 {
        return "plain";
    }
    match (hex_value(secret.get_char(0)), hex_value(secret.get_char(1))) {
        (Some(high), Some(low)) => {
            let byte: u8 = 16 * high + low;
            if byte == 0xee {
                "FakeTLS"
            } else if byte == 0xdd {
                "padded"
            } else {
                "plain"
            }
        },
        _ => "plain",
    }
}

/// The key that the listener probe handshakes with: the first one, if it has
/// the length of a key.
pub open spec fn probe_secret(config: Config) -> Option<Seq<u8>> {
    if config.normalized_secrets@.len() > 0 && config.normalized_secrets@[0]@.len()
        == SECRET_KEY_LEN {
        Some(config.normalized_secrets@[0]@)
    } else {
        None
    }
}

/// The key that the listener probe handshakes with.
pub fn listener_probe_secret<'a>(config: &'a Config) -> (secret: Option<&'a Vec<u8>>)
    ensures
        match secret {
            Some(key) => probe_secret(*config) == Some(key@),
            None => probe_secret(*config) is None,
        },
{
    if config.normalized_secrets.len() > 0 && config.normalized_secrets[0].len()
        == SECRET_KEY_LEN {
        Some(&config.normalized_secrets[0])
    } else {
        None
    }
}

// ---------------------------------------------------------------------------
// Laws
// ---------------------------------------------------------------------------
/// A listener is reached at the address it is bound to, except where that is one
/// of the two wildcards: then it is reached at the loopback address. So a
/// wildcard is never the destination.
pub proof fn law_listener_is_reached_where_it_is_bound(config: &Config, host: String)
    requires
        call_ensures(listener_probe_host, (config,), host),
    ensures
        ({
            let any4 = seq!['0', '.', '0', '.', '0', '.', '0'];
            let any6 = seq![':', ':'];
            let bound = config.bind_host@;
            &&& host@ != any4 && host@ != any6
            &&& bound != any4 && bound != any6 ==> host@ == bound
            &&& bound == any4 || bound == any6 ==> host@ == seq![
                '1',
                '2',
                '7',
                '.',
                '0',
                '.',
                '0',
                '.',
                '1',
            ]
        }),
{
    reveal_strlit("0.0.0.0");
    reveal_strlit("::");
    reveal_strlit("127.0.0.1");
    assert("0.0.0.0"@ =~= seq!['0', '.', '0', '.', '0', '.', '0']);
    assert("::"@ =~= seq![':', ':']);
    assert("127.0.0.1"@ =~= seq!['1', '2', '7', '.', '0', '.', '0', '.', '1']);
    assert("127.0.0.1"@.len() == 9);
}

/// The first two characters of a secret, in either case, tell the kind of its
/// proxy: `ee` a FakeTLS one, `dd` a padded one, and anything else a plain one.
pub proof fn law_kind_is_told_by_the_prefix(proxy: &MtProtoProxy, kind: &'static str)
    requires
        call_ensures(proxy_kind, (proxy,), kind),
    ensures
        ({
            let s = proxy.secret@;
            let faketls = s.len() >= 2 && (s[0] == 'e' || s[0] == 'E') && (s[1] == 'e' || s[1]
                == 'E');
            let padded = s.len() >= 2 && (s[0] == 'd' || s[0] == 'D') && (s[1] == 'd' || s[1]
                == 'D');
            &&& kind@ == seq!['F', 'a', 'k', 'e', 'T', 'L', 'S'] <==> faketls
            &&& kind@ == seq!['p', 'a', 'd', 'd', 'e', 'd'] <==> padded
            &&& kind@ == seq!['p', 'l', 'a', 'i', 'n'] <==> !faketls && !padded
        }),
{
    reveal_strlit("FakeTLS");
    reveal_strlit("padded");
    reveal_strlit("plain");
    assert("FakeTLS"@ =~= seq!['F', 'a', 'k', 'e', 'T', 'L', 'S']);
    assert("padded"@ =~= seq!['p', 'a', 'd', 'd', 'e', 'd']);
    assert("plain"@ =~= seq!['p', 'l', 'a', 'i', 'n']);
    assert("FakeTLS"@.len() == 7 && "padded"@.len() == 6 && "plain"@.len() == 5);
}

/// The listener is probed with the first key and no other, and only where it is
/// sixteen bytes long.
pub proof fn law_first_key_is_the_probe_key<'a>(config: &'a Config, secret: Option<&'a Vec<u8>>)
    requires
        call_ensures(listener_probe_secret, (config,), secret),
    ensures
        secret is Some <==> config.normalized_secrets@.len() > 0
            && config.normalized_secrets@[0]@.len() == 16,
        secret matches Some(key) ==> key@ == config.normalized_secrets@[0]@,
        probe_secret(*config) is Some <==> secret is Some,
        secret matches Some(key) ==> probe_secret(*config) == Some(key@),
{
}

} // verus!
