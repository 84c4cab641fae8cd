//! How the hub is started.
use vstd::prelude::*;
use crate::number::{parse_unsigned, unsigned_value};
use crate::text::{is_text, opt_text};

verus! {

pub const DEFAULT_HTTP_PORT: u16 = 3000;

pub const DEFAULT_VOICE_UDP_PORT: u16 = 3001;

/// The port that a variable names: the default where it is not set, and nothing where it is
/// set to something that is no port, so that a slip does not go unnoticed.
pub fn port_from_env(value: &Option<String>, default: u16) -> (r: Option<u16>)
    ensures
        match value {
            None => r == Some(default),
            Some(s) => match unsigned_value(s@, u16::MAX as nat) {
                Some(n) => r == Some(n as u16),
                None => r is None,
            },
        },
{
    match value {
        None => Some(default),
        Some(s) => match parse_unsigned(s.as_str(), u16::MAX as u64) {
            Some(n) => Some(n as u16),
            None => None,
        },
    }
}

/// Where the certificate and the key for TLS are.
pub struct TlsConfig {
    pub cert: String,
    pub key: String,
}

/// Where the certificate and the key are; without either, no TLS.
pub fn tls_config_from_env(cert: Option<String>, key: Option<String>) -> (r: Option<TlsConfig>)
    ensures
        match (cert, key) {
            (Some(c), Some(k)) => r == Some(TlsConfig { cert: c, key: k }),
            _ => r is None,
        },
{
    match (cert, key) {
        (Some(cert), Some(key)) => Some(TlsConfig { cert, key }),
        _ => None,
    }
}

/// What the hub is started for.
pub enum Command {
    Migrate,
    Serve,
}

/// What the hub is started for: to bring its storage up to date and end, or to serve.
pub fn command_of(subcommand: &Option<String>) -> (r: Command)
    ensures
        r is Migrate <==> opt_text(*subcommand) == Some("migrate"@),
{
    if is_text(subcommand, "migrate") {
        Command::Migrate
    } else {
        Command::Serve
    }
}

/// A port that is not set is the usual one, one that is set is taken as it is, and one that is no
/// port is never taken for the usual one.
pub proof fn a_port_is_never_guessed(value: &Option<String>, usual: u16, r: Option<u16>)
    requires
        call_ensures(port_from_env, (value, usual), r),
    ensures
        value is None ==> r == Some(usual),
        value matches Some(s) ==> match unsigned_value(s@, 65535) {
            Some(n) => r is Some && r->0 == n,
            None => r is None,
        },
{
}

/// There is TLS exactly where both the certificate and the key are named.
pub proof fn tls_needs_both_files(cert: Option<String>, key: Option<String>, r: Option<TlsConfig>)
    requires
        call_ensures(tls_config_from_env, (cert, key), r),
    ensures
        r is Some <==> cert is Some && key is Some,
        r matches Some(t) ==> Some(t.cert) == cert && Some(t.key) == key,
{
}

/// The hub serves unless it is told to bring its storage up to date.
pub proof fn the_hub_serves_unless_told_otherwise(subcommand: &Option<String>, r: Command)
    requires
        call_ensures(command_of, (subcommand,), r),
    ensures
        r is Serve <==> !(subcommand is Some && subcommand->0@ == "migrate"@),
{
}

} // verus!
