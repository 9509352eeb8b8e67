//! The server connection resolver: whether the shell reuses an externally
//! configured server, reuses a server already listening locally, or spawns
//! a new local server with a freshly generated credential.
use vstd::prelude::*;
use vstd::string::*;

use crate::text::contains_char;
use crate::text::dec_str;
use crate::text::push_char;
use crate::text::push_u64_dec;
use crate::text::starts_with_char;
use crate::text::str_eq;

verus! {

/// The optional `server` section of the sidecar's diagnostic configuration.
#[derive(Debug, Clone, PartialEq, Eq)]
pub struct ServerConfig {
    pub hostname: Option<String>,
    pub port: Option<u32>,
}

/// The sidecar's diagnostic configuration, as far as the resolver reads it.
#[derive(Debug, Clone, PartialEq, Eq)]
pub struct Config {
    pub server: Option<ServerConfig>,
}

/// How the shell connects to a server: an existing one it only talks to,
/// or one it spawned itself, whose handle and health-check task the caller
/// owns.
#[derive(Debug, Clone, PartialEq, Eq)]
pub enum ServerConnection {
    Existing { url: String },
    Spawned { url: String, password: Option<String> },
}

/// A bind-address hostname rewritten into a connectable URL hostname:
/// wildcard addresses become loopback, and a bare IPv6 address gains
/// brackets.
pub open spec fn normalized_hostname(h: Seq<char>) -> Seq<char> {
    if h == "0.0.0.0"@ {
        "127.0.0.1"@
    } else if h == "::"@ {
        "[::1]"@
    } else if h.contains(':') && !(h.len() > 0 && h[0] == '[') {
        seq!['['] + h + seq![']']
    } else {
        h
    }
}

/// Converts a bind-address hostname to a valid URL hostname for connecting.
pub fn normalize_hostname_for_url(hostname: &str) -> (r: String)
    ensures
        r@ == normalized_hostname(hostname@),
{
    if str_eq(hostname, "0.0.0.0") {
        return String::from_str("127.0.0.1");
    }
    if str_eq(hostname, "::") {
        return String::from_str("[::1]");
    }
    if contains_char(hostname, ':') && !starts_with_char(hostname, '[') {
        let mut out = String::new();
        push_char(&mut out, '[');
        out.append(hostname);
        push_char(&mut out, ']');
        proof {
            assert(out@ =~= normalized_hostname(hostname@));
        }
        return out;
    }
    hostname.to_owned()
}

/// The URL under which a server on `host` and `port` is reached.
pub open spec fn server_url(host: Seq<char>, port: int) -> Seq<char> {
    "http://"@ + host + seq![':'] + dec_str(port)
}

/// Renders `http://<hostname>:<port>`.
pub fn format_server_url(hostname: &str, port: u32) -> (r: String)
    ensures
        r@ == server_url(hostname@, port as int),
{
    let mut out = String::new();
    out.append("http://");
    out.append(hostname);
    push_char(&mut out, ':');
    push_u64_dec(&mut out, port as u64);
    proof {
        assert(out@ =~= server_url(hostname@, port as int));
    }
    out
}

/// The custom server URL a configuration yields, if any: it must name a
/// port; a missing hostname defaults to `127.0.0.1`, and the hostname is
/// normalized for URL use.
pub open spec fn config_server_url(config: Config) -> Option<Seq<char>> {
    match config.server {
        Option::None => Option::None,
        Option::Some(server) => match server.port {
            Option::None => Option::None,
            Option::Some(port) => Option::Some(
                server_url(
                    match server.hostname {
                        Option::Some(h) => normalized_hostname(h@),
                        Option::None => "127.0.0.1"@,
                    },
                    port as int,
                ),
            ),
        },
    }
}

/// Reads the custom server URL out of a diagnostic configuration.
pub fn get_server_url_from_config(config: &Config) -> (r: Option<String>)
    ensures
        r is Some <==> config_server_url(*config) is Some,
        r is Some ==> r.unwrap()@ == config_server_url(*config).unwrap(),
{
    let server = match &config.server {
        Option::Some(s) => s,
        Option::None => {
            return None;
        },
    };
    let port = match server.port {
        Option::Some(p) => p,
        Option::None => {
            return None;
        },
    };
    let hostname = match &server.hostname {
        Option::Some(h) => normalize_hostname_for_url(h.as_str()),
        Option::None => String::from_str("127.0.0.1"),
    };
    Some(format_server_url(hostname.as_str(), port))
}

/// Which saved URL the resolver tries first: the desktop-specific setting
/// wins over a URL derived from the sidecar's own configuration; a
/// configuration that fails to parse counts as no configuration at all.
pub fn saved_url_preference(store_url: Option<String>, config: Option<&Config>) -> (r: Option<
    String,
>)
    ensures
        store_url is Some ==> r == store_url,
        store_url is None && config is Some ==> (r is Some <==> config_server_url(*config.unwrap())
            is Some) && (r is Some ==> r.unwrap()@ == config_server_url(
            *config.unwrap(),
        ).unwrap()),
        store_url is None && config is None ==> r is None,
{
    match store_url {
        Option::Some(u) => Some(u),
        Option::None => match config {
            Option::Some(c) => get_server_url_from_config(c),
            Option::None => None,
        },
    }
}

/// The resolver's position while it decides the connection.
#[derive(Debug, Clone, PartialEq, Eq)]
pub enum ResolverState {
    /// Probing the explicitly configured custom server, with the user
    /// offered unlimited retries on failure.
    CheckingCustom { url: String },
    /// Probing whether a local server already listens on the expected
    /// port.
    CheckingLocal { url: String },
    /// The connection is decided.
    Resolved(ServerConnection),
}

/// Starts resolution: with a saved custom URL the resolver probes it
/// first; otherwise it goes straight to the local port.
pub fn resolver_start(custom_url: Option<String>, local_port: u32) -> (r: ResolverState)
    ensures
        custom_url is Some ==> r == (ResolverState::CheckingCustom { url: custom_url.unwrap() }),
        custom_url is None ==> (r matches ResolverState::CheckingLocal { url } && url@
            == server_url("127.0.0.1"@, local_port as int)),
{
    match custom_url {
        Option::Some(u) => ResolverState::CheckingCustom { url: u },
        Option::None => ResolverState::CheckingLocal {
            url: format_server_url("127.0.0.1", local_port),
        },
    }
}

/// One round of probing the custom server: a healthy answer settles on the
/// existing server; on failure the user's choice either retries the same
/// URL or falls through to the local port.
pub fn custom_step(url: String, probe_ok: bool, retry: bool, local_port: u32) -> (r: ResolverState)
    ensures
        probe_ok ==> r == (ResolverState::Resolved(ServerConnection::Existing { url })),
        !probe_ok && retry ==> r == (ResolverState::CheckingCustom { url }),
        !probe_ok && !retry ==> (r matches ResolverState::CheckingLocal { url: u } && u@
            == server_url("127.0.0.1"@, local_port as int)),
{
    if probe_ok {
        ResolverState::Resolved(ServerConnection::Existing { url })
    } else if retry {
        ResolverState::CheckingCustom { url }
    } else {
        ResolverState::CheckingLocal { url: format_server_url("127.0.0.1", local_port) }
    }
}

/// The shape of a hyphenated UUID rendering: 36 characters, hyphens at
/// positions 8, 13, 18 and 23, lowercase hexadecimal digits elsewhere.
pub open spec fn hyphenated_uuid_form(s: Seq<char>) -> bool {
    s.len() == 36 && s[8] == '-' && s[13] == '-' && s[18] == '-' && s[23] == '-' && (forall|i: int|
        0 <= i < 36 && i != 8 && i != 13 && i != 18 && i != 23 ==> (('0' <= #[trigger] s[i] && s[i]
            <= '9') || ('a' <= s[i] && s[i] <= 'f')))
}

/// Relies on `uuid::Uuid::new_v4` and its `Display` form: a fresh random
/// version-4 UUID rendered as the 36-character hyphenated string of
/// lowercase hexadecimal digits.
#[verifier::external_body]
fn new_launch_password() -> (r: String)
    ensures
        hyphenated_uuid_form(r@),
{
    uuid::Uuid::new_v4().to_string()
}

/// The probe of the local port settles the connection: a healthy answer
/// reuses the listening server; otherwise a new local server is spawned
/// under a freshly generated random credential.
pub fn local_step(url: String, probe_ok: bool) -> (r: ServerConnection)
    ensures
        probe_ok ==> r == (ServerConnection::Existing { url }),
        !probe_ok ==> (r matches ServerConnection::Spawned { url: u, password: p } && u == url && p
            is Some && hyphenated_uuid_form(p.unwrap()@)),
{
    if probe_ok {
        ServerConnection::Existing { url }
    } else {
        let password = new_launch_password();
        ServerConnection::Spawned { url, password: Some(password) }
    }
}

} // verus!
