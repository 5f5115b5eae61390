//! Configuration data and the pure parts of managing it: defaults, derived
//! file paths, the relay-to-APNs projection, and applying `config set`
//! updates. Reading and writing the files stays outside the core.

use vstd::prelude::*;
use vstd::string::*;

use crate::strutil::{dec_str, dec_string, parse_bool, parse_u16, spec_parse_bool, spec_parse_u16, str_eq};

verus! {

/// APNs credentials and addressing.
#[derive(Debug)]
pub struct ApnsConfig {
    pub key_path: String,
    pub key_id: String,
    pub team_id: String,
    pub bundle_id: String,
    pub sandbox: bool,
}

/// The server section: where the server listens and the API key clients
/// must present.
#[derive(Debug)]
pub struct ServerConfig {
    pub url: String,
    pub api_key: String,
    pub port: u16,
    pub bind: String,
    pub relay_url: Option<String>,
}

/// The relay section: where the relay listens, its APNs credentials, and
/// its hourly per-token cap.
#[derive(Debug)]
pub struct RelayConfig {
    pub port: u16,
    pub bind: String,
    pub apns_key_path: String,
    pub apns_key_id: String,
    pub apns_team_id: String,
    pub apns_bundle_id: String,
    pub apns_sandbox: bool,
    pub max_requests_per_device_per_hour: u32,
}

/// The whole configuration file.
#[derive(Debug)]
pub struct Config {
    pub server: ServerConfig,
    pub apns: Option<ApnsConfig>,
    pub relay: Option<RelayConfig>,
}

/// Ghost mirror of `ApnsConfig`.
pub struct ApnsConfigModel {
    pub key_path: Seq<char>,
    pub key_id: Seq<char>,
    pub team_id: Seq<char>,
    pub bundle_id: Seq<char>,
    pub sandbox: bool,
}

impl View for ApnsConfig {
    type V = ApnsConfigModel;

    open spec fn view(&self) -> ApnsConfigModel {
        ApnsConfigModel {
            key_path: self.key_path@,
            key_id: self.key_id@,
            team_id: self.team_id@,
            bundle_id: self.bundle_id@,
            sandbox: self.sandbox,
        }
    }
}

/// Ghost mirror of `ServerConfig`.
pub struct ServerConfigModel {
    pub url: Seq<char>,
    pub api_key: Seq<char>,
    pub port: u16,
    pub bind: Seq<char>,
    pub relay_url: Option<Seq<char>>,
}

impl View for ServerConfig {
    type V = ServerConfigModel;

    open spec fn view(&self) -> ServerConfigModel {
        ServerConfigModel {
            url: self.url@,
            api_key: self.api_key@,
            port: self.port,
            bind: self.bind@,
            relay_url: match self.relay_url {
                Some(ref u) => Some(u@),
                None => None,
            },
        }
    }
}

/// Ghost mirror of `RelayConfig`.
pub struct RelayConfigModel {
    pub port: u16,
    pub bind: Seq<char>,
    pub apns_key_path: Seq<char>,
    pub apns_key_id: Seq<char>,
    pub apns_team_id: Seq<char>,
    pub apns_bundle_id: Seq<char>,
    pub apns_sandbox: bool,
    pub max_requests_per_device_per_hour: u32,
}

impl View for RelayConfig {
    type V = RelayConfigModel;

    open spec fn view(&self) -> RelayConfigModel {
        RelayConfigModel {
            port: self.port,
            bind: self.bind@,
            apns_key_path: self.apns_key_path@,
            apns_key_id: self.apns_key_id@,
            apns_team_id: self.apns_team_id@,
            apns_bundle_id: self.apns_bundle_id@,
            apns_sandbox: self.apns_sandbox,
            max_requests_per_device_per_hour: self.max_requests_per_device_per_hour,
        }
    }
}

/// Ghost mirror of `Config`.
pub struct ConfigModel {
    pub server: ServerConfigModel,
    pub apns: Option<ApnsConfigModel>,
    pub relay: Option<RelayConfigModel>,
}

impl View for Config {
    type V = ConfigModel;

    open spec fn view(&self) -> ConfigModel {
        ConfigModel {
            server: self.server@,
            apns: match self.apns {
                Some(ref a) => Some(a@),
                None => None,
            },
            relay: match self.relay {
                Some(ref r) => Some(r@),
                None => None,
            },
        }
    }
}

impl RelayConfig {
    /// The relay's own APNs credentials, in the dispatcher's shape.
    pub fn to_apns_config(&self) -> (r: ApnsConfig)
        ensures
            r@.key_path == self@.apns_key_path,
            r@.key_id == self@.apns_key_id,
            r@.team_id == self@.apns_team_id,
            r@.bundle_id == self@.apns_bundle_id,
            r@.sandbox == self@.apns_sandbox,
    {
        ApnsConfig {
            key_path: self.apns_key_path.clone(),
            key_id: self.apns_key_id.clone(),
            team_id: self.apns_team_id.clone(),
            bundle_id: self.apns_bundle_id.clone(),
            sandbox: self.apns_sandbox,
        }
    }
}

pub fn default_port() -> (r: u16)
    ensures
        r == 7333,
{
    7333
}

pub fn default_bind() -> (r: String)
    ensures
        r@ == "127.0.0.1"@,
{
    String::from_str("127.0.0.1")
}

pub fn default_relay_port() -> (r: u16)
    ensures
        r == 7334,
{
    7334
}

pub fn default_max_requests() -> (r: u32)
    ensures
        r == 60,
{
    60
}

impl Config {
    /// The configuration file inside the given data directory.
    pub fn config_path(data_dir: &String) -> (r: String)
        ensures
            r@ == data_dir@ + "/config.toml"@,
    {
        let mut p = data_dir.clone();
        p.append("/config.toml");
        p
    }

    /// The device registry file inside the given data directory.
    pub fn devices_path(data_dir: &String) -> (r: String)
        ensures
            r@ == data_dir@ + "/devices.json"@,
    {
        let mut p = data_dir.clone();
        p.append("/devices.json");
        p
    }
}

/// The server's address as clients reach it.
pub fn server_url(bind: &String, port: u16) -> (r: String)
    ensures
        r@ == "http://"@ + bind@ + ":"@ + dec_str(port as nat),
{
    let mut u = String::from_str("http://");
    u.append(bind.as_str());
    u.append(":");
    let ps = dec_string(port as u64);
    u.append(ps.as_str());
    proof {
        assert(u@ =~= "http://"@ + bind@ + ":"@ + dec_str(port as nat));
    }
    u
}

/// Points the configuration at the address the server was started with,
/// as a fresh start or restart records it.
pub fn refresh_server_address(config: &mut Config, port: u16, bind: &String)
    ensures
        final(config)@ == (ConfigModel {
            server: ServerConfigModel {
                url: "http://"@ + bind@ + ":"@ + dec_str(port as nat),
                port: port,
                bind: bind@,
                ..old(config)@.server
            },
            ..old(config)@
        }),
{
    config.server.url = server_url(bind, port);
    config.server.port = port;
    config.server.bind = bind.clone();
}

/// The APNs section, created empty if the file has none, for field-wise
/// updates.
pub fn apns_mut(config: &mut Config) -> (r: &mut ApnsConfig)
    ensures
        r@ == (match old(config)@.apns {
            Some(a) => a,
            None => ApnsConfigModel {
                key_path: Seq::empty(),
                key_id: Seq::empty(),
                team_id: Seq::empty(),
                bundle_id: Seq::empty(),
                sandbox: false,
            },
        }),
        final(config)@ == (ConfigModel { apns: Some(final(r)@), ..old(config)@ }),
{
    if config.apns.is_none() {
        config.apns = Some(
            ApnsConfig {
                key_path: String::new(),
                key_id: String::new(),
                team_id: String::new(),
                bundle_id: String::new(),
                sandbox: false,
            },
        );
    }
    match config.apns {
        Some(ref mut a) => a,
        None => vstd::pervasive::unreached(),
    }
}

/// How a `config set` call ended.
#[derive(Debug)]
pub enum SetOutcome {
    /// The key was recognized and the value stored.
    Updated,
    /// `port` was set to something other than a port number.
    InvalidPort,
    /// `apns.sandbox` was set to something other than `true` or `false`.
    InvalidBool,
    /// No setting goes by this key.
    UnknownKey,
}

/// Applies one `config set key value` update: the server's address and key
/// under their aliases, and the APNs credentials under dotted keys. The
/// caller persists the configuration afterwards on `Updated`.
pub fn apply_config_set(config: &mut Config, key: &String, value: &String) -> (r: SetOutcome)
    ensures
        key@ == "server"@ || key@ == "url"@ ==> (r is Updated) && final(config)@ == (ConfigModel {
            server: ServerConfigModel { url: value@, ..old(config)@.server },
            ..old(config)@
        }),
        key@ == "api_key"@ || key@ == "token"@ ==> (r is Updated) && final(config)@ == (
        ConfigModel {
            server: ServerConfigModel { api_key: value@, ..old(config)@.server },
            ..old(config)@
        }),
        key@ == "bind"@ ==> (r is Updated) && final(config)@ == (ConfigModel {
            server: ServerConfigModel { bind: value@, ..old(config)@.server },
            ..old(config)@
        }),
        key@ == "port"@ ==> (match spec_parse_u16(value@) {
            Some(p) => (r is Updated) && final(config)@ == (ConfigModel {
                server: ServerConfigModel { port: p, ..old(config)@.server },
                ..old(config)@
            }),
            None => (r is InvalidPort) && *final(config) == *old(config),
        }),
        key@ == "apns.key_path"@ ==> (r is Updated) && final(config)@ == (ConfigModel {
            apns: Some(ApnsConfigModel { key_path: value@, ..spec_apns_or_empty(old(config)@) }),
            ..old(config)@
        }),
        key@ == "apns.key_id"@ ==> (r is Updated) && final(config)@ == (ConfigModel {
            apns: Some(ApnsConfigModel { key_id: value@, ..spec_apns_or_empty(old(config)@) }),
            ..old(config)@
        }),
        key@ == "apns.team_id"@ ==> (r is Updated) && final(config)@ == (ConfigModel {
            apns: Some(ApnsConfigModel { team_id: value@, ..spec_apns_or_empty(old(config)@) }),
            ..old(config)@
        }),
        key@ == "apns.bundle_id"@ ==> (r is Updated) && final(config)@ == (ConfigModel {
            apns: Some(ApnsConfigModel { bundle_id: value@, ..spec_apns_or_empty(old(config)@) }),
            ..old(config)@
        }),
        key@ == "apns.sandbox"@ ==> (match spec_parse_bool(value@) {
            Some(b) => (r is Updated) && final(config)@ == (ConfigModel {
                apns: Some(ApnsConfigModel { sandbox: b, ..spec_apns_or_empty(old(config)@) }),
                ..old(config)@
            }),
            None => (r is InvalidBool) && *final(config) == *old(config),
        }),
        spec_key_unknown(key@) ==> (r is UnknownKey) && *final(config) == *old(config),
{
    proof {
        reveal_strlit("server");
        reveal_strlit("url");
        reveal_strlit("api_key");
        reveal_strlit("token");
        reveal_strlit("port");
        reveal_strlit("bind");
        reveal_strlit("apns.key_path");
        reveal_strlit("apns.key_id");
        reveal_strlit("apns.team_id");
        reveal_strlit("apns.bundle_id");
        reveal_strlit("apns.sandbox");
        assert("server"@.len() == 6);
        assert("url"@.len() == 3);
        assert("api_key"@.len() == 7);
        assert("token"@.len() == 5);
        assert("port"@.len() == 4 && "port"@[0] == 'p');
        assert("bind"@.len() == 4 && "bind"@[0] == 'b');
        assert("apns.key_path"@.len() == 13);
        assert("apns.key_id"@.len() == 11);
        assert("apns.team_id"@.len() == 12 && "apns.team_id"@[5] == 't');
        assert("apns.bundle_id"@.len() == 14);
        assert("apns.sandbox"@.len() == 12 && "apns.sandbox"@[5] == 's');
    }
    if str_eq(key.as_str(), "server") || str_eq(key.as_str(), "url") {
        config.server.url = value.clone();
        SetOutcome::Updated
    } else if str_eq(key.as_str(), "api_key") || str_eq(key.as_str(), "token") {
        config.server.api_key = value.clone();
        SetOutcome::Updated
    } else if str_eq(key.as_str(), "port") {
        match parse_u16(value.as_str()) {
            Some(p) => {
                config.server.port = p;
                SetOutcome::Updated
            },
            None => SetOutcome::InvalidPort,
        }
    } else if str_eq(key.as_str(), "bind") {
        config.server.bind = value.clone();
        SetOutcome::Updated
    } else if str_eq(key.as_str(), "apns.key_path") {
        apns_mut(config).key_path = value.clone();
        SetOutcome::Updated
    } else if str_eq(key.as_str(), "apns.key_id") {
        apns_mut(config).key_id = value.clone();
        SetOutcome::Updated
    } else if str_eq(key.as_str(), "apns.team_id") {
        apns_mut(config).team_id = value.clone();
        SetOutcome::Updated
    } else if str_eq(key.as_str(), "apns.bundle_id") {
        apns_mut(config).bundle_id = value.clone();
        SetOutcome::Updated
    } else if str_eq(key.as_str(), "apns.sandbox") {
        match parse_bool(value.as_str()) {
            Some(b) => {
                apns_mut(config).sandbox = b;
                SetOutcome::Updated
            },
            None => SetOutcome::InvalidBool,
        }
    } else {
        SetOutcome::UnknownKey
    }
}

/// The APNs section as `config set` sees it: the stored one, or an empty
/// one about to be created.
pub open spec fn spec_apns_or_empty(c: ConfigModel) -> ApnsConfigModel {
    match c.apns {
        Some(a) => a,
        None => ApnsConfigModel {
            key_path: Seq::empty(),
            key_id: Seq::empty(),
            team_id: Seq::empty(),
            bundle_id: Seq::empty(),
            sandbox: false,
        },
    }
}

/// No setting goes by this key.
pub open spec fn spec_key_unknown(k: Seq<char>) -> bool {
    k != "server"@ && k != "url"@ && k != "api_key"@ && k != "token"@ && k != "port"@ && k
        != "bind"@ && k != "apns.key_path"@ && k != "apns.key_id"@ && k != "apns.team_id"@ && k
        != "apns.bundle_id"@ && k != "apns.sandbox"@
}

} // verus!
