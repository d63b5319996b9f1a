//! Agent configuration: where its files live and the sections of `agent.yaml`
//! with their defaults.

use vstd::prelude::*;
use crate::text::{owned, chars_of, string_of};

verus! {

/// The name of the agent's systemd unit.
pub const SERVICE_NAME: &'static str = "ports-agent";

/// `Path::join(base, seg)` on text: an absolute `seg` replaces `base`; otherwise
/// a `'/'` separates them unless `base` is empty or already ends with one.
pub open spec fn join_spec(base: Seq<char>, seg: Seq<char>) -> Seq<char> {
    if seg.len() > 0 && seg[0] == '/' {
        seg
    } else if base.len() == 0 || base.last() == '/' {
        base + seg
    } else {
        base + seq!['/'] + seg
    }
}

/// `Path::join(base, seg)`.
pub fn path_join(base: &str, seg: &str) -> (r: String)
    ensures
        r@ == join_spec(base@, seg@),
{
    let b = chars_of(base);
    let s = chars_of(seg);
    if s.len() > 0 && s[0] == '/' {
        return string_of(s.as_slice());
    }
    let mut r = string_of(b.as_slice());
    if !(b.len() == 0 || b[b.len() - 1] == '/') {
        crate::text::push_char(&mut r, '/');
    }
    r.append(seg);
    r
}

/// What the agent's paths depend on in its environment: the variables
/// `PORTS_CONFIG_DIR`, `PORTS_DATA_DIR`, `PORTS_LOG_DIR` and `HOME` (each
/// `None` when unset), and whether the file at [`user_config_probe`] of `HOME`
/// exists.
#[derive(Debug, PartialEq)]
pub struct PathEnv {
    pub config_dir: Option<String>,
    pub data_dir: Option<String>,
    pub log_dir: Option<String>,
    pub home: Option<String>,
    pub user_config_present: bool,
}

pub open spec fn opt_chars(s: Option<String>) -> Option<Seq<char>> {
    match s {
        Some(x) => Some(x@),
        None => None,
    }
}

pub struct PathEnvView {
    pub config_dir: Option<Seq<char>>,
    pub data_dir: Option<Seq<char>>,
    pub log_dir: Option<Seq<char>>,
    pub home: Option<Seq<char>>,
    pub user_config_present: bool,
}

impl View for PathEnv {
    type V = PathEnvView;

    open spec fn view(&self) -> PathEnvView {
        PathEnvView {
            config_dir: opt_chars(self.config_dir),
            data_dir: opt_chars(self.data_dir),
            log_dir: opt_chars(self.log_dir),
            home: opt_chars(self.home),
            user_config_present: self.user_config_present,
        }
    }
}

/// The per-user configuration directory under a home directory.
pub open spec fn user_dir_spec(home: Seq<char>) -> Seq<char> {
    join_spec(home, ".config/ports"@)
}

/// The file whose existence makes the per-user directory the base directory.
pub open spec fn user_config_probe_spec(home: Seq<char>) -> Seq<char> {
    join_spec(user_dir_spec(home), "config/agent.yaml"@)
}

/// The base directory: `PORTS_CONFIG_DIR` when set; else `~/.config/ports`
/// when it holds `config/agent.yaml`; else `/etc/ports`.
pub open spec fn base_spec(env: PathEnvView) -> Seq<char> {
    match env.config_dir {
        Some(dir) => dir,
        None => match env.home {
            Some(home) if env.user_config_present => user_dir_spec(home),
            _ => "/etc/ports"@,
        },
    }
}

/// The data directory: `PORTS_DATA_DIR`, else `/var/lib/ports`.
pub open spec fn data_dir_spec(env: PathEnvView) -> Seq<char> {
    match env.data_dir {
        Some(dir) => dir,
        None => "/var/lib/ports"@,
    }
}

/// The log directory: `PORTS_LOG_DIR`, else `/var/log/ports`.
pub open spec fn log_dir_spec(env: PathEnvView) -> Seq<char> {
    match env.log_dir {
        Some(dir) => dir,
        None => "/var/log/ports"@,
    }
}

/// The path that decides whether the per-user configuration directory is used.
pub fn user_config_probe(home: &str) -> (r: String)
    ensures
        r@ == user_config_probe_spec(home@),
{
    let dir = path_join(home, ".config/ports");
    path_join(dir.as_str(), "config/agent.yaml")
}

/// The base directory of the configuration and the keys.
pub fn base(env: &PathEnv) -> (r: String)
    ensures
        r@ == base_spec(env@),
{
    match &env.config_dir {
        Some(dir) => dir.clone(),
        None => match &env.home {
            Some(home) => {
                if env.user_config_present {
                    path_join(home.as_str(), ".config/ports")
                } else {
                    owned("/etc/ports")
                }
            },
            None => owned("/etc/ports"),
        },
    }
}

pub fn config_dir(env: &PathEnv) -> (r: String)
    ensures
        r@ == join_spec(base_spec(env@), "config"@),
{
    let b = base(env);
    path_join(b.as_str(), "config")
}

pub fn config_file(env: &PathEnv) -> (r: String)
    ensures
        r@ == join_spec(base_spec(env@), "config/agent.yaml"@),
{
    let b = base(env);
    path_join(b.as_str(), "config/agent.yaml")
}

pub fn key_dir(env: &PathEnv) -> (r: String)
    ensures
        r@ == join_spec(base_spec(env@), "keys"@),
{
    let b = base(env);
    path_join(b.as_str(), "keys")
}

pub fn node_key(env: &PathEnv) -> (r: String)
    ensures
        r@ == join_spec(base_spec(env@), "keys/node.key"@),
{
    let b = base(env);
    path_join(b.as_str(), "keys/node.key")
}

pub fn node_pub(env: &PathEnv) -> (r: String)
    ensures
        r@ == join_spec(base_spec(env@), "keys/node.pub"@),
{
    let b = base(env);
    path_join(b.as_str(), "keys/node.pub")
}

pub fn data_dir(env: &PathEnv) -> (r: String)
    ensures
        r@ == data_dir_spec(env@),
{
    match &env.data_dir {
        Some(dir) => dir.clone(),
        None => owned("/var/lib/ports"),
    }
}

pub fn state_file(env: &PathEnv) -> (r: String)
    ensures
        r@ == join_spec(data_dir_spec(env@), "state.json"@),
{
    let d = data_dir(env);
    path_join(d.as_str(), "state.json")
}

pub fn log_dir(env: &PathEnv) -> (r: String)
    ensures
        r@ == log_dir_spec(env@),
{
    match &env.log_dir {
        Some(dir) => dir.clone(),
        None => owned("/var/log/ports"),
    }
}

// ---------------------------------------------------------------------------
// The sections of agent.yaml
// ---------------------------------------------------------------------------

#[derive(Debug, PartialEq)]
pub struct NodeSection {
    pub id: String,
    pub name: String,
    pub mode: String,
}

#[derive(Debug, PartialEq)]
pub struct BackendSection {
    pub url: String,
    pub websocket_url: String,
}

#[derive(Debug, PartialEq)]
pub struct AuthSection {
    pub key_path: String,
    pub public_key_path: String,
}

#[derive(Debug, PartialEq)]
pub struct AgentSection {
    pub data_dir: String,
    pub log_level: String,
}

#[derive(Debug, PartialEq)]
pub struct FirewallSection {
    pub backend: String,
    pub table_name: String,
    pub dry_run: bool,
    pub backup_before_apply: bool,
}

#[derive(Debug, PartialEq)]
pub struct FeaturesSection {
    pub firewall: bool,
    pub traffic: bool,
    pub conntrack: bool,
    pub proxmox_local: bool,
}

#[derive(Debug, PartialEq)]
pub struct AgentConfig {
    pub node: NodeSection,
    pub backend: BackendSection,
    pub auth: AuthSection,
    pub agent: AgentSection,
    pub firewall: FirewallSection,
    pub features: FeaturesSection,
}

/// The connection mode when the file names none.
pub fn default_mode() -> (r: String)
    ensures
        r@ == "reverse"@,
{
    owned("reverse")
}

pub fn default_key_path(env: &PathEnv) -> (r: String)
    ensures
        r@ == join_spec(base_spec(env@), "keys/node.key"@),
{
    node_key(env)
}

pub fn default_pub_path(env: &PathEnv) -> (r: String)
    ensures
        r@ == join_spec(base_spec(env@), "keys/node.pub"@),
{
    node_pub(env)
}

pub fn default_data_dir(env: &PathEnv) -> (r: String)
    ensures
        r@ == data_dir_spec(env@),
{
    data_dir(env)
}

pub fn default_log_level() -> (r: String)
    ensures
        r@ == "info"@,
{
    owned("info")
}

pub fn default_firewall_backend() -> (r: String)
    ensures
        r@ == "nftables"@,
{
    owned("nftables")
}

pub fn default_table_name() -> (r: String)
    ensures
        r@ == "ports_agent"@,
{
    owned("ports_agent")
}

pub fn default_true() -> (r: bool)
    ensures
        r,
{
    true
}

impl AuthSection {
    /// The section when the file has none: the node key paths under the base directory.
    pub fn defaults(env: &PathEnv) -> (r: AuthSection)
        ensures
            r.key_path@ == join_spec(base_spec(env@), "keys/node.key"@),
            r.public_key_path@ == join_spec(base_spec(env@), "keys/node.pub"@),
    {
        AuthSection { key_path: default_key_path(env), public_key_path: default_pub_path(env) }
    }
}

impl AgentSection {
    /// The section when the file has none: the data directory and level `info`.
    pub fn defaults(env: &PathEnv) -> (r: AgentSection)
        ensures
            r.data_dir@ == data_dir_spec(env@),
            r.log_level@ == "info"@,
    {
        AgentSection { data_dir: default_data_dir(env), log_level: default_log_level() }
    }
}

impl Default for FirewallSection {
    fn default() -> (r: FirewallSection)
        ensures
            r.backend@ == "nftables"@,
            r.table_name@ == "ports_agent"@,
            !r.dry_run,
            r.backup_before_apply,
    {
        FirewallSection {
            backend: default_firewall_backend(),
            table_name: default_table_name(),
            dry_run: false,
            backup_before_apply: true,
        }
    }
}

impl Default for FeaturesSection {
    fn default() -> (r: FeaturesSection)
        ensures
            r.firewall,
            r.traffic,
            r.conntrack,
            !r.proxmox_local,
    {
        FeaturesSection { firewall: true, traffic: true, conntrack: true, proxmox_local: false }
    }
}

} // verus!
