//! The logic of the `portsctl` command: enrolment, the texts it prints, and
//! the commands it runs.

use vstd::prelude::*;
use crate::config::{
    AgentConfig, AgentSection, AuthSection, BackendSection, FeaturesSection, FirewallSection, NodeSection,
    PathEnv, SERVICE_NAME, opt_chars,
};
use crate::firewall::{Nftables, PortForward, PortForwardView, plan_line, plan_warnings, port_forward_spec,
    rule_commands_spec, setup_commands_spec};
use crate::json::{JsonValue, JsonView, string_views};
use crate::store::{RuleMap, entries_view};
use crate::text::{
    chars_of, concat2, contains, contains_spec, decimal, decimal_spec, owned, str_eq, string_of, strip_prefix,
    strip_prefix_spec, trim_end_char, trim_end_char_spec, trim_spec, trim_str,
};

verus! {

fn push_line(v: &mut Vec<String>, s: String)
    ensures
        string_views(final(v)@) == string_views(old(v)@).push(s@),
{
    v.push(s);
    assert(string_views(v@) =~= string_views(old(v)@).push(s@));
}

fn push_str(v: &mut Vec<String>, s: &str)
    ensures
        string_views(final(v)@) == string_views(old(v)@).push(s@),
{
    push_line(v, owned(s));
}

/// A backend URL without its trailing slashes.
pub open spec fn url_base(u: Seq<char>) -> Seq<char> {
    trim_end_char_spec(u, '/')
}

fn url_base_of(u: &str) -> (r: String)
    ensures
        r@ == url_base(u@),
{
    let t = trim_end_char(chars_of(u).as_slice(), '/');
    string_of(t.as_slice())
}

/// The WebSocket endpoint of a backend: `https` becomes `wss`, `http` becomes
/// `ws`, anything else is kept, and `/api/agent/connect` follows.
pub open spec fn derive_ws_spec(backend_url: Seq<char>) -> Seq<char> {
    let base = url_base(backend_url);
    let ws = match strip_prefix_spec(base, "https://"@) {
        Some(rest) => "wss://"@ + rest,
        None => match strip_prefix_spec(base, "http://"@) {
            Some(rest) => "ws://"@ + rest,
            None => base,
        },
    };
    ws + "/api/agent/connect"@
}

pub fn derive_ws(backend_url: &str) -> (r: String)
    ensures
        r@ == derive_ws_spec(backend_url@),
{
    let base = trim_end_char(chars_of(backend_url).as_slice(), '/');
    let https = chars_of("https://");
    let http = chars_of("http://");
    let mut r = match strip_prefix(base.as_slice(), https.as_slice()) {
        Some(rest) => {
            let s = string_of(rest.as_slice());
            concat2("wss://", s.as_str())
        },
        None => match strip_prefix(base.as_slice(), http.as_slice()) {
            Some(rest) => {
                let s = string_of(rest.as_slice());
                concat2("ws://", s.as_str())
            },
            None => string_of(base.as_slice()),
        },
    };
    r.append("/api/agent/connect");
    r
}

/// The arguments of `portsctl login`.
#[derive(Debug, PartialEq)]
pub struct LoginArgs {
    pub backend_url: Option<String>,
    pub token: Option<String>,
    pub mode: String,
    pub ssh_host: Option<String>,
    pub ssh_port: u16,
    pub ssh_user: String,
    pub tailscale_ip: Option<String>,
}

/// The backend URL and token of a login, or why the arguments are refused:
/// both are needed, the mode is one of three, and the SSH and Tailscale modes
/// need the address they are reached at.
pub open spec fn login_check_spec(
    backend_url: Option<Seq<char>>,
    token: Option<Seq<char>>,
    mode: Seq<char>,
    ssh_host: Option<Seq<char>>,
    tailscale_ip: Option<Seq<char>>,
) -> Result<(Seq<char>, Seq<char>), Seq<char>> {
    match backend_url {
        None => Err("usage: portsctl login <backend-url> <enrollment-token> [--mode ssh|reverse|tailscale]"@),
        Some(u) => match token {
            None => Err("missing enrollment token"@),
            Some(t) => if mode != "reverse"@ && mode != "ssh"@ && mode != "tailscale"@ {
                Err("mode must be 'reverse', 'ssh' or 'tailscale'"@)
            } else if mode == "ssh"@ && ssh_host is None {
                Err("--ssh-host is required for ssh mode"@)
            } else if mode == "tailscale"@ && tailscale_ip is None {
                Err("--tailscale-ip is required for tailscale mode"@)
            } else {
                Ok((u, t))
            },
        },
    }
}

pub fn check_login(args: &LoginArgs) -> (r: Result<(String, String), String>)
    ensures
        match r {
            Ok((u, t)) => login_check_spec(
                opt_chars(args.backend_url),
                opt_chars(args.token),
                args.mode@,
                opt_chars(args.ssh_host),
                opt_chars(args.tailscale_ip),
            ) == Ok::<(Seq<char>, Seq<char>), Seq<char>>((u@, t@)),
            Err(e) => login_check_spec(
                opt_chars(args.backend_url),
                opt_chars(args.token),
                args.mode@,
                opt_chars(args.ssh_host),
                opt_chars(args.tailscale_ip),
            ) == Err::<(Seq<char>, Seq<char>), Seq<char>>(e@),
        },
{
    let u = match &args.backend_url {
        None => {
            return Err(owned("usage: portsctl login <backend-url> <enrollment-token> [--mode ssh|reverse|tailscale]"));
        },
        Some(u) => u,
    };
    let t = match &args.token {
        None => {
            return Err(owned("missing enrollment token"));
        },
        Some(t) => t,
    };
    let m = args.mode.as_str();
    let is_reverse = str_eq(m, "reverse");
    let is_ssh = str_eq(m, "ssh");
    let is_tailscale = str_eq(m, "tailscale");
    if !is_reverse && !is_ssh && !is_tailscale {
        return Err(owned("mode must be 'reverse', 'ssh' or 'tailscale'"));
    }
    if is_ssh && args.ssh_host.is_none() {
        return Err(owned("--ssh-host is required for ssh mode"));
    }
    if is_tailscale && args.tailscale_ip.is_none() {
        return Err(owned("--tailscale-ip is required for tailscale mode"));
    }
    Ok((owned(u.as_str()), owned(t.as_str())))
}

/// What the node reports about itself when it enrols.
#[derive(Debug, PartialEq)]
pub struct EnrollRequest {
    pub token: String,
    pub mode: String,
    pub name: Option<String>,
    pub hostname: String,
    pub os: String,
    pub arch: String,
    pub agent_version: String,
    pub firewall_backend: String,
    pub public_key: Option<String>,
    pub interfaces: Vec<JsonValue>,
    pub proxmox_detected: bool,
    pub ssh_host: Option<String>,
    pub ssh_port: u16,
    pub ssh_user: String,
    pub tailscale_ip_v4: Option<String>,
}

/// The facts of the machine that an enrolment reports.
#[derive(Debug, PartialEq)]
pub struct MachineFacts {
    pub hostname: String,
    pub os: String,
    pub arch: String,
    pub firewall_backend: String,
    pub interfaces: Vec<JsonValue>,
    pub proxmox_detected: bool,
}

/// The enrolment request of a login whose arguments passed [`check_login`]:
/// the token, the mode and the SSH and Tailscale details from the arguments,
/// the machine's facts, this agent's version and the new public key.
pub fn enroll_request(args: LoginArgs, token: String, facts: MachineFacts, public_key: String) -> (r: EnrollRequest)
    ensures
        r.token == token,
        r.mode == args.mode,
        r.name is None,
        r.hostname == facts.hostname,
        r.os == facts.os,
        r.arch == facts.arch,
        r.agent_version@ == crate::system::AGENT_VERSION@,
        r.firewall_backend == facts.firewall_backend,
        r.public_key == Some(public_key),
        r.interfaces == facts.interfaces,
        r.proxmox_detected == facts.proxmox_detected,
        r.ssh_host == args.ssh_host,
        r.ssh_port == args.ssh_port,
        r.ssh_user == args.ssh_user,
        r.tailscale_ip_v4 == args.tailscale_ip,
{
    EnrollRequest {
        token,
        mode: args.mode,
        name: None,
        hostname: facts.hostname,
        os: facts.os,
        arch: facts.arch,
        agent_version: owned(crate::system::AGENT_VERSION),
        firewall_backend: facts.firewall_backend,
        public_key: Some(public_key),
        interfaces: facts.interfaces,
        proxmox_detected: facts.proxmox_detected,
        ssh_host: args.ssh_host,
        ssh_port: args.ssh_port,
        ssh_user: args.ssh_user,
        tailscale_ip_v4: args.tailscale_ip,
    }
}

/// The backend's answer to an enrolment.
#[derive(Debug, PartialEq)]
pub struct EnrollResponse {
    pub node_id: String,
    pub name: String,
    pub websocket_url: Option<String>,
    pub backend_public_key: Option<String>,
}

/// `{base}/api/agent/enroll`.
pub fn enroll_url(backend_url: &str) -> (r: String)
    ensures
        r@ == url_base(backend_url@) + "/api/agent/enroll"@,
{
    let b = url_base_of(backend_url);
    concat2(b.as_str(), "/api/agent/enroll")
}

/// The error when the backend refuses an enrolment, with its status and body.
pub fn enroll_failure(status: &str, body: &str) -> (r: String)
    ensures
        r@ == "enrollment failed ("@ + status@ + "): "@ + body@,
{
    let mut r = concat2("enrollment failed (", status);
    r.append("): ");
    r.append(body);
    r
}

/// The URLs tried, in order, to see whether the backend is reachable.
pub fn health_urls(backend_url: &str) -> (r: Vec<String>)
    ensures
        string_views(r@) == seq![url_base(backend_url@) + "/health"@, url_base(backend_url@) + "/api/health"@],
{
    let b = url_base_of(backend_url);
    let mut r: Vec<String> = Vec::new();
    push_line(&mut r, concat2(b.as_str(), "/health"));
    push_line(&mut r, concat2(b.as_str(), "/api/health"));
    assert(string_views(r@) =~= seq![url_base(backend_url@) + "/health"@, url_base(backend_url@) + "/api/health"@]);
    r
}

/// The configuration written after an enrolment: the node as the backend
/// named it, the backend's URL without trailing slashes and its WebSocket
/// endpoint (the one the backend gave, or the one derived from the URL), and
/// every other section at its defaults.
pub fn enrolled_config(response: &EnrollResponse, backend_url: &str, mode: &str, env: &PathEnv) -> (r: AgentConfig)
    ensures
        r.node.id@ == response.node_id@,
        r.node.name@ == response.name@,
        r.node.mode@ == mode@,
        r.backend.url@ == url_base(backend_url@),
        r.backend.websocket_url@ == match response.websocket_url {
            Some(w) => w@,
            None => derive_ws_spec(backend_url@),
        },
        r.auth.key_path@ == crate::config::join_spec(crate::config::base_spec(env@), "keys/node.key"@),
        r.auth.public_key_path@ == crate::config::join_spec(crate::config::base_spec(env@), "keys/node.pub"@),
        r.agent.data_dir@ == crate::config::data_dir_spec(env@),
        r.agent.log_level@ == "info"@,
        r.firewall.backend@ == "nftables"@,
        r.firewall.table_name@ == "ports_agent"@,
        !r.firewall.dry_run,
        r.firewall.backup_before_apply,
        r.features.firewall,
        r.features.traffic,
        r.features.conntrack,
        !r.features.proxmox_local,
{
    let websocket_url = match &response.websocket_url {
        Some(w) => owned(w.as_str()),
        None => derive_ws(backend_url),
    };
    AgentConfig {
        node: NodeSection {
            id: owned(response.node_id.as_str()),
            name: owned(response.name.as_str()),
            mode: owned(mode),
        },
        backend: BackendSection { url: url_base_of(backend_url), websocket_url },
        auth: AuthSection::defaults(env),
        agent: AgentSection::defaults(env),
        firewall: FirewallSection::default(),
        features: FeaturesSection::default(),
    }
}

/// The `authorized_keys` entry that lets the backend's key run only
/// `portsctl agent-rpc`.
pub open spec fn authorized_key_line_spec(key: Seq<char>) -> Seq<char> {
    "command=\"/usr/bin/portsctl agent-rpc\",no-port-forwarding,no-X11-forwarding,no-agent-forwarding,no-pty "@
        + key + "\n"@
}

pub fn authorized_key_line(key: &str) -> (r: String)
    ensures
        r@ == authorized_key_line_spec(key@),
{
    let mut r = concat2(
        "command=\"/usr/bin/portsctl agent-rpc\",no-port-forwarding,no-X11-forwarding,no-agent-forwarding,no-pty ",
        key,
    );
    r.append("\n");
    r
}

/// The new contents of `authorized_keys`: the entry is appended unless the
/// key is already there, in which case the file is left alone (`None`).
pub open spec fn authorized_keys_update_spec(existing: Seq<char>, key: Seq<char>) -> Option<Seq<char>> {
    if contains_spec(existing, key) {
        None
    } else {
        Some(existing + authorized_key_line_spec(key))
    }
}

pub fn authorized_keys_update(existing: &str, key: &str) -> (r: Option<String>)
    ensures
        opt_chars(r) == authorized_keys_update_spec(existing@, key@),
{
    let e = chars_of(existing);
    let k = chars_of(key);
    if contains(e.as_slice(), k.as_slice()) {
        None
    } else {
        let line = authorized_key_line(key);
        Some(concat2(existing, line.as_str()))
    }
}

/// Installing the same backend key twice changes the file once: after the
/// entry is appended, the file holds the key, and a second update leaves it
/// alone.
pub proof fn law_authorized_key_added_once(existing: Seq<char>, key: Seq<char>)
    ensures
        authorized_keys_update_spec(existing, key) matches Some(updated) ==> authorized_keys_update_spec(updated, key)
            is None,
{
    if let Some(updated) = authorized_keys_update_spec(existing, key) {
        let prefix = "command=\"/usr/bin/portsctl agent-rpc\",no-port-forwarding,no-X11-forwarding,no-agent-forwarding,no-pty "@;
        let i: int = existing.len() as int + prefix.len() as int;
        assert(updated =~= existing + prefix + key + "\n"@);
        assert(updated.subrange(i, i + key.len()) =~= key);
        crate::text::lemma_contains_at(updated, key, i);
    }
}

/// The configuration as read, or the error that says how to get one.
pub open spec fn load_config_error(path: Seq<char>, e: Seq<char>) -> Seq<char> {
    "cannot read "@ + path + ": "@ + e + " (run `portsctl login` first)"@
}

/// The configuration read from `path`; `loaded` is the result of reading and
/// parsing the file.
pub fn load_config(path: &str, loaded: Result<AgentConfig, String>) -> (r: Result<AgentConfig, String>)
    ensures
        match (loaded, r) {
            (Ok(c), Ok(d)) => c == d,
            (Err(e), Err(m)) => m@ == load_config_error(path@, e@),
            _ => false,
        },
{
    match loaded {
        Ok(c) => Ok(c),
        Err(e) => {
            let mut m = concat2("cannot read ", path);
            m.append(": ");
            m.append(e.as_str());
            m.append(" (run `portsctl login` first)");
            Err(m)
        },
    }
}

/// The directories `portsctl login` creates.
pub fn ensure_dirs(env: &PathEnv) -> (r: Vec<String>)
    ensures
        string_views(r@) == seq![
            crate::config::join_spec(crate::config::base_spec(env@), "config"@),
            crate::config::join_spec(crate::config::base_spec(env@), "keys"@),
            crate::config::data_dir_spec(env@),
            crate::config::log_dir_spec(env@),
        ],
{
    let mut r: Vec<String> = Vec::new();
    push_line(&mut r, crate::config::config_dir(env));
    push_line(&mut r, crate::config::key_dir(env));
    push_line(&mut r, crate::config::data_dir(env));
    push_line(&mut r, crate::config::log_dir(env));
    assert(string_views(r@) =~= seq![
        crate::config::join_spec(crate::config::base_spec(env@), "config"@),
        crate::config::join_spec(crate::config::base_spec(env@), "keys"@),
        crate::config::data_dir_spec(env@),
        crate::config::log_dir_spec(env@),
    ]);
    r
}

/// `{HOME}/.config/systemd/user/ports-agent.service`, with an empty `HOME`
/// when it is unset: where a per-user unit of the agent lives.
pub fn user_unit_path(home: Option<&str>) -> (r: String)
    ensures
        r@ == match home {
            Some(h) => h@,
            None => Seq::<char>::empty(),
        } + "/.config/systemd/user/ports-agent.service"@,
{
    match home {
        Some(h) => concat2(h, "/.config/systemd/user/ports-agent.service"),
        None => owned("/.config/systemd/user/ports-agent.service"),
    }
}

/// Whether the agent runs as a per-user service: `PORTS_USER_SERVICE` is `1`,
/// or a per-user unit exists.
pub fn user_mode(user_service_var: Option<&str>, user_unit_present: bool) -> (r: bool)
    ensures
        r == (match user_service_var {
            Some(v) => v@ == "1"@,
            None => false,
        } || user_unit_present),
{
    let by_var = match user_service_var {
        Some(v) => str_eq(v, "1"),
        None => false,
    };
    by_var || user_unit_present
}

/// The arguments of `systemctl` for an action on the agent's unit.
pub open spec fn systemctl_args_spec(user: bool, action: Seq<char>) -> Seq<Seq<char>> {
    (if user { seq!["--user"@] } else { seq![] }) + seq![action, SERVICE_NAME@]
}

pub fn systemctl_args(user: bool, action: &str) -> (r: Vec<String>)
    ensures
        string_views(r@) == systemctl_args_spec(user, action@),
{
    let mut r: Vec<String> = Vec::new();
    if user {
        push_str(&mut r, "--user");
    }
    push_str(&mut r, action);
    push_str(&mut r, SERVICE_NAME);
    assert(string_views(r@) =~= systemctl_args_spec(user, action@));
    r
}

/// The error when `systemctl` fails.
pub fn systemctl_failure(action: &str) -> (r: String)
    ensures
        r@ == "systemctl "@ + action@ + " "@ + SERVICE_NAME@ + " failed"@,
{
    let mut r = concat2("systemctl ", action);
    r.append(" ");
    r.append(SERVICE_NAME);
    r.append(" failed");
    r
}

/// The arguments of `systemctl` that ask whether the agent is active.
pub fn service_active_args(user: bool) -> (r: Vec<String>)
    ensures
        string_views(r@) == systemctl_args_spec(user, "is-active"@),
{
    systemctl_args(user, "is-active")
}

/// The state `systemctl is-active` printed, trimmed; `unknown` when it printed
/// nothing or could not be run (`None`).
pub open spec fn service_active_spec(stdout: Option<Seq<char>>) -> Seq<char> {
    match stdout {
        Some(s) => if trim_spec(s).len() > 0 { trim_spec(s) } else { "unknown"@ },
        None => "unknown"@,
    }
}

pub fn service_active(stdout: Option<&str>) -> (r: String)
    ensures
        r@ == service_active_spec(match stdout { Some(s) => Some(s@), None => None }),
{
    match stdout {
        Some(s) => {
            let t = trim_str(s);
            if t.as_str().is_empty() {
                owned("unknown")
            } else {
                t
            }
        },
        None => owned("unknown"),
    }
}

/// The arguments of `journalctl` that print the agent's last lines.
pub open spec fn logs_args_spec(user: bool, lines: nat) -> Seq<Seq<char>> {
    (if user { seq!["--user"@] } else { seq![] }) + seq!["-u"@, SERVICE_NAME@, "-n"@, decimal_spec(lines), "--no-pager"@]
}

pub fn logs_args(user: bool, lines: u32) -> (r: Vec<String>)
    ensures
        string_views(r@) == logs_args_spec(user, lines as nat),
{
    let mut r: Vec<String> = Vec::new();
    if user {
        push_str(&mut r, "--user");
    }
    push_str(&mut r, "-u");
    push_str(&mut r, SERVICE_NAME);
    push_str(&mut r, "-n");
    push_line(&mut r, decimal(lines as u64));
    push_str(&mut r, "--no-pager");
    assert(string_views(r@) =~= logs_args_spec(user, lines as nat));
    r
}

/// What `portsctl status` prints about the node, its service and its
/// machine; the WebSocket endpoint only for a reverse node.
pub open spec fn status_report_spec(
    id: Seq<char>,
    name: Seq<char>,
    mode: Seq<char>,
    backend: Seq<char>,
    websocket: Seq<char>,
    service: Seq<char>,
    firewall_backend: Seq<char>,
    proxmox: bool,
    interfaces: nat,
) -> Seq<Seq<char>> {
    seq!["node id:          "@ + id, "node name:        "@ + name, "mode:             "@ + mode, "backend:          "@
        + backend] + (if mode == "reverse"@ { seq!["websocket:        "@ + websocket] } else { seq![] }) + seq![
        "service:          "@ + service,
        "firewall backend: "@ + firewall_backend,
        "proxmox detected: "@ + (if proxmox { "true"@ } else { "false"@ }),
        "interfaces:       "@ + decimal_spec(interfaces),
    ]
}

pub fn status_report(
    config: &AgentConfig,
    service: &str,
    firewall_backend: &str,
    proxmox: bool,
    interfaces: u64,
) -> (r: Vec<String>)
    ensures
        string_views(r@) == status_report_spec(
            config.node.id@,
            config.node.name@,
            config.node.mode@,
            config.backend.url@,
            config.backend.websocket_url@,
            service@,
            firewall_backend@,
            proxmox,
            interfaces as nat,
        ),
{
    let mut r: Vec<String> = Vec::new();
    push_line(&mut r, concat2("node id:          ", config.node.id.as_str()));
    push_line(&mut r, concat2("node name:        ", config.node.name.as_str()));
    push_line(&mut r, concat2("mode:             ", config.node.mode.as_str()));
    push_line(&mut r, concat2("backend:          ", config.backend.url.as_str()));
    if str_eq(config.node.mode.as_str(), "reverse") {
        push_line(&mut r, concat2("websocket:        ", config.backend.websocket_url.as_str()));
    }
    push_line(&mut r, concat2("service:          ", service));
    push_line(&mut r, concat2("firewall backend: ", firewall_backend));
    push_line(&mut r, concat2("proxmox detected: ", if proxmox { "true" } else { "false" }));
    let d = decimal(interfaces);
    push_line(&mut r, concat2("interfaces:       ", d.as_str()));
    assert(string_views(r@) =~= status_report_spec(
        config.node.id@,
        config.node.name@,
        config.node.mode@,
        config.backend.url@,
        config.backend.websocket_url@,
        service@,
        firewall_backend@,
        proxmox,
        interfaces as nat,
    ));
    r
}

/// How `portsctl check` marks a check.
pub open spec fn mark(ok: bool) -> Seq<char> {
    if ok { "ok"@ } else { "FAIL"@ }
}

fn mark_of(ok: bool) -> (r: &'static str)
    ensures
        r@ == mark(ok),
{
    if ok { "ok" } else { "FAIL" }
}

fn check_line(ok: bool, what: &str) -> (r: String)
    ensures
        r@ == "["@ + mark(ok) + "] "@ + what@,
{
    let mut r = concat2("[", mark_of(ok));
    r.append("] ");
    r.append(what);
    r
}

/// The report of `portsctl check`. `backend` is, when a configuration was
/// read, its backend URL and whether that backend answered.
pub open spec fn check_report_spec(
    config_present: bool,
    key_present: bool,
    nft_present: bool,
    ip_forward: bool,
    service_state: Seq<char>,
    backend: Option<(Seq<char>, bool)>,
) -> Seq<Seq<char>> {
    seq![
        "["@ + mark(config_present) + "] "@ + "config present"@,
        "["@ + mark(key_present) + "] "@ + "node key present"@,
        "["@ + mark(nft_present) + "] "@ + "nft available"@,
        "["@ + mark(ip_forward) + "] "@ + "ip_forward enabled"@,
        "["@ + mark(service_state == "active"@) + "] "@ + "service active"@,
    ] + match backend {
        Some((url, reachable)) => seq!["["@ + mark(reachable) + "] "@ + ("backend reachable ("@ + url + ")"@)],
        None => seq![],
    }
}

pub fn check_report(
    config_present: bool,
    key_present: bool,
    nft_present: bool,
    ip_forward: bool,
    service_state: &str,
    backend: Option<(&str, bool)>,
) -> (r: Vec<String>)
    ensures
        string_views(r@) == check_report_spec(
            config_present,
            key_present,
            nft_present,
            ip_forward,
            service_state@,
            match backend {
                Some((u, b)) => Some((u@, b)),
                None => None,
            },
        ),
{
    let mut r: Vec<String> = Vec::new();
    push_line(&mut r, check_line(config_present, "config present"));
    push_line(&mut r, check_line(key_present, "node key present"));
    push_line(&mut r, check_line(nft_present, "nft available"));
    push_line(&mut r, check_line(ip_forward, "ip_forward enabled"));
    push_line(&mut r, check_line(str_eq(service_state, "active"), "service active"));
    match backend {
        Some((url, reachable)) => {
            let mut what = concat2("backend reachable (", url);
            what.append(")");
            push_line(&mut r, check_line(reachable, what.as_str()));
        },
        None => {},
    }
    assert(string_views(r@) =~= check_report_spec(
        config_present,
        key_present,
        nft_present,
        ip_forward,
        service_state@,
        match backend {
            Some((u, b)) => Some((u@, b)),
            None => None,
        },
    ));
    r
}

/// The lines of a plan for one recorded rule.
pub open spec fn rule_report_spec(
    rule_id: Seq<char>,
    table: Seq<char>,
    pf: PortForwardView,
    ip_forward_enabled: bool,
    nft_present: bool,
) -> Seq<Seq<char>> {
    seq!["- "@ + rule_id + ":"@]
        + (setup_commands_spec(table) + rule_commands_spec(table, pf)).map_values(|c: Seq<Seq<char>>| "    "@ + plan_line(c))
        + plan_warnings(ip_forward_enabled, nft_present).map_values(|w: Seq<char>| "    ! "@ + w)
}

/// The lines for the recorded rules that parse as forwards, in key order.
pub open spec fn rules_report_spec(
    es: Seq<(Seq<char>, JsonView)>,
    table: Seq<char>,
    ip_forward_enabled: bool,
    nft_present: bool,
) -> Seq<Seq<char>>
    decreases es.len(),
{
    if es.len() == 0 {
        seq![]
    } else {
        rules_report_spec(es.drop_last(), table, ip_forward_enabled, nft_present) + match port_forward_spec(es.last().1) {
            Ok(pf) => rule_report_spec(es.last().0, table, pf, ip_forward_enabled, nft_present),
            Err(_) => seq![],
        }
    }
}

/// What `portsctl firewall plan` prints: the number of recorded rules, then
/// the plan of each recorded rule that parses.
pub open spec fn firewall_plan_report_spec(
    es: Seq<(Seq<char>, JsonView)>,
    table: Seq<char>,
    ip_forward_enabled: bool,
    nft_present: bool,
) -> Seq<Seq<char>> {
    seq!["managed rules: "@ + decimal_spec(es.len())] + rules_report_spec(es, table, ip_forward_enabled, nft_present)
}

fn push_prefixed(out: &mut Vec<String>, prefix: &str, lines: &Vec<String>)
    ensures
        string_views(final(out)@) == string_views(old(out)@) + string_views(lines@).map_values(
            |l: Seq<char>| prefix@ + l,
        ),
{
    let ghost start = string_views(out@);
    let n = lines.len();
    let mut i: usize = 0;
    while i < n
        invariant
            n == lines@.len(),
            i <= n,
            string_views(out@) == start + string_views(lines@).subrange(0, i as int).map_values(
                |l: Seq<char>| prefix@ + l,
            ),
        decreases n - i,
    {
        push_line(out, concat2(prefix, lines[i].as_str()));
        assert(string_views(lines@).subrange(0, i + 1).map_values(|l: Seq<char>| prefix@ + l) =~= string_views(
            lines@,
        ).subrange(0, i as int).map_values(|l: Seq<char>| prefix@ + l).push(prefix@ + lines@[i as int]@));
        i = i + 1;
    }
    assert(string_views(lines@).subrange(0, n as int) =~= string_views(lines@));
}

pub fn firewall_plan_report(rules: &RuleMap, nft: &Nftables, ip_forward_enabled: bool, nft_present: bool) -> (r: Vec<
    String,
>)
    ensures
        string_views(r@) == firewall_plan_report_spec(rules.ordered(), nft@.table, ip_forward_enabled, nft_present),
{
    let entries = rules.entries();
    let ghost es = entries_view(entries@);
    let n = entries.len();
    let mut r: Vec<String> = Vec::new();
    let mut head = owned("managed rules: ");
    let count = decimal(n as u64);
    head.append(count.as_str());
    push_line(&mut r, head);
    assert(es.subrange(0, 0) =~= Seq::<(Seq<char>, JsonView)>::empty());
    assert(string_views(r@) =~= seq!["managed rules: "@ + decimal_spec(es.len())] + rules_report_spec(
        es.subrange(0, 0),
        nft@.table,
        ip_forward_enabled,
        nft_present,
    ));
    let mut i: usize = 0;
    while i < n
        invariant
            n == entries@.len(),
            es == entries_view(entries@),
            es == rules.ordered(),
            i <= n,
            string_views(r@) == seq!["managed rules: "@ + decimal_spec(es.len())] + rules_report_spec(
                es.subrange(0, i as int),
                nft@.table,
                ip_forward_enabled,
                nft_present,
            ),
        decreases n - i,
    {
        let ghost before = string_views(r@);
        assert(es.subrange(0, i + 1).drop_last() =~= es.subrange(0, i as int));
        assert(es.subrange(0, i + 1).last() == es[i as int]);
        assert(es[i as int] == (entries@[i as int].rule_id@, entries@[i as int].payload@));
        match PortForward::from_payload(&entries[i].payload) {
            Ok(pf) => {
                let plan = nft.plan_with(&pf, ip_forward_enabled, nft_present);
                let mut title = concat2("- ", entries[i].rule_id.as_str());
                title.append(":");
                push_line(&mut r, title);
                push_prefixed(&mut r, "    ", &plan.changes);
                push_prefixed(&mut r, "    ! ", &plan.warnings);
                assert((setup_commands_spec(nft@.table) + rule_commands_spec(nft@.table, pf@)).map_values(
                    |c: Seq<Seq<char>>| "    "@ + plan_line(c),
                ) =~= string_views(plan.changes@).map_values(|l: Seq<char>| "    "@ + l));
                assert(string_views(r@) =~= before + rule_report_spec(
                    entries@[i as int].rule_id@,
                    nft@.table,
                    pf@,
                    ip_forward_enabled,
                    nft_present,
                ));
            },
            Err(_) => {},
        }
        i = i + 1;
    }
    assert(es.subrange(0, n as int) =~= es);
    r
}

/// The recorded rules that parse as forwards, in key order.
pub open spec fn recorded_forwards(es: Seq<(Seq<char>, JsonView)>) -> Seq<PortForwardView>
    decreases es.len(),
{
    if es.len() == 0 {
        seq![]
    } else {
        recorded_forwards(es.drop_last()) + match port_forward_spec(es.last().1) {
            Ok(pf) => seq![pf],
            Err(_) => seq![],
        }
    }
}

/// The forwards `portsctl firewall apply` applies again.
pub fn rules_to_reapply(rules: &RuleMap) -> (r: Vec<PortForward>)
    ensures
        r@.map_values(|p: PortForward| p@) == recorded_forwards(rules.ordered()),
{
    let entries = rules.entries();
    let ghost es = entries_view(entries@);
    let n = entries.len();
    let mut r: Vec<PortForward> = Vec::new();
    let mut i: usize = 0;
    assert(es.subrange(0, 0) =~= Seq::<(Seq<char>, JsonView)>::empty());
    assert(r@.map_values(|p: PortForward| p@) =~= Seq::<PortForwardView>::empty());
    while i < n
        invariant
            n == entries@.len(),
            es == entries_view(entries@),
            es == rules.ordered(),
            i <= n,
            r@.map_values(|p: PortForward| p@) == recorded_forwards(es.subrange(0, i as int)),
        decreases n - i,
    {
        assert(es.subrange(0, i + 1).drop_last() =~= es.subrange(0, i as int));
        assert(es[i as int] == (entries@[i as int].rule_id@, entries@[i as int].payload@));
        match PortForward::from_payload(&entries[i].payload) {
            Ok(pf) => {
                let ghost before = r@.map_values(|p: PortForward| p@);
                r.push(pf);
                assert(r@.map_values(|p: PortForward| p@) =~= before.push(pf@));
            },
            Err(_) => {},
        }
        i = i + 1;
    }
    assert(es.subrange(0, n as int) =~= es);
    r
}

/// What `portsctl firewall apply` prints at the end.
pub fn reapplied_message(count: u64) -> (r: String)
    ensures
        r@ == "reapplied "@ + decimal_spec(count as nat) + " rule(s)"@,
{
    let mut r = owned("reapplied ");
    let d = decimal(count);
    r.append(d.as_str());
    r.append(" rule(s)");
    r
}

/// With a backend URL and a token, each mode is accepted exactly when what
/// it needs is given: `reverse` always, `ssh` with an SSH host whatever the
/// Tailscale IP, `tailscale` with a Tailscale IP whatever the SSH host; an
/// accepted login goes on with the URL and token as given, and a mode that
/// lacks what it needs is refused with the flag that is missing.
pub proof fn law_login_modes(
    u: Seq<char>,
    t: Seq<char>,
    ssh_host: Option<Seq<char>>,
    tailscale_ip: Option<Seq<char>>,
)
    ensures
        login_check_spec(Some(u), Some(t), "reverse"@, ssh_host, tailscale_ip) == Ok::<(Seq<char>, Seq<char>), Seq<char>>(
            (u, t),
        ),
        ssh_host is Some ==> login_check_spec(Some(u), Some(t), "ssh"@, ssh_host, tailscale_ip) == Ok::<
            (Seq<char>, Seq<char>),
            Seq<char>,
        >((u, t)),
        ssh_host is None ==> login_check_spec(Some(u), Some(t), "ssh"@, ssh_host, tailscale_ip) == Err::<
            (Seq<char>, Seq<char>),
            Seq<char>,
        >("--ssh-host is required for ssh mode"@),
        tailscale_ip is Some ==> login_check_spec(Some(u), Some(t), "tailscale"@, ssh_host, tailscale_ip) == Ok::<
            (Seq<char>, Seq<char>),
            Seq<char>,
        >((u, t)),
        tailscale_ip is None ==> login_check_spec(Some(u), Some(t), "tailscale"@, ssh_host, tailscale_ip) == Err::<
            (Seq<char>, Seq<char>),
            Seq<char>,
        >("--tailscale-ip is required for tailscale mode"@),
{
    reveal_strlit("reverse");
    reveal_strlit("ssh");
    reveal_strlit("tailscale");
    assert("reverse"@.len() != "ssh"@.len());
    assert("reverse"@.len() != "tailscale"@.len());
    assert("ssh"@.len() != "tailscale"@.len());
    assert("reverse"@ != "ssh"@);
    assert("reverse"@ != "tailscale"@);
    assert("ssh"@ != "tailscale"@);
}

} // verus!
