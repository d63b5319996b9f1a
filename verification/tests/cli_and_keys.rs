use base64::Engine;
use ed25519_dalek::Signer;
use ports_agent::config::{
    AgentConfig, AgentSection, AuthSection, BackendSection, FeaturesSection, FirewallSection, NodeSection, PathEnv,
};
use ports_agent::ctl::{
    authorized_key_line, authorized_keys_update, check_login, check_report, derive_ws, enroll_failure, enroll_request,
    enroll_url, enrolled_config, ensure_dirs, firewall_plan_report, health_urls, load_config, logs_args,
    reapplied_message, rules_to_reapply, service_active, service_active_args, status_report, systemctl_args,
    systemctl_failure,
    user_mode, user_unit_path, EnrollResponse, LoginArgs, MachineFacts,
};
use ports_agent::firewall::Nftables;
use ports_agent::json::{JsonField, JsonNumber, JsonValue};
use ports_agent::keys::{generate_and_store, load_signing, public_key_b64, secret_from, sign_b64, stored_keys, KeyError};
use ports_agent::store::Store;
use ports_agent::transport::{
    hello_frame, is_blank, react, reverse_target, runs_daemon, sends_telemetry, telemetry_frame, Incoming, Reaction,
    RECONNECT_DELAY_SECS, TELEMETRY_INTERVAL_SECS,
};

fn s(x: &str) -> JsonValue {
    JsonValue::Str(x.to_string())
}

fn n(x: u64) -> JsonValue {
    JsonValue::Number(JsonNumber::PosInt(x))
}

fn obj(fs: Vec<(&str, JsonValue)>) -> JsonValue {
    JsonValue::Object(fs.into_iter().map(|(k, v)| JsonField { key: k.to_string(), value: v }).collect())
}

fn words(v: &[&str]) -> Vec<String> {
    v.iter().map(|w| w.to_string()).collect()
}

fn b64(bytes: &[u8]) -> String {
    base64::engine::general_purpose::STANDARD.encode(bytes)
}

fn rfc_secret() -> Vec<u8> {
    let hex = "9d61b19deffd5a60ba844af492ec2cc44449c5697b326919703bac031cae7f60";
    (0..32).map(|i| u8::from_str_radix(&hex[2 * i..2 * i + 2], 16).unwrap()).collect()
}

fn login(url: Option<&str>, token: Option<&str>, mode: &str, ssh_host: Option<&str>, ts_ip: Option<&str>) -> LoginArgs {
    LoginArgs {
        backend_url: url.map(|x| x.to_string()),
        token: token.map(|x| x.to_string()),
        mode: mode.to_string(),
        ssh_host: ssh_host.map(|x| x.to_string()),
        ssh_port: 22,
        ssh_user: "ports".to_string(),
        tailscale_ip: ts_ip.map(|x| x.to_string()),
    }
}

#[test]
fn derive_ws_variants() {
    assert_eq!(derive_ws("http://10.0.0.1:8000//"), "ws://10.0.0.1:8000/api/agent/connect");
    assert_eq!(derive_ws("panel.local"), "panel.local/api/agent/connect");
}

#[test]
fn login_arguments_checked() {
    assert_eq!(
        check_login(&login(None, None, "reverse", None, None)).unwrap_err(),
        "usage: portsctl login <backend-url> <enrollment-token> [--mode ssh|reverse|tailscale]"
    );
    assert_eq!(check_login(&login(Some("https://p"), None, "reverse", None, None)).unwrap_err(), "missing enrollment token");
    assert_eq!(
        check_login(&login(Some("https://p"), Some("t"), "mesh", None, None)).unwrap_err(),
        "mode must be 'reverse', 'ssh' or 'tailscale'"
    );
    assert_eq!(
        check_login(&login(Some("https://p"), Some("t"), "ssh", None, None)).unwrap_err(),
        "--ssh-host is required for ssh mode"
    );
    assert_eq!(
        check_login(&login(Some("https://p"), Some("t"), "tailscale", None, None)).unwrap_err(),
        "--tailscale-ip is required for tailscale mode"
    );
    assert_eq!(
        check_login(&login(Some("https://p"), Some("t"), "ssh", Some("h"), None)).unwrap(),
        ("https://p".to_string(), "t".to_string())
    );
}

#[test]
fn enrolment_request_and_config() {
    let args = login(Some("https://p/"), Some("tok"), "tailscale", None, Some("100.64.0.2"));
    let facts = MachineFacts {
        hostname: "edge".to_string(),
        os: "linux".to_string(),
        arch: "x86_64".to_string(),
        firewall_backend: "nftables".to_string(),
        interfaces: vec![],
        proxmox_detected: false,
    };
    let req = enroll_request(args, "tok".to_string(), facts, "PUB".to_string());
    assert_eq!(req.agent_version, "0.1.0");
    assert_eq!(req.tailscale_ip_v4, Some("100.64.0.2".to_string()));
    assert_eq!(req.public_key, Some("PUB".to_string()));
    assert_eq!(req.name, None);
    assert_eq!(enroll_url("https://p//"), "https://p/api/agent/enroll");
    assert_eq!(health_urls("https://p/"), words(&["https://p/health", "https://p/api/health"]));
    assert_eq!(enroll_failure("403 Forbidden", "bad token"), "enrollment failed (403 Forbidden): bad token");
    let env = PathEnv { config_dir: None, data_dir: None, log_dir: None, home: None, user_config_present: false };
    let resp = EnrollResponse {
        node_id: "n-1".to_string(),
        name: "edge".to_string(),
        websocket_url: None,
        backend_public_key: None,
    };
    let cfg = enrolled_config(&resp, "https://p/", "reverse", &env);
    assert_eq!(cfg.backend.url, "https://p");
    assert_eq!(cfg.backend.websocket_url, "wss://p/api/agent/connect");
    assert_eq!(cfg.auth.key_path, "/etc/ports/keys/node.key");
    assert_eq!(cfg.agent.data_dir, "/var/lib/ports");
    assert_eq!(cfg.firewall.table_name, "ports_agent");
    assert!(cfg.firewall.backup_before_apply && !cfg.firewall.dry_run);
    let given = EnrollResponse { websocket_url: Some("wss://ws.p/x".to_string()), ..resp };
    assert_eq!(enrolled_config(&given, "https://p", "ssh", &env).backend.websocket_url, "wss://ws.p/x");
}

#[test]
fn authorized_keys_entry() {
    let line = authorized_key_line("ssh-ed25519 AAAA backend");
    assert_eq!(
        line,
        "command=\"/usr/bin/portsctl agent-rpc\",no-port-forwarding,no-X11-forwarding,no-agent-forwarding,no-pty ssh-ed25519 AAAA backend\n"
    );
    assert_eq!(authorized_keys_update("x ssh-ed25519 AAAA backend\n", "ssh-ed25519 AAAA backend"), None);
    assert_eq!(authorized_keys_update("old\n", "K"), Some(format!("old\n{}", authorized_key_line("K"))));
}

#[test]
fn service_helpers() {
    assert_eq!(
        load_config("/etc/ports/config/agent.yaml", Err("No such file or directory (os error 2)".to_string())).unwrap_err(),
        "cannot read /etc/ports/config/agent.yaml: No such file or directory (os error 2) (run `portsctl login` first)"
    );
    let env = PathEnv { config_dir: None, data_dir: Some("/d".to_string()), log_dir: None, home: Some("/h".to_string()), user_config_present: false };
    assert_eq!(ensure_dirs(&env), words(&["/etc/ports/config", "/etc/ports/keys", "/d", "/var/log/ports"]));
    assert_eq!(user_unit_path(Some("/h")), "/h/.config/systemd/user/ports-agent.service");
    assert_eq!(user_unit_path(None), "/.config/systemd/user/ports-agent.service");
    assert!(user_mode(Some("1"), false));
    assert!(!user_mode(Some("yes"), false));
    assert!(user_mode(None, true));
    assert_eq!(systemctl_args(true, "restart"), words(&["--user", "restart", "ports-agent"]));
    assert_eq!(systemctl_args(false, "stop"), words(&["stop", "ports-agent"]));
    assert_eq!(systemctl_failure("enable"), "systemctl enable ports-agent failed");
    assert_eq!(service_active_args(false), words(&["is-active", "ports-agent"]));
    assert_eq!(service_active(Some("active\n")), "active");
    assert_eq!(service_active(Some("  \n")), "unknown");
    assert_eq!(service_active(None), "unknown");
    assert_eq!(logs_args(false, 100), words(&["-u", "ports-agent", "-n", "100", "--no-pager"]));
}

#[test]
fn check_report_lines() {
    assert_eq!(
        check_report(true, false, true, false, "active", Some(("https://p", false))),
        words(&[
            "[ok] config present",
            "[FAIL] node key present",
            "[ok] nft available",
            "[FAIL] ip_forward enabled",
            "[ok] service active",
            "[FAIL] backend reachable (https://p)",
        ])
    );
    assert_eq!(check_report(false, false, false, false, "inactive", None).len(), 5);
}

#[test]
fn firewall_command_reports() {
    let mut store = Store::open("/s.json", None);
    store.record_rule(
        "r1",
        obj(vec![
            ("ruleId", s("r1")),
            ("externalInterface", s("eth0")),
            ("externalPort", n(80)),
            ("internalIp", s("10.0.0.5")),
            ("internalPort", n(8080)),
        ]),
    );
    store.record_rule("r0", obj(vec![("ruleId", s("r0"))]));
    let nft = Nftables::new("t".to_string(), false, true);
    let lines = firewall_plan_report(&store.state().applied_rules, &nft, true, false);
    assert_eq!(lines[0], "managed rules: 2");
    assert_eq!(lines[1], "- r1:");
    assert_eq!(lines[2], "    nft add table ip t");
    assert_eq!(lines.last().unwrap(), "    ! nft binary not found on PATH");
    assert_eq!(lines.len(), 1 + 1 + 5 + 1);
    let again = rules_to_reapply(&store.state().applied_rules);
    assert_eq!(again.len(), 1);
    assert_eq!(again[0].rule_id, "r1");
    assert_eq!(reapplied_message(1), "reapplied 1 rule(s)");
}

#[test]
fn stored_key_round_trip() {
    let secret = rfc_secret();
    let keys = stored_keys(&secret);
    assert_eq!(keys.key_text, b64(&secret));
    assert_eq!(keys.public_text, "11qYAYKxCrfVS/7TyWQHOg7hcvPapiMlrwIaaPcHURo=");
    assert_eq!(load_signing(&format!("{}\n", keys.key_text)), Ok(secret.clone()));
    let generated = generate_and_store().expect("the system generator answers");
    let loaded = load_signing(&generated.key_text).unwrap();
    assert_eq!(loaded.len(), 32);
    assert_eq!(stored_keys(&loaded).public_text, generated.public_text);
    assert_eq!(public_key_b64(" abc \n"), "abc");
}

#[test]
fn bad_keys_refused() {
    assert_eq!(load_signing(&b64(&[1, 2, 3])), Err(KeyError::Length));
    assert_eq!(KeyError::Length.message(), "invalid signing key length");
    match load_signing("not base64!") {
        Err(KeyError::Decode(m)) => assert!(!m.is_empty()),
        other => panic!("unexpected {other:?}"),
    }
}

#[test]
fn signatures_match_ed25519() {
    let secret = rfc_secret();
    let key_text = b64(&secret);
    let sig = sign_b64(&key_text, b"").unwrap();
    assert_eq!(
        sig,
        b64(&[
            0xe5, 0x56, 0x43, 0x00, 0xc3, 0x60, 0xac, 0x72, 0x90, 0x86, 0xe2, 0xcc, 0x80, 0x6e, 0x82, 0x8a, 0x84, 0x87,
            0x7f, 0x1e, 0xb8, 0xe5, 0xd9, 0x74, 0xd8, 0x73, 0xe0, 0x65, 0x22, 0x49, 0x01, 0x55, 0x5f, 0xb8, 0x82, 0x15,
            0x90, 0xa3, 0x3b, 0xac, 0xc6, 0x1e, 0x39, 0x70, 0x1c, 0xf9, 0xb4, 0x6b, 0xd2, 0x5b, 0xf5, 0xf0, 0x59, 0x5b,
            0xbe, 0x24, 0x65, 0x51, 0x41, 0x43, 0x8e, 0x7a, 0x10, 0x0b,
        ])
    );
    let arr: [u8; 32] = secret.clone().try_into().unwrap();
    let expected = ed25519_dalek::SigningKey::from_bytes(&arr).sign(b"node-7").to_bytes();
    assert_eq!(sign_b64(&key_text, b"node-7").unwrap(), b64(&expected));
}

#[test]
fn hello_frame_is_signed() {
    let secret = rfc_secret();
    let key_text = b64(&secret);
    let frame = hello_frame("node-7", &key_text).unwrap();
    let sig = sign_b64(&key_text, b"node-7").unwrap();
    assert_eq!(
        frame,
        obj(vec![
            ("type", s("hello")),
            ("payload", obj(vec![("nodeId", s("node-7")), ("agentVersion", s("0.1.0")), ("signature", s(&sig))])),
        ])
    );
    assert_eq!(hello_frame("node-7", "???"), Err(match load_signing("???") {
        Err(e) => e,
        Ok(_) => unreachable!(),
    }));
}

#[test]
fn transport_decisions() {
    assert_eq!(reverse_target(""), Err("backend.websocket_url is empty".to_string()));
    assert_eq!(reverse_target("wss://p/ws"), Ok("wss://p/ws".to_string()));
    assert!(runs_daemon("reverse"));
    assert!(!runs_daemon("ssh"));
    assert!(sends_telemetry(true));
    assert_eq!(
        telemetry_frame(JsonValue::Null),
        obj(vec![("type", s("telemetry.snapshot")), ("payload", JsonValue::Null)])
    );
    assert_eq!(react(Incoming::Text), Reaction::Answer);
    assert_eq!(react(Incoming::Ping(vec![1, 2])), Reaction::Pong(vec![1, 2]));
    assert_eq!(react(Incoming::Closed), Reaction::Stop);
    assert_eq!(react(Incoming::Other), Reaction::Ignore);
    assert_eq!(react(Incoming::Failed), Reaction::Fail);
    assert!(is_blank(" \t\n"));
    assert!(!is_blank(" {} "));
    assert_eq!(RECONNECT_DELAY_SECS, 5);
    assert_eq!(TELEMETRY_INTERVAL_SECS, 15);
}

#[test]
fn config_sections_compare() {
    let a = AgentConfig {
        node: NodeSection { id: "n".to_string(), name: "x".to_string(), mode: "reverse".to_string() },
        backend: BackendSection { url: "u".to_string(), websocket_url: "w".to_string() },
        auth: AuthSection { key_path: "k".to_string(), public_key_path: "p".to_string() },
        agent: AgentSection { data_dir: "d".to_string(), log_level: "info".to_string() },
        firewall: FirewallSection::default(),
        features: FeaturesSection::default(),
    };
    assert_eq!(load_config("/c", Ok(a)).unwrap().firewall.backend, "nftables");
}

#[test]
fn status_lines() {
    let mut cfg = AgentConfig {
        node: NodeSection { id: "n1".to_string(), name: "edge".to_string(), mode: "reverse".to_string() },
        backend: BackendSection { url: "https://p".to_string(), websocket_url: "wss://p/ws".to_string() },
        auth: AuthSection { key_path: "k".to_string(), public_key_path: "p".to_string() },
        agent: AgentSection { data_dir: "d".to_string(), log_level: "info".to_string() },
        firewall: FirewallSection::default(),
        features: FeaturesSection::default(),
    };
    assert_eq!(
        status_report(&cfg, "active", "nftables", false, 3),
        words(&[
            "node id:          n1",
            "node name:        edge",
            "mode:             reverse",
            "backend:          https://p",
            "websocket:        wss://p/ws",
            "service:          active",
            "firewall backend: nftables",
            "proxmox detected: false",
            "interfaces:       3",
        ])
    );
    cfg.node.mode = "ssh".to_string();
    assert_eq!(status_report(&cfg, "inactive", "none", true, 0).len(), 8);
}

#[test]
fn secret_from_decoded_bytes() {
    assert_eq!(secret_from(Ok(vec![7u8; 32])), Ok(vec![7u8; 32]));
    assert_eq!(secret_from(Ok(vec![7u8; 31])), Err(KeyError::Length));
    assert_eq!(secret_from(Err("Invalid padding".to_string())), Err(KeyError::Decode("Invalid padding".to_string())));
}

#[test]
fn key_installed_once() {
    let once = authorized_keys_update("", "ssh-ed25519 BBBB").unwrap();
    assert_eq!(authorized_keys_update(&once, "ssh-ed25519 BBBB"), None);
}

#[test]
fn signature_has_64_bytes() {
    let key_text = b64(&rfc_secret());
    let sig = sign_b64(&key_text, b"anything").unwrap();
    assert_eq!(base64::engine::general_purpose::STANDARD.decode(sig).unwrap().len(), 64);
}
