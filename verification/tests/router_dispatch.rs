use ports_agent::config::{
    AgentConfig, AgentSection, AuthSection, BackendSection, FeaturesSection, FirewallSection, NodeSection,
};
use ports_agent::firewall::{Nftables, PortForward};
use ports_agent::json::{JsonField, JsonNumber, JsonValue};
use ports_agent::protocol::{RpcRequest, RpcResponse};
use ports_agent::router::{
    dispatch, docker_payload, firewall_applied, firewall_backed_up, firewall_deleted, invalid_request,
    list_payload, plan_payload, respond, state_path, Route,
};
use ports_agent::store::Store;

fn s(x: &str) -> JsonValue {
    JsonValue::Str(x.to_string())
}

fn n(x: u64) -> JsonValue {
    JsonValue::Number(JsonNumber::PosInt(x))
}

fn obj(fs: Vec<(&str, JsonValue)>) -> JsonValue {
    JsonValue::Object(fs.into_iter().map(|(k, v)| JsonField { key: k.to_string(), value: v }).collect())
}

fn config() -> AgentConfig {
    AgentConfig {
        node: NodeSection { id: "node-7".to_string(), name: "edge".to_string(), mode: "ssh".to_string() },
        backend: BackendSection { url: "https://p".to_string(), websocket_url: String::new() },
        auth: AuthSection { key_path: "/k".to_string(), public_key_path: "/k.pub".to_string() },
        agent: AgentSection { data_dir: "/var/lib/ports".to_string(), log_level: "info".to_string() },
        firewall: FirewallSection {
            backend: "nftables".to_string(),
            table_name: "ports_agent".to_string(),
            dry_run: false,
            backup_before_apply: true,
        },
        features: FeaturesSection { firewall: true, traffic: true, conntrack: true, proxmox_local: false },
    }
}

fn req(kind: &str, payload: JsonValue) -> RpcRequest {
    RpcRequest { kind: kind.to_string(), request_id: Some("req-1".to_string()), payload }
}

fn forward() -> JsonValue {
    obj(vec![
        ("ruleId", s("r1")),
        ("externalInterface", s("eth0")),
        ("externalPort", n(443)),
        ("internalIp", s("10.0.0.5")),
        ("internalPort", n(8443)),
    ])
}

#[test]
fn hello_answers_with_version() {
    let r = dispatch(&req("hello", JsonValue::Null), &config());
    assert_eq!(
        r,
        Route::Reply(RpcResponse {
            kind: "hello_result".to_string(),
            request_id: Some("req-1".to_string()),
            ok: true,
            payload: obj(vec![("agentVersion", s("0.1.0"))]),
            error: None,
        })
    );
}

#[test]
fn unknown_command_is_named() {
    let r = dispatch(&req("frobnicate", JsonValue::Null), &config());
    assert_eq!(
        r,
        Route::Reply(RpcResponse {
            kind: "error".to_string(),
            request_id: Some("req-1".to_string()),
            ok: false,
            payload: JsonValue::Null,
            error: Some("unknown command \"frobnicate\"".to_string()),
        })
    );
}

#[test]
fn node_info_uses_config() {
    let r = dispatch(&req("node.info", JsonValue::Null), &config());
    assert_eq!(r, Route::NodeInfo { node_id: "node-7".to_string(), node_name: "edge".to_string() });
}

#[test]
fn simple_routes() {
    let c = config();
    assert_eq!(dispatch(&req("interfaces.detect", JsonValue::Null), &c), Route::DetectInterfaces);
    assert_eq!(dispatch(&req("telemetry.request", JsonValue::Null), &c), Route::Telemetry);
    assert_eq!(dispatch(&req("firewall.backup", JsonValue::Null), &c), Route::FirewallBackup);
    assert_eq!(dispatch(&req("docker.detect", JsonValue::Null), &c), Route::DockerDetect);
    assert_eq!(dispatch(&req("compose.detect", JsonValue::Null), &c), Route::ComposeDetect);
    assert_eq!(dispatch(&req("tailscale.status", JsonValue::Null), &c), Route::TailscaleStatus);
    assert_eq!(dispatch(&req("cert.issue", JsonValue::Null), &c), Route::CertIssue);
    assert_eq!(dispatch(&req("cert.renew", JsonValue::Null), &c), Route::CertRenew);
}

#[test]
fn firewall_apply_routes_forward() {
    let r = dispatch(&req("firewall.apply_rule", forward()), &config());
    let pf = PortForward::from_payload(&forward()).unwrap();
    assert_eq!(r, Route::FirewallApply { forward: pf, payload: forward() });
}

#[test]
fn firewall_plan_refuses_bad_payload() {
    let r = dispatch(&req("firewall.plan", obj(vec![("ruleId", s("r1"))])), &config());
    match r {
        Route::Reply(resp) => {
            assert!(!resp.ok);
            assert_eq!(resp.error, Some("missing externalInterface".to_string()));
            assert_eq!(resp.request_id, Some("req-1".to_string()));
        }
        other => panic!("unexpected {other:?}"),
    }
}

#[test]
fn delete_and_restore_need_their_keys() {
    let c = config();
    assert_eq!(
        dispatch(&req("firewall.delete_rule", obj(vec![("ruleId", s("r1"))])), &c),
        Route::FirewallDelete("r1".to_string())
    );
    match dispatch(&req("firewall.delete_rule", JsonValue::Null), &c) {
        Route::Reply(resp) => assert_eq!(resp.error, Some("missing ruleId".to_string())),
        other => panic!("unexpected {other:?}"),
    }
    match dispatch(&req("firewall.restore", obj(vec![])), &c) {
        Route::Reply(resp) => assert_eq!(resp.error, Some("missing path".to_string())),
        other => panic!("unexpected {other:?}"),
    }
    assert_eq!(
        dispatch(&req("firewall.restore", obj(vec![("path", s("/b/r.nft"))])), &c),
        Route::FirewallRestore("/b/r.nft".to_string())
    );
}

#[test]
fn logs_tail_defaults_to_200() {
    let c = config();
    assert_eq!(dispatch(&req("logs.tail", JsonValue::Null), &c), Route::LogsTail(200));
    assert_eq!(dispatch(&req("logs.tail", obj(vec![("lines", n(25))])), &c), Route::LogsTail(25));
}

#[test]
fn discovery_and_backup_read_lists() {
    let c = config();
    let kinds = obj(vec![("kinds", JsonValue::Array(vec![s("docker"), n(3), s("network")]))]);
    assert_eq!(
        dispatch(&req("discovery.scan", kinds), &c),
        Route::DiscoveryScan(vec!["docker".to_string(), "network".to_string()])
    );
    let b = obj(vec![("paths", JsonValue::Array(vec![s("/etc/a")]))]);
    assert_eq!(
        dispatch(&req("backup.create", b), &c),
        Route::BackupCreate { scope: "generic".to_string(), paths: vec!["/etc/a".to_string()] }
    );
    let r = obj(vec![("scope", s("dhcp")), ("remotePath", s("/var/lib/ports/backups/dhcp/1"))]);
    assert_eq!(
        dispatch(&req("backup.restore", r), &c),
        Route::BackupRestore {
            scope: "dhcp".to_string(),
            remote_path: "/var/lib/ports/backups/dhcp/1".to_string(),
            paths: vec![],
        }
    );
}

#[test]
fn config_path_required_for_apply() {
    let c = config();
    match dispatch(&req("dhcp.apply", obj(vec![("config", s("x"))])), &c) {
        Route::Reply(resp) => assert_eq!(resp.error, Some("missing configPath".to_string())),
        other => panic!("unexpected {other:?}"),
    }
    match dispatch(&req("haproxy.reload", obj(vec![("configPath", s(""))])), &c) {
        Route::Reply(resp) => assert_eq!(resp.error, Some("missing configPath".to_string())),
        other => panic!("unexpected {other:?}"),
    }
    assert_eq!(
        dispatch(&req("dhcp.apply", obj(vec![("configPath", s("/etc/dnsmasq.conf")), ("config", s("x"))])), &c),
        Route::DhcpApply { backend: String::new(), config_path: "/etc/dnsmasq.conf".to_string(), config: "x".to_string() }
    );
    assert_eq!(
        dispatch(&req("haproxy.validate", JsonValue::Null), &c),
        Route::HaproxyValidate(String::new())
    );
}

#[test]
fn respond_uses_result_kind() {
    let route = Route::DockerDetect;
    let ok = respond(&route, Some("q".to_string()), Ok(JsonValue::Bool(true)));
    assert_eq!(ok.kind, "docker.detect_result");
    assert!(ok.ok);
    assert_eq!(ok.request_id, Some("q".to_string()));
    let err = respond(&Route::CertRenew, None, Err("lego is not installed".to_string()));
    assert_eq!(err.kind, "error");
    assert_eq!(err.error, Some("lego is not installed".to_string()));
    assert_eq!(Route::Telemetry.result_kind(), "telemetry.snapshot");
    assert_eq!(Route::HaproxyApply { config_path: String::new(), config: String::new() }.result_kind(), "haproxy.reload_result");
}

#[test]
fn applied_rule_is_recorded() {
    let mut store = Store::open("/var/lib/ports/state.json", None);
    let pf = PortForward::from_payload(&forward()).unwrap();
    let resp = firewall_applied(&mut store, Some("a".to_string()), &pf, forward());
    assert_eq!(resp.kind, "firewall.apply_result");
    assert_eq!(resp.payload, obj(vec![("ruleId", s("r1")), ("status", s("applied"))]));
    assert_eq!(store.state().applied_rules.get("r1"), Some(&forward()));
    let resp = firewall_deleted(&mut store, Some("b".to_string()), "r1");
    assert_eq!(resp.payload, obj(vec![("ruleId", s("r1")), ("status", s("deleted"))]));
    assert_eq!(store.state().applied_rules.get("r1"), None);
    let resp = firewall_backed_up(&mut store, None, "/b/ruleset-1.nft");
    assert_eq!(resp.payload, obj(vec![("path", s("/b/ruleset-1.nft"))]));
    assert_eq!(store.state().last_backup, Some("/b/ruleset-1.nft".to_string()));
}

#[test]
fn payload_builders() {
    let nft = Nftables::new("t".to_string(), false, true);
    let pf = PortForward::from_payload(&forward()).unwrap();
    let plan = nft.plan_with(&pf, true, false);
    match plan_payload(&plan) {
        JsonValue::Object(fs) => {
            assert_eq!(fs[0].key, "changes");
            assert_eq!(fs[1].key, "warnings");
            assert_eq!(fs[1].value, JsonValue::Array(vec![s("nft binary not found on PATH")]));
        }
        other => panic!("unexpected {other:?}"),
    }
    assert_eq!(list_payload("lines", vec![]), obj(vec![("lines", JsonValue::Array(vec![]))]));
    assert_eq!(
        docker_payload(false, vec![]),
        obj(vec![("dockerAvailable", JsonValue::Bool(false)), ("containers", JsonValue::Array(vec![]))])
    );
}

#[test]
fn invalid_request_has_no_id() {
    let r = invalid_request("expected value at line 1 column 1");
    assert_eq!(r.request_id, None);
    assert_eq!(r.error, Some("invalid request: expected value at line 1 column 1".to_string()));
}

#[test]
fn state_path_under_data_dir() {
    assert_eq!(state_path(&config()), "/var/lib/ports/state.json");
}

#[test]
fn dns_and_conntrack_are_routed() {
    let c = config();
    assert_eq!(
        dispatch(&req("dns.plan", obj(vec![("corefile", s(".:53 {}"))])), &c),
        Route::DnsPlan(".:53 {}".to_string())
    );
    let p = obj(vec![("corefilePath", s("/etc/coredns/Corefile")), ("zoneName", s("lan"))]);
    match dispatch(&req("dns.apply", p), &c) {
        Route::DnsApply(u) => assert_eq!(u.zone_path, "/etc/coredns/zones/lan.db"),
        other => panic!("unexpected {other:?}"),
    }
    match dispatch(&req("dns.apply", obj(vec![("zoneName", s("lan"))])), &c) {
        Route::Reply(resp) => assert_eq!(resp.error, Some("missing corefilePath or zoneName".to_string())),
        other => panic!("unexpected {other:?}"),
    }
    assert_eq!(dispatch(&req("conntrack.list", JsonValue::Null), &c), Route::ConntrackList(1000));
    assert_eq!(dispatch(&req("conntrack.list", obj(vec![("limit", n(5))])), &c), Route::ConntrackList(5));
    assert_eq!(Route::DnsPlan(String::new()).result_kind(), "dns.plan_result");
    assert_eq!(Route::ConntrackList(1).result_kind(), "conntrack.list_result");
}
