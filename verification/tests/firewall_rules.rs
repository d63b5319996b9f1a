use ports_agent::config::{
    AgentConfig, AgentSection, AuthSection, BackendSection, FeaturesSection, FirewallSection, NodeSection,
};
use ports_agent::firewall::{
    backup_command, backup_file, ip_forward_enabled, provider_for, run_failure_message,
    FirewallProvider, NftAction, Nftables, PortForward,
};
use ports_agent::json::{JsonField, JsonNumber, JsonValue};

fn s(x: &str) -> JsonValue {
    JsonValue::Str(x.to_string())
}

fn n(x: u64) -> JsonValue {
    JsonValue::Number(JsonNumber::PosInt(x))
}

fn obj(fs: Vec<(&str, JsonValue)>) -> JsonValue {
    JsonValue::Object(fs.into_iter().map(|(k, v)| JsonField { key: k.to_string(), value: v }).collect())
}

fn words(v: &[&str]) -> Vec<String> {
    v.iter().map(|w| w.to_string()).collect()
}

fn forward_payload(protocol: &str) -> JsonValue {
    obj(vec![
        ("ruleId", s("r1")),
        ("protocol", s(protocol)),
        ("externalInterface", s("eth0")),
        ("externalPort", n(8080)),
        ("internalIp", s("10.0.0.5")),
        ("internalPort", n(80)),
    ])
}

fn config(table: &str, dry_run: bool, backup: bool) -> AgentConfig {
    AgentConfig {
        node: NodeSection { id: "n1".to_string(), name: "edge".to_string(), mode: "reverse".to_string() },
        backend: BackendSection { url: "https://p".to_string(), websocket_url: "wss://p/ws".to_string() },
        auth: AuthSection { key_path: "/k".to_string(), public_key_path: "/k.pub".to_string() },
        agent: AgentSection { data_dir: "/var/lib/ports".to_string(), log_level: "info".to_string() },
        firewall: FirewallSection {
            backend: "nftables".to_string(),
            table_name: table.to_string(),
            dry_run,
            backup_before_apply: backup,
        },
        features: FeaturesSection { firewall: true, traffic: true, conntrack: true, proxmox_local: false },
    }
}

#[test]
fn from_payload_reads_forward() {
    let pf = PortForward::from_payload(&forward_payload("TCP")).unwrap();
    assert_eq!(pf.rule_id, "r1");
    assert_eq!(pf.protocol, "tcp");
    assert_eq!(pf.external_interface, "eth0");
    assert_eq!(pf.external_port, 8080);
    assert_eq!(pf.internal_ip, "10.0.0.5");
    assert_eq!(pf.internal_port, 80);
    assert_eq!(pf.public_ip, None);
    assert_eq!(pf.comment, None);
}

#[test]
fn from_payload_defaults_to_tcp() {
    let p = obj(vec![
        ("ruleId", s("r2")),
        ("externalInterface", s("eth1")),
        ("externalPort", n(22)),
        ("internalIp", s("10.0.0.9")),
        ("internalPort", n(2222)),
        ("comment", s("ssh")),
    ]);
    let pf = PortForward::from_payload(&p).unwrap();
    assert_eq!(pf.protocol, "tcp");
    assert_eq!(pf.comment, Some("ssh".to_string()));
}

#[test]
fn from_payload_port_keeps_low_bits() {
    let p = obj(vec![
        ("ruleId", s("r3")),
        ("externalInterface", s("eth0")),
        ("externalPort", n(65536 + 443)),
        ("internalIp", s("10.0.0.1")),
        ("internalPort", n(443)),
    ]);
    assert_eq!(PortForward::from_payload(&p).unwrap().external_port, 443);
}

#[test]
fn from_payload_errors() {
    let missing = |drop: &str| {
        let p = JsonValue::Object(match forward_payload("tcp") {
            JsonValue::Object(fs) => fs.into_iter().filter(|f| f.key != drop).collect(),
            _ => unreachable!(),
        });
        PortForward::from_payload(&p).unwrap_err()
    };
    assert_eq!(missing("ruleId"), "missing ruleId");
    assert_eq!(missing("externalInterface"), "missing externalInterface");
    assert_eq!(missing("externalPort"), "missing externalPort");
    assert_eq!(missing("internalIp"), "missing internalIp");
    assert_eq!(missing("internalPort"), "missing internalPort");
}

#[test]
fn protocols_split_on_plus() {
    let pf = PortForward::from_payload(&forward_payload("tcp+udp")).unwrap();
    assert_eq!(pf.protocols(), words(&["tcp", "udp"]));
    let pf = PortForward::from_payload(&forward_payload("udp")).unwrap();
    assert_eq!(pf.protocols(), words(&["udp"]));
}

#[test]
fn setup_commands_create_table_and_chains() {
    let nft = Nftables::new("ports_agent".to_string(), false, true);
    let cmds = nft.setup_commands();
    assert_eq!(cmds.len(), 3);
    assert_eq!(cmds[0], words(&["add", "table", "ip", "ports_agent"]));
    assert_eq!(
        cmds[1],
        words(&["add", "chain", "ip", "ports_agent", "prerouting", "{", "type", "nat", "hook", "prerouting", "priority", "-100", ";", "}"])
    );
    assert_eq!(
        cmds[2],
        words(&["add", "chain", "ip", "ports_agent", "postrouting", "{", "type", "nat", "hook", "postrouting", "priority", "100", ";", "}"])
    );
}

#[test]
fn rule_commands_tag_each_rule() {
    let nft = Nftables::new("t".to_string(), false, true);
    let pf = PortForward::from_payload(&forward_payload("tcp+udp")).unwrap();
    let cmds = nft.rule_commands(&pf);
    assert_eq!(cmds.len(), 4);
    assert_eq!(
        cmds[0],
        words(&["add", "rule", "ip", "t", "prerouting", "iif", "eth0", "tcp", "dport", "8080", "dnat", "to", "10.0.0.5:80", "comment", "\"r1\""])
    );
    assert_eq!(
        cmds[1],
        words(&["add", "rule", "ip", "t", "postrouting", "ip", "daddr", "10.0.0.5", "tcp", "dport", "80", "masquerade", "comment", "\"r1\""])
    );
    assert_eq!(cmds[2][7], "udp");
    assert_eq!(cmds[3][8], "udp");
    for c in &cmds {
        assert_eq!(c[c.len() - 2], "comment");
        assert_eq!(c[c.len() - 1], "\"r1\"");
        assert_eq!(c[3], "t");
    }
}

#[test]
fn plan_lists_commands_and_warnings() {
    let nft = Nftables::new("t".to_string(), false, true);
    let pf = PortForward::from_payload(&forward_payload("tcp")).unwrap();
    let plan = nft.plan_with(&pf, false, false);
    assert_eq!(plan.changes.len(), 5);
    assert_eq!(plan.changes[0], "nft add table ip t");
    assert_eq!(
        plan.changes[3],
        "nft add rule ip t prerouting iif eth0 tcp dport 8080 dnat to 10.0.0.5:80 comment \"r1\""
    );
    assert_eq!(
        plan.warnings,
        words(&["net.ipv4.ip_forward is disabled; forwarding will not work", "nft binary not found on PATH"])
    );
    let quiet = nft.plan_with(&pf, true, true);
    assert!(quiet.warnings.is_empty());
}

#[test]
fn rule_handle_found_on_tagged_line() {
    let listing = "table ip t {\n\tchain prerouting {\n\t\ttcp dport 22 dnat to 10.0.0.2:22 comment \"other\" # handle 4\n\t\ttcp dport 80 dnat to 10.0.0.5:80 comment \"r1\" # handle 17\n\t}\n}\n";
    assert_eq!(Nftables::rule_handle(listing, "r1"), Some(17));
    assert_eq!(Nftables::rule_handle(listing, "other"), Some(4));
    assert_eq!(Nftables::rule_handle(listing, "r9"), None);
}

#[test]
fn rule_handle_needs_a_number() {
    assert_eq!(Nftables::rule_handle("x comment \"r1\" # handle abc", "r1"), None);
    assert_eq!(Nftables::rule_handle("x comment \"r1\" no handle", "r1"), None);
    assert_eq!(Nftables::rule_handle("x comment \"r1\" # handle  +9 ", "r1"), Some(9));
}

#[test]
fn ip_forward_reads_proc_text() {
    assert!(ip_forward_enabled(Some("1\n")));
    assert!(!ip_forward_enabled(Some("0\n")));
    assert!(!ip_forward_enabled(None));
}

#[test]
fn run_failure_quotes_command() {
    assert_eq!(
        run_failure_message(&words(&["add", "table", "ip", "t"]), "  Error: boom\n"),
        "nft add table ip t failed: Error: boom"
    );
}

fn run_of(a: &NftAction) -> Vec<String> {
    match a {
        NftAction::Run(args) => args.clone(),
        other => panic!("expected a run, got {other:?}"),
    }
}

#[test]
fn apply_job_backs_up_then_runs_plan() {
    let nft = Nftables::new("t".to_string(), false, true);
    let pf = PortForward::from_payload(&forward_payload("tcp")).unwrap();
    let (mut job, first) = nft.apply_job(&pf);
    assert_eq!(first, NftAction::Backup);
    let mut runs = Vec::new();
    let mut action = job.step(Ok("/var/lib/ports/backups/ruleset-1.nft".to_string()));
    loop {
        match &action {
            NftAction::Run(_) => {
                runs.push(run_of(&action));
                action = job.step(Ok(String::new()));
            }
            NftAction::Done(r) => {
                assert_eq!(r, &Ok(()));
                break;
            }
            NftAction::Backup => panic!("second backup"),
        }
    }
    let mut expected = nft.setup_commands();
    expected.push(words(&["-a", "list", "chain", "ip", "t", "prerouting"]));
    expected.push(words(&["-a", "list", "chain", "ip", "t", "postrouting"]));
    expected.extend(nft.rule_commands(&pf));
    assert_eq!(runs, expected);
}

#[test]
fn apply_job_deletes_old_rule_first() {
    let nft = Nftables::new("t".to_string(), false, false);
    let pf = PortForward::from_payload(&forward_payload("tcp")).unwrap();
    let (mut job, first) = nft.apply_job(&pf);
    assert_eq!(run_of(&first), words(&["add", "table", "ip", "t"]));
    job.step(Ok(String::new()));
    job.step(Ok(String::new()));
    let list = job.step(Ok(String::new()));
    assert_eq!(run_of(&list), words(&["-a", "list", "chain", "ip", "t", "prerouting"]));
    let del = job.step(Ok("dnat comment \"r1\" # handle 7".to_string()));
    assert_eq!(run_of(&del), words(&["delete", "rule", "ip", "t", "prerouting", "handle", "7"]));
    let again = job.step(Ok(String::new()));
    assert_eq!(run_of(&again), words(&["-a", "list", "chain", "ip", "t", "prerouting"]));
}

#[test]
fn apply_job_stops_on_error() {
    let nft = Nftables::new("t".to_string(), false, true);
    let pf = PortForward::from_payload(&forward_payload("tcp")).unwrap();
    let (mut job, _) = nft.apply_job(&pf);
    let done = job.step(Err("disk full".to_string()));
    assert_eq!(done, NftAction::Done(Err("disk full".to_string())));
}

#[test]
fn dry_run_does_nothing() {
    let nft = Nftables::new("t".to_string(), true, true);
    let pf = PortForward::from_payload(&forward_payload("tcp")).unwrap();
    assert_eq!(nft.apply_job(&pf).1, NftAction::Done(Ok(())));
    assert_eq!(nft.delete_job("r1").1, NftAction::Done(Ok(())));
    assert_eq!(nft.restore_command("/x.nft"), None);
}

#[test]
fn delete_job_lists_both_chains() {
    let nft = Nftables::new("t".to_string(), false, true);
    let (mut job, first) = nft.delete_job("r1");
    assert_eq!(run_of(&first), words(&["-a", "list", "chain", "ip", "t", "prerouting"]));
    let second = job.step(Ok(String::new()));
    assert_eq!(run_of(&second), words(&["-a", "list", "chain", "ip", "t", "postrouting"]));
    let del = job.step(Ok("masquerade comment \"r1\" # handle 12".to_string()));
    assert_eq!(run_of(&del), words(&["delete", "rule", "ip", "t", "postrouting", "handle", "12"]));
    job.step(Ok(String::new()));
    assert_eq!(job.step(Ok(String::new())), NftAction::Done(Ok(())));
}

#[test]
fn restore_and_backup_commands() {
    let nft = Nftables::new("t".to_string(), false, true);
    assert_eq!(nft.restore_command("/b/r.nft"), Some(words(&["-f", "/b/r.nft"])));
    assert_eq!(backup_command(), words(&["list", "ruleset"]));
    assert_eq!(backup_file("/var/lib/ports", 1700000000), "/var/lib/ports/backups/ruleset-1700000000.nft");
}

#[test]
fn provider_uses_configured_table() {
    let nft = provider_for(&config("edge_nat", false, true));
    assert_eq!(nft.setup_commands()[0], words(&["add", "table", "ip", "edge_nat"]));
    let pf = PortForward::from_payload(&forward_payload("tcp")).unwrap();
    let plan = FirewallProvider::plan_with(&nft, &pf, true, true);
    assert_eq!(plan.changes[0], "nft add table ip edge_nat");
}
