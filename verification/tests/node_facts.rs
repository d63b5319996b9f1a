use ports_agent::config::{base, config_file, data_dir, log_dir, node_key, state_file, PathEnv};
use ports_agent::discovery::{scan, scan_kinds, scan_listening_ports, scan_system, ScanParts, SystemFacts};
use ports_agent::json::{get_string_list, insert_member, JsonField, JsonNumber, JsonValue};
use ports_agent::store::{RuleEntry, State, Store};
use ports_agent::system::{
    classify, compose_projects, container_from, detect_docker, detect_proxmox, docker_containers, firewall_backend,
    hostname, infer_level, interfaces_from_iproute, level_of, node_info, nonblank_lines, sysfs_interface, tail_logs,
    tail_logs_args, which_candidates, NodeFacts,
};
use ports_agent::telemetry::{connection_count, interface_counters, snapshot};
use ports_agent::text::{decimal, parse_uint, replace_char};
use ports_agent::traffic::conntrack;

fn s(x: &str) -> JsonValue {
    JsonValue::Str(x.to_string())
}

fn n(x: u64) -> JsonValue {
    JsonValue::Number(JsonNumber::PosInt(x))
}

fn obj(fs: Vec<(&str, JsonValue)>) -> JsonValue {
    JsonValue::Object(fs.into_iter().map(|(k, v)| JsonField { key: k.to_string(), value: v }).collect())
}

fn words(v: &[&str]) -> Vec<String> {
    v.iter().map(|w| w.to_string()).collect()
}

fn env(config_dir: Option<&str>, home: Option<&str>, present: bool) -> PathEnv {
    PathEnv {
        config_dir: config_dir.map(|s| s.to_string()),
        data_dir: None,
        log_dir: None,
        home: home.map(|s| s.to_string()),
        user_config_present: present,
    }
}

#[test]
fn paths_follow_environment() {
    let system = env(None, None, false);
    assert_eq!(base(&system), "/etc/ports");
    assert_eq!(config_file(&system), "/etc/ports/config/agent.yaml");
    assert_eq!(node_key(&system), "/etc/ports/keys/node.key");
    assert_eq!(data_dir(&system), "/var/lib/ports");
    assert_eq!(state_file(&system), "/var/lib/ports/state.json");
    assert_eq!(log_dir(&system), "/var/log/ports");
    let user = env(None, Some("/home/op"), true);
    assert_eq!(base(&user), "/home/op/.config/ports");
    assert_eq!(data_dir(&user), "/var/lib/ports");
    assert_eq!(state_file(&user), "/var/lib/ports/state.json");
    assert_eq!(log_dir(&user), "/var/log/ports");
    let user_without_file = env(None, Some("/home/op"), false);
    assert_eq!(base(&user_without_file), "/etc/ports");
    let explicit = env(Some("/opt/ports/"), Some("/home/op"), true);
    assert_eq!(config_file(&explicit), "/opt/ports/config/agent.yaml");
}

#[test]
fn firewall_and_platform_detection() {
    assert_eq!(firewall_backend(true, true), "nftables");
    assert_eq!(firewall_backend(false, true), "iptables");
    assert_eq!(firewall_backend(false, false), "none");
    assert!(detect_proxmox(false, true));
    assert!(!detect_proxmox(false, false));
    assert!(detect_docker(true));
}

#[test]
fn which_searches_path_then_fallbacks() {
    assert_eq!(
        which_candidates(Some("/usr/local/bin:/opt/bin"), "nft"),
        words(&["/usr/local/bin/nft", "/opt/bin/nft", "/usr/sbin/nft", "/sbin/nft", "/usr/bin/nft", "/bin/nft"])
    );
    assert_eq!(which_candidates(None, "ip").len(), 4);
}

#[test]
fn interface_classes() {
    assert_eq!(classify("lo", None), "loopback");
    assert_eq!(classify("vmbr0", None), "bridge");
    assert_eq!(classify("eth0", Some("bridge")), "bridge");
    assert_eq!(classify("eth0.10", None), "vlan");
    assert_eq!(classify("vlan20", None), "vlan");
    assert_eq!(classify("enp3s0", None), "lan");
}

#[test]
fn log_levels_and_lines() {
    assert_eq!(infer_level("Connection FAILED"), "error");
    assert_eq!(infer_level("thread panicked"), "error");
    assert_eq!(infer_level("WARNING: slow"), "warn");
    assert_eq!(infer_level("debug: tick"), "debug");
    assert_eq!(infer_level("started"), "info");
    assert_eq!(level_of("Connection FAILED"), "info");
    assert_eq!(level_of("connection failed"), "error");
    let entries = tail_logs("a started\nb error here\n");
    assert_eq!(entries.len(), 2);
    assert_eq!(
        entries[1],
        obj(vec![("message", s("b error here")), ("level", s("error")), ("time", JsonValue::Null)])
    );
    assert_eq!(tail_logs_args(50), words(&["--user", "-u", "ports-agent", "-n", "50", "--no-pager"]));
}

#[test]
fn containers_and_projects() {
    let line = obj(vec![
        ("ID", s("abc")),
        ("Names", s("web")),
        ("Image", s("nginx")),
        ("State", s("running")),
        ("Labels", s("com.docker.compose.project=shop,com.docker.compose.service=web")),
        ("Ports", s("0.0.0.0:80->80/tcp")),
    ]);
    let expected = obj(vec![
        ("id", s("abc")),
        ("name", s("web")),
        ("image", s("nginx")),
        ("status", s("running")),
        ("composeProject", s("shop")),
        ("composeService", s("web")),
        ("ports", s("0.0.0.0:80->80/tcp")),
    ]);
    assert_eq!(container_from(&line), expected);
    assert_eq!(docker_containers(&vec![line]), vec![expected]);
    let bare = container_from(&obj(vec![("Id", s("x")), ("Status", s("Up"))]));
    assert_eq!(
        bare,
        obj(vec![
            ("id", s("x")),
            ("name", s("")),
            ("image", s("")),
            ("status", s("Up")),
            ("composeProject", JsonValue::Null),
            ("composeService", JsonValue::Null),
            ("ports", s("")),
        ])
    );
    assert_eq!(nonblank_lines("{}\n  \n{\"a\":1}\n"), words(&["{}", "{\"a\":1}"]));
    let projects = compose_projects(&JsonValue::Array(vec![obj(vec![
        ("Name", s("shop")),
        ("Status", s("running(2)")),
        ("ConfigFiles", s("/srv/shop/compose.yaml")),
    ])]));
    assert_eq!(
        projects,
        vec![obj(vec![
            ("id", s("shop")),
            ("name", s("shop")),
            ("status", s("running(2)")),
            ("configFiles", s("/srv/shop/compose.yaml")),
        ])]
    );
    assert!(compose_projects(&JsonValue::Null).is_empty());
}

#[test]
fn interfaces_from_ip_json() {
    let parsed = JsonValue::Array(vec![
        obj(vec![
            ("ifindex", n(2)),
            ("ifname", s("eth0")),
            ("mtu", n(1500)),
            ("operstate", s("UP")),
            ("address", s("aa:bb:cc:dd:ee:ff")),
            (
                "addr_info",
                JsonValue::Array(vec![
                    obj(vec![("family", s("inet")), ("local", s("192.168.1.10")), ("prefixlen", n(24))]),
                    obj(vec![("family", s("inet6")), ("local", s("fe80::1")), ("prefixlen", n(64))]),
                ]),
            ),
        ]),
        obj(vec![("ifindex", n(3))]),
    ]);
    let ifaces = interfaces_from_iproute(&parsed).unwrap();
    assert_eq!(ifaces.len(), 1);
    match &ifaces[0] {
        JsonValue::Object(fs) => {
            let get = |k: &str| fs.iter().find(|f| f.key == k).map(|f| f.value.copy()).unwrap();
            assert_eq!(get("name"), s("eth0"));
            assert_eq!(get("type"), s("lan"));
            assert_eq!(get("ip"), s("192.168.1.10"));
            assert_eq!(get("status"), s("up"));
            assert_eq!(get("mtu"), n(1500));
            assert_eq!(get("broadcast"), JsonValue::Null);
            assert_eq!(get("linkType"), JsonValue::Null);
            match get("addresses") {
                JsonValue::Array(a) => assert_eq!(a.len(), 2),
                other => panic!("unexpected {other:?}"),
            }
        }
        other => panic!("unexpected {other:?}"),
    }
    assert_eq!(interfaces_from_iproute(&obj(vec![])), None);
}

#[test]
fn sysfs_and_node_info() {
    assert_eq!(
        sysfs_interface("br0", "up\n"),
        obj(vec![("id", s("br0")), ("name", s("br0")), ("type", s("bridge")), ("ip", s("")), ("status", s("up"))])
    );
    assert_eq!(hostname(Some("edge-01\n")), "edge-01");
    assert_eq!(hostname(None), "unknown");
    let facts = NodeFacts {
        hostname: "edge-01".to_string(),
        os: "linux".to_string(),
        arch: "x86_64".to_string(),
        firewall_backend: "nftables".to_string(),
        proxmox_detected: false,
        interfaces: vec![],
    };
    assert_eq!(
        node_info("n1", "edge", facts),
        obj(vec![
            ("nodeId", s("n1")),
            ("name", s("edge")),
            ("hostname", s("edge-01")),
            ("os", s("linux")),
            ("arch", s("x86_64")),
            ("agentVersion", s("0.1.0")),
            ("firewallBackend", s("nftables")),
            ("proxmoxDetected", JsonValue::Bool(false)),
            ("interfaces", JsonValue::Array(vec![])),
        ])
    );
}

const PROC_NET_DEV: &str = "Inter-|   Receive                                                |  Transmit\n face |bytes    packets errs drop fifo frame compressed multicast|bytes    packets errs drop fifo colls carrier compressed\n    lo:  1000      10    0    0    0     0          0         0     1000      10    0    0    0     0       0          0\n  eth0: 5000      50    0    0    0     0          0         0     7000      70    0    0    0     0       0          0\n";

#[test]
fn telemetry_counters() {
    let counters = interface_counters(PROC_NET_DEV);
    assert_eq!(
        counters,
        vec![
            obj(vec![("interface", s("lo")), ("rxBytes", n(1000)), ("txBytes", n(1000))]),
            obj(vec![("interface", s("eth0")), ("rxBytes", n(5000)), ("txBytes", n(7000))]),
        ]
    );
    assert_eq!(
        connection_count(Some("42\n")),
        JsonValue::Array(vec![obj(vec![("type", s("conntrack")), ("count", n(42))])])
    );
    assert_eq!(
        connection_count(None),
        JsonValue::Array(vec![obj(vec![("type", s("conntrack")), ("count", n(0))])])
    );
    match snapshot(PROC_NET_DEV, Some("x")) {
        JsonValue::Object(fs) => {
            assert_eq!(fs[0].value, fs[1].value);
            assert_eq!(fs[2].value, JsonValue::Array(vec![obj(vec![("type", s("conntrack")), ("count", n(0))])]));
            assert_eq!(fs[3].value, JsonValue::Array(vec![]));
        }
        other => panic!("unexpected {other:?}"),
    }
}

#[test]
fn conntrack_lines() {
    let content = "ipv4     2 tcp      6 431999 ESTABLISHED src=10.0.0.2 dst=10.0.0.5 sport=51000 dport=22 packets=10 bytes=1200 src=10.0.0.5 dst=10.0.0.2 sport=22 dport=51000 packets=8 bytes=900 [ASSURED] mark=0 use=1\nshort line\nipv4 2 udp 17 29 src=10.0.0.3 dst=1.1.1.1 sport=5353 dport=53 bytes=80\n";
    let r = conntrack(content, 10);
    let first = obj(vec![
        ("protocol", s("tcp")),
        ("src", s("10.0.0.2")),
        ("dst", s("10.0.0.5")),
        ("sport", n(51000)),
        ("dport", n(22)),
        ("state", s("ESTABLISHED")),
        ("bytes", n(2100)),
    ]);
    let second = obj(vec![
        ("protocol", s("udp")),
        ("src", s("10.0.0.3")),
        ("dst", s("1.1.1.1")),
        ("sport", n(5353)),
        ("dport", n(53)),
        ("state", JsonValue::Null),
        ("bytes", n(80)),
    ]);
    assert_eq!(r, obj(vec![("connections", JsonValue::Array(vec![first.copy(), second])), ("count", n(2))]));
    assert_eq!(conntrack(content, 1), obj(vec![("connections", JsonValue::Array(vec![first])), ("count", n(1))]));
}

#[test]
fn discovery_selection_and_report() {
    let all = scan_kinds(&vec![]);
    assert!(all.system && all.network && all.listening_ports && all.docker && all.tailscale && all.firewall);
    let some = scan_kinds(&words(&["docker", "network"]));
    assert!(some.docker && some.network && !some.system && !some.firewall);
    let also_all = scan_kinds(&words(&["all"]));
    assert!(also_all.firewall);
    let facts = SystemFacts {
        hostname: "edge".to_string(),
        os: "linux".to_string(),
        arch: "aarch64".to_string(),
        firewall_backend: "nftables".to_string(),
        proxmox_detected: true,
    };
    let system = scan_system(&facts);
    let ports = scan_listening_ports("tcp LISTEN 0 128 0.0.0.0:22 0.0.0.0:* users:((\"sshd\",pid=1,fd=3))\nbad\n");
    assert_eq!(ports.len(), 1);
    match &ports[0] {
        JsonValue::Object(fs) => assert_eq!(fs[2].value, s("0.0.0.0:22/tcp")),
        other => panic!("unexpected {other:?}"),
    }
    let report = scan(ScanParts {
        system: Some(system.copy()),
        network: vec![],
        listening_ports: ports.iter().map(|p| p.copy()).collect(),
        docker: vec![],
        tailscale: vec![],
        firewall: vec![],
    });
    assert_eq!(report, obj(vec![("resources", JsonValue::Array(vec![system, ports[0].copy()]))]));
}

#[test]
fn store_records_and_forgets() {
    let mut store = Store::open("/tmp/state.json", None);
    store.record_rule("b", s("second"));
    store.record_rule("a", s("first"));
    store.record_rule("b", s("again"));
    let rules = &store.state().applied_rules;
    assert_eq!(rules.len(), 2);
    let keys: Vec<String> = rules.entries().iter().map(|e| e.rule_id.clone()).collect();
    assert_eq!(keys, words(&["a", "b"]));
    assert_eq!(rules.get("b"), Some(&s("again")));
    store.remove_rule("a");
    assert_eq!(store.state().applied_rules.get("a"), None);
    store.set_last_backup("/b/1.nft");
    assert_eq!(store.state().last_backup, Some("/b/1.nft".to_string()));
    assert_eq!(store.path(), "/tmp/state.json");
}

#[test]
fn state_from_file_entries() {
    let entries = vec![
        RuleEntry { rule_id: "z".to_string(), payload: n(1) },
        RuleEntry { rule_id: "m".to_string(), payload: n(2) },
        RuleEntry { rule_id: "z".to_string(), payload: n(3) },
    ];
    let st = State::from_entries(entries, Some("/b".to_string()));
    assert_eq!(st.applied_rules.len(), 2);
    assert_eq!(st.applied_rules.get("z"), Some(&n(3)));
    let store = Store::open("/s.json", Some(st));
    assert_eq!(store.state().last_backup, Some("/b".to_string()));
    assert_eq!(State::new().applied_rules.len(), 0);
}

#[test]
fn json_and_text_helpers() {
    let mut fs = vec![JsonField { key: "a".to_string(), value: n(1) }];
    insert_member(&mut fs, "b", n(2));
    insert_member(&mut fs, "a", n(3));
    assert_eq!(JsonValue::Object(fs), obj(vec![("a", n(3)), ("b", n(2))]));
    let v = obj(vec![("k", JsonValue::Array(vec![s("x"), JsonValue::Null, s("y")]))]);
    assert_eq!(get_string_list(&v, "k"), words(&["x", "y"]));
    assert_eq!(decimal(0), "0");
    assert_eq!(decimal(18446744073709551615), "18446744073709551615");
    let digits: Vec<char> = "18446744073709551616".chars().collect();
    assert_eq!(parse_uint(&digits, u64::MAX), None);
    let plus: Vec<char> = "+12".chars().collect();
    assert_eq!(parse_uint(&plus, 100), Some(12));
    let path: Vec<char> = "/a/b".chars().collect();
    let rep: Vec<char> = "__".chars().collect();
    assert_eq!(replace_char(&path, '/', &rep).into_iter().collect::<String>(), "__a__b");
}

#[test]
fn discovery_resources() {
    let iface = obj(vec![("name", s("eth0")), ("type", s("lan")), ("ip", s("10.0.0.2")), ("status", s("up"))]);
    let r = ports_agent::discovery::scan_network(&iface);
    assert_eq!(
        r,
        obj(vec![
            ("kind", s("interface")),
            ("source", s("iproute")),
            ("name", s("eth0")),
            ("confidence", s("high")),
            ("status", s("detected")),
            ("raw", iface.copy()),
            ("normalized", obj(vec![("name", s("eth0")), ("type", s("lan")), ("ip", s("10.0.0.2")), ("status", s("up"))])),
        ])
    );
    let c = obj(vec![("id", s("abc")), ("name", s("web")), ("image", s("nginx")), ("ports", s(""))]);
    match ports_agent::discovery::scan_docker(&c) {
        JsonValue::Object(fs) => {
            assert_eq!(fs[0].value, s("docker_container"));
            assert_eq!(fs[2].value, s("web"));
            assert_eq!(fs[6].value, obj(vec![("id", s("abc")), ("image", s("nginx")), ("ports", s(""))]));
        }
        other => panic!("unexpected {other:?}"),
    }
    let ts = obj(vec![("MagicDNSSuffix", s("t.ts.net")), ("Self", obj(vec![("HostName", s("edge"))]))]);
    let found = ports_agent::discovery::scan_tailscale(&ts);
    assert_eq!(found.len(), 1);
    assert!(ports_agent::discovery::scan_tailscale(&JsonValue::Null).is_empty());
    match ports_agent::discovery::nft_ruleset_resource(&JsonValue::Null) {
        JsonValue::Object(fs) => assert_eq!(fs[6].value, obj(vec![("backend", s("nftables"))])),
        other => panic!("unexpected {other:?}"),
    }
    match ports_agent::discovery::iptables_ruleset_resource("*nat\nCOMMIT\n") {
        JsonValue::Object(fs) => {
            assert_eq!(fs[3].value, s("medium"));
            assert_eq!(fs[5].value, obj(vec![("ruleset", s("*nat\nCOMMIT\n"))]));
        }
        other => panic!("unexpected {other:?}"),
    }
}
