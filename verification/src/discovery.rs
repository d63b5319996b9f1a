//! Read-only discovery: which scans a request asks for, and the resource
//! records built from what each scan finds.

use vstd::prelude::*;
use crate::json::{JsonValue, JsonView, field, object, array, jstring, jstr, fields_view, items_view,
    get_str, get_str_or, get_string_or, get_string, string_views, lemma_array_view, opt_str_view};
use crate::text::{chars_of, lines, split_ws, string_of, views, lines_spec, split_ws_spec, owned, str_eq};

verus! {

/// The scans a request selects.
#[derive(Debug, PartialEq)]
pub struct ScanKinds {
    pub system: bool,
    pub network: bool,
    pub listening_ports: bool,
    pub docker: bool,
    pub tailscale: bool,
    pub firewall: bool,
}

/// Whether a scan runs: every scan runs when no kind or `all` is asked for;
/// otherwise exactly the kinds asked for.
pub open spec fn selected(kinds: Seq<Seq<char>>, kind: Seq<char>) -> bool {
    kinds.len() == 0 || kinds.contains("all"@) || kinds.contains(kind)
}

fn has_kind(kinds: &Vec<String>, kind: &str) -> (r: bool)
    ensures
        r == string_views(kinds@).contains(kind@),
{
    let n = kinds.len();
    let mut i: usize = 0;
    while i < n
        invariant
            n == kinds@.len(),
            i <= n,
            forall|k: int| 0 <= k < i ==> kinds@[k]@ != kind@,
        decreases n - i,
    {
        if str_eq(kinds[i].as_str(), kind) {
            assert(string_views(kinds@)[i as int] == kind@);
            return true;
        }
        i = i + 1;
    }
    assert forall|k: int| 0 <= k < string_views(kinds@).len() implies string_views(kinds@)[k] != kind@ by {}
    false
}

pub fn scan_kinds(kinds: &Vec<String>) -> (r: ScanKinds)
    ensures
        r.system == selected(string_views(kinds@), "system"@),
        r.network == selected(string_views(kinds@), "network"@),
        r.listening_ports == selected(string_views(kinds@), "listening_ports"@),
        r.docker == selected(string_views(kinds@), "docker"@),
        r.tailscale == selected(string_views(kinds@), "tailscale"@),
        r.firewall == selected(string_views(kinds@), "firewall"@),
{
    let all = kinds.len() == 0 || has_kind(kinds, "all");
    ScanKinds {
        system: all || has_kind(kinds, "system"),
        network: all || has_kind(kinds, "network"),
        listening_ports: all || has_kind(kinds, "listening_ports"),
        docker: all || has_kind(kinds, "docker"),
        tailscale: all || has_kind(kinds, "tailscale"),
        firewall: all || has_kind(kinds, "firewall"),
    }
}

/// A discovered resource record.
pub open spec fn resource_spec(
    kind: Seq<char>,
    source: Seq<char>,
    name: Seq<char>,
    confidence: Seq<char>,
    raw: JsonView,
    normalized: JsonView,
) -> JsonView {
    JsonView::Object(
        seq![
            ("kind"@, JsonView::Str(kind)),
            ("source"@, JsonView::Str(source)),
            ("name"@, JsonView::Str(name)),
            ("confidence"@, JsonView::Str(confidence)),
            ("status"@, JsonView::Str("detected"@)),
            ("raw"@, raw),
            ("normalized"@, normalized),
        ],
    )
}

fn resource(kind: &str, source: &str, name: String, confidence: &str, raw: JsonValue, normalized: JsonValue) -> (r: JsonValue)
    ensures
        r@ == resource_spec(kind@, source@, name@, confidence@, raw@, normalized@),
{
    let ghost (nv, rv, zv) = (name@, raw@, normalized@);
    let fields = vec![
        field("kind", jstr(kind)),
        field("source", jstr(source)),
        field("name", jstring(name)),
        field("confidence", jstr(confidence)),
        field("status", jstr("detected")),
        field("raw", raw),
        field("normalized", normalized),
    ];
    let r = object(fields);
    assert(fields_view(fields@) =~= match resource_spec(kind@, source@, nv, confidence@, rv, zv) { JsonView::Object(f) => f, _ => Seq::empty() });
    r
}

/// The system facts a system scan reports.
#[derive(Debug, PartialEq)]
pub struct SystemFacts {
    pub hostname: String,
    pub os: String,
    pub arch: String,
    pub firewall_backend: String,
    pub proxmox_detected: bool,
}

pub open spec fn system_resource_spec(f: SystemFacts) -> JsonView {
    resource_spec(
        "system"@,
        "/etc/os-release"@,
        f.hostname@,
        "high"@,
        JsonView::Object(
            seq![
                ("hostname"@, JsonView::Str(f.hostname@)),
                ("os"@, JsonView::Str(f.os@)),
                ("arch"@, JsonView::Str(f.arch@)),
                ("firewallBackend"@, JsonView::Str(f.firewall_backend@)),
                ("proxmoxDetected"@, JsonView::Bool(f.proxmox_detected)),
            ],
        ),
        JsonView::Object(
            seq![
                ("hostname"@, JsonView::Str(f.hostname@)),
                ("os"@, JsonView::Str(f.os@)),
                ("arch"@, JsonView::Str(f.arch@)),
            ],
        ),
    )
}

pub fn scan_system(f: &SystemFacts) -> (r: JsonValue)
    ensures
        r@ == system_resource_spec(*f),
{
    let raw_fields = vec![
        field("hostname", jstring(f.hostname.clone())),
        field("os", jstring(f.os.clone())),
        field("arch", jstring(f.arch.clone())),
        field("firewallBackend", jstring(f.firewall_backend.clone())),
        field("proxmoxDetected", JsonValue::Bool(f.proxmox_detected)),
    ];
    let raw = object(raw_fields);
    let norm_fields = vec![
        field("hostname", jstring(f.hostname.clone())),
        field("os", jstring(f.os.clone())),
        field("arch", jstring(f.arch.clone())),
    ];
    let normalized = object(norm_fields);
    proof {
        assert(fields_view(raw_fields@) =~= seq![
            ("hostname"@, JsonView::Str(f.hostname@)),
            ("os"@, JsonView::Str(f.os@)),
            ("arch"@, JsonView::Str(f.arch@)),
            ("firewallBackend"@, JsonView::Str(f.firewall_backend@)),
            ("proxmoxDetected"@, JsonView::Bool(f.proxmox_detected)),
        ]);
        assert(fields_view(norm_fields@) =~= seq![
            ("hostname"@, JsonView::Str(f.hostname@)),
            ("os"@, JsonView::Str(f.os@)),
            ("arch"@, JsonView::Str(f.arch@)),
        ]);
    }
    resource("system", "/etc/os-release", f.hostname.clone(), "high", raw, normalized)
}

/// The resource of one detected interface.
pub open spec fn network_resource_spec(iface: JsonView) -> JsonView {
    let name = get_str_or(iface, "name"@, "unknown"@);
    resource_spec(
        "interface"@,
        "iproute"@,
        name,
        "high"@,
        iface,
        JsonView::Object(
            seq![
                ("name"@, JsonView::Str(name)),
                ("type"@, JsonView::Str(get_str_or(iface, "type"@, "lan"@))),
                ("ip"@, JsonView::Str(get_str_or(iface, "ip"@, ""@))),
                ("status"@, JsonView::Str(get_str_or(iface, "status"@, "down"@))),
            ],
        ),
    )
}

pub fn scan_network(iface: &JsonValue) -> (r: JsonValue)
    ensures
        r@ == network_resource_spec(iface@),
{
    let name = get_string_or(iface, "name", "unknown");
    let norm_fields = vec![
        field("name", jstring(name.clone())),
        field("type", jstring(get_string_or(iface, "type", "lan"))),
        field("ip", jstring(get_string_or(iface, "ip", ""))),
        field("status", jstring(get_string_or(iface, "status", "down"))),
    ];
    let normalized = object(norm_fields);
    assert(fields_view(norm_fields@) =~= match network_resource_spec(iface@) {
        JsonView::Object(f) => match f[6].1 { JsonView::Object(g) => g, _ => Seq::empty() },
        _ => Seq::empty(),
    });
    resource("interface", "iproute", name, "high", iface.copy(), normalized)
}

/// The resource of one line of `ss -tulpn -H`, when it has at least six
/// fields: the protocol is the first, the local address the fifth and the
/// process the seventh (or `-`).
pub open spec fn listening_port_spec(line: Seq<char>) -> Option<JsonView> {
    let parts = split_ws_spec(line);
    if parts.len() < 6 {
        None
    } else {
        let proto = parts[0];
        let local = parts[4];
        let process = if parts.len() > 6 { parts[6] } else { "-"@ };
        Some(
            resource_spec(
                "listening_port"@,
                "ss"@,
                local + "/"@ + proto,
                "medium"@,
                JsonView::Object(seq![("line"@, JsonView::Str(line))]),
                JsonView::Object(
                    seq![
                        ("protocol"@, JsonView::Str(proto)),
                        ("local"@, JsonView::Str(local)),
                        ("process"@, JsonView::Str(process)),
                    ],
                ),
            ),
        )
    }
}

pub open spec fn listening_ports_of(ls: Seq<Seq<char>>) -> Seq<JsonView>
    decreases ls.len(),
{
    if ls.len() == 0 {
        seq![]
    } else {
        listening_ports_of(ls.drop_last()) + match listening_port_spec(ls.last()) {
            Some(r) => seq![r],
            None => seq![],
        }
    }
}

fn listening_port(line: &[char]) -> (r: Option<JsonValue>)
    ensures
        match r {
            Some(x) => listening_port_spec(line@) == Some(x@),
            None => listening_port_spec(line@) is None,
        },
{
    let parts = split_ws(line);
    if parts.len() < 6 {
        return None;
    }
    let proto = string_of(parts[0].as_slice());
    let local = string_of(parts[4].as_slice());
    let process = if parts.len() > 6 { string_of(parts[6].as_slice()) } else { owned("-") };
    let mut name = local.clone();
    name.append("/");
    name.append(proto.as_str());
    let raw_fields = vec![field("line", jstring(string_of(line)))];
    let raw = object(raw_fields);
    let norm_fields = vec![
        field("protocol", jstring(proto)),
        field("local", jstring(local)),
        field("process", jstring(process)),
    ];
    let normalized = object(norm_fields);
    proof {
        let parts_v = split_ws_spec(line@);
        assert(fields_view(raw_fields@) =~= seq![("line"@, JsonView::Str(line@))]);
        assert(fields_view(norm_fields@) =~= seq![
            ("protocol"@, JsonView::Str(parts_v[0])),
            ("local"@, JsonView::Str(parts_v[4])),
            ("process"@, JsonView::Str(if parts_v.len() > 6 { parts_v[6] } else { "-"@ })),
        ]);
    }
    Some(resource("listening_port", "ss", name, "medium", raw, normalized))
}

/// The listening sockets in the output of `ss -tulpn -H` (empty when it failed).
pub fn scan_listening_ports(output: &str) -> (r: Vec<JsonValue>)
    ensures
        items_view(r@) == listening_ports_of(lines_spec(output@)),
{
    let text = chars_of(output);
    let ls = lines(text.as_slice());
    let n = ls.len();
    let ghost lv = views(ls@);
    let mut out: Vec<JsonValue> = Vec::new();
    let mut i: usize = 0;
    assert(lv.subrange(0, 0) =~= Seq::<Seq<char>>::empty());
    assert(items_view(out@) =~= Seq::<JsonView>::empty());
    while i < n
        invariant
            n == ls@.len(),
            lv == views(ls@),
            i <= n,
            items_view(out@) == listening_ports_of(lv.subrange(0, i as int)),
        decreases n - i,
    {
        assert(lv.subrange(0, i + 1).drop_last() =~= lv.subrange(0, i as int));
        assert(lv.subrange(0, i + 1).last() == ls@[i as int]@);
        match listening_port(ls[i].as_slice()) {
            Some(r) => {
                let ghost before = items_view(out@);
                out.push(r);
                assert(items_view(out@) =~= before + seq![listening_port_spec(ls@[i as int]@)->0]);
            },
            None => {},
        }
        i = i + 1;
    }
    assert(lv.subrange(0, n as int) =~= lv);
    out
}

/// The resource of one container as `docker_containers` reports it.
pub open spec fn docker_resource_spec(c: JsonView) -> JsonView {
    resource_spec(
        "docker_container"@,
        "docker"@,
        get_str_or(c, "name"@, "unknown"@),
        "high"@,
        c,
        JsonView::Object(
            seq![
                ("id"@, JsonView::Str(get_str_or(c, "id"@, ""@))),
                ("image"@, JsonView::Str(get_str_or(c, "image"@, ""@))),
                ("ports"@, JsonView::Str(get_str_or(c, "ports"@, ""@))),
            ],
        ),
    )
}

pub fn scan_docker(c: &JsonValue) -> (r: JsonValue)
    ensures
        r@ == docker_resource_spec(c@),
{
    let norm_fields = vec![
        field("id", jstring(get_string_or(c, "id", ""))),
        field("image", jstring(get_string_or(c, "image", ""))),
        field("ports", jstring(get_string_or(c, "ports", ""))),
    ];
    let normalized = object(norm_fields);
    assert(fields_view(norm_fields@) =~= seq![
        ("id"@, JsonView::Str(get_str_or(c@, "id"@, ""@))),
        ("image"@, JsonView::Str(get_str_or(c@, "image"@, ""@))),
        ("ports"@, JsonView::Str(get_str_or(c@, "ports"@, ""@))),
    ]);
    resource("docker_container", "docker", get_string_or(c, "name", "unknown"), "high", c.copy(), normalized)
}

/// The `i`-th entry of the `TailscaleIPs` array of a node, as a string.
pub open spec fn tailscale_ip(node: JsonView, i: int) -> Option<Seq<char>> {
    match node.get("TailscaleIPs"@) {
        Some(JsonView::Array(a)) => if 0 <= i < a.len() { a[i].as_str() } else { None },
        _ => None,
    }
}

pub fn tailscale_ip_of(node: &JsonValue, i: usize) -> (r: Option<String>)
    ensures
        crate::config::opt_chars(r) == tailscale_ip(node@, i as int),
{
    match node.get("TailscaleIPs") {
        Some(JsonValue::Array(a)) => {
            proof {
                lemma_array_view(*a);
            }
            if i < a.len() {
                match a[i].as_str() {
                    Some(s) => Some(owned(s)),
                    None => None,
                }
            } else {
                None
            }
        },
        _ => None,
    }
}

/// The tailscale resources of the parsed `tailscale status --json` (`null`
/// when it could not be parsed): one for the node itself when it is listed.
pub open spec fn tailscale_resources_spec(parsed: JsonView) -> Seq<JsonView> {
    match parsed.get("Self"@) {
        Some(node) => seq![
            resource_spec(
                "tailscale_node"@,
                "tailscale status"@,
                get_str_or(node, "HostName"@, "unknown"@),
                "high"@,
                parsed,
                JsonView::Object(
                    seq![
                        ("tailnet"@, JsonView::Str(get_str_or(parsed, "MagicDNSSuffix"@, ""@))),
                        ("hostname"@, JsonView::Str(get_str_or(node, "HostName"@, ""@))),
                        ("tailscaleIpV4"@, opt_str_view(tailscale_ip(node, 0))),
                        ("derp"@, JsonView::Str(get_str_or(node, "DERP"@, ""@))),
                    ],
                ),
            ),
        ],
        None => seq![],
    }
}

pub fn scan_tailscale(parsed: &JsonValue) -> (r: Vec<JsonValue>)
    ensures
        items_view(r@) == tailscale_resources_spec(parsed@),
{
    let mut out: Vec<JsonValue> = Vec::new();
    match parsed.get("Self") {
        Some(node) => {
            let norm_fields = vec![
                field("tailnet", jstring(get_string_or(parsed, "MagicDNSSuffix", ""))),
                field("hostname", jstring(get_string_or(node, "HostName", ""))),
                field("tailscaleIpV4", crate::json::jopt_string(tailscale_ip_of(node, 0))),
                field("derp", jstring(get_string_or(node, "DERP", ""))),
            ];
            let normalized = object(norm_fields);
            assert(fields_view(norm_fields@) =~= seq![
                ("tailnet"@, JsonView::Str(get_str_or(parsed@, "MagicDNSSuffix"@, ""@))),
                ("hostname"@, JsonView::Str(get_str_or(node@, "HostName"@, ""@))),
                ("tailscaleIpV4"@, opt_str_view(tailscale_ip(node@, 0))),
                ("derp"@, JsonView::Str(get_str_or(node@, "DERP"@, ""@))),
            ]);
            let r = resource(
                "tailscale_node",
                "tailscale status",
                get_string_or(node, "HostName", "unknown"),
                "high",
                parsed.copy(),
                normalized,
            );
            out.push(r);
            assert(items_view(out@) =~= tailscale_resources_spec(parsed@));
            out
        },
        None => {
            assert(items_view(out@) =~= Seq::<JsonView>::empty());
            out
        },
    }
}

/// The resource of the nftables ruleset, from the parsed `nft --json list
/// ruleset` (`null` when it could not be parsed).
pub open spec fn nft_ruleset_spec(parsed: JsonView) -> JsonView {
    resource_spec(
        "firewall_ruleset"@,
        "nft"@,
        "nftables ruleset"@,
        "high"@,
        parsed,
        JsonView::Object(seq![("backend"@, JsonView::Str("nftables"@))]),
    )
}

pub fn nft_ruleset_resource(parsed: &JsonValue) -> (r: JsonValue)
    ensures
        r@ == nft_ruleset_spec(parsed@),
{
    let norm_fields = vec![field("backend", jstr("nftables"))];
    let normalized = object(norm_fields);
    assert(fields_view(norm_fields@) =~= seq![("backend"@, JsonView::Str("nftables"@))]);
    resource("firewall_ruleset", "nft", owned("nftables ruleset"), "high", parsed.copy(), normalized)
}

/// The resource of the iptables ruleset printed by `iptables-save`.
pub open spec fn iptables_ruleset_spec(text: Seq<char>) -> JsonView {
    resource_spec(
        "firewall_ruleset"@,
        "iptables-save"@,
        "iptables ruleset"@,
        "medium"@,
        JsonView::Object(seq![("ruleset"@, JsonView::Str(text))]),
        JsonView::Object(seq![("backend"@, JsonView::Str("iptables"@))]),
    )
}

pub fn iptables_ruleset_resource(text: &str) -> (r: JsonValue)
    ensures
        r@ == iptables_ruleset_spec(text@),
{
    let raw_fields = vec![field("ruleset", jstr(text))];
    let raw = object(raw_fields);
    let norm_fields = vec![field("backend", jstr("iptables"))];
    let normalized = object(norm_fields);
    assert(fields_view(raw_fields@) =~= seq![("ruleset"@, JsonView::Str(text@))]);
    assert(fields_view(norm_fields@) =~= seq![("backend"@, JsonView::Str("iptables"@))]);
    resource("firewall_ruleset", "iptables-save", owned("iptables ruleset"), "medium", raw, normalized)
}

/// The payload of a scan.
pub fn scan_result(resources: Vec<JsonValue>) -> (r: JsonValue)
    ensures
        r@ == JsonView::Object(seq![("resources"@, JsonView::Array(items_view(resources@)))]),
{
    let ghost rv = items_view(resources@);
    let fields = vec![field("resources", array(resources))];
    let r = object(fields);
    assert(fields_view(fields@) =~= seq![("resources"@, JsonView::Array(rv))]);
    r
}

/// What the selected scans found; a scan that was not selected found nothing.
#[derive(Debug, PartialEq)]
pub struct ScanParts {
    pub system: Option<JsonValue>,
    pub network: Vec<JsonValue>,
    pub listening_ports: Vec<JsonValue>,
    pub docker: Vec<JsonValue>,
    pub tailscale: Vec<JsonValue>,
    pub firewall: Vec<JsonValue>,
}

/// The resources of a scan, in the order the scans run.
pub open spec fn scan_resources_spec(parts: ScanParts) -> Seq<JsonView> {
    (match parts.system {
        Some(s) => seq![s@],
        None => seq![],
    }) + items_view(parts.network@) + items_view(parts.listening_ports@) + items_view(parts.docker@)
        + items_view(parts.tailscale@) + items_view(parts.firewall@)
}

/// The payload of a discovery scan: `{resources}`.
pub fn scan(parts: ScanParts) -> (r: JsonValue)
    ensures
        r@ == JsonView::Object(seq![("resources"@, JsonView::Array(scan_resources_spec(parts)))]),
{
    let ghost all = scan_resources_spec(parts);
    let ScanParts { system, mut network, mut listening_ports, mut docker, mut tailscale, mut firewall } = parts;
    let mut resources: Vec<JsonValue> = Vec::new();
    match system {
        Some(s) => resources.push(s),
        None => {},
    }
    resources.append(&mut network);
    resources.append(&mut listening_ports);
    resources.append(&mut docker);
    resources.append(&mut tailscale);
    resources.append(&mut firewall);
    assert(items_view(resources@) =~= all);
    scan_result(resources)
}

} // verus!
