//! Facts about the node: its firewall tooling, containers, compose projects,
//! log lines and network interfaces, each computed from what the system
//! reports.

use vstd::prelude::*;
use crate::json::{JsonValue, JsonView, NumberView, JsonField, field, object, array, jnum, jstring, jstr,
    jopt_string, fields_view, items_view, field_lookup, get_str, get_u64, get_str_or, get_string_or, get_string, opt_str_view,
    lemma_array_view};
use crate::text::{chars_of, lines, string_of, views, lines_spec, owned, starts_with, starts_with_spec,
    has_char, contains, contains_spec, to_lowercase, unicode_lowercase, split_char, split_char_spec, trim,
    trim_spec, str_eq, decimal, decimal_spec, is_whitespace};
use crate::config::{join_spec, path_join};

verus! {

/// The version this agent reports.
pub const AGENT_VERSION: &'static str = "0.1.0";

/// The firewall tooling of the node: nftables when `nft` is present, else
/// iptables when `iptables` is, else none.
pub open spec fn firewall_backend_spec(has_nft: bool, has_iptables: bool) -> Seq<char> {
    if has_nft {
        "nftables"@
    } else if has_iptables {
        "iptables"@
    } else {
        "none"@
    }
}

pub fn firewall_backend(has_nft: bool, has_iptables: bool) -> (r: String)
    ensures
        r@ == firewall_backend_spec(has_nft, has_iptables),
{
    if has_nft {
        owned("nftables")
    } else if has_iptables {
        owned("iptables")
    } else {
        owned("none")
    }
}

/// Proxmox is detected by its `/etc/pve` directory or its `pveversion` tool.
pub fn detect_proxmox(pve_dir_exists: bool, has_pveversion: bool) -> (r: bool)
    ensures
        r == (pve_dir_exists || has_pveversion),
{
    pve_dir_exists || has_pveversion
}

/// Docker is detected by its `docker` tool.
pub fn detect_docker(has_docker: bool) -> (r: bool)
    ensures
        r == has_docker,
{
    has_docker
}

/// The directories searched for a program after those on `PATH`.
pub open spec fn fallback_dirs() -> Seq<Seq<char>> {
    seq!["/usr/sbin"@, "/sbin"@, "/usr/bin"@, "/bin"@]
}

/// The paths at which `which` looks for a program, in order: each directory
/// of `PATH` (split at `':'`), then the fallback directories.
pub open spec fn which_candidates_spec(path_env: Option<Seq<char>>, binary: Seq<char>) -> Seq<Seq<char>> {
    let dirs = match path_env {
        Some(p) => split_char_spec(p, ':'),
        None => seq![],
    } + fallback_dirs();
    dirs.map_values(|d: Seq<char>| join_spec(d, binary))
}

pub fn which_candidates(path_env: Option<&str>, binary: &str) -> (r: Vec<String>)
    ensures
        crate::json::string_views(r@) == which_candidates_spec(match path_env { Some(p) => Some(p@), None => None }, binary@),
{
    let mut dirs: Vec<String> = Vec::new();
    match path_env {
        Some(p) => {
            let pc = chars_of(p);
            let parts = split_char(pc.as_slice(), ':');
            let n = parts.len();
            let mut i: usize = 0;
            while i < n
                invariant
                    n == parts@.len(),
                    i <= n,
                    crate::json::string_views(dirs@) == views(parts@).subrange(0, i as int),
                decreases n - i,
            {
                let ghost before = dirs@;
                dirs.push(string_of(parts[i].as_slice()));
                assert(crate::json::string_views(dirs@) =~= crate::json::string_views(before).push(parts@[i as int]@));
                i = i + 1;
                assert(crate::json::string_views(dirs@) =~= views(parts@).subrange(0, i as int));
            }
            assert(views(parts@).subrange(0, n as int) =~= views(parts@));
        },
        None => {},
    }
    let ghost first = crate::json::string_views(dirs@);
    dirs.push(owned("/usr/sbin"));
    dirs.push(owned("/sbin"));
    dirs.push(owned("/usr/bin"));
    dirs.push(owned("/bin"));
    let ghost all = crate::json::string_views(dirs@);
    assert(all =~= first + fallback_dirs());
    let n = dirs.len();
    let mut out: Vec<String> = Vec::new();
    let mut i: usize = 0;
    while i < n
        invariant
            n == dirs@.len(),
            all == crate::json::string_views(dirs@),
            i <= n,
            out@.len() == i,
            forall|k: int| 0 <= k < i ==> #[trigger] out@[k]@ == join_spec(all[k], binary@),
        decreases n - i,
    {
        out.push(path_join(dirs[i].as_str(), binary));
        i = i + 1;
    }
    assert(crate::json::string_views(out@) =~= all.map_values(|d: Seq<char>| join_spec(d, binary@)));
    out
}

/// The kind of an interface: `lo` is the loopback; a bridge kind or a name
/// starting with `vmbr` or `br` is a bridge; a vlan kind, a `'.'` in the name
/// or a name starting with `vlan` is a vlan; anything else is a LAN.
pub open spec fn classify_spec(name: Seq<char>, kind: Option<Seq<char>>) -> Seq<char> {
    if name == "lo"@ {
        "loopback"@
    } else if kind == Some("bridge"@) || starts_with_spec(name, "vmbr"@) || starts_with_spec(name, "br"@) {
        "bridge"@
    } else if kind == Some("vlan"@) || name.contains('.') || starts_with_spec(name, "vlan"@) {
        "vlan"@
    } else {
        "lan"@
    }
}

fn opt_is(kind: Option<&str>, what: &str) -> (r: bool)
    ensures
        r == (match kind { Some(k) => Some(k@), None => None } == Some(what@)),
{
    match kind {
        Some(k) => str_eq(k, what),
        None => false,
    }
}

pub fn classify(name: &str, kind: Option<&str>) -> (r: String)
    ensures
        r@ == classify_spec(name@, match kind { Some(k) => Some(k@), None => None }),
{
    let n = chars_of(name);
    let vmbr = chars_of("vmbr");
    let br = chars_of("br");
    let vlan = chars_of("vlan");
    if str_eq(name, "lo") {
        owned("loopback")
    } else if opt_is(kind, "bridge") || starts_with(n.as_slice(), vmbr.as_slice()) || starts_with(n.as_slice(), br.as_slice()) {
        owned("bridge")
    } else if opt_is(kind, "vlan") || has_char(n.as_slice(), '.') || starts_with(n.as_slice(), vlan.as_slice()) {
        owned("vlan")
    } else {
        owned("lan")
    }
}

/// The level of a log line from its lowercase form: an error, a warning or
/// a debug message by the words it holds, else information.
pub open spec fn level_of_spec(lower: Seq<char>) -> Seq<char> {
    if contains_spec(lower, "error"@) || contains_spec(lower, "panic"@) || contains_spec(lower, "failed"@) {
        "error"@
    } else if contains_spec(lower, "warn"@) {
        "warn"@
    } else if contains_spec(lower, "debug"@) {
        "debug"@
    } else {
        "info"@
    }
}

/// The level of a log line, from words in its lowercase form.
pub open spec fn infer_level_spec(line: Seq<char>) -> Seq<char> {
    level_of_spec(unicode_lowercase(line))
}

/// The level of a log line given its lowercase form.
pub fn level_of(lower: &str) -> (r: String)
    ensures
        r@ == level_of_spec(lower@),
{
    let lower = chars_of(lower);
    let error = chars_of("error");
    let panic_w = chars_of("panic");
    let failed = chars_of("failed");
    let warn = chars_of("warn");
    let debug = chars_of("debug");
    if contains(lower.as_slice(), error.as_slice()) || contains(lower.as_slice(), panic_w.as_slice())
        || contains(lower.as_slice(), failed.as_slice()) {
        owned("error")
    } else if contains(lower.as_slice(), warn.as_slice()) {
        owned("warn")
    } else if contains(lower.as_slice(), debug.as_slice()) {
        owned("debug")
    } else {
        owned("info")
    }
}

pub fn infer_level(line: &str) -> (r: String)
    ensures
        r@ == infer_level_spec(line@),
        crate::text::all_ascii(line@) ==> r@ == level_of_spec(line@.map_values(|c: char| crate::text::ascii_lower(c))),
{
    let lower = to_lowercase(line);
    level_of(lower.as_str())
}

/// One log line as reported: its text, its level, and no time.
pub open spec fn log_entry_spec(line: Seq<char>) -> JsonView {
    JsonView::Object(
        seq![
            ("message"@, JsonView::Str(line)),
            ("level"@, JsonView::Str(infer_level_spec(line))),
            ("time"@, JsonView::Null),
        ],
    )
}

/// The arguments of the `journalctl` run that prints the agent's last lines.
pub fn tail_logs_args(lines_wanted: u64) -> (r: Vec<String>)
    ensures
        crate::json::string_views(r@) == seq![
            "--user"@, "-u"@, "ports-agent"@, "-n"@, decimal_spec(lines_wanted as nat), "--no-pager"@,
        ],
{
    let r = vec![owned("--user"), owned("-u"), owned("ports-agent"), owned("-n"), decimal(lines_wanted), owned("--no-pager")];
    assert(crate::json::string_views(r@) =~= seq![
        "--user"@, "-u"@, "ports-agent"@, "-n"@, decimal_spec(lines_wanted as nat), "--no-pager"@,
    ]);
    r
}

/// The log entries of the lines printed by `journalctl` (empty when it failed).
pub fn tail_logs(output: &str) -> (r: Vec<JsonValue>)
    ensures
        items_view(r@) == lines_spec(output@).map_values(|l: Seq<char>| log_entry_spec(l)),
{
    let text = chars_of(output);
    let ls = lines(text.as_slice());
    let n = ls.len();
    let mut out: Vec<JsonValue> = Vec::new();
    let mut i: usize = 0;
    while i < n
        invariant
            n == ls@.len(),
            i <= n,
            out@.len() == i,
            forall|k: int| 0 <= k < i ==> #[trigger] out@[k]@ == log_entry_spec(ls@[k]@),
        decreases n - i,
    {
        let line = string_of(ls[i].as_slice());
        let level = infer_level(line.as_str());
        let fields = vec![field("message", jstring(line)), field("level", jstring(level)), field("time", JsonValue::Null)];
        let o = object(fields);
        assert(fields_view(fields@) =~= match log_entry_spec(ls@[i as int]@) { JsonView::Object(f) => f, _ => Seq::empty() });
        out.push(o);
        i = i + 1;
    }
    assert(items_view(out@) =~= views(ls@).map_values(|l: Seq<char>| log_entry_spec(l)));
    out
}

// ---------------------------------------------------------------------------
// Containers and compose projects
// ---------------------------------------------------------------------------

/// The lines of `docker ps --format json` that hold something.
pub open spec fn nonblank_lines_spec(ls: Seq<Seq<char>>) -> Seq<Seq<char>>
    decreases ls.len(),
{
    if ls.len() == 0 {
        seq![]
    } else {
        nonblank_lines_spec(ls.drop_last()) + if trim_spec(ls.last()).len() == 0 {
            seq![]
        } else {
            seq![ls.last()]
        }
    }
}

pub fn nonblank_lines(text: &str) -> (r: Vec<String>)
    ensures
        crate::json::string_views(r@) == nonblank_lines_spec(lines_spec(text@)),
{
    let t = chars_of(text);
    let ls = lines(t.as_slice());
    let n = ls.len();
    let mut out: Vec<String> = Vec::new();
    let mut i: usize = 0;
    let ghost lv = views(ls@);
    assert(lv.subrange(0, 0) =~= Seq::<Seq<char>>::empty());
    assert(crate::json::string_views(out@) =~= Seq::<Seq<char>>::empty());
    while i < n
        invariant
            n == ls@.len(),
            lv == views(ls@),
            i <= n,
            crate::json::string_views(out@) == nonblank_lines_spec(lv.subrange(0, i as int)),
        decreases n - i,
    {
        assert(lv.subrange(0, i + 1).drop_last() =~= lv.subrange(0, i as int));
        let tt = trim(ls[i].as_slice());
        if tt.len() > 0 {
            let ghost before = crate::json::string_views(out@);
            out.push(string_of(ls[i].as_slice()));
            assert(crate::json::string_views(out@) =~= before + seq![lv[i as int]]);
        }
        i = i + 1;
    }
    assert(lv.subrange(0, n as int) =~= lv);
    out
}

/// `v.get(k1).or_else(|| v.get(k2)).and_then(as_str).unwrap_or("")`.
pub open spec fn str_of_either(v: JsonView, k1: Seq<char>, k2: Seq<char>) -> Seq<char> {
    let x = match v.get(k1) {
        Some(x) => Some(x),
        None => v.get(k2),
    };
    match x {
        Some(y) => match y.as_str() {
            Some(s) => s,
            None => seq![],
        },
        None => seq![],
    }
}

fn string_of_either(v: &JsonValue, k1: &str, k2: &str) -> (r: String)
    ensures
        r@ == str_of_either(v@, k1@, k2@),
{
    let x = match v.get(k1) {
        Some(x) => Some(x),
        None => v.get(k2),
    };
    match x {
        Some(y) => match y.as_str() {
            Some(s) => owned(s),
            None => String::new(),
        },
        None => String::new(),
    }
}

/// The first comma-separated label that starts with `prefix`.
pub open spec fn first_with_prefix(ps: Seq<Seq<char>>, prefix: Seq<char>) -> Option<Seq<char>>
    decreases ps.len(),
{
    if ps.len() == 0 {
        None
    } else if starts_with_spec(ps[0], prefix) {
        Some(ps[0])
    } else {
        first_with_prefix(ps.drop_first(), prefix)
    }
}

/// The value of the label `prefix...=value` among comma-separated labels: the
/// text between its first and second `'='`, when not empty.
pub open spec fn label_value(labels: Seq<char>, prefix: Seq<char>) -> Option<Seq<char>> {
    match first_with_prefix(split_char_spec(labels, ','), prefix) {
        Some(l) => {
            let parts = split_char_spec(l, '=');
            let v = if parts.len() > 1 { parts[1] } else { seq![] };
            if v.len() == 0 { None } else { Some(v) }
        },
        None => None,
    }
}

fn find_label(labels: &str, prefix: &str) -> (r: Option<String>)
    ensures
        crate::config::opt_chars(r) == label_value(labels@, prefix@),
{
    let lc = chars_of(labels);
    let pc = chars_of(prefix);
    let parts = split_char(lc.as_slice(), ',');
    let n = parts.len();
    let ghost pv = views(parts@);
    let mut i: usize = 0;
    assert(pv.subrange(0, n as int) =~= pv);
    while i < n
        invariant
            n == parts@.len(),
            pv == views(parts@),
            pv == split_char_spec(labels@, ','),
            pc@ == prefix@,
            i <= n,
            first_with_prefix(pv, prefix@) == first_with_prefix(pv.subrange(i as int, n as int), prefix@),
        decreases n - i,
    {
        assert(pv.subrange(i as int, n as int)[0] == parts@[i as int]@);
        if starts_with(parts[i].as_slice(), pc.as_slice()) {
            assert(first_with_prefix(pv, prefix@) == Some(parts@[i as int]@));
            let kv = split_char(parts[i].as_slice(), '=');
            if kv.len() > 1 && kv[1].len() > 0 {
                return Some(string_of(kv[1].as_slice()));
            }
            return None;
        }
        assert(pv.subrange(i as int, n as int).drop_first() =~= pv.subrange(i + 1, n as int));
        i = i + 1;
    }
    None
}

/// A container as reported from one line of `docker ps --format json`.
pub open spec fn container_spec(c: JsonView) -> JsonView {
    let labels = get_str_or(c, "Labels"@, ""@);
    JsonView::Object(
        seq![
            ("id"@, JsonView::Str(str_of_either(c, "ID"@, "Id"@))),
            ("name"@, JsonView::Str(str_of_either(c, "Names"@, "name"@))),
            ("image"@, JsonView::Str(get_str_or(c, "Image"@, ""@))),
            ("status"@, JsonView::Str(str_of_either(c, "State"@, "Status"@))),
            ("composeProject"@, opt_str_view(label_value(labels, "com.docker.compose.project="@))),
            ("composeService"@, opt_str_view(label_value(labels, "com.docker.compose.service="@))),
            ("ports"@, JsonView::Str(get_str_or(c, "Ports"@, ""@))),
        ],
    )
}

pub fn container_from(c: &JsonValue) -> (r: JsonValue)
    ensures
        r@ == container_spec(c@),
{
    let labels = get_string_or(c, "Labels", "");
    let fields = vec![
        field("id", jstring(string_of_either(c, "ID", "Id"))),
        field("name", jstring(string_of_either(c, "Names", "name"))),
        field("image", jstring(get_string_or(c, "Image", ""))),
        field("status", jstring(string_of_either(c, "State", "Status"))),
        field("composeProject", jopt_string(find_label(labels.as_str(), "com.docker.compose.project="))),
        field("composeService", jopt_string(find_label(labels.as_str(), "com.docker.compose.service="))),
        field("ports", jstring(get_string_or(c, "Ports", ""))),
    ];
    let r = object(fields);
    assert(fields_view(fields@) =~= match container_spec(c@) { JsonView::Object(f) => f, _ => Seq::empty() });
    r
}

/// A compose project from one item of `docker compose ls --format json`.
pub open spec fn compose_project_spec(item: JsonView) -> JsonView {
    let name = get_str_or(item, "Name"@, ""@);
    JsonView::Object(
        seq![
            ("id"@, JsonView::Str(name)),
            ("name"@, JsonView::Str(name)),
            ("status"@, JsonView::Str(get_str_or(item, "Status"@, ""@))),
            ("configFiles"@, JsonView::Str(get_str_or(item, "ConfigFiles"@, ""@))),
        ],
    )
}

/// The compose projects of the parsed output: one per item when it is an
/// array, none otherwise.
pub open spec fn compose_projects_spec(parsed: JsonView) -> Seq<JsonView> {
    match parsed {
        JsonView::Array(items) => items.map_values(|i: JsonView| compose_project_spec(i)),
        _ => seq![],
    }
}

pub fn compose_projects(parsed: &JsonValue) -> (r: Vec<JsonValue>)
    ensures
        items_view(r@) == compose_projects_spec(parsed@),
{
    let mut out: Vec<JsonValue> = Vec::new();
    match parsed {
        JsonValue::Array(items) => {
            proof {
                lemma_array_view(*items);
            }
            let n = items.len();
            let mut i: usize = 0;
            while i < n
                invariant
                    n == items@.len(),
                    i <= n,
                    out@.len() == i,
                    forall|k: int| 0 <= k < i ==> #[trigger] out@[k]@ == compose_project_spec(items@[k]@),
                decreases n - i,
            {
                let item = &items[i];
                let name = get_string_or(item, "Name", "");
                let fields = vec![
                    field("id", jstring(name.clone())),
                    field("name", jstring(name)),
                    field("status", jstring(get_string_or(item, "Status", ""))),
                    field("configFiles", jstring(get_string_or(item, "ConfigFiles", ""))),
                ];
                let o = object(fields);
                assert(fields_view(fields@) =~= match compose_project_spec(items@[i as int]@) { JsonView::Object(f) => f, _ => Seq::empty() });
                out.push(o);
                i = i + 1;
            }
            assert(items_view(out@) =~= items_view(items@).map_values(|i: JsonView| compose_project_spec(i)));
            out
        },
        _ => {
            assert(items_view(out@) =~= Seq::<JsonView>::empty());
            out
        },
    }
}


// ---------------------------------------------------------------------------
// Network interfaces
// ---------------------------------------------------------------------------

/// `v.and_then(as_str)` as JSON: the string or `null`.
pub open spec fn opt_str_json(v: Option<JsonView>) -> JsonView {
    match v {
        Some(x) => match x.as_str() {
            Some(s) => JsonView::Str(s),
            None => JsonView::Null,
        },
        None => JsonView::Null,
    }
}

/// `v.and_then(as_u64)` as JSON: the number or `null`.
pub open spec fn opt_u64_json(v: Option<JsonView>) -> JsonView {
    match v {
        Some(x) => match x.as_u64() {
            Some(n) => JsonView::Number(NumberView::PosInt(n)),
            None => JsonView::Null,
        },
        None => JsonView::Null,
    }
}

fn str_json(v: Option<&JsonValue>) -> (r: JsonValue)
    ensures
        r@ == opt_str_json(crate::json::opt_view(v)),
{
    match v {
        Some(x) => match x.as_str() {
            Some(s) => crate::json::jstr(s),
            None => JsonValue::Null,
        },
        None => JsonValue::Null,
    }
}

fn u64_json(v: Option<&JsonValue>) -> (r: JsonValue)
    ensures
        r@ == opt_u64_json(crate::json::opt_view(v)),
{
    match v {
        Some(x) => match x.as_u64() {
            Some(n) => jnum(n),
            None => JsonValue::Null,
        },
        None => JsonValue::Null,
    }
}

/// The `linkinfo.info_kind` of an `ip -j -d addr` item.
pub open spec fn link_kind(item: JsonView) -> Option<Seq<char>> {
    match item.get("linkinfo"@) {
        Some(li) => get_str(li, "info_kind"@),
        None => None,
    }
}

/// The reported form of one address of an interface: IPv4 and IPv6 addresses
/// with a `local` address are kept.
pub open spec fn address_spec(addr: JsonView) -> Option<JsonView> {
    let family = get_str(addr, "family"@);
    if family == Some("inet"@) || family == Some("inet6"@) {
        match get_str(addr, "local"@) {
            Some(local) => Some(
                JsonView::Object(
                    seq![
                        ("family"@, JsonView::Str(family->0)),
                        ("local"@, JsonView::Str(local)),
                        ("prefixlen"@, opt_u64_json(addr.get("prefixlen"@))),
                    ],
                ),
            ),
            None => None,
        }
    } else {
        None
    }
}

pub open spec fn addresses_spec(addrs: Seq<JsonView>) -> Seq<JsonView>
    decreases addrs.len(),
{
    if addrs.len() == 0 {
        seq![]
    } else {
        addresses_spec(addrs.drop_last()) + match address_spec(addrs.last()) {
            Some(a) => seq![a],
            None => seq![],
        }
    }
}

/// The interface's IPv4 address: the `local` of its last IPv4 address, or empty.
pub open spec fn ipv4_spec(addrs: Seq<JsonView>) -> Seq<char>
    decreases addrs.len(),
{
    if addrs.len() == 0 {
        seq![]
    } else if get_str(addrs.last(), "family"@) == Some("inet"@) && get_str(addrs.last(), "local"@) is Some {
        get_str(addrs.last(), "local"@)->0
    } else {
        ipv4_spec(addrs.drop_last())
    }
}

/// The `addr_info` list of an item, or none.
pub open spec fn addr_info_spec(item: JsonView) -> Seq<JsonView> {
    match item.get("addr_info"@) {
        Some(JsonView::Array(a)) => a,
        _ => seq![],
    }
}

/// The reported form of one `ip -j -d addr` item with a name.
pub open spec fn iproute_interface_spec(item: JsonView) -> JsonView {
    let name = get_str_or(item, "ifname"@, ""@);
    let kind = link_kind(item);
    let operstate = get_str_or(item, "operstate"@, "UNKNOWN"@);
    let addrs = addr_info_spec(item);
    let link_type = match get_str(item, "link_type"@) {
        Some(t) => Some(t),
        None => kind,
    };
    JsonView::Object(
        seq![
            ("id"@, JsonView::Str(name)),
            ("name"@, JsonView::Str(name)),
            ("type"@, JsonView::Str(classify_spec(name, kind))),
            ("ip"@, JsonView::Str(ipv4_spec(addrs))),
            ("status"@, JsonView::Str(if crate::text::eq_ignore_ascii_case_spec(operstate, "up"@) { "up"@ } else { "down"@ })),
            ("ifindex"@, opt_u64_json(item.get("ifindex"@))),
            ("mac"@, opt_str_json(item.get("address"@))),
            ("broadcast"@, opt_str_json(item.get("broadcast"@))),
            ("mtu"@, opt_u64_json(item.get("mtu"@))),
            ("qdisc"@, opt_str_json(item.get("qdisc"@))),
            ("master"@, opt_str_json(item.get("master"@))),
            ("linkType"@, opt_str_view(link_type)),
            ("flags"@, JsonView::Array(match item.get("flags"@) { Some(JsonView::Array(f)) => f, _ => seq![] })),
            ("addresses"@, JsonView::Array(addresses_spec(addrs))),
        ],
    )
}

pub open spec fn iproute_interfaces_of(items: Seq<JsonView>) -> Seq<JsonView>
    decreases items.len(),
{
    if items.len() == 0 {
        seq![]
    } else {
        iproute_interfaces_of(items.drop_last()) + if get_str_or(items.last(), "ifname"@, ""@).len() == 0 {
            seq![]
        } else {
            seq![iproute_interface_spec(items.last())]
        }
    }
}

/// The interfaces of the parsed output of `ip -j -d addr show`: none when it
/// is not an array, and items without a name skipped.
pub open spec fn interfaces_from_iproute_spec(parsed: JsonView) -> Option<Seq<JsonView>> {
    match parsed {
        JsonView::Array(items) => Some(iproute_interfaces_of(items)),
        _ => None,
    }
}

fn addresses_of(addrs: &Vec<JsonValue>) -> (r: (Vec<JsonValue>, String))
    ensures
        items_view(r.0@) == addresses_spec(items_view(addrs@)),
        r.1@ == ipv4_spec(items_view(addrs@)),
{
    let n = addrs.len();
    let ghost av = items_view(addrs@);
    let mut out: Vec<JsonValue> = Vec::new();
    let mut ip = String::new();
    let mut i: usize = 0;
    assert(av.subrange(0, 0) =~= Seq::<JsonView>::empty());
    assert(items_view(out@) =~= Seq::<JsonView>::empty());
    while i < n
        invariant
            n == addrs@.len(),
            av == items_view(addrs@),
            i <= n,
            items_view(out@) == addresses_spec(av.subrange(0, i as int)),
            ip@ == ipv4_spec(av.subrange(0, i as int)),
        decreases n - i,
    {
        let addr = &addrs[i];
        assert(av.subrange(0, i + 1).drop_last() =~= av.subrange(0, i as int));
        assert(av.subrange(0, i + 1).last() == addr@);
        let family = get_string(addr, "family");
        let is_inet = match &family {
            Some(f) => str_eq(f.as_str(), "inet"),
            None => false,
        };
        let is_inet6 = match &family {
            Some(f) => str_eq(f.as_str(), "inet6"),
            None => false,
        };
        if is_inet || is_inet6 {
            match get_string(addr, "local") {
                Some(local) => {
                    let fam = if is_inet { owned("inet") } else { owned("inet6") };
                    let ghost before = items_view(out@);
                    if is_inet {
                        ip = local.clone();
                    }
                    let fields = vec![
                        field("family", jstring(fam)),
                        field("local", jstring(local)),
                        field("prefixlen", u64_json(addr.get("prefixlen"))),
                    ];
                    let o = object(fields);
                    assert(fields_view(fields@) =~= match address_spec(addr@) { Some(JsonView::Object(f)) => f, _ => Seq::empty() });
                    out.push(o);
                    assert(items_view(out@) =~= before + seq![address_spec(addr@)->0]);
                },
                None => {},
            }
        }
        i = i + 1;
    }
    assert(av.subrange(0, n as int) =~= av);
    (out, ip)
}

fn iproute_interface(item: &JsonValue) -> (r: JsonValue)
    ensures
        r@ == iproute_interface_spec(item@),
{
    let name = get_string_or(item, "ifname", "");
    let kind: Option<String> = match item.get("linkinfo") {
        Some(li) => get_string(li, "info_kind"),
        None => None,
    };
    let operstate = get_string_or(item, "operstate", "UNKNOWN");
    let oc = chars_of(operstate.as_str());
    let up = chars_of("up");
    let status = if crate::text::eq_ignore_ascii_case(oc.as_slice(), up.as_slice()) {
        owned("up")
    } else {
        owned("down")
    };
    let empty: Vec<JsonValue> = Vec::new();
    let (addresses, ip) = match item.get("addr_info") {
        Some(JsonValue::Array(a)) => {
            proof {
                lemma_array_view(*a);
            }
            addresses_of(a)
        },
        _ => {
            let r = addresses_of(&empty);
            assert(items_view(empty@) =~= Seq::<JsonView>::empty());
            r
        },
    };
    let kind_ref: Option<&str> = match &kind {
        Some(k) => Some(k.as_str()),
        None => None,
    };
    let ty = classify(name.as_str(), kind_ref);
    let link_type = match get_string(item, "link_type") {
        Some(t) => Some(t),
        None => kind,
    };
    let flag_v = item.get("flags");
    let is_arr = match flag_v {
        Some(JsonValue::Array(_)) => true,
        _ => false,
    };
    let flags = if is_arr {
        flag_v.unwrap().copy()
    } else {
            let e: Vec<JsonValue> = Vec::new();
            proof {
                lemma_array_view(e);
                assert(items_view(e@) =~= Seq::<JsonView>::empty());
            }
            JsonValue::Array(e)
    };
    let fields = vec![
        field("id", jstring(name.clone())),
        field("name", jstring(name)),
        field("type", jstring(ty)),
        field("ip", jstring(ip)),
        field("status", jstring(status)),
        field("ifindex", u64_json(item.get("ifindex"))),
        field("mac", str_json(item.get("address"))),
        field("broadcast", str_json(item.get("broadcast"))),
        field("mtu", u64_json(item.get("mtu"))),
        field("qdisc", str_json(item.get("qdisc"))),
        field("master", str_json(item.get("master"))),
        field("linkType", jopt_string(link_type)),
        field("flags", flags),
        field("addresses", array(addresses)),
    ];
    let r = object(fields);
    assert(fields_view(fields@) =~= match iproute_interface_spec(item@) { JsonView::Object(f) => f, _ => Seq::empty() });
    r
}

/// The interfaces of the parsed output of `ip -j -d addr show`.
pub fn interfaces_from_iproute(parsed: &JsonValue) -> (r: Option<Vec<JsonValue>>)
    ensures
        match r {
            Some(v) => interfaces_from_iproute_spec(parsed@) == Some(items_view(v@)),
            None => interfaces_from_iproute_spec(parsed@) is None,
        },
{
    match parsed {
        JsonValue::Array(items) => {
            proof {
                lemma_array_view(*items);
            }
            let n = items.len();
            let ghost iv = items_view(items@);
            let mut out: Vec<JsonValue> = Vec::new();
            let mut i: usize = 0;
            assert(iv.subrange(0, 0) =~= Seq::<JsonView>::empty());
            assert(items_view(out@) =~= Seq::<JsonView>::empty());
            while i < n
                invariant
                    n == items@.len(),
                    iv == items_view(items@),
                    i <= n,
                    items_view(out@) == iproute_interfaces_of(iv.subrange(0, i as int)),
                decreases n - i,
            {
                let item = &items[i];
                assert(iv.subrange(0, i + 1).drop_last() =~= iv.subrange(0, i as int));
                assert(iv.subrange(0, i + 1).last() == item@);
                let name = get_string_or(item, "ifname", "");
                if !name.as_str().is_empty() {
                    let ghost before = items_view(out@);
                    out.push(iproute_interface(item));
                    assert(items_view(out@) =~= before + seq![iproute_interface_spec(item@)]);
                }
                i = i + 1;
            }
            assert(iv.subrange(0, n as int) =~= iv);
            Some(out)
        },
        _ => None,
    }
}

/// The reported form of an interface found in `/sys/class/net`, given its
/// name and the text of its `operstate` file (empty when unreadable).
pub open spec fn sysfs_interface_spec(name: Seq<char>, operstate: Seq<char>) -> JsonView {
    JsonView::Object(
        seq![
            ("id"@, JsonView::Str(name)),
            ("name"@, JsonView::Str(name)),
            ("type"@, JsonView::Str(classify_spec(name, None))),
            ("ip"@, JsonView::Str(""@)),
            ("status"@, JsonView::Str(if trim_spec(operstate) == "up"@ { "up"@ } else { "down"@ })),
        ],
    )
}

pub fn sysfs_interface(name: &str, operstate: &str) -> (r: JsonValue)
    ensures
        r@ == sysfs_interface_spec(name@, operstate@),
{
    let t = crate::text::trim_str(operstate);
    let status = if str_eq(t.as_str(), "up") { owned("up") } else { owned("down") };
    let fields = vec![
        field("id", jstr(name)),
        field("name", jstr(name)),
        field("type", jstring(classify(name, None))),
        field("ip", jstr("")),
        field("status", jstring(status)),
    ];
    let r = object(fields);
    assert(fields_view(fields@) =~= match sysfs_interface_spec(name@, operstate@) { JsonView::Object(f) => f, _ => Seq::empty() });
    r
}

/// The host name from the text of `/proc/sys/kernel/hostname`, trimmed, or
/// `unknown` when it cannot be read.
pub fn hostname(contents: Option<&str>) -> (r: String)
    ensures
        r@ == match contents { Some(c) => trim_spec(c@), None => "unknown"@ },
{
    match contents {
        Some(c) => crate::text::trim_str(c),
        None => owned("unknown"),
    }
}

/// What `node.info` reports beyond the node's id and name.
#[derive(Debug, PartialEq)]
pub struct NodeFacts {
    pub hostname: String,
    pub os: String,
    pub arch: String,
    pub firewall_backend: String,
    pub proxmox_detected: bool,
    pub interfaces: Vec<JsonValue>,
}

pub open spec fn node_info_spec(node_id: Seq<char>, node_name: Seq<char>, f: NodeFacts) -> JsonView {
    JsonView::Object(
        seq![
            ("nodeId"@, JsonView::Str(node_id)),
            ("name"@, JsonView::Str(node_name)),
            ("hostname"@, JsonView::Str(f.hostname@)),
            ("os"@, JsonView::Str(f.os@)),
            ("arch"@, JsonView::Str(f.arch@)),
            ("agentVersion"@, JsonView::Str(AGENT_VERSION@)),
            ("firewallBackend"@, JsonView::Str(f.firewall_backend@)),
            ("proxmoxDetected"@, JsonView::Bool(f.proxmox_detected)),
            ("interfaces"@, JsonView::Array(items_view(f.interfaces@))),
        ],
    )
}

/// The `node.info` payload.
pub fn node_info(node_id: &str, node_name: &str, facts: NodeFacts) -> (r: JsonValue)
    ensures
        r@ == node_info_spec(node_id@, node_name@, facts),
{
    let ghost f = facts;
    let fields = vec![
        field("nodeId", jstr(node_id)),
        field("name", jstr(node_name)),
        field("hostname", jstring(facts.hostname)),
        field("os", jstring(facts.os)),
        field("arch", jstring(facts.arch)),
        field("agentVersion", jstr(AGENT_VERSION)),
        field("firewallBackend", jstring(facts.firewall_backend)),
        field("proxmoxDetected", JsonValue::Bool(facts.proxmox_detected)),
        field("interfaces", array(facts.interfaces)),
    ];
    let r = object(fields);
    assert(fields_view(fields@) =~= match node_info_spec(node_id@, node_name@, f) { JsonView::Object(x) => x, _ => Seq::empty() });
    r
}

/// The containers `docker ps --format json` listed, one per parsed line, in
/// order.
pub fn docker_containers(items: &Vec<JsonValue>) -> (r: Vec<JsonValue>)
    ensures
        items_view(r@) == items_view(items@).map_values(|c: JsonView| container_spec(c)),
{
    let mut r: Vec<JsonValue> = Vec::new();
    let n = items.len();
    let mut i: usize = 0;
    while i < n
        invariant
            n == items@.len(),
            i <= n,
            r@.len() == i,
            forall|k: int| 0 <= k < i ==> #[trigger] r@[k]@ == container_spec(items@[k]@),
        decreases n - i,
    {
        r.push(container_from(&items[i]));
        i = i + 1;
    }
    assert(items_view(r@) =~= items_view(items@).map_values(|c: JsonView| container_spec(c)));
    r
}

/// One address entry is reported exactly when its family is `inet` or
/// `inet6` and it has a `local` address; the reported address keeps the
/// entry's family, local address and prefix length.
pub proof fn law_address_keeps_entry(addr: JsonView)
    ensures
        address_spec(addr) is Some <==> ((get_str(addr, "family"@) == Some("inet"@) || get_str(addr, "family"@) == Some(
            "inet6"@,
        )) && get_str(addr, "local"@) is Some),
        address_spec(addr) matches Some(x) ==> get_str(x, "family"@) == get_str(addr, "family"@) && get_str(x, "local"@)
            == get_str(addr, "local"@) && get_u64(x, "prefixlen"@) == get_u64(addr, "prefixlen"@),
{
    reveal_strlit("family");
    reveal_strlit("local");
    reveal_strlit("prefixlen");
    if let Some(x) = address_spec(addr) {
        let fs = x->Object_0;
        assert(fs[0].0 == "family"@);
        assert(fs[1].0 == "local"@);
        assert(fs[2].0 == "prefixlen"@);
        assert("local"@.len() != "family"@.len());
        assert("prefixlen"@.len() != "family"@.len());
        assert("prefixlen"@.len() != "local"@.len());
        assert(fs.drop_first()[0] == fs[1]);
        assert(fs.drop_first().drop_first()[0] == fs[2]);
        assert(field_lookup(fs, "family"@) == Some(fs[0].1));
        assert(field_lookup(fs, "local"@) == field_lookup(fs.drop_first(), "local"@));
        assert(field_lookup(fs, "local"@) == Some(fs[1].1));
        assert(field_lookup(fs, "prefixlen"@) == field_lookup(fs.drop_first(), "prefixlen"@));
        assert(field_lookup(fs.drop_first(), "prefixlen"@) == field_lookup(fs.drop_first().drop_first(), "prefixlen"@));
        assert(field_lookup(fs, "prefixlen"@) == Some(fs[2].1));
        assert(get_u64(x, "prefixlen"@) == get_u64(addr, "prefixlen"@));
    }
}

/// Each address an interface reports comes from one of its `addr_info`
/// entries, an `inet` or `inet6` one with a `local` address, and keeps that
/// entry's family and local address; where every entry is such an entry,
/// they are all reported, in order, each with its own family, local address
/// and prefix length.
pub proof fn law_addresses_keep_entries(addrs: Seq<JsonView>)
    ensures
        forall|k: int| 0 <= k < addresses_spec(addrs).len() ==> exists|i: int| 0 <= i < addrs.len()
            && (get_str(#[trigger] addrs[i], "family"@) == Some("inet"@) || get_str(addrs[i], "family"@) == Some("inet6"@))
            && get_str(addrs[i], "local"@) is Some
            && get_str(#[trigger] addresses_spec(addrs)[k], "family"@) == get_str(addrs[i], "family"@)
            && get_str(addresses_spec(addrs)[k], "local"@) == get_str(addrs[i], "local"@),
        (forall|i: int| 0 <= i < addrs.len() ==> (get_str(#[trigger] addrs[i], "family"@) == Some("inet"@) || get_str(
            addrs[i],
            "family"@,
        ) == Some("inet6"@)) && get_str(addrs[i], "local"@) is Some) ==> addresses_spec(addrs).len() == addrs.len()
            && forall|k: int| 0 <= k < addrs.len() ==> get_str(#[trigger] addresses_spec(addrs)[k], "family"@) == get_str(
            addrs[k],
            "family"@,
        ) && get_str(addresses_spec(addrs)[k], "local"@) == get_str(addrs[k], "local"@) && get_u64(
            addresses_spec(addrs)[k],
            "prefixlen"@,
        ) == get_u64(addrs[k], "prefixlen"@),
    decreases addrs.len(),
{
    if addrs.len() > 0 {
        let prev = addrs.drop_last();
        let a = addrs.last();
        law_addresses_keep_entries(prev);
        law_address_keeps_entry(a);
        let out = addresses_spec(addrs);
        let pout = addresses_spec(prev);
        assert(out == pout + match address_spec(a) {
            Some(x) => seq![x],
            None => seq![],
        });
        assert forall|k: int| 0 <= k < out.len() implies exists|i: int| 0 <= i < addrs.len()
            && (get_str(#[trigger] addrs[i], "family"@) == Some("inet"@) || get_str(addrs[i], "family"@) == Some("inet6"@))
            && get_str(addrs[i], "local"@) is Some
            && get_str(#[trigger] out[k], "family"@) == get_str(addrs[i], "family"@)
            && get_str(out[k], "local"@) == get_str(addrs[i], "local"@) by {
            if k < pout.len() {
                assert(out[k] == pout[k]);
                let i = choose|i: int| 0 <= i < prev.len()
                    && (get_str(#[trigger] prev[i], "family"@) == Some("inet"@) || get_str(prev[i], "family"@) == Some("inet6"@))
                    && get_str(prev[i], "local"@) is Some
                    && get_str(#[trigger] pout[k], "family"@) == get_str(prev[i], "family"@)
                    && get_str(pout[k], "local"@) == get_str(prev[i], "local"@);
                assert(addrs[i] == prev[i]);
            } else {
                assert(out[k] == address_spec(a)->0);
                assert(addrs[addrs.len() - 1] == a);
            }
        }
        if forall|i: int| 0 <= i < addrs.len() ==> (get_str(#[trigger] addrs[i], "family"@) == Some("inet"@) || get_str(
            addrs[i],
            "family"@,
        ) == Some("inet6"@)) && get_str(addrs[i], "local"@) is Some {
            assert forall|i: int| 0 <= i < prev.len() implies (get_str(#[trigger] prev[i], "family"@) == Some("inet"@) || get_str(
                prev[i],
                "family"@,
            ) == Some("inet6"@)) && get_str(prev[i], "local"@) is Some by {
                assert(prev[i] == addrs[i]);
            }
            assert(addrs[addrs.len() - 1] == a);
            assert(address_spec(a) is Some);
            assert forall|k: int| 0 <= k < addrs.len() implies get_str(#[trigger] out[k], "family"@) == get_str(
                addrs[k],
                "family"@,
            ) && get_str(out[k], "local"@) == get_str(addrs[k], "local"@) && get_u64(out[k], "prefixlen"@) == get_u64(
                addrs[k],
                "prefixlen"@,
            ) by {
                if k < prev.len() {
                    assert(out[k] == pout[k]);
                    assert(addrs[k] == prev[k]);
                } else {
                    assert(out[k] == address_spec(a)->0);
                }
            }
        }
    }
}

} // verus!
