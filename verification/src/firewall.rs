//! Port forwarding on nftables: the rule a request describes, the `nft`
//! commands that install and remove it inside the agent's own table, and the
//! step-by-step procedure that applies or deletes it.

use vstd::prelude::*;
use crate::json::{JsonValue, JsonView, get_str, get_u64, get_str_or, get_string, get_string_or, get_number};
use crate::text::{owned, chars_of, has_char, to_lowercase, unicode_lowercase, decimal, decimal_spec, push_char,
    contains_spec, find_sub_spec, parse_uint_spec, trim_spec, lines_spec, views, lines, contains, find_sub, trim,
    parse_uint, str_eq, slice_of, string_of, trim_str};
use crate::json::string_views;

verus! {

// ---------------------------------------------------------------------------
// Port forwards
// ---------------------------------------------------------------------------

/// A port forward: traffic to `external_port` on `external_interface` goes to
/// `internal_ip:internal_port`.
#[derive(Debug, PartialEq)]
pub struct PortForward {
    pub rule_id: String,
    pub protocol: String,
    pub external_interface: String,
    pub external_port: u16,
    pub internal_ip: String,
    pub internal_port: u16,
    pub public_ip: Option<String>,
    pub comment: Option<String>,
}

pub struct PortForwardView {
    pub rule_id: Seq<char>,
    pub protocol: Seq<char>,
    pub external_interface: Seq<char>,
    pub external_port: nat,
    pub internal_ip: Seq<char>,
    pub internal_port: nat,
    pub public_ip: Option<Seq<char>>,
    pub comment: Option<Seq<char>>,
}

impl View for PortForward {
    type V = PortForwardView;

    open spec fn view(&self) -> PortForwardView {
        PortForwardView {
            rule_id: self.rule_id@,
            protocol: self.protocol@,
            external_interface: self.external_interface@,
            external_port: self.external_port as nat,
            internal_ip: self.internal_ip@,
            internal_port: self.internal_port as nat,
            public_ip: crate::config::opt_chars(self.public_ip),
            comment: crate::config::opt_chars(self.comment),
        }
    }
}

/// A number read as a port: its low 16 bits, as a cast to `u16` keeps them.
pub open spec fn as_port(n: nat) -> nat {
    n % 65536
}

/// The port forward a request payload describes, or the message for the first
/// required member that is missing (or of the wrong JSON type). The protocol
/// defaults to `tcp` and is lowercased.
pub open spec fn port_forward_spec(p: JsonView) -> Result<PortForwardView, Seq<char>> {
    match get_str(p, "ruleId"@) {
        None => Err("missing ruleId"@),
        Some(rule_id) => match get_str(p, "externalInterface"@) {
            None => Err("missing externalInterface"@),
            Some(external_interface) => match get_u64(p, "externalPort"@) {
                None => Err("missing externalPort"@),
                Some(external_port) => match get_str(p, "internalIp"@) {
                    None => Err("missing internalIp"@),
                    Some(internal_ip) => match get_u64(p, "internalPort"@) {
                        None => Err("missing internalPort"@),
                        Some(internal_port) => Ok(
                            PortForwardView {
                                rule_id,
                                protocol: unicode_lowercase(get_str_or(p, "protocol"@, "tcp"@)),
                                external_interface,
                                external_port: as_port(external_port),
                                internal_ip,
                                internal_port: as_port(internal_port),
                                public_ip: get_str(p, "publicIp"@),
                                comment: get_str(p, "comment"@),
                            },
                        ),
                    },
                },
            },
        },
    }
}

/// The protocols a forward covers: `tcp` and `udp` when its protocol holds a
/// `'+'` (as in `tcp+udp`), else its protocol alone.
pub open spec fn protocols_spec(protocol: Seq<char>) -> Seq<Seq<char>> {
    if protocol.contains('+') {
        seq!["tcp"@, "udp"@]
    } else {
        seq![protocol]
    }
}

fn port_of(n: u64) -> (r: u16)
    ensures
        r as nat == as_port(n as nat),
{
    (n % 65536) as u16
}

impl PortForward {
    /// Reads a port forward from a request payload.
    pub fn from_payload(payload: &JsonValue) -> (r: Result<PortForward, String>)
        ensures
            match r {
                Ok(pf) => port_forward_spec(payload@) == Ok::<PortForwardView, Seq<char>>(pf@),
                Err(e) => port_forward_spec(payload@) == Err::<PortForwardView, Seq<char>>(e@),
            },
            crate::text::all_ascii(get_str_or(payload@, "protocol"@, "tcp"@)) ==> (r matches Ok(pf) ==> pf@.protocol
                == get_str_or(payload@, "protocol"@, "tcp"@).map_values(|c: char| crate::text::ascii_lower(c))),
    {
        let rule_id = match get_string(payload, "ruleId") {
            Some(s) => s,
            None => return Err(owned("missing ruleId")),
        };
        let protocol_raw = get_string_or(payload, "protocol", "tcp");
        let protocol = to_lowercase(protocol_raw.as_str());
        let external_interface = match get_string(payload, "externalInterface") {
            Some(s) => s,
            None => return Err(owned("missing externalInterface")),
        };
        let external_port = match get_number(payload, "externalPort") {
            Some(n) => port_of(n),
            None => return Err(owned("missing externalPort")),
        };
        let internal_ip = match get_string(payload, "internalIp") {
            Some(s) => s,
            None => return Err(owned("missing internalIp")),
        };
        let internal_port = match get_number(payload, "internalPort") {
            Some(n) => port_of(n),
            None => return Err(owned("missing internalPort")),
        };
        let public_ip = get_string(payload, "publicIp");
        let comment = get_string(payload, "comment");
        Ok(
            PortForward {
                rule_id,
                protocol,
                external_interface,
                external_port,
                internal_ip,
                internal_port,
                public_ip,
                comment,
            },
        )
    }

    /// The protocols this forward covers.
    pub fn protocols(&self) -> (r: Vec<String>)
        ensures
            crate::json::string_views(r@) == protocols_spec(self.protocol@),
    {
        let p = chars_of(self.protocol.as_str());
        if has_char(p.as_slice(), '+') {
            let r = vec![owned("tcp"), owned("udp")];
            assert(crate::json::string_views(r@) =~= protocols_spec(self.protocol@));
            r
        } else {
            let r = vec![self.protocol.clone()];
            assert(crate::json::string_views(r@) =~= protocols_spec(self.protocol@));
            r
        }
    }
}


// ---------------------------------------------------------------------------
// nft commands
// ---------------------------------------------------------------------------

/// A word in double quotes.
pub open spec fn quoted(s: Seq<char>) -> Seq<char> {
    seq!['"'] + s + seq!['"']
}

/// The commands that create the table and its two NAT chains.
pub open spec fn setup_commands_spec(t: Seq<char>) -> Seq<Seq<Seq<char>>> {
    seq![
        seq!["add"@, "table"@, "ip"@, t],
        seq![
            "add"@, "chain"@, "ip"@, t, "prerouting"@, "{"@, "type"@, "nat"@, "hook"@,
            "prerouting"@, "priority"@, "-100"@, ";"@, "}"@,
        ],
        seq![
            "add"@, "chain"@, "ip"@, t, "postrouting"@, "{"@, "type"@, "nat"@, "hook"@,
            "postrouting"@, "priority"@, "100"@, ";"@, "}"@,
        ],
    ]
}

/// The destination-NAT rule of a forward for one protocol.
pub open spec fn dnat_command_spec(t: Seq<char>, pf: PortForwardView, proto: Seq<char>) -> Seq<Seq<char>> {
    seq![
        "add"@, "rule"@, "ip"@, t, "prerouting"@, "iif"@, pf.external_interface, proto,
        "dport"@, decimal_spec(pf.external_port), "dnat"@, "to"@,
        pf.internal_ip + seq![':'] + decimal_spec(pf.internal_port), "comment"@,
        quoted(pf.rule_id),
    ]
}

/// The masquerade rule of a forward for one protocol.
pub open spec fn masquerade_command_spec(t: Seq<char>, pf: PortForwardView, proto: Seq<char>) -> Seq<Seq<char>> {
    seq![
        "add"@, "rule"@, "ip"@, t, "postrouting"@, "ip"@, "daddr"@, pf.internal_ip, proto,
        "dport"@, decimal_spec(pf.internal_port), "masquerade"@, "comment"@, quoted(pf.rule_id),
    ]
}

/// For each protocol in turn, its destination-NAT rule and its masquerade rule.
pub open spec fn rules_for(t: Seq<char>, pf: PortForwardView, protos: Seq<Seq<char>>) -> Seq<Seq<Seq<char>>>
    decreases protos.len(),
{
    if protos.len() == 0 {
        seq![]
    } else {
        rules_for(t, pf, protos.drop_last()) + seq![
            dnat_command_spec(t, pf, protos.last()),
            masquerade_command_spec(t, pf, protos.last()),
        ]
    }
}

/// The commands that install a forward.
pub open spec fn rule_commands_spec(t: Seq<char>, pf: PortForwardView) -> Seq<Seq<Seq<char>>> {
    rules_for(t, pf, protocols_spec(pf.protocol))
}

/// The command that lists a chain of the table with rule handles.
pub open spec fn list_chain_spec(t: Seq<char>, chain: Seq<char>) -> Seq<Seq<char>> {
    seq!["-a"@, "list"@, "chain"@, "ip"@, t, chain]
}

/// The command that deletes the rule with a handle from a chain of the table.
pub open spec fn delete_rule_spec(t: Seq<char>, chain: Seq<char>, handle: nat) -> Seq<Seq<char>> {
    seq!["delete"@, "rule"@, "ip"@, t, chain, "handle"@, decimal_spec(handle)]
}

/// The words joined with a separator (`[String]::join`).
pub open spec fn join_spec(ws: Seq<Seq<char>>, sep: Seq<char>) -> Seq<char>
    decreases ws.len(),
{
    if ws.len() == 0 {
        seq![]
    } else if ws.len() == 1 {
        ws[0]
    } else {
        join_spec(ws.drop_last(), sep) + sep + ws.last()
    }
}

/// The views of a list of commands.
pub open spec fn commands_view(v: Seq<Vec<String>>) -> Seq<Seq<Seq<char>>> {
    v.map_values(|c: Vec<String>| string_views(c@))
}

/// `words.join(sep)`.
pub fn join_words(words: &Vec<String>, sep: &str) -> (r: String)
    ensures
        r@ == join_spec(string_views(words@), sep@),
{
    let n = words.len();
    let mut r = String::new();
    let mut i: usize = 0;
    assert(string_views(words@).subrange(0, 0) =~= Seq::<Seq<char>>::empty());
    while i < n
        invariant
            n == words@.len(),
            i <= n,
            r@ == join_spec(string_views(words@).subrange(0, i as int), sep@),
        decreases n - i,
    {
        if i > 0 {
            r.append(sep);
        }
        r.append(words[i].as_str());
        proof {
            let ws = string_views(words@);
            assert(ws.subrange(0, i + 1).drop_last() =~= ws.subrange(0, i as int));
            if i == 0 {
                assert(r@ =~= ws.subrange(0, 1)[0]);
            }
        }
        i = i + 1;
    }
    assert(string_views(words@).subrange(0, n as int) =~= string_views(words@));
    r
}

fn quote(s: &str) -> (r: String)
    ensures
        r@ == quoted(s@),
{
    let mut r = String::new();
    push_char(&mut r, '"');
    r.append(s);
    push_char(&mut r, '"');
    assert(r@ =~= quoted(s@));
    r
}

/// The nftables provider: the table it owns and how it applies changes.
pub struct Nftables {
    table: String,
    dry_run: bool,
    backup_before_apply: bool,
}

pub struct NftablesView {
    pub table: Seq<char>,
    pub dry_run: bool,
    pub backup_before_apply: bool,
}

impl View for Nftables {
    type V = NftablesView;

    closed spec fn view(&self) -> NftablesView {
        NftablesView { table: self.table@, dry_run: self.dry_run, backup_before_apply: self.backup_before_apply }
    }
}

/// A dry-run plan: the commands an apply runs, and what may stop the forward
/// from working.
#[derive(Debug, PartialEq)]
pub struct Plan {
    pub changes: Vec<String>,
    pub warnings: Vec<String>,
}

/// How a command is shown in a plan.
pub open spec fn plan_line(cmd: Seq<Seq<char>>) -> Seq<char> {
    "nft "@ + join_spec(cmd, " "@)
}

/// The warnings of a plan.
pub open spec fn plan_warnings(ip_forward_enabled: bool, nft_present: bool) -> Seq<Seq<char>> {
    (if ip_forward_enabled {
        seq![]
    } else {
        seq!["net.ipv4.ip_forward is disabled; forwarding will not work"@]
    }) + (if nft_present {
        seq![]
    } else {
        seq!["nft binary not found on PATH"@]
    })
}

impl Nftables {
    pub fn new(table: String, dry_run: bool, backup_before_apply: bool) -> (r: Nftables)
        ensures
            r@ == (NftablesView { table: table@, dry_run, backup_before_apply }),
    {
        Nftables { table, dry_run, backup_before_apply }
    }

    /// The commands that create the table and its chains.
    pub fn setup_commands(&self) -> (r: Vec<Vec<String>>)
        ensures
            commands_view(r@) == setup_commands_spec(self@.table),
    {
        let t = &self.table;
        let r = vec![
            vec![owned("add"), owned("table"), owned("ip"), t.clone()],
            vec![
                owned("add"), owned("chain"), owned("ip"), t.clone(), owned("prerouting"),
                owned("{"), owned("type"), owned("nat"), owned("hook"), owned("prerouting"),
                owned("priority"), owned("-100"), owned(";"), owned("}"),
            ],
            vec![
                owned("add"), owned("chain"), owned("ip"), t.clone(), owned("postrouting"),
                owned("{"), owned("type"), owned("nat"), owned("hook"), owned("postrouting"),
                owned("priority"), owned("100"), owned(";"), owned("}"),
            ],
        ];
        proof {
            let cv = commands_view(r@);
            let sv = setup_commands_spec(self@.table);
            assert(cv[0] =~= sv[0]);
            assert(cv[1] =~= sv[1]);
            assert(cv[2] =~= sv[2]);
            assert(cv =~= sv);
        }
        r
    }

    /// The commands that install a forward.
    pub fn rule_commands(&self, pf: &PortForward) -> (r: Vec<Vec<String>>)
        ensures
            commands_view(r@) == rule_commands_spec(self@.table, pf@),
    {
        let t = &self.table;
        let protos = pf.protocols();
        let np = protos.len();
        let mut r: Vec<Vec<String>> = Vec::new();
        let mut i: usize = 0;
        let ghost ps = string_views(protos@);
        assert(ps.subrange(0, 0) =~= Seq::<Seq<char>>::empty());
        assert(commands_view(r@) =~= Seq::<Seq<Seq<char>>>::empty());
        while i < np
            invariant
                np == protos@.len(),
                ps == string_views(protos@),
                t@ == self@.table,
                i <= np,
                commands_view(r@) == rules_for(self@.table, pf@, ps.subrange(0, i as int)),
            decreases np - i,
        {
            let proto = &protos[i];
            let ext_port = decimal(pf.external_port as u64);
            let int_port = decimal(pf.internal_port as u64);
            let mut target = pf.internal_ip.clone();
            push_char(&mut target, ':');
            target.append(int_port.as_str());
            assert(target@ =~= pf@.internal_ip + seq![':'] + decimal_spec(pf@.internal_port));
            let c1 = vec![
                owned("add"), owned("rule"), owned("ip"), t.clone(), owned("prerouting"),
                owned("iif"), pf.external_interface.clone(), proto.clone(), owned("dport"),
                ext_port, owned("dnat"), owned("to"), target, owned("comment"),
                quote(pf.rule_id.as_str()),
            ];
            let c2 = vec![
                owned("add"), owned("rule"), owned("ip"), t.clone(), owned("postrouting"),
                owned("ip"), owned("daddr"), pf.internal_ip.clone(), proto.clone(),
                owned("dport"), decimal(pf.internal_port as u64), owned("masquerade"),
                owned("comment"), quote(pf.rule_id.as_str()),
            ];
            let ghost before = commands_view(r@);
            proof {
                assert(string_views(c1@) =~= dnat_command_spec(self@.table, pf@, ps[i as int]));
                assert(string_views(c2@) =~= masquerade_command_spec(self@.table, pf@, ps[i as int]));
            }
            r.push(c1);
            r.push(c2);
            proof {
                assert(ps.subrange(0, i + 1).drop_last() =~= ps.subrange(0, i as int));
                assert(commands_view(r@) =~= before + seq![
                    dnat_command_spec(self@.table, pf@, ps[i as int]),
                    masquerade_command_spec(self@.table, pf@, ps[i as int]),
                ]);
            }
            i = i + 1;
        }
        assert(ps.subrange(0, np as int) =~= ps);
        r
    }

    /// The dry-run plan of a forward, given whether IPv4 forwarding is on and
    /// whether the `nft` binary is present.
    pub fn plan_with(&self, pf: &PortForward, ip_forward_enabled: bool, nft_present: bool) -> (r: Plan)
        ensures
            string_views(r.changes@) == (setup_commands_spec(self@.table) + rule_commands_spec(
                self@.table,
                pf@,
            )).map_values(|c: Seq<Seq<char>>| plan_line(c)),
            string_views(r.warnings@) == plan_warnings(ip_forward_enabled, nft_present),
    {
        let mut cmds = self.setup_commands();
        let mut rules = self.rule_commands(pf);
        let ghost all = commands_view(cmds@) + commands_view(rules@);
        cmds.append(&mut rules);
        assert(commands_view(cmds@) =~= all);
        let n = cmds.len();
        let mut changes: Vec<String> = Vec::new();
        let mut i: usize = 0;
        while i < n
            invariant
                n == cmds@.len(),
                i <= n,
                changes@.len() == i,
                forall|k: int| 0 <= k < i ==> #[trigger] changes@[k]@ == plan_line(string_views(cmds@[k]@)),
            decreases n - i,
        {
            let mut line = owned("nft ");
            let joined = join_words(&cmds[i], " ");
            line.append(joined.as_str());
            changes.push(line);
            i = i + 1;
        }
        assert(string_views(changes@) =~= all.map_values(|c: Seq<Seq<char>>| plan_line(c)));
        let mut warnings: Vec<String> = Vec::new();
        if !ip_forward_enabled {
            warnings.push(owned("net.ipv4.ip_forward is disabled; forwarding will not work"));
        }
        if !nft_present {
            warnings.push(owned("nft binary not found on PATH"));
        }
        assert(string_views(warnings@) =~= plan_warnings(ip_forward_enabled, nft_present));
        Plan { changes, warnings }
    }
}


// ---------------------------------------------------------------------------
// Reading nft listings and results
// ---------------------------------------------------------------------------

/// The text that tags a rule with its id.
pub open spec fn rule_tag(rule_id: Seq<char>) -> Seq<char> {
    "comment \""@ + rule_id + "\""@
}

/// The handle on one listed line: the line carries the rule's tag, and the
/// text after the first `"# handle "` is a decimal number that fits in `u64`.
pub open spec fn handle_in_line(line: Seq<char>, rule_id: Seq<char>) -> Option<int> {
    if contains_spec(line, rule_tag(rule_id)) {
        match find_sub_spec(line, "# handle "@) {
            Some(i) => parse_uint_spec(
                trim_spec(line.subrange((i + 9) as int, line.len() as int)),
                0xffff_ffff_ffff_ffff,
            ),
            None => None,
        }
    } else {
        None
    }
}

/// The handle on the first line that gives one.
pub open spec fn handle_in_lines(ls: Seq<Seq<char>>, rule_id: Seq<char>) -> Option<int>
    decreases ls.len(),
{
    if ls.len() == 0 {
        None
    } else {
        match handle_in_line(ls[0], rule_id) {
            Some(h) => Some(h),
            None => handle_in_lines(ls.drop_first(), rule_id),
        }
    }
}

/// The handle of the first rule tagged with `rule_id` in a chain listing.
pub open spec fn rule_handle_spec(listing: Seq<char>, rule_id: Seq<char>) -> Option<int> {
    handle_in_lines(lines_spec(listing), rule_id)
}

fn handle_on_line(line: &[char], tag: &[char], rule_id: Ghost<Seq<char>>) -> (r: Option<u64>)
    requires
        tag@ == rule_tag(rule_id@),
    ensures
        match r {
            Some(h) => handle_in_line(line@, rule_id@) == Some(h as int),
            None => handle_in_line(line@, rule_id@) is None,
        },
{
    if !contains(line, tag) {
        return None;
    }
    let marker = chars_of("# handle ");
    proof {
        reveal_strlit("# handle ");
    }
    match find_sub(line, marker.as_slice()) {
        Some(i) => {
            proof {
                crate::text::lemma_find_sub_fits(line@, marker@);
                assert(marker@.len() == 9);
                assert(find_sub_spec(line@, marker@) == Some(i as nat));
                assert(i + 9 <= line@.len());
            }
            let n = line.len();
            assert(i + 9 <= n);
            let rest = slice_of(line, i + 9, n);
            let t = trim(rest.as_slice());
            parse_uint(t.as_slice(), 0xffff_ffff_ffff_ffff)
        },
        None => None,
    }
}

impl Nftables {
    /// The handle of the first rule tagged with `rule_id` in the output of
    /// `nft -a list chain`.
    pub fn rule_handle(listing: &str, rule_id: &str) -> (r: Option<u64>)
        ensures
            match r {
                Some(h) => rule_handle_spec(listing@, rule_id@) == Some(h as int),
                None => rule_handle_spec(listing@, rule_id@) is None,
            },
    {
        let mut tag_s = owned("comment \"");
        tag_s.append(rule_id);
        tag_s.append("\"");
        let tag = chars_of(tag_s.as_str());
        let text = chars_of(listing);
        let ls = lines(text.as_slice());
        let n = ls.len();
        let mut i: usize = 0;
        assert(views(ls@).subrange(0, n as int) =~= views(ls@));
        while i < n
            invariant
                n == ls@.len(),
                i <= n,
                tag@ == rule_tag(rule_id@),
                rule_handle_spec(listing@, rule_id@) == handle_in_lines(
                    views(ls@).subrange(i as int, n as int),
                    rule_id@,
                ),
                views(ls@) == lines_spec(listing@),
            decreases n - i,
        {
            match handle_on_line(ls[i].as_slice(), tag.as_slice(), Ghost(rule_id@)) {
                Some(h) => {
                    assert(views(ls@).subrange(i as int, n as int)[0] == ls@[i as int]@);
                    return Some(h);
                },
                None => {},
            }
            assert(views(ls@).subrange(i as int, n as int).drop_first() =~= views(ls@).subrange(
                i + 1,
                n as int,
            ));
            i = i + 1;
        }
        None
    }
}

/// `/proc/sys/net/ipv4/ip_forward` read as on: its trimmed text is `1`; an
/// unreadable file counts as off.
pub open spec fn ip_forward_spec(contents: Option<Seq<char>>) -> bool {
    match contents {
        Some(c) => trim_spec(c) == "1"@,
        None => false,
    }
}

pub fn ip_forward_enabled(contents: Option<&str>) -> (r: bool)
    ensures
        r == ip_forward_spec(match contents { Some(c) => Some(c@), None => None }),
{
    match contents {
        Some(c) => {
            let t = trim_str(c);
            str_eq(t.as_str(), "1")
        },
        None => false,
    }
}

/// The message of a failed `nft` run.
pub open spec fn run_failure_spec(args: Seq<Seq<char>>, stderr: Seq<char>) -> Seq<char> {
    "nft "@ + join_spec(args, " "@) + " failed: "@ + trim_spec(stderr)
}

pub fn run_failure_message(args: &Vec<String>, stderr: &str) -> (r: String)
    ensures
        r@ == run_failure_spec(string_views(args@), stderr@),
{
    let mut r = owned("nft ");
    let j = join_words(args, " ");
    r.append(j.as_str());
    r.append(" failed: ");
    let t = trim_str(stderr);
    r.append(t.as_str());
    r
}


// ---------------------------------------------------------------------------
// Applying and deleting a forward, step by step
// ---------------------------------------------------------------------------

/// Where an apply or delete procedure stands.
#[derive(Clone, Copy, Debug, PartialEq, Eq, Structural)]
pub enum JobStep {
    /// Nothing has been asked yet.
    Start,
    /// A backup of the ruleset was asked for.
    BackingUp,
    /// Setup command `i` was run; its failure is ignored.
    Setup(usize),
    /// Chain `c` (0: prerouting, 1: postrouting) was listed.
    Listing(usize),
    /// A rule of chain `c` tagged with the rule id was deleted.
    Deleting(usize),
    /// Rule command `i` was run.
    Adding(usize),
    /// The procedure is over.
    Finished,
}

/// What the caller is to do next.
#[derive(Debug, PartialEq)]
pub enum NftAction {
    /// Take a backup of the ruleset and report its path or the error.
    Backup,
    /// Run `nft` with these arguments and report its output or the error.
    Run(Vec<String>),
    /// The procedure ended with this result.
    Done(Result<(), String>),
}

pub enum ActionView {
    Backup,
    Run(Seq<Seq<char>>),
    Done(Result<(), Seq<char>>),
}

impl View for NftAction {
    type V = ActionView;

    open spec fn view(&self) -> ActionView {
        match self {
            NftAction::Backup => ActionView::Backup,
            NftAction::Run(args) => ActionView::Run(string_views(args@)),
            NftAction::Done(Ok(())) => ActionView::Done(Ok(())),
            NftAction::Done(Err(e)) => ActionView::Done(Err(e@)),
        }
    }
}

/// An apply (`installs`) or delete procedure for one rule id.
pub struct NftJob {
    table: String,
    rule_id: String,
    setup: Vec<Vec<String>>,
    rules: Vec<Vec<String>>,
    installs: bool,
    step: JobStep,
}

pub struct JobView {
    pub table: Seq<char>,
    pub rule_id: Seq<char>,
    pub setup: Seq<Seq<Seq<char>>>,
    pub rules: Seq<Seq<Seq<char>>>,
    pub installs: bool,
    pub step: JobStep,
}

impl View for NftJob {
    type V = JobView;

    closed spec fn view(&self) -> JobView {
        JobView {
            table: self.table@,
            rule_id: self.rule_id@,
            setup: commands_view(self.setup@),
            rules: commands_view(self.rules@),
            installs: self.installs,
            step: self.step,
        }
    }
}

/// The chain with a number: 0 is `prerouting`, 1 is `postrouting`.
pub open spec fn chain_name(c: nat) -> Seq<char> {
    if c == 0 {
        "prerouting"@
    } else {
        "postrouting"@
    }
}

/// A command that only adds to, deletes from or lists the agent's table `t`:
/// its first word is `add`, `delete` or `-a`, and `ip t` names the table.
pub open spec fn managed_command(c: Seq<Seq<char>>, t: Seq<char>) -> bool {
    &&& c.len() >= 4
    &&& (c[0] == "add"@ || c[0] == "delete"@ || c[0] == "-a"@)
    &&& ((c[2] == "ip"@ && c[3] == t) || (c.len() >= 5 && c[3] == "ip"@ && c[4] == t))
}

/// A rule command tagged with the rule id: it ends with `comment "<id>"`.
pub open spec fn tagged_command(c: Seq<Seq<char>>, rule_id: Seq<char>) -> bool {
    c.len() >= 2 && c[c.len() - 2] == "comment"@ && c.last() == quoted(rule_id)
}

impl JobView {
    /// The invariant of a procedure: the setup commands of its table, rule
    /// commands inside its table and tagged with its rule id, and a step that
    /// points at an existing command or chain.
    pub open spec fn wf(self) -> bool {
        &&& self.setup == setup_commands_spec(self.table)
        &&& forall|k: int| 0 <= k < self.rules.len() ==> managed_command(#[trigger] self.rules[k], self.table)
        &&& forall|k: int| 0 <= k < self.rules.len() ==> tagged_command(#[trigger] self.rules[k], self.rule_id)
        &&& (!self.installs ==> self.rules.len() == 0)
        &&& match self.step {
            JobStep::Setup(i) => i < 3,
            JobStep::Listing(c) => c < 2,
            JobStep::Deleting(c) => c < 2,
            JobStep::Adding(i) => i < self.rules.len(),
            _ => true,
        }
    }

    pub open spec fn with_step(self, step: JobStep) -> JobView {
        JobView { step, ..self }
    }

    /// Once both chains are free of the rule: install its commands, or end.
    pub open spec fn after_listing(self) -> (JobStep, ActionView) {
        if self.installs && self.rules.len() > 0 {
            (JobStep::Adding(0), ActionView::Run(self.rules[0]))
        } else {
            (JobStep::Finished, ActionView::Done(Ok(())))
        }
    }

    /// The next step and action after the outcome of the last action: the
    /// backup's path or the command's output, or its error.
    pub open spec fn next(self, o: Result<Seq<char>, Seq<char>>) -> (JobStep, ActionView) {
        let t = self.table;
        match self.step {
            JobStep::BackingUp => match o {
                Err(e) => (JobStep::Finished, ActionView::Done(Err(e))),
                Ok(_) => (JobStep::Setup(0), ActionView::Run(self.setup[0])),
            },
            JobStep::Setup(i) => if i + 1 < 3 {
                (JobStep::Setup((i + 1) as usize), ActionView::Run(self.setup[i + 1]))
            } else {
                (JobStep::Listing(0), ActionView::Run(list_chain_spec(t, chain_name(0))))
            },
            JobStep::Listing(c) => match o {
                Err(e) => (JobStep::Finished, ActionView::Done(Err(e))),
                Ok(text) => match rule_handle_spec(text, self.rule_id) {
                    Some(h) => (
                        JobStep::Deleting(c),
                        ActionView::Run(delete_rule_spec(t, chain_name(c as nat), h as nat)),
                    ),
                    None => if c == 0 {
                        (JobStep::Listing(1), ActionView::Run(list_chain_spec(t, chain_name(1))))
                    } else {
                        self.after_listing()
                    },
                },
            },
            JobStep::Deleting(c) => match o {
                Err(e) => (JobStep::Finished, ActionView::Done(Err(e))),
                Ok(_) => (JobStep::Listing(c), ActionView::Run(list_chain_spec(t, chain_name(c as nat)))),
            },
            JobStep::Adding(i) => match o {
                Err(e) => (JobStep::Finished, ActionView::Done(Err(e))),
                Ok(_) => if i + 1 < self.rules.len() {
                    (JobStep::Adding((i + 1) as usize), ActionView::Run(self.rules[i + 1]))
                } else {
                    (JobStep::Finished, ActionView::Done(Ok(())))
                },
            },
            _ => (JobStep::Finished, ActionView::Done(Ok(()))),
        }
    }
}

pub open spec fn outcome_view(o: Result<String, String>) -> Result<Seq<char>, Seq<char>> {
    match o {
        Ok(s) => Ok(s@),
        Err(e) => Err(e@),
    }
}

fn copy_words(v: &Vec<String>) -> (r: Vec<String>)
    ensures
        string_views(r@) == string_views(v@),
{
    let mut r: Vec<String> = Vec::new();
    let n = v.len();
    let mut i: usize = 0;
    while i < n
        invariant
            n == v@.len(),
            i <= n,
            string_views(r@) == string_views(v@).subrange(0, i as int),
        decreases n - i,
    {
        let w = v[i].clone();
        let ghost before = r@;
        r.push(w);
        assert(r@ == before.push(w));
        assert(w@ == v@[i as int]@);
        assert(string_views(r@) =~= string_views(before).push(w@));
        assert(string_views(v@).subrange(0, i + 1) =~= string_views(v@).subrange(0, i as int).push(v@[i as int]@));
        i = i + 1;
        assert(string_views(r@) =~= string_views(v@).subrange(0, i as int));
    }
    assert(string_views(v@).subrange(0, n as int) =~= string_views(v@));
    r
}

fn list_chain_command(t: &String, c: usize) -> (r: Vec<String>)
    requires
        c < 2,
    ensures
        string_views(r@) == list_chain_spec(t@, chain_name(c as nat)),
{
    let chain = if c == 0 {
        owned("prerouting")
    } else {
        owned("postrouting")
    };
    let r = vec![owned("-a"), owned("list"), owned("chain"), owned("ip"), t.clone(), chain];
    assert(string_views(r@) =~= list_chain_spec(t@, chain_name(c as nat)));
    r
}

fn delete_rule_command(t: &String, c: usize, handle: u64) -> (r: Vec<String>)
    requires
        c < 2,
    ensures
        string_views(r@) == delete_rule_spec(t@, chain_name(c as nat), handle as nat),
{
    let chain = if c == 0 {
        owned("prerouting")
    } else {
        owned("postrouting")
    };
    let r = vec![
        owned("delete"), owned("rule"), owned("ip"), t.clone(), chain, owned("handle"),
        decimal(handle),
    ];
    assert(string_views(r@) =~= delete_rule_spec(t@, chain_name(c as nat), handle as nat));
    r
}

impl NftJob {
    pub closed spec fn wf(&self) -> bool {
        &&& self@.wf()
        &&& self.setup@.len() == 3
        &&& self.rules@.len() == self@.rules.len()
    }

    /// Takes the next step after the outcome of the last action.
    pub fn step(&mut self, outcome: Result<String, String>) -> (r: NftAction)
        requires
            old(self).wf(),
        ensures
            final(self).wf(),
            final(self)@ == old(self)@.with_step(old(self)@.next(outcome_view(outcome)).0),
            r@ == old(self)@.next(outcome_view(outcome)).1,
    {
        let ghost o = outcome_view(outcome);
        let ghost before = self@;
        proof {
            assert(self@.setup == commands_view(self.setup@));
        }
        match self.step {
            JobStep::BackingUp => match outcome {
                Err(e) => {
                    self.step = JobStep::Finished;
                    NftAction::Done(Err(e))
                },
                Ok(_) => {
                    self.step = JobStep::Setup(0);
                    NftAction::Run(copy_words(&self.setup[0]))
                },
            },
            JobStep::Setup(i) => {
                if i + 1 < 3 {
                    self.step = JobStep::Setup(i + 1);
                    NftAction::Run(copy_words(&self.setup[i + 1]))
                } else {
                    self.step = JobStep::Listing(0);
                    NftAction::Run(list_chain_command(&self.table, 0))
                }
            },
            JobStep::Listing(c) => match outcome {
                Err(e) => {
                    self.step = JobStep::Finished;
                    NftAction::Done(Err(e))
                },
                Ok(text) => match Nftables::rule_handle(text.as_str(), self.rule_id.as_str()) {
                    Some(h) => {
                        self.step = JobStep::Deleting(c);
                        NftAction::Run(delete_rule_command(&self.table, c, h))
                    },
                    None => {
                        if c == 0 {
                            self.step = JobStep::Listing(1);
                            NftAction::Run(list_chain_command(&self.table, 1))
                        } else if self.installs && self.rules.len() > 0 {
                            self.step = JobStep::Adding(0);
                            NftAction::Run(copy_words(&self.rules[0]))
                        } else {
                            self.step = JobStep::Finished;
                            NftAction::Done(Ok(()))
                        }
                    },
                },
            },
            JobStep::Deleting(c) => match outcome {
                Err(e) => {
                    self.step = JobStep::Finished;
                    NftAction::Done(Err(e))
                },
                Ok(_) => {
                    self.step = JobStep::Listing(c);
                    NftAction::Run(list_chain_command(&self.table, c))
                },
            },
            JobStep::Adding(i) => match outcome {
                Err(e) => {
                    self.step = JobStep::Finished;
                    NftAction::Done(Err(e))
                },
                Ok(_) => {
                    let len = self.rules.len();
                    assert(i < len);
                    if i + 1 < len {
                        self.step = JobStep::Adding(i + 1);
                        NftAction::Run(copy_words(&self.rules[i + 1]))
                    } else {
                        self.step = JobStep::Finished;
                        NftAction::Done(Ok(()))
                    }
                },
            },
            _ => {
                self.step = JobStep::Finished;
                NftAction::Done(Ok(()))
            },
        }
    }
}


/// Every command that installs a forward adds to the chains of its table and
/// carries the forward's rule id as its comment.
pub proof fn lemma_rules_for(t: Seq<char>, pf: PortForwardView, protos: Seq<Seq<char>>)
    ensures
        rules_for(t, pf, protos).len() == 2 * protos.len(),
        forall|k: int| 0 <= k < rules_for(t, pf, protos).len() ==> managed_command(#[trigger] rules_for(t, pf, protos)[k], t),
        forall|k: int| 0 <= k < rules_for(t, pf, protos).len() ==> tagged_command(#[trigger] rules_for(t, pf, protos)[k], pf.rule_id),
    decreases protos.len(),
{
    if protos.len() > 0 {
        lemma_rules_for(t, pf, protos.drop_last());
        let prev = rules_for(t, pf, protos.drop_last());
        let all = rules_for(t, pf, protos);
        assert forall|k: int| 0 <= k < all.len() implies managed_command(#[trigger] all[k], t) && tagged_command(all[k], pf.rule_id) by {
            if k < prev.len() {
                assert(all[k] == prev[k]);
            }
        }
    }
}

/// Every `nft` command a procedure runs works inside the agent's own table:
/// it adds to, deletes from or lists that table, so no other table is
/// touched and nothing is flushed; and each step leaves the procedure well
/// formed.
pub proof fn law_job_stays_in_table(job: JobView, o: Result<Seq<char>, Seq<char>>)
    requires
        job.wf(),
    ensures
        job.with_step(job.next(o).0).wf(),
        job.next(o).1 matches ActionView::Run(c) ==> managed_command(c, job.table),
{
    let t = job.table;
    assert(managed_command(setup_commands_spec(t)[0], t));
    assert(managed_command(setup_commands_spec(t)[1], t));
    assert(managed_command(setup_commands_spec(t)[2], t));
    assert(managed_command(list_chain_spec(t, chain_name(0)), t));
    assert(managed_command(list_chain_spec(t, chain_name(1)), t));
    assert forall|c: nat, h: nat| managed_command(#[trigger] delete_rule_spec(t, chain_name(c), h), t) by {}
    match job.step {
        JobStep::Adding(i) => {
            if i + 1 < job.rules.len() {
                assert(managed_command(job.rules[i + 1], t));
            }
        },
        JobStep::Listing(c) => {
            if job.installs && job.rules.len() > 0 {
                assert(managed_command(job.rules[0], t));
            }
        },
        _ => {},
    }
}

/// A rule is deleted only by the handle of a listed line that carries the
/// rule's tag: the handle found in a listing is the one on such a line.
pub proof fn law_deleted_handle_is_tagged(listing: Seq<char>, rule_id: Seq<char>)
    ensures
        rule_handle_spec(listing, rule_id) matches Some(h) ==> exists|i: int|
            0 <= i < lines_spec(listing).len() && contains_spec(#[trigger] lines_spec(listing)[i], rule_tag(rule_id))
                && handle_in_line(lines_spec(listing)[i], rule_id) == Some(h),
{
    lemma_handle_in_lines_tagged(lines_spec(listing), rule_id);
}

proof fn lemma_handle_in_lines_tagged(ls: Seq<Seq<char>>, rule_id: Seq<char>)
    ensures
        handle_in_lines(ls, rule_id) matches Some(h) ==> exists|i: int|
            0 <= i < ls.len() && contains_spec(#[trigger] ls[i], rule_tag(rule_id)) && handle_in_line(ls[i], rule_id)
                == Some(h),
    decreases ls.len(),
{
    if ls.len() > 0 {
        match handle_in_line(ls[0], rule_id) {
            Some(h) => {
                assert(contains_spec(ls[0], rule_tag(rule_id)));
            },
            None => {
                lemma_handle_in_lines_tagged(ls.drop_first(), rule_id);
                if let Some(h) = handle_in_lines(ls.drop_first(), rule_id) {
                    let i = choose|i: int|
                        0 <= i < ls.drop_first().len() && contains_spec(#[trigger] ls.drop_first()[i], rule_tag(rule_id))
                            && handle_in_line(ls.drop_first()[i], rule_id) == Some(h);
                    assert(ls[i + 1] == ls.drop_first()[i]);
                }
            },
        }
    }
}

/// The actions a procedure takes, from where it stands, on a series of
/// outcomes of its actions.
pub open spec fn run_actions(job: JobView, outcomes: Seq<Result<Seq<char>, Seq<char>>>) -> Seq<ActionView>
    decreases outcomes.len(),
{
    if outcomes.len() == 0 {
        seq![]
    } else {
        let (s, a) = job.next(outcomes[0]);
        seq![a] + run_actions(job.with_step(s), outcomes.drop_first())
    }
}

proof fn lemma_adding_runs_rest(job: JobView, i: usize, outcomes: Seq<Result<Seq<char>, Seq<char>>>)
    requires
        job.step == JobStep::Adding(i),
        i < job.rules.len(),
        job.rules.len() <= usize::MAX,
        outcomes.len() == job.rules.len() - i,
        forall|k: int| 0 <= k < outcomes.len() ==> (#[trigger] outcomes[k]) is Ok,
    ensures
        run_actions(job, outcomes) == job.rules.subrange(i + 1, job.rules.len() as int).map_values(
            |c: Seq<Seq<char>>| ActionView::Run(c),
        ) + seq![ActionView::Done(Ok(()))],
    decreases job.rules.len() - i,
{
    let n = job.rules.len();
    assert(outcomes[0] is Ok);
    let rest = outcomes.drop_first();
    let (s, a) = job.next(outcomes[0]);
    assert(run_actions(job, outcomes) == seq![a] + run_actions(job.with_step(s), rest));
    if i + 1 < n {
        let i1 = (i + 1) as usize;
        assert(s == JobStep::Adding(i1));
        assert(a == ActionView::Run(job.rules[i1 as int]));
        let next_job = job.with_step(JobStep::Adding(i1));
        assert forall|k: int| 0 <= k < rest.len() implies (#[trigger] rest[k]) is Ok by {
            assert(rest[k] == outcomes[k + 1]);
        }
        lemma_adding_runs_rest(next_job, i1, rest);
        assert(job.rules.subrange(i + 1, n as int).map_values(|c: Seq<Seq<char>>| ActionView::Run(c)) =~= seq![
            ActionView::Run(job.rules[i1 as int]),
        ] + job.rules.subrange(i1 + 1, n as int).map_values(|c: Seq<Seq<char>>| ActionView::Run(c)));
    } else {
        assert(a == ActionView::Done(Ok(())));
        assert(rest.len() == 0);
        assert(run_actions(job.with_step(s), rest) == Seq::<ActionView>::empty());
        assert(job.rules.subrange(i + 1, n as int).map_values(|c: Seq<Seq<char>>| ActionView::Run(c)) =~= Seq::<
            ActionView,
        >::empty());
    }
}

/// An apply that meets no failure and finds no earlier rule with its id
/// runs, after its backup, exactly the commands its plan lists (the setup of
/// the table and chains, then the forward's rules, in that order), with only
/// the two chain listings between them, and ends in success.
pub proof fn law_apply_runs_the_plan(job: JobView, outcomes: Seq<Result<Seq<char>, Seq<char>>>)
    requires
        job.wf(),
        job.installs,
        job.step == JobStep::BackingUp,
        job.rules.len() > 0,
        job.rules.len() <= usize::MAX,
        outcomes.len() == job.rules.len() + 6,
        forall|k: int| 0 <= k < outcomes.len() ==> (#[trigger] outcomes[k]) is Ok,
        rule_handle_spec(outcomes[4]->Ok_0, job.rule_id) is None,
        rule_handle_spec(outcomes[5]->Ok_0, job.rule_id) is None,
    ensures
        run_actions(job, outcomes) == (job.setup + seq![
            list_chain_spec(job.table, "prerouting"@),
            list_chain_spec(job.table, "postrouting"@),
        ] + job.rules).map_values(|c: Seq<Seq<char>>| ActionView::Run(c)) + seq![ActionView::Done(Ok(()))],
{
    let t = job.table;
    let n = job.rules.len();
    let l0 = list_chain_spec(t, chain_name(0));
    let l1 = list_chain_spec(t, chain_name(1));
    let o1 = outcomes.drop_first();
    let o2 = o1.drop_first();
    let o3 = o2.drop_first();
    let o4 = o3.drop_first();
    let o5 = o4.drop_first();
    let o6 = o5.drop_first();
    assert(outcomes[0] is Ok);
    assert(o1[0] == outcomes[1] && o2[0] == outcomes[2] && o3[0] == outcomes[3]);
    assert(o4[0] == outcomes[4] && o5[0] == outcomes[5]);
    let j1 = job.with_step(JobStep::Setup(0));
    let j2 = job.with_step(JobStep::Setup(1));
    let j3 = job.with_step(JobStep::Setup(2));
    let j4 = job.with_step(JobStep::Listing(0));
    let j5 = job.with_step(JobStep::Listing(1));
    let j6 = job.with_step(JobStep::Adding(0));
    assert(job.next(outcomes[0]) == (JobStep::Setup(0), ActionView::Run(job.setup[0])));
    assert(j1.next(o1[0]) == (JobStep::Setup(1), ActionView::Run(job.setup[1])));
    assert(j2.next(o2[0]) == (JobStep::Setup(2), ActionView::Run(job.setup[2])));
    assert(j3.next(o3[0]) == (JobStep::Listing(0), ActionView::Run(l0)));
    assert(j4.next(o4[0]) == (JobStep::Listing(1), ActionView::Run(l1)));
    assert(j5.next(o5[0]) == (JobStep::Adding(0), ActionView::Run(job.rules[0])));
    assert forall|k: int| 0 <= k < o6.len() implies (#[trigger] o6[k]) is Ok by {
        assert(o6[k] == outcomes[k + 6]);
    }
    lemma_adding_runs_rest(j6, 0, o6);
    let tail = job.rules.subrange(1, n as int).map_values(|c: Seq<Seq<char>>| ActionView::Run(c)) + seq![
        ActionView::Done(Ok(())),
    ];
    assert(run_actions(j6, o6) == tail);
    assert(run_actions(j5, o5) == seq![ActionView::Run(job.rules[0])] + tail);
    assert(run_actions(j4, o4) == seq![ActionView::Run(l1), ActionView::Run(job.rules[0])] + tail);
    assert(run_actions(j3, o3) == seq![ActionView::Run(l0)] + seq![ActionView::Run(l1), ActionView::Run(job.rules[0])]
        + tail);
    assert(run_actions(j2, o2) == seq![ActionView::Run(job.setup[2])] + (seq![ActionView::Run(l0)] + seq![
        ActionView::Run(l1),
        ActionView::Run(job.rules[0]),
    ] + tail));
    assert(run_actions(j1, o1) == seq![ActionView::Run(job.setup[1])] + (seq![ActionView::Run(job.setup[2])] + (seq![
        ActionView::Run(l0),
    ] + seq![ActionView::Run(l1), ActionView::Run(job.rules[0])] + tail)));
    assert(run_actions(job, outcomes) == seq![ActionView::Run(job.setup[0])] + (seq![ActionView::Run(job.setup[1])]
        + (seq![ActionView::Run(job.setup[2])] + (seq![ActionView::Run(l0)] + seq![
        ActionView::Run(l1),
        ActionView::Run(job.rules[0]),
    ] + tail))));
    assert(job.setup.len() == 3);
    assert(run_actions(job, outcomes) =~= (job.setup + seq![l0, l1] + job.rules).map_values(
        |c: Seq<Seq<char>>| ActionView::Run(c),
    ) + seq![ActionView::Done(Ok(()))]);
}

/// A delete never adds anything: from the listing of a chain on, every
/// command it runs lists the table's chains or deletes one of their rules.
pub proof fn law_delete_only_lists_and_deletes(job: JobView, o: Result<Seq<char>, Seq<char>>)
    requires
        job.wf(),
        !job.installs,
        job.step matches JobStep::Listing(_) || job.step matches JobStep::Deleting(_) || job.step == JobStep::Finished,
    ensures
        job.next(o).0 matches JobStep::Listing(_) || job.next(o).0 matches JobStep::Deleting(_) || job.next(o).0
            == JobStep::Finished,
        job.next(o).1 matches ActionView::Run(c) ==> (c[0] == "-a"@ && c[1] == "list"@) || (c[0] == "delete"@ && c[1]
            == "rule"@),
{
}

/// A delete ends in success only once the listing of the second chain shows
/// no rule tagged with the rule id; a listing that shows one leads to that
/// rule's deletion and a new listing of the same chain.
pub proof fn law_delete_ends_on_clean_listing(job: JobView, o: Result<Seq<char>, Seq<char>>)
    requires
        job.wf(),
        !job.installs,
        job.step matches JobStep::Listing(_),
    ensures
        job.next(o).1 == ActionView::Done(Ok(())) ==> job.step == JobStep::Listing(1) && o is Ok
            && rule_handle_spec(o->Ok_0, job.rule_id) is None,
        (o is Ok && rule_handle_spec(o->Ok_0, job.rule_id) matches Some(h)) ==> job.next(o).0 == JobStep::Deleting(
            job.step->Listing_0,
        ),
{
}

/// An apply adds its rules only after the listing of the second chain shows
/// no rule tagged with its rule id: every earlier rule of the forward has
/// been deleted from both chains by then.
pub proof fn law_rules_added_after_clean_listing(job: JobView, o: Result<Seq<char>, Seq<char>>)
    requires
        job.wf(),
        job.step matches JobStep::Listing(_),
    ensures
        job.next(o).0 == JobStep::Adding(0) ==> job.step == JobStep::Listing(1) && o is Ok && rule_handle_spec(
            o->Ok_0,
            job.rule_id,
        ) is None && job.installs,
{
}

/// A failed backup, chain listing, rule deletion or rule command stops the
/// procedure at once with that error: nothing more is run and the procedure
/// does not report success.
pub proof fn law_failure_stops_the_job(job: JobView, e: Seq<char>)
    requires
        job.wf(),
        job.step == JobStep::BackingUp || job.step matches JobStep::Listing(_) || job.step matches JobStep::Deleting(_)
            || job.step matches JobStep::Adding(_),
    ensures
        job.next(Err(e)) == (JobStep::Finished, ActionView::Done(Err(e))),
{
}

/// Once the forward's rules are being added, the procedure ends in success
/// only if every rule command it ran succeeded: where its first `Done`
/// action is `Done(Ok(()))`, every outcome up to that point was `Ok`.
pub proof fn law_apply_succeeds_only_if_rules_added(
    job: JobView,
    outcomes: Seq<Result<Seq<char>, Seq<char>>>,
    k: int,
)
    requires
        job.wf(),
        job.step matches JobStep::Adding(_),
        0 <= k < outcomes.len(),
        forall|j: int| 0 <= j < k ==> (#[trigger] run_actions(job, outcomes)[j]) is Run,
        run_actions(job, outcomes)[k] == ActionView::Done(Ok(())),
    ensures
        forall|j: int| 0 <= j <= k ==> (#[trigger] outcomes[j]) is Ok,
    decreases k,
{
    let (s, a) = job.next(outcomes[0]);
    let rest = outcomes.drop_first();
    lemma_run_actions_len(job.with_step(s), rest);
    assert(run_actions(job, outcomes) == seq![a] + run_actions(job.with_step(s), rest));
    if outcomes[0] is Err {
        assert(a == ActionView::Done(Err(outcomes[0]->Err_0)));
        assert(run_actions(job, outcomes)[0] == a);
    } else if k > 0 {
        let i = job.step->Adding_0;
        if i + 1 < job.rules.len() {
            assert(run_actions(job.with_step(s), rest)[k - 1] == ActionView::Done(Ok(())));
            assert forall|j: int| 0 <= j < k - 1 implies (#[trigger] run_actions(job.with_step(s), rest)[j]) is Run by {
                assert(run_actions(job.with_step(s), rest)[j] == run_actions(job, outcomes)[j + 1]);
            }
            law_apply_succeeds_only_if_rules_added(job.with_step(s), rest, k - 1);
            assert forall|j: int| 0 <= j <= k implies (#[trigger] outcomes[j]) is Ok by {
                if j > 0 {
                    assert(outcomes[j] == rest[j - 1]);
                }
            }
        } else {
            assert(run_actions(job, outcomes)[0] == ActionView::Done(Ok(())));
        }
    }
}

proof fn lemma_run_actions_len(job: JobView, outcomes: Seq<Result<Seq<char>, Seq<char>>>)
    ensures
        run_actions(job, outcomes).len() == outcomes.len(),
    decreases outcomes.len(),
{
    if outcomes.len() > 0 {
        let (s, a) = job.next(outcomes[0]);
        lemma_run_actions_len(job.with_step(s), outcomes.drop_first());
    }
}

/// The lines of a plan show the commands an apply of the same forward
/// installs: the setup of the table and chains, then the forward's rules.
pub proof fn law_plan_shows_apply(table: Seq<char>, pf: PortForwardView, job: JobView, changes: Seq<Seq<char>>)
    requires
        job.wf(),
        job.table == table,
        job.rules == rule_commands_spec(table, pf),
        changes == (setup_commands_spec(table) + rule_commands_spec(table, pf)).map_values(
            |c: Seq<Seq<char>>| plan_line(c),
        ),
    ensures
        changes == (job.setup + job.rules).map_values(|c: Seq<Seq<char>>| plan_line(c)),
        changes.len() == job.setup.len() + job.rules.len(),
{
}

/// The commands that install a forward come in pairs, one pair per protocol
/// in order: command `2i` is the destination-NAT rule in `prerouting` and
/// command `2i + 1` the masquerade rule in `postrouting` for protocol `i`.
/// Every command adds a rule to the table and ends with the rule id as its
/// comment.
pub proof fn law_rule_commands_per_protocol(t: Seq<char>, pf: PortForwardView)
    ensures
        rule_commands_spec(t, pf).len() == 2 * protocols_spec(pf.protocol).len(),
        forall|i: int| 0 <= i < protocols_spec(pf.protocol).len() ==> #[trigger] rule_commands_spec(t, pf)[2 * i]
            == dnat_command_spec(t, pf, protocols_spec(pf.protocol)[i]) && rule_commands_spec(t, pf)[2 * i + 1]
            == masquerade_command_spec(t, pf, protocols_spec(pf.protocol)[i]),
        forall|j: int| 0 <= j < rule_commands_spec(t, pf).len() ==> (#[trigger] rule_commands_spec(t, pf)[j]).subrange(0, 4)
            == seq!["add"@, "rule"@, "ip"@, t] && tagged_command(rule_commands_spec(t, pf)[j], pf.rule_id),
{
    lemma_rules_for_pairs(t, pf, protocols_spec(pf.protocol));
    lemma_rules_for(t, pf, protocols_spec(pf.protocol));
}

proof fn lemma_rules_for_pairs(t: Seq<char>, pf: PortForwardView, protos: Seq<Seq<char>>)
    ensures
        rules_for(t, pf, protos).len() == 2 * protos.len(),
        forall|i: int| 0 <= i < protos.len() ==> #[trigger] rules_for(t, pf, protos)[2 * i] == dnat_command_spec(
            t,
            pf,
            protos[i],
        ) && rules_for(t, pf, protos)[2 * i + 1] == masquerade_command_spec(t, pf, protos[i]),
        forall|j: int| 0 <= j < rules_for(t, pf, protos).len() ==> (#[trigger] rules_for(t, pf, protos)[j]).subrange(0, 4)
            == seq!["add"@, "rule"@, "ip"@, t],
    decreases protos.len(),
{
    if protos.len() > 0 {
        let prev_p = protos.drop_last();
        lemma_rules_for_pairs(t, pf, prev_p);
        let prev = rules_for(t, pf, prev_p);
        let all = rules_for(t, pf, protos);
        let d = dnat_command_spec(t, pf, protos.last());
        let m = masquerade_command_spec(t, pf, protos.last());
        assert(all == prev + seq![d, m]);
        assert forall|i: int| 0 <= i < protos.len() implies #[trigger] all[2 * i] == dnat_command_spec(t, pf, protos[i])
            && all[2 * i + 1] == masquerade_command_spec(t, pf, protos[i]) by {
            if i < prev_p.len() {
                assert(prev_p[i] == protos[i]);
                assert(prev[2 * i] == dnat_command_spec(t, pf, prev_p[i]));
                assert(all[2 * i] == prev[2 * i]);
                assert(all[2 * i + 1] == prev[2 * i + 1]);
            } else {
                assert(i == prev_p.len());
                assert(all[2 * i] == d);
                assert(all[2 * i + 1] == m);
            }
        }
        assert(d.subrange(0, 4) =~= seq!["add"@, "rule"@, "ip"@, t]);
        assert(m.subrange(0, 4) =~= seq!["add"@, "rule"@, "ip"@, t]);
        assert forall|j: int| 0 <= j < all.len() implies (#[trigger] all[j]).subrange(0, 4) == seq!["add"@, "rule"@, "ip"@, t] by {
            if j < prev.len() {
                assert(all[j] == prev[j]);
            }
        }
    }
}

impl Nftables {
    /// Starts applying a forward. A dry run ends at once; otherwise the
    /// ruleset is backed up first when so configured, then the table and its
    /// chains are set up, every rule tagged with the rule id is deleted from
    /// both chains, and the forward's rules are added.
    pub fn apply_job(&self, pf: &PortForward) -> (r: (NftJob, NftAction))
        ensures
            r.0.wf(),
            r.0@.table == self@.table,
            r.0@.rule_id == pf@.rule_id,
            r.0@.rules == rule_commands_spec(self@.table, pf@),
            r.0@.installs,
            self@.dry_run ==> r.0@.step == JobStep::Finished && r.1@ == ActionView::Done(Ok(())),
            !self@.dry_run && self@.backup_before_apply ==> r.0@.step == JobStep::BackingUp && r.1@ == ActionView::Backup,
            !self@.dry_run && !self@.backup_before_apply ==> r.0@.step == JobStep::Setup(0) && r.1@ == ActionView::Run(
                setup_commands_spec(self@.table)[0],
            ),
    {
        let setup = self.setup_commands();
        let rules = self.rule_commands(pf);
        proof {
            lemma_rules_for(self@.table, pf@, protocols_spec(pf@.protocol));
            assert(commands_view(setup@).len() == setup@.len());
            assert(commands_view(rules@).len() == rules@.len());
        }
        let (step, action) = if self.dry_run {
            (JobStep::Finished, NftAction::Done(Ok(())))
        } else if self.backup_before_apply {
            (JobStep::BackingUp, NftAction::Backup)
        } else {
            (JobStep::Setup(0), NftAction::Run(copy_words(&setup[0])))
        };
        let job = NftJob {
            table: self.table.clone(),
            rule_id: pf.rule_id.clone(),
            setup,
            rules,
            installs: true,
            step,
        };
        proof {
            assert(commands_view(job.rules@) == rule_commands_spec(self@.table, pf@));
            assert(job@.setup == setup_commands_spec(job@.table));
            assert(job@.wf());
        }
        (job, action)
    }

    /// Starts deleting the rules tagged with a rule id from both chains; a dry
    /// run ends at once.
    pub fn delete_job(&self, rule_id: &str) -> (r: (NftJob, NftAction))
        ensures
            r.0.wf(),
            r.0@.table == self@.table,
            r.0@.rule_id == rule_id@,
            r.0@.rules.len() == 0,
            !r.0@.installs,
            self@.dry_run ==> r.0@.step == JobStep::Finished && r.1@ == ActionView::Done(Ok(())),
            !self@.dry_run ==> r.0@.step == JobStep::Listing(0) && r.1@ == ActionView::Run(
                list_chain_spec(self@.table, chain_name(0)),
            ),
    {
        let setup = self.setup_commands();
        assert(commands_view(setup@).len() == setup@.len());
        let (step, action) = if self.dry_run {
            (JobStep::Finished, NftAction::Done(Ok(())))
        } else {
            (JobStep::Listing(0), NftAction::Run(list_chain_command(&self.table, 0)))
        };
        let job = NftJob {
            table: self.table.clone(),
            rule_id: owned(rule_id),
            setup,
            rules: Vec::new(),
            installs: false,
            step,
        };
        assert(commands_view(job.rules@) =~= Seq::<Seq<Seq<char>>>::empty());
        (job, action)
    }

    /// The arguments of the `nft` run that restores a ruleset file; none in a
    /// dry run, which restores nothing.
    pub fn restore_command(&self, path: &str) -> (r: Option<Vec<String>>)
        ensures
            self@.dry_run ==> r is None,
            !self@.dry_run ==> r is Some && string_views(r->0@) == seq!["-f"@, path@],
    {
        if self.dry_run {
            None
        } else {
            let r = vec![owned("-f"), owned(path)];
            assert(string_views(r@) =~= seq!["-f"@, path@]);
            Some(r)
        }
    }
}

/// The arguments of the `nft` run that prints the whole ruleset for a backup.
pub fn backup_command() -> (r: Vec<String>)
    ensures
        string_views(r@) == seq!["list"@, "ruleset"@],
{
    let r = vec![owned("list"), owned("ruleset")];
    assert(string_views(r@) =~= seq!["list"@, "ruleset"@]);
    r
}

/// The file a backup taken at `stamp` (seconds since the epoch) is written to.
pub open spec fn backup_file_spec(data_dir: Seq<char>, stamp: nat) -> Seq<char> {
    data_dir + "/backups"@ + "/ruleset-"@ + decimal_spec(stamp) + ".nft"@
}

/// The directory backups are written to.
pub fn backup_dir(data_dir: &str) -> (r: String)
    ensures
        r@ == data_dir@ + "/backups"@,
{
    let mut r = owned(data_dir);
    r.append("/backups");
    r
}

pub fn backup_file(data_dir: &str, stamp: u64) -> (r: String)
    ensures
        r@ == backup_file_spec(data_dir@, stamp as nat),
{
    let mut r = backup_dir(data_dir);
    r.append("/ruleset-");
    let d = decimal(stamp);
    r.append(d.as_str());
    r.append(".nft");
    r
}

/// The firewall operations of the agent, each a computation whose outside
/// work the caller performs.
pub trait FirewallProvider {
    fn plan_with(&self, pf: &PortForward, ip_forward_enabled: bool, nft_present: bool) -> Plan;

    fn apply_job(&self, pf: &PortForward) -> (NftJob, NftAction);

    fn delete_job(&self, rule_id: &str) -> (NftJob, NftAction);

    fn restore_command(&self, path: &str) -> Option<Vec<String>>;
}

impl FirewallProvider for Nftables {
    fn plan_with(&self, pf: &PortForward, ip_forward_enabled: bool, nft_present: bool) -> (r: Plan)
        ensures
            string_views(r.changes@) == (setup_commands_spec(self@.table) + rule_commands_spec(
                self@.table,
                pf@,
            )).map_values(|c: Seq<Seq<char>>| plan_line(c)),
            string_views(r.warnings@) == plan_warnings(ip_forward_enabled, nft_present),
    {
        Nftables::plan_with(self, pf, ip_forward_enabled, nft_present)
    }

    fn apply_job(&self, pf: &PortForward) -> (r: (NftJob, NftAction))
        ensures
            r.0.wf(),
            r.0@.table == self@.table,
            r.0@.rule_id == pf@.rule_id,
            r.0@.rules == rule_commands_spec(self@.table, pf@),
            r.0@.installs,
            self@.dry_run ==> r.0@.step == JobStep::Finished && r.1@ == ActionView::Done(Ok(())),
            !self@.dry_run && self@.backup_before_apply ==> r.0@.step == JobStep::BackingUp && r.1@ == ActionView::Backup,
            !self@.dry_run && !self@.backup_before_apply ==> r.0@.step == JobStep::Setup(0) && r.1@ == ActionView::Run(
                setup_commands_spec(self@.table)[0],
            ),
    {
        Nftables::apply_job(self, pf)
    }

    fn delete_job(&self, rule_id: &str) -> (r: (NftJob, NftAction))
        ensures
            r.0.wf(),
            r.0@.table == self@.table,
            r.0@.rule_id == rule_id@,
            r.0@.rules.len() == 0,
            !r.0@.installs,
            self@.dry_run ==> r.0@.step == JobStep::Finished && r.1@ == ActionView::Done(Ok(())),
            !self@.dry_run ==> r.0@.step == JobStep::Listing(0) && r.1@ == ActionView::Run(
                list_chain_spec(self@.table, chain_name(0)),
            ),
    {
        Nftables::delete_job(self, rule_id)
    }

    fn restore_command(&self, path: &str) -> (r: Option<Vec<String>>)
        ensures
            self@.dry_run ==> r is None,
            !self@.dry_run ==> r is Some && string_views(r->0@) == seq!["-f"@, path@],
    {
        Nftables::restore_command(self, path)
    }
}

/// The provider the configuration selects: nftables on its table, with its
/// dry-run and backup settings.
pub fn provider_for(config: &crate::config::AgentConfig) -> (r: Nftables)
    ensures
        r@ == (NftablesView {
            table: config.firewall.table_name@,
            dry_run: config.firewall.dry_run,
            backup_before_apply: config.firewall.backup_before_apply,
        }),
{
    Nftables::new(
        config.firewall.table_name.clone(),
        config.firewall.dry_run,
        config.firewall.backup_before_apply,
    )
}

} // verus!
