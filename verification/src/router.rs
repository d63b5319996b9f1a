//! Routing of the backend's requests: what each request asks the agent to
//! do, the answers given at once, and the responses built from what the
//! work produced.

use vstd::prelude::*;
use crate::config::{AgentConfig, opt_chars};
use crate::coredns::{ZoneUpdate, ZoneUpdateView};
use crate::firewall::{Plan, PortForward, PortForwardView, port_forward_spec};
use crate::json::{
    JsonValue, JsonView, array, field, fields_view, get_str, get_str_or, get_string, get_string_list,
    get_string_or, get_strings, get_u64, items_view, jstr, object, string_array, string_views,
};
use crate::msg;
use crate::protocol::{RequestView, ResponseView, RpcRequest, RpcResponse, error_view, ok_view};
use crate::store::Store;
use crate::text::{concat2, owned, str_eq};

verus! {

/// What `format!("{:?}", s)` writes for a string: the string in double
/// quotes, with its special characters escaped.
pub uninterp spec fn debug_str(s: Seq<char>) -> Seq<char>;

/// Characters that `Debug` of a string writes as they are: printable ASCII
/// other than the double quote and the backslash.
pub open spec fn debug_plain(c: char) -> bool {
    ' ' <= c && c <= '~' && c != '"' && c != '\\'
}

/// `format!("{:?}", s)` of std. Claimed: the result is what [`debug_str`]
/// names, and a string of characters that need no escape comes out between
/// double quotes, unchanged (std documents that `Debug` of a `str` quotes it
/// and escapes only quotes, backslashes and characters that are not
/// printable).
#[verifier::external_body]
fn debug_quote(s: &str) -> (r: String)
    ensures
        r@ == debug_str(s@),
        (forall|i: int| 0 <= i < s@.len() ==> debug_plain(#[trigger] s@[i])) ==> r@ == seq!['"'] + s@ + seq!['"'],
{
    format!("{:?}", s)
}

/// The data directory's state file: `{data_dir}/state.json`.
pub open spec fn state_path_spec(data_dir: Seq<char>) -> Seq<char> {
    data_dir + "/state.json"@
}

pub fn state_path(config: &AgentConfig) -> (r: String)
    ensures
        r@ == state_path_spec(config.agent.data_dir@),
{
    concat2(config.agent.data_dir.as_str(), "/state.json")
}

/// What a request asks the agent to do.
#[derive(Debug, PartialEq)]
pub enum Route {
    /// Nothing to do: this is the response.
    Reply(RpcResponse),
    NodeInfo { node_id: String, node_name: String },
    DetectInterfaces,
    Telemetry,
    FirewallPlan(PortForward),
    FirewallApply { forward: PortForward, payload: JsonValue },
    FirewallDelete(String),
    FirewallBackup,
    FirewallRestore(String),
    DockerDetect,
    ComposeDetect,
    LogsTail(u64),
    DiscoveryScan(Vec<String>),
    TailscaleStatus,
    BackupCreate { scope: String, paths: Vec<String> },
    BackupRestore { scope: String, remote_path: String, paths: Vec<String> },
    DhcpPlan { backend: String, config: String },
    DhcpApply { backend: String, config_path: String, config: String },
    HaproxyValidate(String),
    HaproxyApply { config_path: String, config: String },
    CertIssue,
    CertRenew,
    DnsPlan(String),
    DnsApply(ZoneUpdate),
    ConntrackList(u64),
}

pub enum RouteView {
    Reply(ResponseView),
    NodeInfo { node_id: Seq<char>, node_name: Seq<char> },
    DetectInterfaces,
    Telemetry,
    FirewallPlan(PortForwardView),
    FirewallApply { forward: PortForwardView, payload: JsonView },
    FirewallDelete(Seq<char>),
    FirewallBackup,
    FirewallRestore(Seq<char>),
    DockerDetect,
    ComposeDetect,
    LogsTail(nat),
    DiscoveryScan(Seq<Seq<char>>),
    TailscaleStatus,
    BackupCreate { scope: Seq<char>, paths: Seq<Seq<char>> },
    BackupRestore { scope: Seq<char>, remote_path: Seq<char>, paths: Seq<Seq<char>> },
    DhcpPlan { backend: Seq<char>, config: Seq<char> },
    DhcpApply { backend: Seq<char>, config_path: Seq<char>, config: Seq<char> },
    HaproxyValidate(Seq<char>),
    HaproxyApply { config_path: Seq<char>, config: Seq<char> },
    CertIssue,
    CertRenew,
    DnsPlan(Seq<char>),
    DnsApply(ZoneUpdateView),
    ConntrackList(nat),
}

impl View for Route {
    type V = RouteView;

    open spec fn view(&self) -> RouteView {
        match self {
            Route::Reply(r) => RouteView::Reply(r@),
            Route::NodeInfo { node_id, node_name } => RouteView::NodeInfo { node_id: node_id@, node_name: node_name@ },
            Route::DetectInterfaces => RouteView::DetectInterfaces,
            Route::Telemetry => RouteView::Telemetry,
            Route::FirewallPlan(pf) => RouteView::FirewallPlan(pf@),
            Route::FirewallApply { forward, payload } => RouteView::FirewallApply {
                forward: forward@,
                payload: payload@,
            },
            Route::FirewallDelete(id) => RouteView::FirewallDelete(id@),
            Route::FirewallBackup => RouteView::FirewallBackup,
            Route::FirewallRestore(p) => RouteView::FirewallRestore(p@),
            Route::DockerDetect => RouteView::DockerDetect,
            Route::ComposeDetect => RouteView::ComposeDetect,
            Route::LogsTail(n) => RouteView::LogsTail(*n as nat),
            Route::DiscoveryScan(k) => RouteView::DiscoveryScan(string_views(k@)),
            Route::TailscaleStatus => RouteView::TailscaleStatus,
            Route::BackupCreate { scope, paths } => RouteView::BackupCreate {
                scope: scope@,
                paths: string_views(paths@),
            },
            Route::BackupRestore { scope, remote_path, paths } => RouteView::BackupRestore {
                scope: scope@,
                remote_path: remote_path@,
                paths: string_views(paths@),
            },
            Route::DhcpPlan { backend, config } => RouteView::DhcpPlan { backend: backend@, config: config@ },
            Route::DhcpApply { backend, config_path, config } => RouteView::DhcpApply {
                backend: backend@,
                config_path: config_path@,
                config: config@,
            },
            Route::HaproxyValidate(c) => RouteView::HaproxyValidate(c@),
            Route::HaproxyApply { config_path, config } => RouteView::HaproxyApply {
                config_path: config_path@,
                config: config@,
            },
            Route::CertIssue => RouteView::CertIssue,
            Route::CertRenew => RouteView::CertRenew,
            Route::DnsPlan(c) => RouteView::DnsPlan(c@),
            Route::DnsApply(u) => RouteView::DnsApply(u@),
            Route::ConntrackList(n) => RouteView::ConntrackList(*n as nat),
        }
    }
}

/// The payload of the answer to `hello`.
pub open spec fn hello_payload() -> JsonView {
    JsonView::Object(seq![("agentVersion"@, JsonView::Str(crate::system::AGENT_VERSION@))])
}

/// The request types the agent knows.
pub open spec fn known_kind(kind: Seq<char>) -> bool {
    ||| kind == msg::HELLO@
    ||| kind == msg::NODE_INFO@
    ||| kind == msg::DETECT_INTERFACES@
    ||| kind == msg::TELEMETRY_REQUEST@
    ||| kind == msg::FIREWALL_PLAN@
    ||| kind == msg::FIREWALL_APPLY_RULE@
    ||| kind == msg::FIREWALL_DELETE_RULE@
    ||| kind == msg::FIREWALL_BACKUP@
    ||| kind == msg::FIREWALL_RESTORE@
    ||| kind == msg::DOCKER_DETECT@
    ||| kind == msg::COMPOSE_DETECT@
    ||| kind == msg::LOGS_TAIL@
    ||| kind == msg::DISCOVERY_SCAN@
    ||| kind == msg::TAILSCALE_STATUS@
    ||| kind == msg::BACKUP_CREATE@
    ||| kind == msg::BACKUP_RESTORE@
    ||| kind == msg::DHCP_PLAN@
    ||| kind == msg::DHCP_APPLY@
    ||| kind == msg::HAPROXY_VALIDATE@
    ||| kind == msg::HAPROXY_RELOAD@
    ||| kind == msg::CERT_ISSUE@
    ||| kind == msg::CERT_RENEW@
    ||| kind == msg::DNS_PLAN@
    ||| kind == msg::DNS_APPLY@
    ||| kind == msg::CONNTRACK_LIST@
}

/// What a request asks for. Requests that name a forward, a rule, a path or
/// a configuration path are refused when it is missing, and a DNS apply when
/// it names no Corefile path or no zone; a conntrack listing reads at most
/// `limit` lines, 1000 when the request gives none; a request of an unknown
/// type is refused by name.
pub open spec fn dispatch_spec(req: RequestView, node_id: Seq<char>, node_name: Seq<char>) -> RouteView {
    let kind = req.kind;
    let rid = req.request_id;
    let p = req.payload;
    if kind == msg::HELLO@ {
        RouteView::Reply(ok_view(msg::HELLO_RESULT@, rid, hello_payload()))
    } else if kind == msg::NODE_INFO@ {
        RouteView::NodeInfo { node_id, node_name }
    } else if kind == msg::DETECT_INTERFACES@ {
        RouteView::DetectInterfaces
    } else if kind == msg::TELEMETRY_REQUEST@ {
        RouteView::Telemetry
    } else if kind == msg::FIREWALL_PLAN@ {
        match port_forward_spec(p) {
            Ok(pf) => RouteView::FirewallPlan(pf),
            Err(e) => RouteView::Reply(error_view(rid, e)),
        }
    } else if kind == msg::FIREWALL_APPLY_RULE@ {
        match port_forward_spec(p) {
            Ok(pf) => RouteView::FirewallApply { forward: pf, payload: p },
            Err(e) => RouteView::Reply(error_view(rid, e)),
        }
    } else if kind == msg::FIREWALL_DELETE_RULE@ {
        match get_str(p, "ruleId"@) {
            Some(id) => RouteView::FirewallDelete(id),
            None => RouteView::Reply(error_view(rid, "missing ruleId"@)),
        }
    } else if kind == msg::FIREWALL_BACKUP@ {
        RouteView::FirewallBackup
    } else if kind == msg::FIREWALL_RESTORE@ {
        match get_str(p, "path"@) {
            Some(path) => RouteView::FirewallRestore(path),
            None => RouteView::Reply(error_view(rid, "missing path"@)),
        }
    } else if kind == msg::DOCKER_DETECT@ {
        RouteView::DockerDetect
    } else if kind == msg::COMPOSE_DETECT@ {
        RouteView::ComposeDetect
    } else if kind == msg::LOGS_TAIL@ {
        RouteView::LogsTail(
            match get_u64(p, "lines"@) {
                Some(n) => n,
                None => 200,
            },
        )
    } else if kind == msg::DISCOVERY_SCAN@ {
        RouteView::DiscoveryScan(get_strings(p, "kinds"@))
    } else if kind == msg::TAILSCALE_STATUS@ {
        RouteView::TailscaleStatus
    } else if kind == msg::BACKUP_CREATE@ {
        RouteView::BackupCreate { scope: get_str_or(p, "scope"@, "generic"@), paths: get_strings(p, "paths"@) }
    } else if kind == msg::BACKUP_RESTORE@ {
        RouteView::BackupRestore {
            scope: get_str_or(p, "scope"@, "generic"@),
            remote_path: get_str_or(p, "remotePath"@, ""@),
            paths: get_strings(p, "paths"@),
        }
    } else if kind == msg::DHCP_PLAN@ {
        RouteView::DhcpPlan { backend: get_str_or(p, "backend"@, ""@), config: get_str_or(p, "config"@, ""@) }
    } else if kind == msg::DHCP_APPLY@ {
        if get_str_or(p, "configPath"@, ""@).len() == 0 {
            RouteView::Reply(error_view(rid, "missing configPath"@))
        } else {
            RouteView::DhcpApply {
                backend: get_str_or(p, "backend"@, ""@),
                config_path: get_str_or(p, "configPath"@, ""@),
                config: get_str_or(p, "config"@, ""@),
            }
        }
    } else if kind == msg::HAPROXY_VALIDATE@ {
        RouteView::HaproxyValidate(get_str_or(p, "config"@, ""@))
    } else if kind == msg::HAPROXY_RELOAD@ {
        if get_str_or(p, "configPath"@, ""@).len() == 0 {
            RouteView::Reply(error_view(rid, "missing configPath"@))
        } else {
            RouteView::HaproxyApply {
                config_path: get_str_or(p, "configPath"@, ""@),
                config: get_str_or(p, "config"@, ""@),
            }
        }
    } else if kind == msg::CERT_ISSUE@ {
        RouteView::CertIssue
    } else if kind == msg::CERT_RENEW@ {
        RouteView::CertRenew
    } else if kind == msg::DNS_PLAN@ {
        RouteView::DnsPlan(get_str_or(p, "corefile"@, ""@))
    } else if kind == msg::DNS_APPLY@ {
        match crate::coredns::apply_spec(p) {
            Ok(u) => RouteView::DnsApply(u),
            Err(e) => RouteView::Reply(error_view(rid, e)),
        }
    } else if kind == msg::CONNTRACK_LIST@ {
        RouteView::ConntrackList(
            match get_u64(p, "limit"@) {
                Some(n) => n,
                None => 1000,
            },
        )
    } else {
        RouteView::Reply(error_view(rid, "unknown command "@ + debug_str(kind)))
    }
}

fn hello_reply(rid: Option<String>) -> (r: RpcResponse)
    ensures
        r@ == ok_view(msg::HELLO_RESULT@, opt_chars(rid), hello_payload()),
{
    let fs = vec![field("agentVersion", jstr(crate::system::AGENT_VERSION))];
    let p = object(fs);
    assert(fields_view(fs@) =~= seq![("agentVersion"@, JsonView::Str(crate::system::AGENT_VERSION@))]);
    RpcResponse::ok(msg::HELLO_RESULT, rid, p)
}

fn copy_rid(rid: &Option<String>) -> (r: Option<String>)
    ensures
        opt_chars(r) == opt_chars(*rid),
{
    match rid {
        Some(s) => Some(owned(s.as_str())),
        None => None,
    }
}

fn missing_config_path(payload: &JsonValue) -> (r: bool)
    ensures
        r == (get_str_or(payload@, "configPath"@, ""@).len() == 0),
{
    let cp = get_string_or(payload, "configPath", "");
    cp.as_str().is_empty()
}

/// What a request asks the agent to do, for the node of `config`.
pub fn dispatch(req: &RpcRequest, config: &AgentConfig) -> (r: Route)
    ensures
        r@ == dispatch_spec(req@, config.node.id@, config.node.name@),
        !known_kind(req@.kind) && (forall|i: int| 0 <= i < req@.kind.len() ==> debug_plain(#[trigger] req@.kind[i]))
            ==> r@ == RouteView::Reply(
            error_view(req@.request_id, "unknown command "@ + (seq!['"'] + req@.kind + seq!['"'])),
        ),
{
    let rid = copy_rid(&req.request_id);
    let kind = req.kind.as_str();
    let p = &req.payload;
    if str_eq(kind, msg::HELLO) {
        Route::Reply(hello_reply(rid))
    } else if str_eq(kind, msg::NODE_INFO) {
        Route::NodeInfo { node_id: owned(config.node.id.as_str()), node_name: owned(config.node.name.as_str()) }
    } else if str_eq(kind, msg::DETECT_INTERFACES) {
        Route::DetectInterfaces
    } else if str_eq(kind, msg::TELEMETRY_REQUEST) {
        Route::Telemetry
    } else if str_eq(kind, msg::FIREWALL_PLAN) {
        match PortForward::from_payload(p) {
            Ok(pf) => Route::FirewallPlan(pf),
            Err(e) => Route::Reply(RpcResponse::error(rid, e)),
        }
    } else if str_eq(kind, msg::FIREWALL_APPLY_RULE) {
        match PortForward::from_payload(p) {
            Ok(pf) => Route::FirewallApply { forward: pf, payload: p.copy() },
            Err(e) => Route::Reply(RpcResponse::error(rid, e)),
        }
    } else if str_eq(kind, msg::FIREWALL_DELETE_RULE) {
        match get_string(p, "ruleId") {
            Some(id) => Route::FirewallDelete(id),
            None => Route::Reply(RpcResponse::error(rid, owned("missing ruleId"))),
        }
    } else if str_eq(kind, msg::FIREWALL_BACKUP) {
        Route::FirewallBackup
    } else if str_eq(kind, msg::FIREWALL_RESTORE) {
        match get_string(p, "path") {
            Some(path) => Route::FirewallRestore(path),
            None => Route::Reply(RpcResponse::error(rid, owned("missing path"))),
        }
    } else if str_eq(kind, msg::DOCKER_DETECT) {
        Route::DockerDetect
    } else if str_eq(kind, msg::COMPOSE_DETECT) {
        Route::ComposeDetect
    } else if str_eq(kind, msg::LOGS_TAIL) {
        let lines = match crate::json::get_number(p, "lines") {
            Some(n) => n,
            None => 200,
        };
        Route::LogsTail(lines)
    } else if str_eq(kind, msg::DISCOVERY_SCAN) {
        Route::DiscoveryScan(get_string_list(p, "kinds"))
    } else if str_eq(kind, msg::TAILSCALE_STATUS) {
        Route::TailscaleStatus
    } else if str_eq(kind, msg::BACKUP_CREATE) {
        Route::BackupCreate { scope: get_string_or(p, "scope", "generic"), paths: get_string_list(p, "paths") }
    } else if str_eq(kind, msg::BACKUP_RESTORE) {
        Route::BackupRestore {
            scope: get_string_or(p, "scope", "generic"),
            remote_path: get_string_or(p, "remotePath", ""),
            paths: get_string_list(p, "paths"),
        }
    } else if str_eq(kind, msg::DHCP_PLAN) {
        Route::DhcpPlan { backend: get_string_or(p, "backend", ""), config: get_string_or(p, "config", "") }
    } else if str_eq(kind, msg::DHCP_APPLY) {
        if missing_config_path(p) {
            Route::Reply(RpcResponse::error(rid, owned("missing configPath")))
        } else {
            Route::DhcpApply {
                backend: get_string_or(p, "backend", ""),
                config_path: get_string_or(p, "configPath", ""),
                config: get_string_or(p, "config", ""),
            }
        }
    } else if str_eq(kind, msg::HAPROXY_VALIDATE) {
        Route::HaproxyValidate(get_string_or(p, "config", ""))
    } else if str_eq(kind, msg::HAPROXY_RELOAD) {
        if missing_config_path(p) {
            Route::Reply(RpcResponse::error(rid, owned("missing configPath")))
        } else {
            Route::HaproxyApply { config_path: get_string_or(p, "configPath", ""), config: get_string_or(p, "config", "") }
        }
    } else if str_eq(kind, msg::CERT_ISSUE) {
        Route::CertIssue
    } else if str_eq(kind, msg::CERT_RENEW) {
        Route::CertRenew
    } else if str_eq(kind, msg::DNS_PLAN) {
        Route::DnsPlan(get_string_or(p, "corefile", ""))
    } else if str_eq(kind, msg::DNS_APPLY) {
        match crate::coredns::apply(p) {
            Ok(u) => Route::DnsApply(u),
            Err(e) => Route::Reply(RpcResponse::error(rid, e)),
        }
    } else if str_eq(kind, msg::CONNTRACK_LIST) {
        let limit = match crate::json::get_number(p, "limit") {
            Some(n) => n,
            None => 1000,
        };
        Route::ConntrackList(limit)
    } else {
        let q = debug_quote(kind);
        Route::Reply(RpcResponse::error(rid, concat2("unknown command ", q.as_str())))
    }
}

/// The type of the response to the work a route asks for.
pub open spec fn result_kind_spec(r: RouteView) -> Seq<char> {
    match r {
        RouteView::Reply(resp) => resp.kind,
        RouteView::NodeInfo { .. } => msg::NODE_INFO_RESULT@,
        RouteView::DetectInterfaces => msg::DETECT_INTERFACES_RESULT@,
        RouteView::Telemetry => msg::TELEMETRY_SNAPSHOT@,
        RouteView::FirewallPlan(_) => msg::FIREWALL_PLAN_RESULT@,
        RouteView::FirewallApply { .. } => msg::FIREWALL_APPLY_RESULT@,
        RouteView::FirewallDelete(_) => msg::FIREWALL_DELETE_RESULT@,
        RouteView::FirewallBackup => msg::FIREWALL_BACKUP_RESULT@,
        RouteView::FirewallRestore(_) => msg::FIREWALL_RESTORE_RESULT@,
        RouteView::DockerDetect => msg::DOCKER_DETECT_RESULT@,
        RouteView::ComposeDetect => msg::COMPOSE_DETECT_RESULT@,
        RouteView::LogsTail(_) => msg::LOGS_TAIL_RESULT@,
        RouteView::DiscoveryScan(_) => msg::DISCOVERY_SCAN_RESULT@,
        RouteView::TailscaleStatus => msg::TAILSCALE_STATUS_RESULT@,
        RouteView::BackupCreate { .. } => msg::BACKUP_CREATE_RESULT@,
        RouteView::BackupRestore { .. } => msg::BACKUP_RESTORE_RESULT@,
        RouteView::DhcpPlan { .. } => msg::DHCP_PLAN_RESULT@,
        RouteView::DhcpApply { .. } => msg::DHCP_APPLY_RESULT@,
        RouteView::HaproxyValidate(_) => msg::HAPROXY_VALIDATE_RESULT@,
        RouteView::HaproxyApply { .. } => msg::HAPROXY_RELOAD_RESULT@,
        RouteView::CertIssue => msg::CERT_ISSUE_RESULT@,
        RouteView::CertRenew => msg::CERT_RENEW_RESULT@,
        RouteView::DnsPlan(_) => msg::DNS_PLAN_RESULT@,
        RouteView::DnsApply(_) => msg::DNS_APPLY_RESULT@,
        RouteView::ConntrackList(_) => msg::CONNTRACK_LIST_RESULT@,
    }
}

impl Route {
    pub fn result_kind(&self) -> (r: &str)
        ensures
            r@ == result_kind_spec(self@),
    {
        match self {
            Route::Reply(resp) => resp.kind.as_str(),
            Route::NodeInfo { .. } => msg::NODE_INFO_RESULT,
            Route::DetectInterfaces => msg::DETECT_INTERFACES_RESULT,
            Route::Telemetry => msg::TELEMETRY_SNAPSHOT,
            Route::FirewallPlan(_) => msg::FIREWALL_PLAN_RESULT,
            Route::FirewallApply { .. } => msg::FIREWALL_APPLY_RESULT,
            Route::FirewallDelete(_) => msg::FIREWALL_DELETE_RESULT,
            Route::FirewallBackup => msg::FIREWALL_BACKUP_RESULT,
            Route::FirewallRestore(_) => msg::FIREWALL_RESTORE_RESULT,
            Route::DockerDetect => msg::DOCKER_DETECT_RESULT,
            Route::ComposeDetect => msg::COMPOSE_DETECT_RESULT,
            Route::LogsTail(_) => msg::LOGS_TAIL_RESULT,
            Route::DiscoveryScan(_) => msg::DISCOVERY_SCAN_RESULT,
            Route::TailscaleStatus => msg::TAILSCALE_STATUS_RESULT,
            Route::BackupCreate { .. } => msg::BACKUP_CREATE_RESULT,
            Route::BackupRestore { .. } => msg::BACKUP_RESTORE_RESULT,
            Route::DhcpPlan { .. } => msg::DHCP_PLAN_RESULT,
            Route::DhcpApply { .. } => msg::DHCP_APPLY_RESULT,
            Route::HaproxyValidate(_) => msg::HAPROXY_VALIDATE_RESULT,
            Route::HaproxyApply { .. } => msg::HAPROXY_RELOAD_RESULT,
            Route::CertIssue => msg::CERT_ISSUE_RESULT,
            Route::CertRenew => msg::CERT_RENEW_RESULT,
            Route::DnsPlan(_) => msg::DNS_PLAN_RESULT,
            Route::DnsApply(_) => msg::DNS_APPLY_RESULT,
            Route::ConntrackList(_) => msg::CONNTRACK_LIST_RESULT,
        }
    }
}

/// The response once the work of a route is done: its result type with the
/// payload, or an error with the message.
pub open spec fn respond_spec(route: RouteView, rid: Option<Seq<char>>, result: Result<JsonView, Seq<char>>) -> ResponseView {
    match result {
        Ok(p) => ok_view(result_kind_spec(route), rid, p),
        Err(e) => error_view(rid, e),
    }
}

pub fn respond(route: &Route, rid: Option<String>, result: Result<JsonValue, String>) -> (r: RpcResponse)
    ensures
        r@ == respond_spec(
            route@,
            opt_chars(rid),
            match result {
                Ok(p) => Ok(p@),
                Err(e) => Err(e@),
            },
        ),
{
    match result {
        Ok(p) => RpcResponse::ok(route.result_kind(), rid, p),
        Err(e) => RpcResponse::error(rid, e),
    }
}

/// A payload with one member holding a list of values.
pub fn list_payload(key: &str, items: Vec<JsonValue>) -> (r: JsonValue)
    ensures
        r@ == JsonView::Object(seq![(key@, JsonView::Array(items_view(items@)))]),
{
    let ghost iv = items_view(items@);
    let fs = vec![field(key, array(items))];
    let r = object(fs);
    assert(fields_view(fs@) =~= seq![(key@, JsonView::Array(iv))]);
    r
}

/// The payload of `docker.detect`.
pub fn docker_payload(available: bool, containers: Vec<JsonValue>) -> (r: JsonValue)
    ensures
        r@ == JsonView::Object(
            seq![
                ("dockerAvailable"@, JsonView::Bool(available)),
                ("containers"@, JsonView::Array(items_view(containers@))),
            ],
        ),
{
    let ghost cv = items_view(containers@);
    let fs = vec![field("dockerAvailable", JsonValue::Bool(available)), field("containers", array(containers))];
    let r = object(fs);
    assert(fields_view(fs@) =~= seq![
        ("dockerAvailable"@, JsonView::Bool(available)),
        ("containers"@, JsonView::Array(cv)),
    ]);
    r
}

/// The JSON form of a plan: `{changes, warnings}`.
pub open spec fn plan_payload_spec(changes: Seq<Seq<char>>, warnings: Seq<Seq<char>>) -> JsonView {
    JsonView::Object(
        seq![
            ("changes"@, JsonView::Array(changes.map_values(|s: Seq<char>| JsonView::Str(s)))),
            ("warnings"@, JsonView::Array(warnings.map_values(|s: Seq<char>| JsonView::Str(s)))),
        ],
    )
}

pub fn plan_payload(plan: &Plan) -> (r: JsonValue)
    ensures
        r@ == plan_payload_spec(string_views(plan.changes@), string_views(plan.warnings@)),
{
    let fs = vec![field("changes", string_array(&plan.changes)), field("warnings", string_array(&plan.warnings))];
    let r = object(fs);
    assert(fields_view(fs@) =~= seq![
        ("changes"@, JsonView::Array(string_views(plan.changes@).map_values(|s: Seq<char>| JsonView::Str(s)))),
        ("warnings"@, JsonView::Array(string_views(plan.warnings@).map_values(|s: Seq<char>| JsonView::Str(s)))),
    ]);
    r
}

/// `{ruleId, status}`.
pub open spec fn rule_status_spec(rule_id: Seq<char>, status: Seq<char>) -> JsonView {
    JsonView::Object(seq![("ruleId"@, JsonView::Str(rule_id)), ("status"@, JsonView::Str(status))])
}

fn rule_status(rule_id: &str, status: &str) -> (r: JsonValue)
    ensures
        r@ == rule_status_spec(rule_id@, status@),
{
    let fs = vec![field("ruleId", jstr(rule_id)), field("status", jstr(status))];
    let r = object(fs);
    assert(fields_view(fs@) =~= seq![("ruleId"@, JsonView::Str(rule_id@)), ("status"@, JsonView::Str(status@))]);
    r
}

/// After a forward was applied: the rule is recorded with the request's
/// payload, and the response names it as applied.
pub fn firewall_applied(store: &mut Store, rid: Option<String>, forward: &PortForward, payload: JsonValue) -> (r: RpcResponse)
    requires
        old(store).wf(),
    ensures
        final(store).wf(),
        final(store).rules() == old(store).rules().insert(forward@.rule_id, payload@),
        final(store).last_backup() == old(store).last_backup(),
        final(store).path_view() == old(store).path_view(),
        r@ == ok_view(msg::FIREWALL_APPLY_RESULT@, opt_chars(rid), rule_status_spec(forward@.rule_id, "applied"@)),
{
    store.record_rule(forward.rule_id.as_str(), payload);
    RpcResponse::ok(msg::FIREWALL_APPLY_RESULT, rid, rule_status(forward.rule_id.as_str(), "applied"))
}

/// After a rule was deleted: it is forgotten, and the response names it as
/// deleted.
pub fn firewall_deleted(store: &mut Store, rid: Option<String>, rule_id: &str) -> (r: RpcResponse)
    requires
        old(store).wf(),
    ensures
        final(store).wf(),
        final(store).rules() == old(store).rules().remove(rule_id@),
        final(store).last_backup() == old(store).last_backup(),
        final(store).path_view() == old(store).path_view(),
        r@ == ok_view(msg::FIREWALL_DELETE_RESULT@, opt_chars(rid), rule_status_spec(rule_id@, "deleted"@)),
{
    store.remove_rule(rule_id);
    RpcResponse::ok(msg::FIREWALL_DELETE_RESULT, rid, rule_status(rule_id, "deleted"))
}

/// After the ruleset was saved: the file is remembered as the last backup,
/// and the response gives its path.
pub fn firewall_backed_up(store: &mut Store, rid: Option<String>, path: &str) -> (r: RpcResponse)
    requires
        old(store).wf(),
    ensures
        final(store).wf(),
        final(store).rules() == old(store).rules(),
        final(store).last_backup() == Some(path@),
        final(store).path_view() == old(store).path_view(),
        r@ == ok_view(
            msg::FIREWALL_BACKUP_RESULT@,
            opt_chars(rid),
            JsonView::Object(seq![("path"@, JsonView::Str(path@))]),
        ),
{
    store.set_last_backup(path);
    let fs = vec![field("path", jstr(path))];
    let p = object(fs);
    assert(fields_view(fs@) =~= seq![("path"@, JsonView::Str(path@))]);
    RpcResponse::ok(msg::FIREWALL_BACKUP_RESULT, rid, p)
}

/// The answer to a line that is not a request: an error without request id.
pub fn invalid_request(reason: &str) -> (r: RpcResponse)
    ensures
        r@ == error_view(None, "invalid request: "@ + reason@),
{
    RpcResponse::error(None, concat2("invalid request: ", reason))
}

/// Every response carries the id of the request it answers: the answers
/// given at once, and those built once the work is done, whatever it gave.
pub proof fn law_response_echoes_request_id(
    req: RequestView,
    node_id: Seq<char>,
    node_name: Seq<char>,
    result: Result<JsonView, Seq<char>>,
)
    ensures
        dispatch_spec(req, node_id, node_name) matches RouteView::Reply(resp) ==> resp.request_id == req.request_id,
        respond_spec(dispatch_spec(req, node_id, node_name), req.request_id, result).request_id == req.request_id,
{
}

/// A request of a type the agent does not know is answered at once with an
/// error that names the type.
pub proof fn law_unknown_kind_refused(req: RequestView, node_id: Seq<char>, node_name: Seq<char>)
    ensures
        !known_kind(req.kind) ==> dispatch_spec(req, node_id, node_name) == RouteView::Reply(
            error_view(req.request_id, "unknown command "@ + debug_str(req.kind)),
        ),
{
}

/// A refused request gets a response of type `error` that is not marked
/// ok, carries no payload and gives the reason.
pub proof fn law_refusal_is_an_error(rid: Option<Seq<char>>, reason: Seq<char>)
    ensures
        error_view(rid, reason).kind == msg::ERROR@,
        !error_view(rid, reason).ok,
        error_view(rid, reason).payload == JsonView::Null,
        error_view(rid, reason).error == Some(reason),
{
}

/// Two message types differ when their lengths differ or, at equal length,
/// their characters at position `i` differ.
proof fn lemma_kinds_differ(a: Seq<char>, b: Seq<char>, i: int)
    requires
        a.len() != b.len() || (0 <= i < a.len() && a.len() == b.len() && a[i] != b[i]),
    ensures
        a != b,
{
}

/// The message types that `dispatch` tries before the DNS and conntrack
/// ones are all different from these three.
proof fn lemma_dns_and_conntrack_kinds_are_new()
    ensures
        forall|k: Seq<char>| #![auto] earlier_kind(k) ==> k != msg::DNS_PLAN@ && k != msg::DNS_APPLY@ && k
            != msg::CONNTRACK_LIST@,
        msg::DNS_PLAN@ != msg::DNS_APPLY@,
        msg::CONNTRACK_LIST@ != msg::DNS_PLAN@ && msg::CONNTRACK_LIST@ != msg::DNS_APPLY@,
{
    reveal_strlit("hello");
    reveal_strlit("node.info");
    reveal_strlit("interfaces.detect");
    reveal_strlit("telemetry.request");
    reveal_strlit("firewall.plan");
    reveal_strlit("firewall.apply_rule");
    reveal_strlit("firewall.delete_rule");
    reveal_strlit("firewall.backup");
    reveal_strlit("firewall.restore");
    reveal_strlit("docker.detect");
    reveal_strlit("compose.detect");
    reveal_strlit("logs.tail");
    reveal_strlit("discovery.scan");
    reveal_strlit("tailscale.status");
    reveal_strlit("backup.create");
    reveal_strlit("backup.restore");
    reveal_strlit("dhcp.plan");
    reveal_strlit("dhcp.apply");
    reveal_strlit("haproxy.validate");
    reveal_strlit("haproxy.reload");
    reveal_strlit("cert.issue");
    reveal_strlit("cert.renew");
    reveal_strlit("dns.plan");
    reveal_strlit("dns.apply");
    reveal_strlit("conntrack.list");
    lemma_kinds_differ(msg::DNS_PLAN@, msg::HELLO@, 0);
    lemma_kinds_differ(msg::DNS_PLAN@, msg::NODE_INFO@, 0);
    lemma_kinds_differ(msg::DNS_PLAN@, msg::DETECT_INTERFACES@, 0);
    lemma_kinds_differ(msg::DNS_PLAN@, msg::TELEMETRY_REQUEST@, 0);
    lemma_kinds_differ(msg::DNS_PLAN@, msg::FIREWALL_PLAN@, 0);
    lemma_kinds_differ(msg::DNS_PLAN@, msg::FIREWALL_APPLY_RULE@, 0);
    lemma_kinds_differ(msg::DNS_PLAN@, msg::FIREWALL_DELETE_RULE@, 0);
    lemma_kinds_differ(msg::DNS_PLAN@, msg::FIREWALL_BACKUP@, 0);
    lemma_kinds_differ(msg::DNS_PLAN@, msg::FIREWALL_RESTORE@, 0);
    lemma_kinds_differ(msg::DNS_PLAN@, msg::DOCKER_DETECT@, 0);
    lemma_kinds_differ(msg::DNS_PLAN@, msg::COMPOSE_DETECT@, 0);
    lemma_kinds_differ(msg::DNS_PLAN@, msg::LOGS_TAIL@, 0);
    lemma_kinds_differ(msg::DNS_PLAN@, msg::DISCOVERY_SCAN@, 0);
    lemma_kinds_differ(msg::DNS_PLAN@, msg::TAILSCALE_STATUS@, 0);
    lemma_kinds_differ(msg::DNS_PLAN@, msg::BACKUP_CREATE@, 0);
    lemma_kinds_differ(msg::DNS_PLAN@, msg::BACKUP_RESTORE@, 0);
    lemma_kinds_differ(msg::DNS_PLAN@, msg::DHCP_PLAN@, 0);
    lemma_kinds_differ(msg::DNS_PLAN@, msg::DHCP_APPLY@, 0);
    lemma_kinds_differ(msg::DNS_PLAN@, msg::HAPROXY_VALIDATE@, 0);
    lemma_kinds_differ(msg::DNS_PLAN@, msg::HAPROXY_RELOAD@, 0);
    lemma_kinds_differ(msg::DNS_PLAN@, msg::CERT_ISSUE@, 0);
    lemma_kinds_differ(msg::DNS_PLAN@, msg::CERT_RENEW@, 0);
    lemma_kinds_differ(msg::DNS_APPLY@, msg::HELLO@, 0);
    lemma_kinds_differ(msg::DNS_APPLY@, msg::NODE_INFO@, 0);
    lemma_kinds_differ(msg::DNS_APPLY@, msg::DETECT_INTERFACES@, 0);
    lemma_kinds_differ(msg::DNS_APPLY@, msg::TELEMETRY_REQUEST@, 0);
    lemma_kinds_differ(msg::DNS_APPLY@, msg::FIREWALL_PLAN@, 0);
    lemma_kinds_differ(msg::DNS_APPLY@, msg::FIREWALL_APPLY_RULE@, 0);
    lemma_kinds_differ(msg::DNS_APPLY@, msg::FIREWALL_DELETE_RULE@, 0);
    lemma_kinds_differ(msg::DNS_APPLY@, msg::FIREWALL_BACKUP@, 0);
    lemma_kinds_differ(msg::DNS_APPLY@, msg::FIREWALL_RESTORE@, 0);
    lemma_kinds_differ(msg::DNS_APPLY@, msg::DOCKER_DETECT@, 0);
    lemma_kinds_differ(msg::DNS_APPLY@, msg::COMPOSE_DETECT@, 0);
    lemma_kinds_differ(msg::DNS_APPLY@, msg::LOGS_TAIL@, 0);
    lemma_kinds_differ(msg::DNS_APPLY@, msg::DISCOVERY_SCAN@, 0);
    lemma_kinds_differ(msg::DNS_APPLY@, msg::TAILSCALE_STATUS@, 0);
    lemma_kinds_differ(msg::DNS_APPLY@, msg::BACKUP_CREATE@, 0);
    lemma_kinds_differ(msg::DNS_APPLY@, msg::BACKUP_RESTORE@, 0);
    lemma_kinds_differ(msg::DNS_APPLY@, msg::DHCP_PLAN@, 1);
    lemma_kinds_differ(msg::DNS_APPLY@, msg::DHCP_APPLY@, 0);
    lemma_kinds_differ(msg::DNS_APPLY@, msg::HAPROXY_VALIDATE@, 0);
    lemma_kinds_differ(msg::DNS_APPLY@, msg::HAPROXY_RELOAD@, 0);
    lemma_kinds_differ(msg::DNS_APPLY@, msg::CERT_ISSUE@, 0);
    lemma_kinds_differ(msg::DNS_APPLY@, msg::CERT_RENEW@, 0);
    lemma_kinds_differ(msg::DNS_APPLY@, msg::DNS_PLAN@, 0);
    lemma_kinds_differ(msg::CONNTRACK_LIST@, msg::HELLO@, 0);
    lemma_kinds_differ(msg::CONNTRACK_LIST@, msg::NODE_INFO@, 0);
    lemma_kinds_differ(msg::CONNTRACK_LIST@, msg::DETECT_INTERFACES@, 0);
    lemma_kinds_differ(msg::CONNTRACK_LIST@, msg::TELEMETRY_REQUEST@, 0);
    lemma_kinds_differ(msg::CONNTRACK_LIST@, msg::FIREWALL_PLAN@, 0);
    lemma_kinds_differ(msg::CONNTRACK_LIST@, msg::FIREWALL_APPLY_RULE@, 0);
    lemma_kinds_differ(msg::CONNTRACK_LIST@, msg::FIREWALL_DELETE_RULE@, 0);
    lemma_kinds_differ(msg::CONNTRACK_LIST@, msg::FIREWALL_BACKUP@, 0);
    lemma_kinds_differ(msg::CONNTRACK_LIST@, msg::FIREWALL_RESTORE@, 0);
    lemma_kinds_differ(msg::CONNTRACK_LIST@, msg::DOCKER_DETECT@, 0);
    lemma_kinds_differ(msg::CONNTRACK_LIST@, msg::COMPOSE_DETECT@, 2);
    lemma_kinds_differ(msg::CONNTRACK_LIST@, msg::LOGS_TAIL@, 0);
    lemma_kinds_differ(msg::CONNTRACK_LIST@, msg::DISCOVERY_SCAN@, 0);
    lemma_kinds_differ(msg::CONNTRACK_LIST@, msg::TAILSCALE_STATUS@, 0);
    lemma_kinds_differ(msg::CONNTRACK_LIST@, msg::BACKUP_CREATE@, 0);
    lemma_kinds_differ(msg::CONNTRACK_LIST@, msg::BACKUP_RESTORE@, 0);
    lemma_kinds_differ(msg::CONNTRACK_LIST@, msg::DHCP_PLAN@, 0);
    lemma_kinds_differ(msg::CONNTRACK_LIST@, msg::DHCP_APPLY@, 0);
    lemma_kinds_differ(msg::CONNTRACK_LIST@, msg::HAPROXY_VALIDATE@, 0);
    lemma_kinds_differ(msg::CONNTRACK_LIST@, msg::HAPROXY_RELOAD@, 0);
    lemma_kinds_differ(msg::CONNTRACK_LIST@, msg::CERT_ISSUE@, 0);
    lemma_kinds_differ(msg::CONNTRACK_LIST@, msg::CERT_RENEW@, 0);
    lemma_kinds_differ(msg::CONNTRACK_LIST@, msg::DNS_PLAN@, 0);
    lemma_kinds_differ(msg::CONNTRACK_LIST@, msg::DNS_APPLY@, 0);
}

/// The message types `dispatch` tries before the DNS and conntrack ones.
pub open spec fn earlier_kind(k: Seq<char>) -> bool {
    ||| k == msg::HELLO@
    ||| k == msg::NODE_INFO@
    ||| k == msg::DETECT_INTERFACES@
    ||| k == msg::TELEMETRY_REQUEST@
    ||| k == msg::FIREWALL_PLAN@
    ||| k == msg::FIREWALL_APPLY_RULE@
    ||| k == msg::FIREWALL_DELETE_RULE@
    ||| k == msg::FIREWALL_BACKUP@
    ||| k == msg::FIREWALL_RESTORE@
    ||| k == msg::DOCKER_DETECT@
    ||| k == msg::COMPOSE_DETECT@
    ||| k == msg::LOGS_TAIL@
    ||| k == msg::DISCOVERY_SCAN@
    ||| k == msg::TAILSCALE_STATUS@
    ||| k == msg::BACKUP_CREATE@
    ||| k == msg::BACKUP_RESTORE@
    ||| k == msg::DHCP_PLAN@
    ||| k == msg::DHCP_APPLY@
    ||| k == msg::HAPROXY_VALIDATE@
    ||| k == msg::HAPROXY_RELOAD@
    ||| k == msg::CERT_ISSUE@
    ||| k == msg::CERT_RENEW@
}

/// The DNS and conntrack commands are served by their handlers: a DNS plan
/// and a conntrack listing always, a DNS apply unless its request names no
/// Corefile path or no zone.
pub proof fn law_dns_and_conntrack_routed(req: RequestView, node_id: Seq<char>, node_name: Seq<char>)
    ensures
        req.kind == msg::DNS_PLAN@ ==> dispatch_spec(req, node_id, node_name) == RouteView::DnsPlan(
            get_str_or(req.payload, "corefile"@, ""@),
        ),
        req.kind == msg::DNS_APPLY@ ==> dispatch_spec(req, node_id, node_name) == match crate::coredns::apply_spec(
            req.payload,
        ) {
            Ok(u) => RouteView::DnsApply(u),
            Err(e) => RouteView::Reply(error_view(req.request_id, e)),
        },
        req.kind == msg::CONNTRACK_LIST@ ==> dispatch_spec(req, node_id, node_name) matches RouteView::ConntrackList(_),
{
    lemma_dns_and_conntrack_kinds_are_new();
    assert(!earlier_kind(msg::DNS_PLAN@));
    assert(!earlier_kind(msg::DNS_APPLY@));
    assert(!earlier_kind(msg::CONNTRACK_LIST@));
}

} // verus!
