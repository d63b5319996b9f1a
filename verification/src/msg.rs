//! The message types of the RPC protocol.

use vstd::prelude::*;

verus! {

pub const HELLO: &'static str = "hello";
pub const NODE_INFO: &'static str = "node.info";
pub const DETECT_INTERFACES: &'static str = "interfaces.detect";
pub const FIREWALL_PLAN: &'static str = "firewall.plan";
pub const FIREWALL_APPLY_RULE: &'static str = "firewall.apply_rule";
pub const FIREWALL_DELETE_RULE: &'static str = "firewall.delete_rule";
pub const FIREWALL_BACKUP: &'static str = "firewall.backup";
pub const FIREWALL_RESTORE: &'static str = "firewall.restore";
pub const TELEMETRY_REQUEST: &'static str = "telemetry.request";
pub const DOCKER_DETECT: &'static str = "docker.detect";
pub const COMPOSE_DETECT: &'static str = "compose.detect";
pub const LOGS_TAIL: &'static str = "logs.tail";

pub const DISCOVERY_SCAN: &'static str = "discovery.scan";
pub const DISCOVERY_IMPORT: &'static str = "discovery.import";
pub const BACKUP_CREATE: &'static str = "backup.create";
pub const BACKUP_RESTORE: &'static str = "backup.restore";
pub const TAILSCALE_STATUS: &'static str = "tailscale.status";
pub const TAILSCALE_UP: &'static str = "tailscale.up";
pub const DHCP_PLAN: &'static str = "dhcp.plan";
pub const DHCP_APPLY: &'static str = "dhcp.apply";
pub const HAPROXY_VALIDATE: &'static str = "haproxy.validate";
pub const HAPROXY_RELOAD: &'static str = "haproxy.reload";
pub const CERT_ISSUE: &'static str = "cert.issue";
pub const CERT_RENEW: &'static str = "cert.renew";
pub const DNS_PLAN: &'static str = "dns.plan";
pub const DNS_APPLY: &'static str = "dns.apply";
pub const CONNTRACK_LIST: &'static str = "conntrack.list";

pub const HELLO_RESULT: &'static str = "hello_result";
pub const NODE_INFO_RESULT: &'static str = "node.info_result";
pub const DETECT_INTERFACES_RESULT: &'static str = "interfaces.detect_result";
pub const FIREWALL_PLAN_RESULT: &'static str = "firewall.plan_result";
pub const FIREWALL_APPLY_RESULT: &'static str = "firewall.apply_result";
pub const FIREWALL_DELETE_RESULT: &'static str = "firewall.delete_result";
pub const FIREWALL_BACKUP_RESULT: &'static str = "firewall.backup_result";
pub const FIREWALL_RESTORE_RESULT: &'static str = "firewall.restore_result";
pub const DOCKER_DETECT_RESULT: &'static str = "docker.detect_result";
pub const COMPOSE_DETECT_RESULT: &'static str = "compose.detect_result";
pub const LOGS_TAIL_RESULT: &'static str = "logs.tail_result";

pub const DISCOVERY_SCAN_RESULT: &'static str = "discovery.scan_result";
pub const DISCOVERY_IMPORT_RESULT: &'static str = "discovery.import_result";
pub const BACKUP_CREATE_RESULT: &'static str = "backup.create_result";
pub const BACKUP_RESTORE_RESULT: &'static str = "backup.restore_result";
pub const TAILSCALE_STATUS_RESULT: &'static str = "tailscale.status_result";
pub const TAILSCALE_UP_RESULT: &'static str = "tailscale.up_result";
pub const DHCP_PLAN_RESULT: &'static str = "dhcp.plan_result";
pub const DHCP_APPLY_RESULT: &'static str = "dhcp.apply_result";
pub const HAPROXY_VALIDATE_RESULT: &'static str = "haproxy.validate_result";
pub const HAPROXY_RELOAD_RESULT: &'static str = "haproxy.reload_result";
pub const CERT_ISSUE_RESULT: &'static str = "cert.issue_result";
pub const CERT_RENEW_RESULT: &'static str = "cert.renew_result";
pub const DNS_PLAN_RESULT: &'static str = "dns.plan_result";
pub const DNS_APPLY_RESULT: &'static str = "dns.apply_result";
pub const CONNTRACK_LIST_RESULT: &'static str = "conntrack.list_result";

pub const TELEMETRY_SNAPSHOT: &'static str = "telemetry.snapshot";
pub const ERROR: &'static str = "error";

} // verus!
