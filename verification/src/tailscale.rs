//! The Tailscale status that the agent reports.

use vstd::prelude::*;
use crate::discovery::{tailscale_ip, tailscale_ip_of};
use crate::json::{
    JsonValue, JsonView, field, fields_view, get_bool, get_str, jopt_string, jstr, object,
    opt_str_view,
};

verus! {

/// `parsed.get("Self").and_then(|v| v.get(key)).and_then(as_str)`.
pub open spec fn self_str(parsed: JsonView, key: Seq<char>) -> Option<Seq<char>> {
    match parsed.get("Self"@) {
        Some(node) => get_str(node, key),
        None => None,
    }
}

/// The `i`-th Tailscale address of the node itself.
pub open spec fn self_ip(parsed: JsonView, i: int) -> Option<Seq<char>> {
    match parsed.get("Self"@) {
        Some(node) => tailscale_ip(node, i),
        None => None,
    }
}

/// Whether the node itself is online; `false` when that is not known.
pub open spec fn self_online(parsed: JsonView) -> bool {
    match parsed.get("Self"@) {
        Some(node) => match get_bool(node, "Online"@) {
            Some(b) => b,
            None => false,
        },
        None => false,
    }
}

/// The status payload. `installed` says whether the `tailscale` binary was
/// found; `parsed` is the parsed output of `tailscale status --json` (`null`
/// when it did not parse), or `None` when the command failed.
pub open spec fn status_spec(installed: bool, parsed: Option<JsonView>) -> JsonView {
    if !installed {
        JsonView::Object(seq![("installed"@, JsonView::Bool(false))])
    } else {
        match parsed {
            None => JsonView::Object(
                seq![
                    ("installed"@, JsonView::Bool(true)),
                    ("error"@, JsonView::Str("tailscale status failed"@)),
                ],
            ),
            Some(p) => JsonView::Object(
                seq![
                    ("installed"@, JsonView::Bool(true)),
                    ("tailnet"@, opt_str_view(get_str(p, "MagicDNSSuffix"@))),
                    ("hostname"@, opt_str_view(self_str(p, "HostName"@))),
                    ("tailscaleIpV4"@, opt_str_view(self_ip(p, 0))),
                    ("tailscaleIpV6"@, opt_str_view(self_ip(p, 1))),
                    ("online"@, JsonView::Bool(self_online(p))),
                    ("derp"@, opt_str_view(self_str(p, "DERP"@))),
                    ("raw"@, p),
                ],
            ),
        }
    }
}

fn self_string(parsed: &JsonValue, key: &str) -> (r: Option<String>)
    ensures
        crate::config::opt_chars(r) == self_str(parsed@, key@),
{
    match parsed.get("Self") {
        Some(node) => crate::json::get_string(node, key),
        None => None,
    }
}

fn self_ip_of(parsed: &JsonValue, i: usize) -> (r: Option<String>)
    ensures
        crate::config::opt_chars(r) == self_ip(parsed@, i as int),
{
    match parsed.get("Self") {
        Some(node) => tailscale_ip_of(node, i),
        None => None,
    }
}

fn self_is_online(parsed: &JsonValue) -> (r: bool)
    ensures
        r == self_online(parsed@),
{
    match parsed.get("Self") {
        Some(node) => match crate::json::get_flag(node, "Online") {
            Some(b) => b,
            None => false,
        },
        None => false,
    }
}

/// The Tailscale status of this node, from whether the binary is installed
/// and the parsed output of `tailscale status --json` (`None` when the
/// command failed).
pub fn status(installed: bool, parsed: Option<&JsonValue>) -> (r: JsonValue)
    ensures
        r@ == status_spec(installed, crate::json::opt_view(parsed)),
{
    if !installed {
        let fs = vec![field("installed", JsonValue::Bool(false))];
        let r = object(fs);
        assert(fields_view(fs@) =~= seq![("installed"@, JsonView::Bool(false))]);
        return r;
    }
    match parsed {
        None => {
            let fs = vec![
                field("installed", JsonValue::Bool(true)),
                field("error", jstr("tailscale status failed")),
            ];
            let r = object(fs);
            assert(fields_view(fs@) =~= seq![
                ("installed"@, JsonView::Bool(true)),
                ("error"@, JsonView::Str("tailscale status failed"@)),
            ]);
            r
        },
        Some(p) => {
            let fs = vec![
                field("installed", JsonValue::Bool(true)),
                field("tailnet", jopt_string(crate::json::get_string(p, "MagicDNSSuffix"))),
                field("hostname", jopt_string(self_string(p, "HostName"))),
                field("tailscaleIpV4", jopt_string(self_ip_of(p, 0))),
                field("tailscaleIpV6", jopt_string(self_ip_of(p, 1))),
                field("online", JsonValue::Bool(self_is_online(p))),
                field("derp", jopt_string(self_string(p, "DERP"))),
                field("raw", p.copy()),
            ];
            let r = object(fs);
            assert(fields_view(fs@) =~= seq![
                ("installed"@, JsonView::Bool(true)),
                ("tailnet"@, opt_str_view(get_str(p@, "MagicDNSSuffix"@))),
                ("hostname"@, opt_str_view(self_str(p@, "HostName"@))),
                ("tailscaleIpV4"@, opt_str_view(self_ip(p@, 0))),
                ("tailscaleIpV6"@, opt_str_view(self_ip(p@, 1))),
                ("online"@, JsonView::Bool(self_online(p@))),
                ("derp"@, opt_str_view(self_str(p@, "DERP"@))),
                ("raw"@, p@),
            ]);
            r
        },
    }
}

} // verus!
