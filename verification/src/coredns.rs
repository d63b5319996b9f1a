//! CoreDNS configuration: what a request asks to be written, and what is
//! reported.

use vstd::prelude::*;
use crate::json::{JsonValue, JsonView, field, fields_view, get_str_or, get_string_or, jstr, object, string_views};
use crate::text::{concat2, owned};

verus! {

/// The report of a plan: whether CoreDNS is there to take the configuration.
pub open spec fn plan_spec(installed: bool) -> JsonView {
    if installed {
        JsonView::Object(seq![("valid"@, JsonView::Bool(true)), ("output"@, JsonView::Str("coredns present"@))])
    } else {
        JsonView::Object(
            seq![("valid"@, JsonView::Bool(false)), ("output"@, JsonView::Str("coredns is not installed"@))],
        )
    }
}

/// The report of a plan for a Corefile; the Corefile itself is not checked,
/// only whether the `coredns` binary is installed.
pub fn plan(_corefile: &str, installed: bool) -> (r: JsonValue)
    ensures
        r@ == plan_spec(installed),
{
    let fs = if installed {
        vec![field("valid", JsonValue::Bool(true)), field("output", jstr("coredns present"))]
    } else {
        vec![field("valid", JsonValue::Bool(false)), field("output", jstr("coredns is not installed"))]
    };
    let r = object(fs);
    if installed {
        assert(fields_view(fs@) =~= seq![("valid"@, JsonView::Bool(true)), ("output"@, JsonView::Str("coredns present"@))]);
    } else {
        assert(fields_view(fs@) =~= seq![
            ("valid"@, JsonView::Bool(false)),
            ("output"@, JsonView::Str("coredns is not installed"@)),
        ]);
    }
    r
}

/// What an apply request writes: the Corefile at its path, and the zone file
/// at `{zonesDir}/{zoneName}.db` (the directory `zones_dir` is created).
#[derive(Debug, PartialEq)]
pub struct ZoneUpdate {
    pub corefile_path: String,
    pub corefile: String,
    pub zones_dir: String,
    pub zone_path: String,
    pub zonefile: String,
}

pub struct ZoneUpdateView {
    pub corefile_path: Seq<char>,
    pub corefile: Seq<char>,
    pub zones_dir: Seq<char>,
    pub zone_path: Seq<char>,
    pub zonefile: Seq<char>,
}

impl View for ZoneUpdate {
    type V = ZoneUpdateView;

    open spec fn view(&self) -> ZoneUpdateView {
        ZoneUpdateView {
            corefile_path: self.corefile_path@,
            corefile: self.corefile@,
            zones_dir: self.zones_dir@,
            zone_path: self.zone_path@,
            zonefile: self.zonefile@,
        }
    }
}

/// The update an apply request asks for; an error when it names no Corefile
/// path or no zone. Missing texts are empty; the zones directory defaults to
/// `/etc/coredns/zones`.
pub open spec fn apply_spec(p: JsonView) -> Result<ZoneUpdateView, Seq<char>> {
    let corefile_path = get_str_or(p, "corefilePath"@, ""@);
    let zones_dir = get_str_or(p, "zonesDir"@, "/etc/coredns/zones"@);
    let zone_name = get_str_or(p, "zoneName"@, ""@);
    if corefile_path.len() == 0 || zone_name.len() == 0 {
        Err("missing corefilePath or zoneName"@)
    } else {
        Ok(
            ZoneUpdateView {
                corefile_path,
                corefile: get_str_or(p, "corefile"@, ""@),
                zones_dir,
                zone_path: zones_dir + "/"@ + zone_name + ".db"@,
                zonefile: get_str_or(p, "zonefile"@, ""@),
            },
        )
    }
}

pub fn apply(payload: &JsonValue) -> (r: Result<ZoneUpdate, String>)
    ensures
        match r {
            Ok(u) => apply_spec(payload@) == Ok::<ZoneUpdateView, Seq<char>>(u@),
            Err(e) => apply_spec(payload@) == Err::<ZoneUpdateView, Seq<char>>(e@),
        },
{
    let corefile_path = get_string_or(payload, "corefilePath", "");
    let corefile = get_string_or(payload, "corefile", "");
    let zones_dir = get_string_or(payload, "zonesDir", "/etc/coredns/zones");
    let zone_name = get_string_or(payload, "zoneName", "");
    let zonefile = get_string_or(payload, "zonefile", "");
    if corefile_path.as_str().is_empty() || zone_name.as_str().is_empty() {
        return Err(owned("missing corefilePath or zoneName"));
    }
    let mut zone_path = concat2(zones_dir.as_str(), "/");
    zone_path.append(zone_name.as_str());
    zone_path.append(".db");
    Ok(ZoneUpdate { corefile_path, corefile, zones_dir, zone_path, zonefile })
}

/// The payload once both files are written and the reload attempted.
pub open spec fn applied_spec(u: ZoneUpdateView, reloaded: bool) -> JsonView {
    JsonView::Object(
        seq![
            ("status"@, JsonView::Str("applied"@)),
            ("corefilePath"@, JsonView::Str(u.corefile_path)),
            ("zonePath"@, JsonView::Str(u.zone_path)),
            ("reloaded"@, JsonView::Bool(reloaded)),
        ],
    )
}

pub fn applied(update: &ZoneUpdate, reloaded: bool) -> (r: JsonValue)
    ensures
        r@ == applied_spec(update@, reloaded),
{
    let fs = vec![
        field("status", jstr("applied")),
        field("corefilePath", jstr(update.corefile_path.as_str())),
        field("zonePath", jstr(update.zone_path.as_str())),
        field("reloaded", JsonValue::Bool(reloaded)),
    ];
    let r = object(fs);
    assert(fields_view(fs@) =~= seq![
        ("status"@, JsonView::Str("applied"@)),
        ("corefilePath"@, JsonView::Str(update@.corefile_path)),
        ("zonePath"@, JsonView::Str(update@.zone_path)),
        ("reloaded"@, JsonView::Bool(reloaded)),
    ]);
    r
}

/// The `systemctl` arguments that reload CoreDNS.
pub fn reload_command() -> (r: Vec<String>)
    ensures
        string_views(r@) == seq!["reload-or-restart"@, "coredns"@],
{
    let r = vec![owned("reload-or-restart"), owned("coredns")];
    assert(string_views(r@) =~= seq!["reload-or-restart"@, "coredns"@]);
    r
}

} // verus!
