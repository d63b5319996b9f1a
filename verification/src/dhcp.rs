//! DHCP server configuration: which server, how a configuration is checked
//! before it is written, and what is reported.

use vstd::prelude::*;
use crate::json::{JsonValue, JsonView, field, fields_view, get_bool, get_str_or, jstr, jstring, object, string_views};
use crate::text::{concat2, owned, str_eq, trim_spec};

verus! {

/// A DHCP server: its binary, the arguments that make it check a
/// configuration file (the file's path follows them), its systemd unit, and
/// the suffix of its configuration files.
#[derive(Debug, PartialEq)]
pub struct Backend {
    pub binary: String,
    pub test_args: Vec<String>,
    pub service: String,
    pub suffix: String,
}

pub struct BackendView {
    pub binary: Seq<char>,
    pub test_args: Seq<Seq<char>>,
    pub service: Seq<char>,
    pub suffix: Seq<char>,
}

impl View for Backend {
    type V = BackendView;

    open spec fn view(&self) -> BackendView {
        BackendView {
            binary: self.binary@,
            test_args: string_views(self.test_args@),
            service: self.service@,
            suffix: self.suffix@,
        }
    }
}

/// `kea` selects Kea; any other name selects dnsmasq.
pub open spec fn backend_spec(name: Seq<char>) -> BackendView {
    if name == "kea"@ {
        BackendView {
            binary: "kea-dhcp4"@,
            test_args: seq!["-t"@],
            service: "kea-dhcp4"@,
            suffix: "conf"@,
        }
    } else {
        BackendView {
            binary: "dnsmasq"@,
            test_args: seq!["--test"@, "--conf-file"@],
            service: "dnsmasq"@,
            suffix: "conf"@,
        }
    }
}

pub fn backend_for(name: &str) -> (r: Backend)
    ensures
        r@ == backend_spec(name@),
{
    if str_eq(name, "kea") {
        let args = vec![owned("-t")];
        assert(string_views(args@) =~= seq!["-t"@]);
        Backend { binary: owned("kea-dhcp4"), test_args: args, service: owned("kea-dhcp4"), suffix: owned("conf") }
    } else {
        let args = vec![owned("--test"), owned("--conf-file")];
        assert(string_views(args@) =~= seq!["--test"@, "--conf-file"@]);
        Backend { binary: owned("dnsmasq"), test_args: args, service: owned("dnsmasq"), suffix: owned("conf") }
    }
}

/// `/tmp/ports-{binary}-{pid}.{suffix}`: where a configuration is written to be checked.
pub open spec fn temp_config_path_spec(b: BackendView, pid: nat) -> Seq<char> {
    "/tmp/ports-"@ + b.binary + "-"@ + crate::text::decimal_spec(pid) + "."@ + b.suffix
}

pub fn temp_config_path(backend: &Backend, pid: u32) -> (r: String)
    ensures
        r@ == temp_config_path_spec(backend@, pid as nat),
{
    let mut r = concat2("/tmp/ports-", backend.binary.as_str());
    r.append("-");
    let d = crate::text::decimal(pid as u64);
    r.append(d.as_str());
    r.append(".");
    r.append(backend.suffix.as_str());
    r
}

/// The arguments after the binary that check the configuration at `path`.
pub fn test_command(backend: &Backend, path: &str) -> (r: Vec<String>)
    ensures
        string_views(r@) == backend@.test_args.push(path@),
{
    let mut r: Vec<String> = Vec::new();
    let n = backend.test_args.len();
    let mut i: usize = 0;
    while i < n
        invariant
            n == backend.test_args@.len(),
            i <= n,
            r@.len() == i,
            forall|k: int| 0 <= k < i ==> #[trigger] r@[k]@ == backend.test_args@[k]@,
        decreases n - i,
    {
        r.push(owned(backend.test_args[i].as_str()));
        i = i + 1;
    }
    r.push(owned(path));
    assert(string_views(r@) =~= string_views(backend.test_args@).push(path@));
    r
}

/// How the test run of a configuration went.
#[derive(Debug, PartialEq)]
pub enum TestOutcome {
    /// The server's binary is not installed.
    NotInstalled,
    /// The configuration could not be written to its temporary file.
    WriteFailed,
    /// The test ran, with its exit status and its output.
    Finished { success: bool, stdout: String, stderr: String },
    /// The test could not be started; the error's text.
    SpawnFailed(String),
}

/// The validation report `{valid, output}` for an outcome.
pub open spec fn validation_spec(b: BackendView, o: TestOutcome) -> JsonView {
    let (valid, output) = match o {
        TestOutcome::NotInstalled => (false, b.binary + " is not installed"@),
        TestOutcome::WriteFailed => (false, "failed to write temporary config"@),
        TestOutcome::Finished { success, stdout, stderr } => (success, trim_spec(stdout@ + stderr@)),
        TestOutcome::SpawnFailed(e) => (false, b.binary + " test failed: "@ + e@),
    };
    JsonView::Object(seq![("valid"@, JsonView::Bool(valid)), ("output"@, JsonView::Str(output))])
}

fn report(valid: bool, output: String) -> (r: JsonValue)
    ensures
        r@ == JsonView::Object(seq![("valid"@, JsonView::Bool(valid)), ("output"@, JsonView::Str(output@))]),
{
    let fs = vec![field("valid", JsonValue::Bool(valid)), field("output", jstring(output))];
    let r = object(fs);
    assert(fields_view(fs@) =~= seq![("valid"@, JsonView::Bool(valid)), ("output"@, JsonView::Str(output@))]);
    r
}

/// The validation report of a configuration for the given server.
pub fn validate(backend: &Backend, outcome: TestOutcome) -> (r: JsonValue)
    ensures
        r@ == validation_spec(backend@, outcome),
{
    match outcome {
        TestOutcome::NotInstalled => report(false, concat2(backend.binary.as_str(), " is not installed")),
        TestOutcome::WriteFailed => report(false, owned("failed to write temporary config")),
        TestOutcome::Finished { success, stdout, stderr } => {
            let all = concat2(stdout.as_str(), stderr.as_str());
            report(success, crate::text::trim_str(all.as_str()))
        },
        TestOutcome::SpawnFailed(e) => {
            let mut m = concat2(backend.binary.as_str(), " test failed: ");
            m.append(e.as_str());
            report(false, m)
        },
    }
}

/// The validation report for the server named `backend`.
pub fn plan(backend: &str, outcome: TestOutcome) -> (r: JsonValue)
    ensures
        r@ == validation_spec(backend_spec(backend@), outcome),
{
    validate(&backend_for(backend), outcome)
}

/// A configuration is written only when its report says it is valid;
/// otherwise the error quotes the report's output.
pub open spec fn validation_gate_spec(report: JsonView) -> Result<(), Seq<char>> {
    match get_bool(report, "valid"@) {
        Some(true) => Ok(()),
        _ => Err("config validation failed: "@ + get_str_or(report, "output"@, ""@)),
    }
}

pub fn check_validation(report: &JsonValue) -> (r: Result<(), String>)
    ensures
        match r {
            Ok(()) => validation_gate_spec(report@) == Ok::<(), Seq<char>>(()),
            Err(e) => validation_gate_spec(report@) == Err::<(), Seq<char>>(e@),
        },
{
    match crate::json::get_flag(report, "valid") {
        Some(true) => Ok(()),
        _ => {
            let out = crate::json::get_string_or(report, "output", "");
            Err(concat2("config validation failed: ", out.as_str()))
        },
    }
}

/// The payload once the configuration is written and the reload attempted.
pub open spec fn applied_spec(b: BackendView, config_path: Seq<char>, reloaded: bool) -> JsonView {
    JsonView::Object(
        seq![
            ("status"@, JsonView::Str("applied"@)),
            ("configPath"@, JsonView::Str(config_path)),
            ("backend"@, JsonView::Str(b.binary)),
            ("reloaded"@, JsonView::Bool(reloaded)),
        ],
    )
}

pub fn apply(backend: &Backend, config_path: &str, reloaded: bool) -> (r: JsonValue)
    ensures
        r@ == applied_spec(backend@, config_path@, reloaded),
{
    let fs = vec![
        field("status", jstr("applied")),
        field("configPath", jstr(config_path)),
        field("backend", jstr(backend.binary.as_str())),
        field("reloaded", JsonValue::Bool(reloaded)),
    ];
    let r = object(fs);
    assert(fields_view(fs@) =~= seq![
        ("status"@, JsonView::Str("applied"@)),
        ("configPath"@, JsonView::Str(config_path@)),
        ("backend"@, JsonView::Str(backend@.binary)),
        ("reloaded"@, JsonView::Bool(reloaded)),
    ]);
    r
}

/// The `systemctl` arguments that reload the server.
pub fn reload_command(backend: &Backend) -> (r: Vec<String>)
    ensures
        string_views(r@) == seq!["reload-or-restart"@, backend@.service],
{
    let r = vec![owned("reload-or-restart"), owned(backend.service.as_str())];
    assert(string_views(r@) =~= seq!["reload-or-restart"@, backend@.service]);
    r
}

} // verus!
