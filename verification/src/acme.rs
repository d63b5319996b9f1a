//! Certificates through the `lego` ACME client: what a request asks for, the
//! command that serves it, where the files land, and what is reported.

use vstd::prelude::*;
use crate::config::opt_chars;
use crate::json::{
    JsonValue, JsonView, field, fields_view, get_str, get_str_or, get_string, get_string_list,
    get_string_or, get_strings, jopt_string, jstr, object, opt_str_view, string_views,
};
use crate::text::{chars_of, concat2, owned, str_eq, strip_prefix, strip_prefix_spec, string_of, trim, trim_spec};

verus! {

/// A certificate request: the domains (the first is the primary one), the
/// account email (empty for none), the challenge type, the directory of
/// lego's files, the ACME server, the DNS provider and its environment for a
/// `dns-01` challenge, and whether it renews an existing certificate.
#[derive(Debug, PartialEq)]
pub struct CertRequest {
    pub domains: Vec<String>,
    pub email: String,
    pub challenge: String,
    pub base: String,
    pub server: Option<String>,
    pub dns_provider: Option<String>,
    pub dns_env: Vec<(String, String)>,
    pub renew: bool,
}

pub struct CertRequestView {
    pub domains: Seq<Seq<char>>,
    pub email: Seq<char>,
    pub challenge: Seq<char>,
    pub base: Seq<char>,
    pub server: Option<Seq<char>>,
    pub dns_provider: Option<Seq<char>>,
    pub dns_env: Seq<(Seq<char>, Seq<char>)>,
    pub renew: bool,
}

/// The views of pairs of strings.
pub open spec fn pairs_view(v: Seq<(String, String)>) -> Seq<(Seq<char>, Seq<char>)> {
    v.map_values(|e: (String, String)| (e.0@, e.1@))
}

impl View for CertRequest {
    type V = CertRequestView;

    open spec fn view(&self) -> CertRequestView {
        CertRequestView {
            domains: string_views(self.domains@),
            email: self.email@,
            challenge: self.challenge@,
            base: self.base@,
            server: opt_chars(self.server),
            dns_provider: opt_chars(self.dns_provider),
            dns_env: pairs_view(self.dns_env@),
            renew: self.renew,
        }
    }
}

/// The members of an object whose values are strings, in order.
pub open spec fn string_members(fs: Seq<(Seq<char>, JsonView)>) -> Seq<(Seq<char>, Seq<char>)>
    decreases fs.len(),
{
    if fs.len() == 0 {
        seq![]
    } else {
        string_members(fs.drop_last()) + match fs.last().1 {
            JsonView::Str(s) => seq![(fs.last().0, s)],
            _ => seq![],
        }
    }
}

/// The string members of the object `dnsEnv`; none when it is not an object.
pub open spec fn dns_env_spec(p: JsonView) -> Seq<(Seq<char>, Seq<char>)> {
    match p.get("dnsEnv"@) {
        Some(JsonView::Object(fs)) => string_members(fs),
        _ => seq![],
    }
}

/// The request that a payload makes, or why it cannot be served: lego is not
/// installed, or no domain is given. The challenge defaults to `http-01` and
/// the directory to `/etc/ports-agent/certs`.
pub open spec fn request_spec(p: JsonView, lego_installed: bool, renew: bool) -> Result<CertRequestView, Seq<char>> {
    if !lego_installed {
        Err("lego is not installed"@)
    } else if get_strings(p, "domains"@).len() == 0 {
        Err("no domains provided"@)
    } else {
        Ok(
            CertRequestView {
                domains: get_strings(p, "domains"@),
                email: get_str_or(p, "email"@, ""@),
                challenge: get_str_or(p, "challengeType"@, "http-01"@),
                base: get_str_or(p, "path"@, "/etc/ports-agent/certs"@),
                server: get_str(p, "server"@),
                dns_provider: get_str(p, "dnsProvider"@),
                dns_env: dns_env_spec(p),
                renew,
            },
        )
    }
}

fn dns_env_of(payload: &JsonValue) -> (r: Vec<(String, String)>)
    ensures
        pairs_view(r@) == dns_env_spec(payload@),
{
    let mut r: Vec<(String, String)> = Vec::new();
    match payload.get("dnsEnv") {
        Some(JsonValue::Object(fields)) => {
            let ghost fv = fields_view(fields@);
            proof {
                crate::json::lemma_object_view(*fields);
            }
            let n = fields.len();
            let mut i: usize = 0;
            assert(pairs_view(r@) =~= string_members(fv.subrange(0, 0)));
            while i < n
                invariant
                    n == fields@.len(),
                    fv == fields_view(fields@),
                    i <= n,
                    pairs_view(r@) == string_members(fv.subrange(0, i as int)),
                decreases n - i,
            {
                assert(fv.subrange(0, i + 1).drop_last() =~= fv.subrange(0, i as int));
                match &fields[i].value {
                    JsonValue::Str(s) => {
                        r.push((owned(fields[i].key.as_str()), owned(s.as_str())));
                        assert(pairs_view(r@) =~= pairs_view(r@.drop_last()) + seq![(fv[i as int].0, s@)]);
                    },
                    _ => {},
                }
                i = i + 1;
            }
            assert(fv.subrange(0, n as int) =~= fv);
            r
        },
        _ => {
            assert(pairs_view(r@) =~= Seq::<(Seq<char>, Seq<char>)>::empty());
            r
        },
    }
}

fn request(payload: &JsonValue, lego_installed: bool, renew: bool) -> (r: Result<CertRequest, String>)
    ensures
        match r {
            Ok(q) => request_spec(payload@, lego_installed, renew) == Ok::<CertRequestView, Seq<char>>(q@),
            Err(e) => request_spec(payload@, lego_installed, renew) == Err::<CertRequestView, Seq<char>>(e@),
        },
{
    if !lego_installed {
        return Err(owned("lego is not installed"));
    }
    let domains = get_string_list(payload, "domains");
    if domains.len() == 0 {
        return Err(owned("no domains provided"));
    }
    Ok(CertRequest {
        domains,
        email: get_string_or(payload, "email", ""),
        challenge: get_string_or(payload, "challengeType", "http-01"),
        base: get_string_or(payload, "path", "/etc/ports-agent/certs"),
        server: get_string(payload, "server"),
        dns_provider: get_string(payload, "dnsProvider"),
        dns_env: dns_env_of(payload),
        renew,
    })
}

/// A request to issue a certificate; `lego_installed` says whether the `lego`
/// binary was found.
pub fn issue(payload: &JsonValue, lego_installed: bool) -> (r: Result<CertRequest, String>)
    ensures
        match r {
            Ok(q) => request_spec(payload@, lego_installed, false) == Ok::<CertRequestView, Seq<char>>(q@),
            Err(e) => request_spec(payload@, lego_installed, false) == Err::<CertRequestView, Seq<char>>(e@),
        },
{
    request(payload, lego_installed, false)
}

/// A request to renew a certificate; `lego_installed` says whether the `lego`
/// binary was found.
pub fn renew(payload: &JsonValue, lego_installed: bool) -> (r: Result<CertRequest, String>)
    ensures
        match r {
            Ok(q) => request_spec(payload@, lego_installed, true) == Ok::<CertRequestView, Seq<char>>(q@),
            Err(e) => request_spec(payload@, lego_installed, true) == Err::<CertRequestView, Seq<char>>(e@),
        },
{
    request(payload, lego_installed, true)
}

/// `--domains d` for each domain, in order.
pub open spec fn domain_args(ds: Seq<Seq<char>>) -> Seq<Seq<char>>
    decreases ds.len(),
{
    if ds.len() == 0 {
        seq![]
    } else {
        domain_args(ds.drop_last()) + seq!["--domains"@, ds.last()]
    }
}

/// The arguments of `lego` before the challenge.
pub open spec fn common_args(q: CertRequestView) -> Seq<Seq<char>> {
    seq!["--accept-tos"@]
        + (if q.email.len() > 0 { seq!["--email"@, q.email] } else { seq![] })
        + seq!["--path"@, q.base]
        + domain_args(q.domains)
        + match q.server {
            Some(s) => seq!["--server"@, s],
            None => seq![],
        }
}

/// The verb that ends the command.
pub open spec fn verb(renew: bool) -> Seq<char> {
    if renew { "renew"@ } else { "run"@ }
}

/// The invocation of `lego`: its arguments and the environment it is given.
#[derive(Debug, PartialEq)]
pub struct LegoCommand {
    pub args: Vec<String>,
    pub env: Vec<(String, String)>,
}

pub struct LegoCommandView {
    pub args: Seq<Seq<char>>,
    pub env: Seq<(Seq<char>, Seq<char>)>,
}

impl View for LegoCommand {
    type V = LegoCommandView;

    open spec fn view(&self) -> LegoCommandView {
        LegoCommandView { args: string_views(self.args@), env: pairs_view(self.env@) }
    }
}

/// The command for a request: a `dns-01` challenge goes through the named DNS
/// provider, with the request's environment, and is refused without one;
/// any other challenge is answered over HTTP on port 80.
pub open spec fn lego_command_spec(q: CertRequestView) -> Result<LegoCommandView, Seq<char>> {
    if q.challenge == "dns-01"@ {
        match q.dns_provider {
            None => Err("dns provider required for dns-01"@),
            Some(p) => Ok(
                LegoCommandView {
                    args: common_args(q) + seq!["--dns"@, p] + seq![verb(q.renew)],
                    env: q.dns_env,
                },
            ),
        }
    } else {
        Ok(
            LegoCommandView {
                args: common_args(q) + seq!["--http"@, "--http.port"@, ":80"@] + seq![verb(q.renew)],
                env: seq![],
            },
        )
    }
}

fn push_str(v: &mut Vec<String>, s: &str)
    ensures
        string_views(final(v)@) == string_views(old(v)@).push(s@),
{
    v.push(owned(s));
    assert(string_views(v@) =~= string_views(old(v)@).push(s@));
}

fn copy_pairs(v: &Vec<(String, String)>) -> (r: Vec<(String, String)>)
    ensures
        pairs_view(r@) == pairs_view(v@),
{
    let mut r: Vec<(String, String)> = Vec::new();
    let n = v.len();
    let mut i: usize = 0;
    while i < n
        invariant
            n == v@.len(),
            i <= n,
            r@.len() == i,
            forall|k: int| 0 <= k < i ==> (#[trigger] r@[k]).0@ == v@[k].0@ && r@[k].1@ == v@[k].1@,
        decreases n - i,
    {
        r.push((owned(v[i].0.as_str()), owned(v[i].1.as_str())));
        i = i + 1;
    }
    assert(pairs_view(r@) =~= pairs_view(v@));
    r
}

pub fn lego_command(req: &CertRequest) -> (r: Result<LegoCommand, String>)
    ensures
        match r {
            Ok(c) => lego_command_spec(req@) == Ok::<LegoCommandView, Seq<char>>(c@),
            Err(e) => lego_command_spec(req@) == Err::<LegoCommandView, Seq<char>>(e@),
        },
{
    let ghost q = req@;
    let mut args: Vec<String> = Vec::new();
    push_str(&mut args, "--accept-tos");
    assert(string_views(args@) =~= seq!["--accept-tos"@]);
    if !req.email.as_str().is_empty() {
        push_str(&mut args, "--email");
        push_str(&mut args, req.email.as_str());
    }
    assert(string_views(args@) =~= seq!["--accept-tos"@] + (if q.email.len() > 0 { seq!["--email"@, q.email] } else { seq![] }));
    push_str(&mut args, "--path");
    push_str(&mut args, req.base.as_str());
    let ghost head = string_views(args@);
    assert(head =~= seq!["--accept-tos"@] + (if q.email.len() > 0 { seq!["--email"@, q.email] } else { seq![] })
        + seq!["--path"@, q.base]);
    let n = req.domains.len();
    let mut i: usize = 0;
    assert(domain_args(q.domains.subrange(0, 0)) =~= Seq::<Seq<char>>::empty());
    assert(head + domain_args(q.domains.subrange(0, 0)) =~= head);
    while i < n
        invariant
            n == req.domains@.len(),
            q == req@,
            i <= n,
            string_views(args@) == head + domain_args(q.domains.subrange(0, i as int)),
        decreases n - i,
    {
        assert(q.domains.subrange(0, i + 1).drop_last() =~= q.domains.subrange(0, i as int));
        push_str(&mut args, "--domains");
        push_str(&mut args, req.domains[i].as_str());
        assert(string_views(args@) =~= head + domain_args(q.domains.subrange(0, i + 1)));
        i = i + 1;
    }
    assert(q.domains.subrange(0, n as int) =~= q.domains);
    match &req.server {
        Some(s) => {
            push_str(&mut args, "--server");
            push_str(&mut args, s.as_str());
        },
        None => {},
    }
    assert(string_views(args@) =~= common_args(q));
    let verb_text = if req.renew { "renew" } else { "run" };
    if str_eq(req.challenge.as_str(), "dns-01") {
        match &req.dns_provider {
            None => Err(owned("dns provider required for dns-01")),
            Some(p) => {
                push_str(&mut args, "--dns");
                push_str(&mut args, p.as_str());
                push_str(&mut args, verb_text);
                assert(string_views(args@) =~= common_args(q) + seq!["--dns"@, p@] + seq![verb(q.renew)]);
                Ok(LegoCommand { args, env: copy_pairs(&req.dns_env) })
            },
        }
    } else {
        push_str(&mut args, "--http");
        push_str(&mut args, "--http.port");
        push_str(&mut args, ":80");
        push_str(&mut args, verb_text);
        assert(string_views(args@) =~= common_args(q) + seq!["--http"@, "--http.port"@, ":80"@] + seq![verb(q.renew)]);
        let env: Vec<(String, String)> = Vec::new();
        assert(pairs_view(env@) =~= Seq::<(Seq<char>, Seq<char>)>::empty());
        Ok(LegoCommand { args, env })
    }
}

/// The error when `lego` exits with a failure: its standard error, trimmed.
pub fn lego_failure(stderr: &str) -> (r: String)
    ensures
        r@ == "lego failed: "@ + trim_spec(stderr@),
{
    let t = crate::text::trim_str(stderr);
    concat2("lego failed: ", t.as_str())
}

/// The files of an issued certificate: lego writes the certificate and key
/// under `{base}/certificates/{primary}`; the agent writes their
/// concatenation, for HAProxy, to `{base}/{primary}/haproxy.pem`.
#[derive(Debug, PartialEq)]
pub struct CertFiles {
    pub cert_path: String,
    pub key_path: String,
    pub domain_dir: String,
    pub haproxy_pem: String,
}

pub struct CertFilesView {
    pub cert_path: Seq<char>,
    pub key_path: Seq<char>,
    pub domain_dir: Seq<char>,
    pub haproxy_pem: Seq<char>,
}

impl View for CertFiles {
    type V = CertFilesView;

    open spec fn view(&self) -> CertFilesView {
        CertFilesView {
            cert_path: self.cert_path@,
            key_path: self.key_path@,
            domain_dir: self.domain_dir@,
            haproxy_pem: self.haproxy_pem@,
        }
    }
}

pub open spec fn cert_files_spec(q: CertRequestView) -> CertFilesView {
    let primary = q.domains[0];
    let domain_dir = q.base + "/"@ + primary;
    CertFilesView {
        cert_path: q.base + "/certificates/"@ + primary + ".crt"@,
        key_path: q.base + "/certificates/"@ + primary + ".key"@,
        domain_dir,
        haproxy_pem: domain_dir + "/haproxy.pem"@,
    }
}

fn join3(a: &str, b: &str, c: &str) -> (r: String)
    ensures
        r@ == a@ + b@ + c@,
{
    let mut r = concat2(a, b);
    r.append(c);
    r
}

pub fn cert_files(req: &CertRequest) -> (r: CertFiles)
    requires
        req@.domains.len() > 0,
    ensures
        r@ == cert_files_spec(req@),
{
    let primary = req.domains[0].as_str();
    let certs = concat2(req.base.as_str(), "/certificates/");
    let cert_path = join3(certs.as_str(), primary, ".crt");
    let key_path = join3(certs.as_str(), primary, ".key");
    let domain_dir = join3(req.base.as_str(), "/", primary);
    let haproxy_pem = concat2(domain_dir.as_str(), "/haproxy.pem");
    CertFiles { cert_path, key_path, domain_dir, haproxy_pem }
}

/// The contents of the HAProxy bundle: the certificate, then the key.
pub fn pem_bundle(crt: &str, key: &str) -> (r: String)
    ensures
        r@ == crt@ + key@,
{
    concat2(crt, key)
}

/// The expiry date that `openssl x509 -enddate -noout` printed: its output,
/// trimmed, after `notAfter=`. Nothing when openssl is not installed, did not
/// succeed, or printed something else.
pub open spec fn cert_expiry_spec(openssl_installed: bool, success: bool, stdout: Seq<char>) -> Option<Seq<char>> {
    if !openssl_installed || !success {
        None
    } else {
        strip_prefix_spec(trim_spec(stdout), "notAfter="@)
    }
}

pub fn cert_expiry(openssl_installed: bool, success: bool, stdout: &str) -> (r: Option<String>)
    ensures
        opt_chars(r) == cert_expiry_spec(openssl_installed, success, stdout@),
{
    if !openssl_installed || !success {
        return None;
    }
    let t = trim(chars_of(stdout).as_slice());
    let p = chars_of("notAfter=");
    match strip_prefix(t.as_slice(), p.as_slice()) {
        Some(rest) => Some(string_of(rest.as_slice())),
        None => None,
    }
}

/// The report of an issued or renewed certificate.
pub open spec fn issued_spec(f: CertFilesView, expires: Option<Seq<char>>) -> JsonView {
    JsonView::Object(
        seq![
            ("certPath"@, JsonView::Str(f.cert_path)),
            ("keyPath"@, JsonView::Str(f.key_path)),
            ("haproxyPemPath"@, JsonView::Str(f.haproxy_pem)),
            ("issuer"@, JsonView::Str("lego"@)),
            ("expiresAt"@, opt_str_view(expires)),
        ],
    )
}

pub fn issued(files: &CertFiles, expires: Option<String>) -> (r: JsonValue)
    ensures
        r@ == issued_spec(files@, opt_chars(expires)),
{
    let ghost e = opt_chars(expires);
    let fs = vec![
        field("certPath", jstr(files.cert_path.as_str())),
        field("keyPath", jstr(files.key_path.as_str())),
        field("haproxyPemPath", jstr(files.haproxy_pem.as_str())),
        field("issuer", jstr("lego")),
        field("expiresAt", jopt_string(expires)),
    ];
    let r = object(fs);
    assert(fields_view(fs@) =~= seq![
        ("certPath"@, JsonView::Str(files@.cert_path)),
        ("keyPath"@, JsonView::Str(files@.key_path)),
        ("haproxyPemPath"@, JsonView::Str(files@.haproxy_pem)),
        ("issuer"@, JsonView::Str("lego"@)),
        ("expiresAt"@, opt_str_view(e)),
    ]);
    r
}

/// The files of a granted request are named after the first domain the
/// payload asks for, inside the payload's `path` (by default
/// `/etc/ports-agent/certs`): the certificate and key under
/// `certificates/`, the HAProxy bundle in the domain's own directory; the
/// other domains play no part in the names.
pub proof fn law_files_named_after_first_domain(p: JsonView, lego_installed: bool, renew: bool)
    ensures
        request_spec(p, lego_installed, renew) matches Ok(q) ==> {
            let base = get_str_or(p, "path"@, "/etc/ports-agent/certs"@);
            let first = get_strings(p, "domains"@)[0];
            let f = cert_files_spec(q);
            &&& get_strings(p, "domains"@).len() > 0
            &&& f.cert_path == base + "/certificates/"@ + first + ".crt"@
            &&& f.key_path == base + "/certificates/"@ + first + ".key"@
            &&& f.domain_dir == base + "/"@ + first
            &&& f.haproxy_pem == base + "/"@ + first + "/haproxy.pem"@
            &&& cert_files_spec(CertRequestView { domains: seq![first], ..q }) == f
        },
{
}

} // verus!
