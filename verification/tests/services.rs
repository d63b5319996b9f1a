use ports_agent::acme::{cert_expiry, cert_files, issue, issued, lego_command, lego_failure, pem_bundle, renew};
use ports_agent::backup::{backup_dir, copies, create, restore, restored, stored_path};
use ports_agent::coredns;
use ports_agent::dhcp::{self, backend_for, check_validation, reload_command, temp_config_path, test_command, validate, TestOutcome};
use ports_agent::json::{JsonField, JsonNumber, JsonValue};
use ports_agent::tailscale;

fn s(x: &str) -> JsonValue {
    JsonValue::Str(x.to_string())
}

fn n(x: u64) -> JsonValue {
    JsonValue::Number(JsonNumber::PosInt(x))
}

fn obj(fs: Vec<(&str, JsonValue)>) -> JsonValue {
    JsonValue::Object(fs.into_iter().map(|(k, v)| JsonField { key: k.to_string(), value: v }).collect())
}

fn words(v: &[&str]) -> Vec<String> {
    v.iter().map(|w| w.to_string()).collect()
}

#[test]
fn dhcp_backend_selection() {
    let kea = backend_for("kea");
    assert_eq!(kea.binary, "kea-dhcp4");
    assert_eq!(kea.test_args, words(&["-t"]));
    assert_eq!(kea.service, "kea-dhcp4");
    let other = backend_for("anything");
    assert_eq!(other.binary, "dnsmasq");
    assert_eq!(other.test_args, words(&["--test", "--conf-file"]));
    assert_eq!(other.suffix, "conf");
}

#[test]
fn dhcp_temp_path_and_command() {
    let b = backend_for("dnsmasq");
    let tmp = temp_config_path(&b, 4242);
    assert_eq!(tmp, "/tmp/ports-dnsmasq-4242.conf");
    assert_eq!(test_command(&b, &tmp), words(&["--test", "--conf-file", "/tmp/ports-dnsmasq-4242.conf"]));
    assert_eq!(reload_command(&b), words(&["reload-or-restart", "dnsmasq"]));
}

#[test]
fn dhcp_validation_reports() {
    let b = backend_for("kea");
    assert_eq!(
        validate(&b, TestOutcome::NotInstalled),
        obj(vec![("valid", JsonValue::Bool(false)), ("output", s("kea-dhcp4 is not installed"))])
    );
    assert_eq!(
        validate(&b, TestOutcome::WriteFailed),
        obj(vec![("valid", JsonValue::Bool(false)), ("output", s("failed to write temporary config"))])
    );
    assert_eq!(
        validate(&b, TestOutcome::Finished { success: true, stdout: "\nsyntax ok".to_string(), stderr: "\n".to_string() }),
        obj(vec![("valid", JsonValue::Bool(true)), ("output", s("syntax ok"))])
    );
    assert_eq!(
        validate(&b, TestOutcome::SpawnFailed("No such file".to_string())),
        obj(vec![("valid", JsonValue::Bool(false)), ("output", s("kea-dhcp4 test failed: No such file"))])
    );
    assert_eq!(
        dhcp::plan("dnsmasq", TestOutcome::NotInstalled),
        obj(vec![("valid", JsonValue::Bool(false)), ("output", s("dnsmasq is not installed"))])
    );
}

#[test]
fn dhcp_apply_gate() {
    let ok = obj(vec![("valid", JsonValue::Bool(true)), ("output", s(""))]);
    assert_eq!(check_validation(&ok), Ok(()));
    let bad = obj(vec![("valid", JsonValue::Bool(false)), ("output", s("line 3: bad option"))]);
    assert_eq!(check_validation(&bad), Err("config validation failed: line 3: bad option".to_string()));
    assert_eq!(check_validation(&JsonValue::Null), Err("config validation failed: ".to_string()));
    let b = backend_for("kea");
    assert_eq!(
        dhcp::apply(&b, "/etc/kea/kea-dhcp4.conf", true),
        obj(vec![
            ("status", s("applied")),
            ("configPath", s("/etc/kea/kea-dhcp4.conf")),
            ("backend", s("kea-dhcp4")),
            ("reloaded", JsonValue::Bool(true)),
        ])
    );
}

#[test]
fn coredns_plan_and_apply() {
    assert_eq!(
        coredns::plan(".:53 {}", false),
        obj(vec![("valid", JsonValue::Bool(false)), ("output", s("coredns is not installed"))])
    );
    assert_eq!(
        coredns::plan(".:53 {}", true),
        obj(vec![("valid", JsonValue::Bool(true)), ("output", s("coredns present"))])
    );
    let p = obj(vec![("corefilePath", s("/etc/coredns/Corefile")), ("zoneName", s("lan")), ("zonefile", s("$ORIGIN lan."))]);
    let u = coredns::apply(&p).unwrap();
    assert_eq!(u.zones_dir, "/etc/coredns/zones");
    assert_eq!(u.zone_path, "/etc/coredns/zones/lan.db");
    assert_eq!(u.corefile, "");
    assert_eq!(u.zonefile, "$ORIGIN lan.");
    assert_eq!(
        coredns::applied(&u, false),
        obj(vec![
            ("status", s("applied")),
            ("corefilePath", s("/etc/coredns/Corefile")),
            ("zonePath", s("/etc/coredns/zones/lan.db")),
            ("reloaded", JsonValue::Bool(false)),
        ])
    );
    assert_eq!(coredns::apply(&obj(vec![("zoneName", s("lan"))])), Err("missing corefilePath or zoneName".to_string()));
    assert_eq!(coredns::reload_command(), words(&["reload-or-restart", "coredns"]));
}

#[test]
fn acme_request_errors() {
    let p = obj(vec![("domains", JsonValue::Array(vec![s("a.example")]))]);
    assert_eq!(issue(&p, false).unwrap_err(), "lego is not installed");
    assert_eq!(issue(&obj(vec![]), true).unwrap_err(), "no domains provided");
    assert_eq!(renew(&obj(vec![("domains", JsonValue::Array(vec![n(1)]))]), true).unwrap_err(), "no domains provided");
}

#[test]
fn acme_http_command() {
    let p = obj(vec![
        ("domains", JsonValue::Array(vec![s("a.example"), s("b.example")])),
        ("email", s("ops@example")),
        ("server", s("https://acme.test/dir")),
    ]);
    let q = issue(&p, true).unwrap();
    assert_eq!(q.challenge, "http-01");
    assert_eq!(q.base, "/etc/ports-agent/certs");
    let c = lego_command(&q).unwrap();
    assert_eq!(
        c.args,
        words(&[
            "--accept-tos", "--email", "ops@example", "--path", "/etc/ports-agent/certs", "--domains", "a.example",
            "--domains", "b.example", "--server", "https://acme.test/dir", "--http", "--http.port", ":80", "run",
        ])
    );
    assert!(c.env.is_empty());
}

#[test]
fn acme_dns_command() {
    let p = obj(vec![
        ("domains", JsonValue::Array(vec![s("a.example")])),
        ("challengeType", s("dns-01")),
        ("path", s("/srv/certs")),
        ("dnsProvider", s("cloudflare")),
        ("dnsEnv", obj(vec![("CF_DNS_API_TOKEN", s("SECRET-REDACTED")), ("IGNORED", n(5))])),
    ]);
    let q = renew(&p, true).unwrap();
    let c = lego_command(&q).unwrap();
    assert_eq!(
        c.args,
        words(&["--accept-tos", "--path", "/srv/certs", "--domains", "a.example", "--dns", "cloudflare", "renew"])
    );
    assert_eq!(c.env, vec![("CF_DNS_API_TOKEN".to_string(), "SECRET-REDACTED".to_string())]);
    let no_provider = obj(vec![("domains", JsonValue::Array(vec![s("a.example")])), ("challengeType", s("dns-01"))]);
    let q = issue(&no_provider, true).unwrap();
    assert_eq!(lego_command(&q).unwrap_err(), "dns provider required for dns-01");
}

#[test]
fn acme_files_and_report() {
    let p = obj(vec![("domains", JsonValue::Array(vec![s("a.example")])), ("path", s("/srv/certs"))]);
    let q = issue(&p, true).unwrap();
    let f = cert_files(&q);
    assert_eq!(f.cert_path, "/srv/certs/certificates/a.example.crt");
    assert_eq!(f.key_path, "/srv/certs/certificates/a.example.key");
    assert_eq!(f.domain_dir, "/srv/certs/a.example");
    assert_eq!(f.haproxy_pem, "/srv/certs/a.example/haproxy.pem");
    assert_eq!(pem_bundle("CERT\n", "KEY\n"), "CERT\nKEY\n");
    assert_eq!(lego_failure("  acme: error 403\n"), "lego failed: acme: error 403");
    let expiry = cert_expiry(true, true, "notAfter=Jan  1 00:00:00 2030 GMT\n");
    assert_eq!(expiry, Some("Jan  1 00:00:00 2030 GMT".to_string()));
    assert_eq!(cert_expiry(false, true, "notAfter=x"), None);
    assert_eq!(cert_expiry(true, false, "notAfter=x"), None);
    assert_eq!(cert_expiry(true, true, "garbage"), None);
    assert_eq!(
        issued(&f, expiry),
        obj(vec![
            ("certPath", s("/srv/certs/certificates/a.example.crt")),
            ("keyPath", s("/srv/certs/certificates/a.example.key")),
            ("haproxyPemPath", s("/srv/certs/a.example/haproxy.pem")),
            ("issuer", s("lego")),
            ("expiresAt", s("Jan  1 00:00:00 2030 GMT")),
        ])
    );
}

#[test]
fn backup_paths() {
    assert_eq!(backup_dir("dhcp", 1700000000), "/var/lib/ports/backups/dhcp/1700000000");
    assert_eq!(stored_path("/b", "/etc/dnsmasq.d/lan.conf"), "/b/__etc__dnsmasq.d__lan.conf");
    let paths = words(&["/etc/a", "/etc/b/c"]);
    let c = copies("/b", &paths);
    assert_eq!(c[1], ("/etc/b/c".to_string(), "/b/__etc__b__c".to_string()));
    let r = restore("/b", &paths);
    assert_eq!(r[0], ("/b/__etc__a".to_string(), "/etc/a".to_string()));
    assert_eq!(r[1].0, c[1].1);
    assert_eq!(restored(), obj(vec![("status", s("restored"))]));
}

#[test]
fn backup_report_keeps_last_size() {
    let paths = words(&["/etc/a", "/etc/a", "/etc/b"]);
    let copied = vec![("/etc/a".to_string(), 10u64), ("/etc/b".to_string(), 3u64), ("/etc/a".to_string(), 12u64)];
    let report = create("dhcp", "/var/lib/ports/backups/dhcp/1", &paths, &copied);
    assert_eq!(
        report,
        obj(vec![
            ("scope", s("dhcp")),
            ("remotePath", s("/var/lib/ports/backups/dhcp/1")),
            ("paths", JsonValue::Array(vec![s("/etc/a"), s("/etc/a"), s("/etc/b")])),
            (
                "checksums",
                obj(vec![("/etc/a", obj(vec![("size", n(12))])), ("/etc/b", obj(vec![("size", n(3))]))]),
            ),
        ])
    );
}

#[test]
fn tailscale_status_variants() {
    assert_eq!(tailscale::status(false, None), obj(vec![("installed", JsonValue::Bool(false))]));
    assert_eq!(
        tailscale::status(true, None),
        obj(vec![("installed", JsonValue::Bool(true)), ("error", s("tailscale status failed"))])
    );
    let parsed = obj(vec![
        ("MagicDNSSuffix", s("tail1234.ts.net")),
        (
            "Self",
            obj(vec![
                ("HostName", s("edge")),
                ("TailscaleIPs", JsonValue::Array(vec![s("100.64.0.1"), s("fd7a::1")])),
                ("Online", JsonValue::Bool(true)),
                ("DERP", s("127.3.3.40:1")),
            ]),
        ),
    ]);
    let st = tailscale::status(true, Some(&parsed));
    assert_eq!(
        st,
        obj(vec![
            ("installed", JsonValue::Bool(true)),
            ("tailnet", s("tail1234.ts.net")),
            ("hostname", s("edge")),
            ("tailscaleIpV4", s("100.64.0.1")),
            ("tailscaleIpV6", s("fd7a::1")),
            ("online", JsonValue::Bool(true)),
            ("derp", s("127.3.3.40:1")),
            ("raw", parsed.copy()),
        ])
    );
    let unparsed = tailscale::status(true, Some(&JsonValue::Null));
    match unparsed {
        JsonValue::Object(fs) => {
            assert_eq!(fs[1].value, JsonValue::Null);
            assert_eq!(fs[5].value, JsonValue::Bool(false));
            assert_eq!(fs[7].value, JsonValue::Null);
        }
        other => panic!("unexpected {other:?}"),
    }
}
