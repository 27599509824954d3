//! The report and the verdict of a whole check.

use tg_check::config::{
    listener_probe_host, listener_probe_secret, proxy_kind, Config, MtProtoProxy,
};
use tg_check::report::{
    begin_probe, run_check, run_check_with_outbound, CheckAction, CheckEvent, CheckRun, Probe,
};
use tg_check::status::{Elapsed, ProbeStatus};
use tg_check::text::{decimal_string, padded_string, signed_decimal_string};

const RULE: &str = "============================================================";

fn config() -> Config {
    Config {
        cf_domains: vec![],
        cf_worker_domains: vec![],
        mtproto_proxies: vec![],
        check_listener: false,
        bind_host: "0.0.0.0".to_string(),
        port: 1443,
        normalized_secrets: vec![],
        normalized_listen_faketls_domain: None,
        cf_connect_timeout: 10,
        upstream_connect_timeout: 11,
        handshake_timeout: 12,
        skip_tls_verify: false,
        cf_disable_tls: false,
    }
}

fn pass(millis: u64) -> ProbeStatus {
    ProbeStatus::Pass(Elapsed {
        secs: millis / 1000,
        nanos: (millis % 1000) as u32 * 1_000_000,
    })
}

/// Carries a check through, answering its probes with `statuses`.
fn carry_through(run: CheckRun, statuses: Vec<ProbeStatus>) -> (String, String, bool) {
    let mut run = run;
    let mut answers = statuses.into_iter();
    let mut printed = String::new();
    let mut warned = String::new();
    loop {
        let event = match run.action() {
            CheckAction::Print(text) => {
                printed.push_str(&text);
                CheckEvent::Printed
            }
            CheckAction::Warn(text) => {
                warned.push_str(&text);
                CheckEvent::Printed
            }
            CheckAction::Probe(_) => CheckEvent::Probed(answers.next().unwrap()),
            CheckAction::Finish(passed) => {
                assert!(answers.next().is_none());
                return (printed, warned, passed);
            }
        };
        run = run.handle(event);
    }
}

#[test]
fn markers_and_details() {
    let ok = pass(1234);
    assert_eq!(ok.marker(), "OK ");
    assert_eq!(ok.detail(), "1234ms");
    assert!(ok.is_ok());
    assert_eq!(ok.line(), "[OK ]  1234ms\n");

    let failed = ProbeStatus::Fail("no route".to_string());
    assert_eq!(failed.marker(), "FAIL");
    assert_eq!(failed.detail(), "no route");
    assert!(!failed.is_ok());
    assert_eq!(failed.line(), "[FAIL]  no route\n");
}

#[test]
fn milliseconds_are_rounded_down() {
    let elapsed = Elapsed {
        secs: 0,
        nanos: 999_999,
    };
    assert_eq!(elapsed.as_millis(), 0);
    let longest = Elapsed {
        secs: u64::MAX,
        nanos: 999_999_999,
    };
    assert_eq!(
        longest.as_millis(),
        std::time::Duration::new(u64::MAX, 999_999_999).as_millis()
    );
    assert_eq!(
        ProbeStatus::Pass(longest).detail(),
        "18446744073709551615999ms"
    );
}

#[test]
fn numbers_and_labels() {
    for n in [0u128, 7, 10, 99, 100, 65535, u64::MAX as u128, u128::MAX] {
        assert_eq!(decimal_string(n), n.to_string());
    }
    for n in [0i32, 404, -404, -1, i32::MIN, i32::MAX] {
        assert_eq!(signed_decimal_string(n), n.to_string());
    }
    for label in ["", "abc", "grün", "exactly-forty-characters-long-label-12345", "x"] {
        assert_eq!(padded_string(label, 40), format!("{:40}", label));
    }
}

#[test]
fn a_wildcard_is_reached_on_loopback() {
    let mut c = config();
    assert_eq!(listener_probe_host(&c), "127.0.0.1");
    c.bind_host = "::".to_string();
    assert_eq!(listener_probe_host(&c), "127.0.0.1");
    c.bind_host = "192.168.1.7".to_string();
    assert_eq!(listener_probe_host(&c), "192.168.1.7");
    c.bind_host = "::1".to_string();
    assert_eq!(listener_probe_host(&c), "::1");
    c.bind_host = "".to_string();
    assert_eq!(listener_probe_host(&c), "");
}

fn proxy(secret: &str) -> MtProtoProxy {
    MtProtoProxy {
        host: "p.example".to_string(),
        port: 443,
        secret: secret.to_string(),
        secret_key: vec![],
        faketls_hostname: None,
    }
}

#[test]
fn the_first_secret_byte_tells_the_kind() {
    for (secret, kind) in [
        ("ee0011", "FakeTLS"),
        ("EE0011", "FakeTLS"),
        ("eE", "FakeTLS"),
        ("dd0011", "padded"),
        ("Dd", "padded"),
        ("0011ee", "plain"),
        ("ed", "plain"),
        ("de", "plain"),
        ("e", "plain"),
        ("", "plain"),
        ("zz", "plain"),
        ("+e", "plain"),
        ("eé", "plain"),
        ("é0", "plain"),
        ("99", "plain"),
    ] {
        assert_eq!(proxy_kind(&proxy(secret)), kind, "{}", secret);
    }
}

#[test]
fn a_key_has_sixteen_bytes() {
    let mut c = config();
    assert!(listener_probe_secret(&c).is_none());
    c.normalized_secrets = vec![vec![1; 15], vec![2; 16]];
    assert!(listener_probe_secret(&c).is_none());
    c.normalized_secrets = vec![vec![3; 16], vec![2; 16]];
    assert_eq!(listener_probe_secret(&c), Some(&vec![3; 16]));
}

#[test]
fn nothing_to_check_passes() {
    let c = config();
    let (printed, warned, passed) = carry_through(run_check_with_outbound(&c), vec![]);
    assert_eq!(
        printed,
        format!(
            "{RULE}\n  tg-ws-proxy connectivity check\n{RULE}\n\n  Nothing to check.\n  Configure --cf-domain, --cf-worker-domain, --mtproto-proxy and/or --check-listener and re-run.\n{RULE}\n"
        )
    );
    assert_eq!(warned, "");
    assert!(passed);
}

#[test]
fn a_bad_outbound_configuration_fails() {
    let c = config();
    let run = run_check(&c, Err("bad scheme".to_string()));
    let (printed, warned, passed) = carry_through(run, vec![]);
    assert_eq!(printed, "");
    assert_eq!(warned, "Invalid outbound proxy configuration: bad scheme\n");
    assert!(!passed);
}

fn full_config() -> Config {
    let mut c = config();
    c.cf_domains = vec!["a.example".to_string(), "b.example".to_string()];
    c.cf_worker_domains = vec!["w.example".to_string()];
    c.mtproto_proxies = vec![proxy("ee00"), proxy("11")];
    c.check_listener = true;
    c.normalized_secrets = vec![vec![0x11; 16]];
    c
}

#[test]
fn a_full_report() {
    let c = full_config();
    let statuses = vec![
        pass(1),
        ProbeStatus::Fail("down".to_string()),
        pass(22),
        pass(333),
        pass(4444),
        pass(5),
    ];
    let (printed, warned, passed) = carry_through(run_check(&c, Ok(())), statuses);
    let expected = format!(
        "{RULE}\n  tg-ws-proxy connectivity check\n{RULE}\n\
         \nCloudflare proxy domains (DC2 WebSocket probe):\n\
         \x20 {:40}  ... [OK ]  1ms\n\
         \x20 {:40}  ... [FAIL]  down\n\
         \nCloudflare Worker domains (DC2 TCP tunnel probe):\n\
         \x20 {:40}  ... [OK ]  22ms\n\
         \nUpstream MTProto proxies:\n\
         \x20 {:40}  ... [OK ]  333ms\n\
         \x20 {:40}  ... [OK ]  4444ms\n\
         \nOwn listener (end-to-end MTProto probe):\n\
         \x20 {:40}  ... [OK ]  5ms\n\
         \n{RULE}\n  Result: one or more checks FAILED\n{RULE}\n",
        "kws2.a.example",
        "kws2.b.example",
        "w.example",
        "p.example:443  [FakeTLS]",
        "p.example:443  [plain]",
        "127.0.0.1:1443",
    );
    assert_eq!(printed, expected);
    assert_eq!(warned, "");
    assert!(!passed);
}

#[test]
fn a_check_passes_exactly_where_every_probe_does() {
    let c = full_config();
    let all: Vec<ProbeStatus> = (0..6).map(pass).collect();
    let (printed, _, passed) = carry_through(run_check(&c, Ok(())), all);
    assert!(passed);
    assert!(printed.ends_with(&format!("\n{RULE}\n  Result: all checks passed\n{RULE}\n")));
    for at in 0..6 {
        let mut statuses: Vec<ProbeStatus> = (0..6).map(pass).collect();
        statuses[at] = ProbeStatus::Fail("x".to_string());
        let (_, _, passed) = carry_through(run_check(&c, Ok(())), statuses);
        assert!(!passed);
    }
}

#[test]
fn a_faketls_listener_is_skipped() {
    let mut c = config();
    c.check_listener = true;
    c.normalized_listen_faketls_domain = Some("front.example".to_string());
    let (printed, _, passed) = carry_through(run_check(&c, Ok(())), vec![]);
    assert!(printed.contains(
        "  ... [SKIP]  FakeTLS listener: this probe speaks the plain transport\n"
    ));
    assert!(passed);
}

#[test]
fn a_missing_secret_fails() {
    let mut c = config();
    c.check_listener = true;
    let (printed, _, passed) = carry_through(run_check(&c, Ok(())), vec![]);
    assert!(printed.contains(
        "  ... [FAIL]  no --secret to probe with — pass the one the proxy serves\n"
    ));
    assert!(printed.contains("Result: one or more checks FAILED"));
    assert!(!passed);
}

#[test]
fn every_target_is_probed_in_order() {
    let c = full_config();
    let mut run = run_check(&c, Ok(()));
    let mut seen: Vec<String> = vec![];
    loop {
        let event = match run.action() {
            CheckAction::Probe(target) => {
                seen.push(match begin_probe(target, Some("1.2.3.4")) {
                    Probe::CfDomain(p) => format!("domain {} {}", p.domain, p.timeout_secs),
                    Probe::CfWorker(p) => format!("worker {} {}", p.domain, p.timeout_secs),
                    Probe::Proxy(p) => format!("proxy {} {}", p.proxy.secret, p.timeout_secs),
                    Probe::Listener(p) => {
                        format!("listener {}:{} {} {}", p.host, p.port, p.dc_idx, p.timeout_secs)
                    }
                });
                CheckEvent::Probed(pass(1))
            }
            CheckAction::Finish(_) => break,
            _ => CheckEvent::Printed,
        };
        run = run.handle(event);
    }
    assert_eq!(
        seen,
        vec![
            "domain a.example 10",
            "domain b.example 10",
            "worker w.example 10",
            "proxy ee00 11",
            "proxy 11 11",
            "listener 127.0.0.1:1443 2 12",
        ]
    );
}
