//! Each probe, taken through its exchange step by step.

use tg_check::cf_domain::{probe_cf_domain, CfDomainAction};
use tg_check::cf_worker::{probe_cf_worker, TunnelReply, WorkerAction, WorkerEvent, WorkerProbe};
use tg_check::config::{MtProtoProxy, ProtoTag};
use tg_check::listener::{
    probe_listener, read_time_left, ListenerAction, ListenerEvent, ListenerProbe,
};
use tg_check::mtproto_proxy::{probe_mtproto_proxy, ProxyAction, ProxyEvent};
use tg_check::status::{Elapsed, ProbeStatus};

fn ms(millis: u64) -> Elapsed {
    Elapsed {
        secs: millis / 1000,
        nanos: (millis % 1000) as u32 * 1_000_000,
    }
}

fn fail(reason: &str) -> ProbeStatus {
    ProbeStatus::Fail(reason.to_string())
}

fn listener_status(probe: &ListenerProbe) -> Option<ProbeStatus> {
    match probe.action(ms(0)) {
        ListenerAction::Finish(status) => Some(status.clone()),
        _ => None,
    }
}

fn reading_listener(secret: &[u8]) -> ListenerProbe<'_> {
    probe_listener("127.0.0.1", 1443, secret, 2, 5)
        .handle(ListenerEvent::Connect(Ok(())), ms(1))
        .handle(ListenerEvent::Send(Ok(())), ms(2))
        .handle(ListenerEvent::Send(Ok(())), ms(3))
}

fn res_pq() -> Vec<u8> {
    let mut reply = vec![0u8; 28];
    reply[0] = 80;
    reply[24..28].copy_from_slice(&0x0516_2463u32.to_le_bytes());
    reply
}

/// A transport error is a framed packet — a 4-byte length of 4 and the negative
/// code — so it must be read as one, not mistaken for a truncated frame and
/// blamed on the routing.
#[test]
fn a_framed_transport_error_is_reported_as_one() {
    let secret = [0x11u8; 16];
    let mut reply = [0u8; 8];
    reply[..4].copy_from_slice(&4u32.to_le_bytes());
    reply[4..8].copy_from_slice(&(-404i32).to_le_bytes());

    let probe = reading_listener(&secret).handle(ListenerEvent::Read(Ok(reply.to_vec())), ms(4));
    match listener_status(&probe) {
        Some(ProbeStatus::Fail(reason)) => assert!(
            reason.contains("transport error: -404"),
            "unexpected reason: {reason}"
        ),
        Some(ProbeStatus::Pass(elapsed)) => panic!("expected a failure, got OK in {elapsed:?}"),
        None => panic!("expected a verdict"),
    }
}

#[test]
fn a_listener_that_relays_res_pq_passes() {
    let secret = [0x11u8; 16];
    let probe = probe_listener("127.0.0.1", 1443, &secret, 2, 5);
    match probe.action(ms(0)) {
        ListenerAction::Connect {
            host,
            port,
            timeout_secs,
        } => {
            assert_eq!((host, port, timeout_secs), ("127.0.0.1", 1443, 5));
        }
        _ => panic!("expected to connect"),
    }
    let probe = probe.handle(ListenerEvent::Connect(Ok(())), ms(10));
    match probe.action(ms(10)) {
        ListenerAction::SendHandshake {
            secret: key,
            dc_idx,
            proto,
        } => {
            assert_eq!(key, &secret);
            assert_eq!(dc_idx, 2);
            assert_eq!(proto, ProtoTag::PaddedIntermediate);
        }
        _ => panic!("expected to send the handshake"),
    }
    let probe = probe.handle(ListenerEvent::Send(Ok(())), ms(11));
    match probe.action(ms(11)) {
        ListenerAction::SendRequest(request) => {
            assert_eq!(request.len(), 44);
            assert_eq!(&request[24..28], &0xbe7e_8ef1u32.to_le_bytes());
        }
        _ => panic!("expected to send the request"),
    }
    let probe = probe.handle(ListenerEvent::Send(Ok(())), ms(12));
    match probe.action(ms(12)) {
        ListenerAction::Read { time_left } => assert_eq!(time_left, ms(5000)),
        _ => panic!("expected to read"),
    }
    let probe = probe.handle(ListenerEvent::Read(Ok(res_pq())), ms(80));
    assert_eq!(listener_status(&probe), Some(ProbeStatus::Pass(ms(80))));

    // A verdict is final.
    let probe = probe.handle(ListenerEvent::TimedOut, ms(90));
    assert_eq!(listener_status(&probe), Some(ProbeStatus::Pass(ms(80))));
}

#[test]
fn the_cut_of_a_reply_does_not_matter() {
    let secret = [0x11u8; 16];
    let reply = res_pq();
    for cut in 1..reply.len() {
        let probe = reading_listener(&secret)
            .handle(ListenerEvent::Read(Ok(reply[..cut].to_vec())), ms(20));
        assert_eq!(listener_status(&probe), None);
        let probe = probe.handle(ListenerEvent::Read(Ok(reply[cut..].to_vec())), ms(30));
        assert_eq!(listener_status(&probe), Some(ProbeStatus::Pass(ms(30))));
    }
}

#[test]
fn a_transport_error_in_two_pieces_is_put_together() {
    let secret = [0x11u8; 16];
    let probe = reading_listener(&secret)
        .handle(ListenerEvent::Read(Ok(vec![4, 0, 0, 0, 0x6c])), ms(20));
    assert_eq!(listener_status(&probe), None);
    let probe = probe.handle(ListenerEvent::Read(Ok(vec![0xfe, 0xff, 0xff])), ms(21));
    assert_eq!(listener_status(&probe), Some(fail("transport error: -404")));
}

#[test]
fn one_time_limit_spans_all_reads() {
    let secret = [0x11u8; 16];
    let reply = res_pq();
    let waiting = || {
        reading_listener(&secret)
            .handle(ListenerEvent::Read(Ok(reply[..8].to_vec())), ms(4003))
    };
    let time_left_at = |now: Elapsed| match waiting().action(now) {
        ListenerAction::Read { time_left } => time_left,
        _ => panic!("expected to read"),
    };
    assert_eq!(time_left_at(ms(4003)), ms(1000));
    assert_eq!(time_left_at(ms(5003)), ms(0));
    assert_eq!(time_left_at(ms(8000)), ms(0));

    let probe = waiting().handle(ListenerEvent::TimedOut, ms(5003));
    assert_eq!(listener_status(&probe), Some(fail("no reply within 5s")));
    let probe = probe.handle(ListenerEvent::Read(Ok(reply.clone())), ms(5004));
    assert_eq!(listener_status(&probe), Some(fail("no reply within 5s")));
}

#[test]
fn a_read_that_ends_as_the_time_does_counts() {
    let secret = [0x11u8; 16];
    let late = Elapsed {
        secs: 5,
        nanos: 3_000_001,
    };
    let probe = reading_listener(&secret).handle(ListenerEvent::Read(Ok(res_pq())), late);
    assert_eq!(listener_status(&probe), Some(ProbeStatus::Pass(late)));
    let probe =
        reading_listener(&secret).handle(ListenerEvent::Read(Err("reset".to_string())), late);
    assert_eq!(
        listener_status(&probe),
        Some(fail("read from listener: reset"))
    );
}

#[test]
fn the_time_left_runs_out() {
    assert_eq!(read_time_left(5, ms(100), ms(100)), ms(5000));
    assert_eq!(read_time_left(5, ms(100), ms(1350)), ms(3750));
    assert_eq!(read_time_left(5, ms(100), ms(5100)), ms(0));
    assert_eq!(read_time_left(5, ms(100), ms(9000)), ms(0));
    assert_eq!(read_time_left(5, ms(100), ms(50)), ms(5000));
    assert_eq!(read_time_left(0, ms(0), ms(0)), ms(0));
    assert_eq!(
        read_time_left(u64::MAX, ms(0), ms(0)),
        Elapsed {
            secs: u64::MAX,
            nanos: 0
        }
    );
}

#[test]
fn listener_failures_say_what_failed() {
    let secret = [0x11u8; 16];
    let probe = probe_listener("h", 1, &secret, 2, 7)
        .handle(ListenerEvent::Connect(Err("refused".to_string())), ms(1));
    assert_eq!(
        listener_status(&probe),
        Some(fail("TCP connect failed: refused"))
    );

    let probe = probe_listener("h", 1, &secret, 2, 7)
        .handle(ListenerEvent::Connect(Ok(())), ms(1))
        .handle(ListenerEvent::Send(Err("broken pipe".to_string())), ms(2));
    assert_eq!(
        listener_status(&probe),
        Some(fail("send MTProto handshake: broken pipe"))
    );

    let probe = probe_listener("h", 1, &secret, 2, 7)
        .handle(ListenerEvent::Connect(Ok(())), ms(1))
        .handle(ListenerEvent::Send(Ok(())), ms(2))
        .handle(ListenerEvent::Send(Err("broken pipe".to_string())), ms(3));
    assert_eq!(
        listener_status(&probe),
        Some(fail("send req_pq_multi: broken pipe"))
    );

    let probe =
        reading_listener(&secret).handle(ListenerEvent::Read(Err("reset".to_string())), ms(4));
    assert_eq!(
        listener_status(&probe),
        Some(fail("read from listener: reset"))
    );

    let probe = reading_listener(&secret).handle(ListenerEvent::TimedOut, ms(5000));
    assert_eq!(listener_status(&probe), Some(fail("no reply within 5s")));

    let probe = reading_listener(&secret).handle(ListenerEvent::Read(Ok(vec![])), ms(4));
    assert_eq!(
        listener_status(&probe),
        Some(fail("reply is not resPQ (0 bytes received)"))
    );

    let probe = reading_listener(&secret)
        .handle(ListenerEvent::Read(Ok(vec![1; 27])), ms(4))
        .handle(ListenerEvent::Read(Ok(vec![])), ms(5));
    assert_eq!(
        listener_status(&probe),
        Some(fail("reply is not resPQ (27 bytes received)"))
    );

    let probe = reading_listener(&secret).handle(ListenerEvent::Read(Ok(vec![1; 100])), ms(4));
    assert_eq!(
        listener_status(&probe),
        Some(fail("reply is not resPQ (100 bytes received)"))
    );
}

#[test]
fn an_event_that_answers_nothing_changes_nothing() {
    let secret = [0x11u8; 16];
    let probe = probe_listener("h", 1, &secret, 2, 7)
        .handle(ListenerEvent::Read(Ok(res_pq())), ms(1))
        .handle(ListenerEvent::TimedOut, ms(1))
        .handle(ListenerEvent::Send(Ok(())), ms(1));
    assert!(matches!(
        probe.action(ms(1)),
        ListenerAction::Connect { .. }
    ));
}

fn proxy(faketls_hostname: Option<&str>) -> MtProtoProxy {
    MtProtoProxy {
        host: "proxy.example".to_string(),
        port: 443,
        secret: "ee11".to_string(),
        secret_key: vec![0x11; 16],
        faketls_hostname: faketls_hostname.map(|name| name.to_string()),
    }
}

#[test]
fn a_plain_proxy_passes_once_the_handshake_is_sent() {
    let proxy = proxy(None);
    let probe = probe_mtproto_proxy(&proxy, 4);
    match probe.action() {
        ProxyAction::Connect {
            host,
            port,
            timeout_secs,
        } => {
            assert_eq!((host.as_str(), port, timeout_secs), ("proxy.example", 443, 4));
        }
        _ => panic!("expected to connect"),
    }
    let probe = probe.handle(ProxyEvent::Connect(Ok(())), ms(10));
    match probe.action() {
        ProxyAction::SendHandshake { key, dc_idx, proto } => {
            assert_eq!(key, &vec![0x11; 16]);
            assert_eq!(dc_idx, 2);
            assert_eq!(proto, ProtoTag::PaddedIntermediate);
        }
        _ => panic!("expected to send the handshake"),
    }
    let probe = probe.handle(ProxyEvent::Send(Ok(())), ms(12));
    match probe.action() {
        ProxyAction::Finish(status) => assert_eq!(status, &ProbeStatus::Pass(ms(12))),
        _ => panic!("expected a verdict"),
    }

    let probe = probe_mtproto_proxy(&proxy, 4)
        .handle(ProxyEvent::Connect(Ok(())), ms(10))
        .handle(ProxyEvent::Send(Err("reset".to_string())), ms(12));
    match probe.action() {
        ProxyAction::Finish(status) => assert_eq!(status, &fail("send MTProto handshake: reset")),
        _ => panic!("expected a verdict"),
    }
}

#[test]
fn a_faketls_proxy_is_sent_the_handshake_once_its_own_is_drained() {
    let proxy = proxy(Some("front.example"));
    let drained = |complete: bool| {
        let probe = probe_mtproto_proxy(&proxy, 4).handle(ProxyEvent::Connect(Ok(())), ms(10));
        match probe.action() {
            ProxyAction::SendClientHello { hostname, key } => {
                assert_eq!(hostname, "front.example");
                assert_eq!(key, &vec![0x11; 16]);
            }
            _ => panic!("expected to send a ClientHello"),
        }
        let probe = probe.handle(ProxyEvent::Send(Ok(())), ms(11));
        match probe.action() {
            ProxyAction::DrainServerHello { timeout_secs } => assert_eq!(timeout_secs, 4),
            _ => panic!("expected to drain"),
        }
        probe.handle(ProxyEvent::Drain(complete), ms(30))
    };
    let probe = drained(true);
    match probe.action() {
        ProxyAction::SendHandshake { key, dc_idx, proto } => {
            assert_eq!(key, &vec![0x11; 16]);
            assert_eq!(dc_idx, 2);
            assert_eq!(proto, ProtoTag::PaddedIntermediate);
        }
        _ => panic!("expected to send the handshake"),
    }
    match probe.handle(ProxyEvent::Send(Ok(())), ms(31)).action() {
        ProxyAction::Finish(status) => assert_eq!(status, &ProbeStatus::Pass(ms(31))),
        _ => panic!("expected a verdict"),
    }
    match drained(true)
        .handle(ProxyEvent::Send(Err("reset".to_string())), ms(31))
        .action()
    {
        ProxyAction::Finish(status) => assert_eq!(status, &fail("send MTProto handshake: reset")),
        _ => panic!("expected a verdict"),
    }
    match drained(false).action() {
        ProxyAction::Finish(status) => assert_eq!(
            status,
            &fail("FakeTLS server handshake failed or timed out — check secret and proxy address")
        ),
        _ => panic!("expected a verdict"),
    }
}

#[test]
fn proxy_failures_say_what_failed() {
    let plain = proxy(None);
    let probe = probe_mtproto_proxy(&plain, 4)
        .handle(ProxyEvent::Connect(Err("no route".to_string())), ms(1));
    match probe.action() {
        ProxyAction::Finish(status) => assert_eq!(status, &fail("TCP connect failed: no route")),
        _ => panic!("expected a verdict"),
    }
    let faketls = proxy(Some("front.example"));
    let probe = probe_mtproto_proxy(&faketls, 4)
        .handle(ProxyEvent::Connect(Ok(())), ms(1))
        .handle(ProxyEvent::Send(Err("reset".to_string())), ms(2));
    match probe.action() {
        ProxyAction::Finish(status) => {
            assert_eq!(status, &fail("send FakeTLS ClientHello: reset"))
        }
        _ => panic!("expected a verdict"),
    }
}

fn worker_status(probe: &WorkerProbe) -> ProbeStatus {
    match probe.action() {
        WorkerAction::Finish(status) => status.clone(),
        _ => panic!("expected a verdict"),
    }
}

#[test]
fn only_a_silent_worker_tunnel_passes() {
    let domain = "worker.example".to_string();
    let settle = |reply: TunnelReply| {
        let probe = probe_cf_worker(&domain, Some("149.154.167.51"), true, 9, false);
        match probe.action() {
            WorkerAction::OpenTunnel {
                domain,
                dst,
                dc,
                media,
                skip_tls,
                timeout_secs,
                disable_tls,
            } => {
                assert_eq!(domain, "worker.example");
                assert_eq!(dst, "149.154.167.51");
                assert_eq!((dc, media, skip_tls), (2, false, true));
                assert_eq!((timeout_secs, disable_tls), (9, false));
            }
            _ => panic!("expected to open the tunnel"),
        }
        let probe = probe.handle(WorkerEvent::Open(true), ms(100));
        match probe.action() {
            WorkerAction::SendInit { proto, dc_idx } => {
                assert_eq!((proto, dc_idx), (ProtoTag::Intermediate, 2));
            }
            _ => panic!("expected to send the init"),
        }
        let probe = probe.handle(WorkerEvent::Send(Ok(())), ms(120));
        match probe.action() {
            WorkerAction::Settle { timeout_secs } => assert_eq!(timeout_secs, 3),
            _ => panic!("expected to wait"),
        }
        worker_status(&probe.handle(WorkerEvent::Settle(reply), ms(3120)))
    };
    // The wait is not part of the reported time.
    assert_eq!(settle(TunnelReply::Silence), ProbeStatus::Pass(ms(120)));
    assert_eq!(
        settle(TunnelReply::Closed),
        fail(
            "Worker tunnel to 149.154.167.51 closed immediately — the Worker cannot reach Telegram (check its live logs in the Cloudflare dashboard)"
        )
    );
    assert_eq!(
        settle(TunnelReply::Data(17)),
        fail(
            "Worker tunnel to 149.154.167.51 answered the MTProto init with 17 unexpected bytes — the far end is not a Telegram DC"
        )
    );
}

#[test]
fn worker_failures_say_what_failed() {
    let domain = "worker.example".to_string();
    assert_eq!(
        worker_status(&probe_cf_worker(&domain, None, false, 9, false)),
        fail("DC 2 default IP is missing")
    );
    assert_eq!(
        worker_status(
            &probe_cf_worker(&domain, Some("1.2.3.4"), false, 9, false)
                .handle(WorkerEvent::Open(false), ms(1))
        ),
        fail("Worker WebSocket tunnel failed — check Worker code and domain")
    );
    assert_eq!(
        worker_status(
            &probe_cf_worker(&domain, Some("1.2.3.4"), false, 9, false)
                .handle(WorkerEvent::Open(true), ms(1))
                .handle(WorkerEvent::Send(Err("closed".to_string())), ms(2))
        ),
        fail("Worker tunnel closed on send: closed")
    );
}

#[test]
fn a_domain_passes_once_connected() {
    let domain = "example.org".to_string();
    let probe = probe_cf_domain(&domain, false, 8, true);
    match probe.action() {
        CfDomainAction::Connect {
            dc,
            domain,
            media,
            skip_tls,
            timeout_secs,
            disable_tls,
        } => {
            assert_eq!(domain, "example.org");
            assert_eq!((dc, media, skip_tls), (2, false, false));
            assert_eq!((timeout_secs, disable_tls), (8, true));
        }
        CfDomainAction::Finish(_) => panic!("expected to connect"),
    }
    match probe.handle(true, ms(42)).action() {
        CfDomainAction::Finish(status) => assert_eq!(status, &ProbeStatus::Pass(ms(42))),
        _ => panic!("expected a verdict"),
    }
    match probe_cf_domain(&domain, false, 8, true)
        .handle(false, ms(42))
        .action()
    {
        CfDomainAction::Finish(status) => assert_eq!(
            status,
            &fail("WebSocket connection failed — check DNS records and Cloudflare settings")
        ),
        _ => panic!("expected a verdict"),
    }
}
