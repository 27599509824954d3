//! The probe of an upstream MTProto proxy, plain or FakeTLS.

use vstd::prelude::*;

use crate::config::{MtProtoProxy, ProtoTag, PROBE_DC};
use crate::status::{Elapsed, ProbeStatus, StatusView};
use crate::text;

verus! {

/// How far the probe has come.
pub enum ProxyStage<'a> {
    Connecting,
    /// Opening the fake TLS handshake, for this host name.
    SendingClientHello(&'a String),
    DrainingServerHello,
    SendingHandshake,
    Done(ProbeStatus),
}

/// A [`ProxyStage`] with its text as a sequence.
pub enum ProxyStageView {
    Connecting,
    SendingClientHello(Seq<char>),
    DrainingServerHello,
    SendingHandshake,
    Done(StatusView),
}

impl<'a> View for ProxyStage<'a> {
    type V = ProxyStageView;

    open spec fn view(&self) -> ProxyStageView {
        match self {
            ProxyStage::Connecting => ProxyStageView::Connecting,
            ProxyStage::SendingClientHello(hostname) => ProxyStageView::SendingClientHello(
                hostname@,
            ),
            ProxyStage::DrainingServerHello => ProxyStageView::DrainingServerHello,
            ProxyStage::SendingHandshake => ProxyStageView::SendingHandshake,
            ProxyStage::Done(status) => ProxyStageView::Done(status@),
        }
    }
}

/// What came of an action. Errors carry their text.
pub enum ProxyEvent {
    /// The attempt to connect ended.
    Connect(Result<(), String>),
    /// The attempt to send ended.
    Send(Result<(), String>),
    /// The wait for the server's fake TLS handshake ended: whether all of it
    /// came in time.
    Drain(bool),
}

/// What the probe asks for next.
pub enum ProxyAction<'a> {
    Connect { host: &'a String, port: u16, timeout_secs: u64 },
    /// Build a TLS ClientHello for the host name, sign it with the key, send it.
    SendClientHello { hostname: &'a String, key: &'a Vec<u8> },
    /// Read the server's fake TLS handshake to its end.
    DrainServerHello { timeout_secs: u64 },
    SendHandshake { key: &'a Vec<u8>, dc_idx: i16, proto: ProtoTag },
    Finish(&'a ProbeStatus),
}

/// A probe of an upstream proxy.
pub struct ProxyProbe<'a> {
    pub proxy: &'a MtProtoProxy,
    pub timeout_secs: u64,
    pub stage: ProxyStage<'a>,
}

/// The host name that makes a proxy a FakeTLS one.
pub open spec fn faketls_of(proxy: MtProtoProxy) -> Option<Seq<char>> {
    match proxy.faketls_hostname {
        Some(hostname) => Some(hostname@),
        None => None,
    }
}

/// The stage that follows `stage` when `event` comes, `elapsed` after the probe
/// began; `faketls` is the host name of a FakeTLS proxy. An event that answers
/// no pending action changes nothing.
pub open spec fn proxy_next(
    faketls: Option<Seq<char>>,
    stage: ProxyStageView,
    event: ProxyEvent,
    elapsed: Elapsed,
) -> ProxyStageView {
    match (stage, event) {
        (ProxyStageView::Connecting, ProxyEvent::Connect(result)) => match result {
            Ok(_) => match faketls {
                Some(hostname) => ProxyStageView::SendingClientHello(hostname),
                None => ProxyStageView::SendingHandshake,
            },
            Err(e) => ProxyStageView::Done(StatusView::Fail("TCP connect failed: "@ + e@)),
        },
        (ProxyStageView::SendingClientHello(_), ProxyEvent::Send(result)) => match result {
            Ok(_) => ProxyStageView::DrainingServerHello,
            Err(e) => ProxyStageView::Done(StatusView::Fail("send FakeTLS ClientHello: "@ + e@)),
        },
        (ProxyStageView::DrainingServerHello, ProxyEvent::Drain(drained)) => if drained {
            ProxyStageView::SendingHandshake
        } else {
            ProxyStageView::Done(
                StatusView::Fail(
                    "FakeTLS server handshake failed or timed out — check secret and proxy address"@,
                ),
            )
        },
        (ProxyStageView::SendingHandshake, ProxyEvent::Send(result)) => ProxyStageView::Done(
            match result {
                Ok(_) => StatusView::Pass(elapsed),
                Err(e) => StatusView::Fail("send MTProto handshake: "@ + e@),
            },
        ),
        _ => stage,
    }
}

/// Begins a probe of `proxy`, plain or FakeTLS: it connects and sends the MTProto
/// obfuscation handshake.
///
/// For FakeTLS proxies a TLS ClientHello is sent first, and the probe also drains
/// the server's fake TLS handshake before it goes on, verifying end-to-end
/// protocol negotiation. For plain proxies a successful TCP connect and handshake
/// send is sufficient to confirm reachability.
pub fn probe_mtproto_proxy<'a>(proxy: &'a MtProtoProxy, timeout_secs: u64) -> (probe: ProxyProbe<'a>)
    ensures
        probe.proxy == proxy,
        probe.timeout_secs == timeout_secs,
        probe.stage@ == ProxyStageView::Connecting,
{
    ProxyProbe { proxy, timeout_secs, stage: ProxyStage::Connecting }
}

impl<'a> ProxyProbe<'a> {
    /// What the probe asks for at its present stage.
    pub fn action<'s>(&'s self) -> (action: ProxyAction<'s>)
        ensures
            match self.stage@ {
                ProxyStageView::Connecting => action == (ProxyAction::Connect {
                    host: &self.proxy.host,
                    port: self.proxy.port,
                    timeout_secs: self.timeout_secs,
                }),
                ProxyStageView::SendingClientHello(hostname) => {
                    &&& action matches ProxyAction::SendClientHello { hostname: shown, key }
                    &&& shown@ == hostname
                    &&& key == self.proxy.secret_key
                },
                ProxyStageView::DrainingServerHello => action == (ProxyAction::DrainServerHello {
                    timeout_secs: self.timeout_secs,
                }),
                ProxyStageView::SendingHandshake => action == (ProxyAction::SendHandshake {
                    key: &self.proxy.secret_key,
                    dc_idx: PROBE_DC,
                    proto: ProtoTag::PaddedIntermediate,
                }),
                ProxyStageView::Done(status) => action matches ProxyAction::Finish(shown) && shown@
                    == status,
            },
    {
        match &self.stage {
            ProxyStage::Connecting => ProxyAction::Connect {
                host: &self.proxy.host,
                port: self.proxy.port,
                timeout_secs: self.timeout_secs,
            },
            ProxyStage::SendingClientHello(hostname) => ProxyAction::SendClientHello {
                hostname: *hostname,
                key: &self.proxy.secret_key,
            },
            ProxyStage::DrainingServerHello => ProxyAction::DrainServerHello {
                timeout_secs: self.timeout_secs,
            },
            ProxyStage::SendingHandshake => ProxyAction::SendHandshake {
                key: &self.proxy.secret_key,
                dc_idx: PROBE_DC,
                proto: ProtoTag::PaddedIntermediate,
            },
            ProxyStage::Done(status) => ProxyAction::Finish(status),
        }
    }

    /// Takes in what came of the last action, `elapsed` after the probe began.
    pub fn handle(self, event: ProxyEvent, elapsed: Elapsed) -> (next: Self)
        ensures
            next.proxy == self.proxy,
            next.timeout_secs == self.timeout_secs,
            next.stage@ == proxy_next(faketls_of(*self.proxy), self.stage@, event, elapsed),
    {
        let stage = match (self.stage, event) {
            (ProxyStage::Connecting, ProxyEvent::Connect(result)) => match result {
                Ok(_) => match &self.proxy.faketls_hostname {
                    Some(hostname) => ProxyStage::SendingClientHello(hostname),
                    None => ProxyStage::SendingHandshake,
                },
                Err(e) => failed("TCP connect failed: ", &e),
            },
            (ProxyStage::SendingClientHello(_), ProxyEvent::Send(result)) => match result {
                Ok(_) => ProxyStage::DrainingServerHello,
                Err(e) => failed("send FakeTLS ClientHello: ", &e),
            },
            (ProxyStage::DrainingServerHello, ProxyEvent::Drain(drained)) => if drained {
                ProxyStage::SendingHandshake
            } else {
                ProxyStage::Done(
                    ProbeStatus::Fail(
                        "FakeTLS server handshake failed or timed out — check secret and proxy address".to_owned(),
                    ),
                )
            },
            (ProxyStage::SendingHandshake, ProxyEvent::Send(result)) => match result {
                Ok(_) => ProxyStage::Done(ProbeStatus::Pass(elapsed)),
                Err(e) => failed("send MTProto handshake: ", &e),
            },
            (stage, _) => stage,
        };
        ProxyProbe { proxy: self.proxy, timeout_secs: self.timeout_secs, stage }
    }
}

fn failed<'a>(what: &str, error: &String) -> (stage: ProxyStage<'a>)
    ensures
        stage@ == ProxyStageView::Done(StatusView::Fail(what@ + error@)),
{
    ProxyStage::Done(ProbeStatus::Fail(text::joined(what, error.as_str())))
}

// ---------------------------------------------------------------------------
// Laws
// ---------------------------------------------------------------------------
/// The stage after all of `events`, each with the time it came at.
pub open spec fn proxy_run(
    faketls: Option<Seq<char>>,
    stage: ProxyStageView,
    events: Seq<(ProxyEvent, Elapsed)>,
) -> ProxyStageView
    decreases events.len(),
{
    if events.len() == 0 {
        stage
    } else {
        proxy_next(
            faketls,
            proxy_run(faketls, stage, events.drop_last()),
            events.last().0,
            events.last().1,
        )
    }
}

/// Whether `events[at]` is the send of the obfuscation handshake.
pub open spec fn sends_handshake(
    faketls: Option<Seq<char>>,
    events: Seq<(ProxyEvent, Elapsed)>,
    at: int,
) -> bool {
    &&& proxy_run(faketls, ProxyStageView::Connecting, events.take(at)) is SendingHandshake
    &&& events[at].0 matches ProxyEvent::Send(Ok(_))
}

/// Whether `events[at]` is the end of the server's fake TLS handshake, which
/// answers the ClientHello.
pub open spec fn drains_server_hello(
    faketls: Option<Seq<char>>,
    events: Seq<(ProxyEvent, Elapsed)>,
    at: int,
) -> bool {
    &&& proxy_run(faketls, ProxyStageView::Connecting, events.take(at)) is DrainingServerHello
    &&& events[at].0 == ProxyEvent::Drain(true)
}

/// A verdict is final: nothing that comes later changes it.
pub proof fn law_proxy_verdict_is_final(
    faketls: Option<Seq<char>>,
    status: StatusView,
    events: Seq<(ProxyEvent, Elapsed)>,
)
    ensures
        proxy_run(faketls, ProxyStageView::Done(status), events) == ProxyStageView::Done(status),
    decreases events.len(),
{
    if events.len() > 0 {
        law_proxy_verdict_is_final(faketls, status, events.drop_last());
    }
}

/// A plain proxy is never asked for a TLS handshake.
pub proof fn law_plain_proxy_sees_no_tls(events: Seq<(ProxyEvent, Elapsed)>)
    ensures
        ({
            let stage = proxy_run(None, ProxyStageView::Connecting, events);
            !(stage is SendingClientHello) && !(stage is DrainingServerHello)
        }),
    decreases events.len(),
{
    if events.len() > 0 {
        law_plain_proxy_sees_no_tls(events.drop_last());
    }
}

/// A FakeTLS proxy is sent the obfuscation handshake only after its fake TLS
/// handshake has been drained.
pub proof fn law_faketls_handshake_follows_drain(
    hostname: Seq<char>,
    events: Seq<(ProxyEvent, Elapsed)>,
)
    requires
        proxy_run(Some(hostname), ProxyStageView::Connecting, events) is SendingHandshake,
    ensures
        exists|at: int|
            0 <= at < events.len() && #[trigger] drains_server_hello(Some(hostname), events, at),
    decreases events.len(),
{
    let before = events.drop_last();
    if proxy_run(Some(hostname), ProxyStageView::Connecting, before) is SendingHandshake {
        law_faketls_handshake_follows_drain(hostname, before);
        let at = choose|at: int|
            0 <= at < before.len() && #[trigger] drains_server_hello(Some(hostname), before, at);
        assert(events.take(at) =~= before.take(at));
        assert(drains_server_hello(Some(hostname), events, at));
    } else {
        let at = events.len() - 1;
        assert(events.take(at) =~= before);
        assert(drains_server_hello(Some(hostname), events, at));
    }
}

/// Whatever happens, the probe passes only once the obfuscation handshake is
/// sent, and for a FakeTLS proxy only where the drained fake TLS handshake came
/// before it. The time it reports is that of the sent handshake.
pub proof fn law_proxy_passes_only_on_sent_handshake(
    faketls: Option<Seq<char>>,
    events: Seq<(ProxyEvent, Elapsed)>,
    elapsed: Elapsed,
)
    requires
        proxy_run(faketls, ProxyStageView::Connecting, events) == ProxyStageView::Done(
            StatusView::Pass(elapsed),
        ),
    ensures
        exists|at: int|
            {
                &&& 0 <= at < events.len()
                &&& #[trigger] sends_handshake(faketls, events, at)
                &&& events[at].1 == elapsed
                &&& faketls is Some ==> exists|drained: int|
                    0 <= drained < at && #[trigger] drains_server_hello(faketls, events, drained)
            },
    decreases events.len(),
{
    let before = events.drop_last();
    match proxy_run(faketls, ProxyStageView::Connecting, before) {
        ProxyStageView::Done(status) => {
            law_proxy_passes_only_on_sent_handshake(faketls, before, elapsed);
            let at = choose|at: int|
                {
                    &&& 0 <= at < before.len()
                    &&& #[trigger] sends_handshake(faketls, before, at)
                    &&& before[at].1 == elapsed
                    &&& faketls is Some ==> exists|drained: int|
                        0 <= drained < at && #[trigger] drains_server_hello(
                            faketls,
                            before,
                            drained,
                        )
                };
            assert(events.take(at) =~= before.take(at));
            assert(sends_handshake(faketls, events, at));
            if faketls is Some {
                let drained = choose|drained: int|
                    0 <= drained < at && #[trigger] drains_server_hello(faketls, before, drained);
                assert(events.take(drained) =~= before.take(drained));
                assert(drains_server_hello(faketls, events, drained));
            }
        },
        _ => {
            let at = events.len() - 1;
            assert(events.take(at) =~= before);
            assert(sends_handshake(faketls, events, at));
            if let Some(hostname) = faketls {
                law_faketls_handshake_follows_drain(hostname, before);
                let drained = choose|drained: int|
                    0 <= drained < before.len() && #[trigger] drains_server_hello(
                        faketls,
                        before,
                        drained,
                    );
                assert(events.take(drained) =~= before.take(drained));
                assert(drains_server_hello(faketls, events, drained));
            }
        },
    }
}

/// Both exchanges pass when every step succeeds: connect and handshake for a
/// plain proxy; connect, ClientHello, drained answer and handshake for a FakeTLS
/// one.
pub proof fn law_proxy_passes_on_exchange(
    hostname: Seq<char>,
    connected: (ProxyEvent, Elapsed),
    greeted: (ProxyEvent, Elapsed),
    drained: (ProxyEvent, Elapsed),
    sent: (ProxyEvent, Elapsed),
)
    requires
        connected.0 matches ProxyEvent::Connect(Ok(_)),
        greeted.0 matches ProxyEvent::Send(Ok(_)),
        drained.0 == ProxyEvent::Drain(true),
        sent.0 matches ProxyEvent::Send(Ok(_)),
    ensures
        proxy_run(None, ProxyStageView::Connecting, seq![connected, sent]) == ProxyStageView::Done(
            StatusView::Pass(sent.1),
        ),
        proxy_run(
            Some(hostname),
            ProxyStageView::Connecting,
            seq![connected, greeted, drained, sent],
        ) == ProxyStageView::Done(StatusView::Pass(sent.1)),
{
    assert(seq![connected, greeted, drained, sent].drop_last() =~= seq![
        connected,
        greeted,
        drained,
    ]);
    assert(seq![connected, greeted, drained].drop_last() =~= seq![connected, greeted]);
    assert(seq![connected, greeted].drop_last() =~= seq![connected]);
    assert(seq![connected, sent].drop_last() =~= seq![connected]);
    assert(seq![connected].drop_last() =~= Seq::empty());
    reveal_with_fuel(proxy_run, 5);
}

/// A probe that begins asks for a connection to its proxy, with the limit it was
/// given.
pub proof fn law_proxy_is_asked_for_as_given<'a>(
    proxy: &'a MtProtoProxy,
    timeout_secs: u64,
    probe: ProxyProbe<'a>,
    action: ProxyAction<'a>,
)
    requires
        call_ensures(probe_mtproto_proxy, (proxy, timeout_secs), probe),
        call_ensures(ProxyProbe::<'a>::action, (&probe,), action),
    ensures
        probe.stage is Connecting,
        *probe.proxy == *proxy,
        probe.timeout_secs == timeout_secs,
        action matches ProxyAction::Connect { host, port, timeout_secs: limit } && {
            &&& host@ == proxy.host@
            &&& port == proxy.port
            &&& limit == timeout_secs
        },
{
}

/// A proxy that has a FakeTLS host name, whatever its host, port and secret, is
/// greeted with a ClientHello for that host name, signed with its key, as soon as
/// it is connected.
pub proof fn law_connected_faketls_proxy_is_greeted<'a>(
    probe: ProxyProbe<'a>,
    event: ProxyEvent,
    elapsed: Elapsed,
    next: ProxyProbe<'a>,
    action: ProxyAction<'a>,
)
    requires
        probe.stage is Connecting,
        probe.proxy.faketls_hostname is Some,
        event matches ProxyEvent::Connect(Ok(_)),
        call_ensures(ProxyProbe::<'a>::handle, (probe, event, elapsed), next),
        call_ensures(ProxyProbe::<'a>::action, (&next,), action),
    ensures
        action matches ProxyAction::SendClientHello { hostname, key } && {
            &&& Some(hostname@) == (match probe.proxy.faketls_hostname {
                Some(name) => Some(name@),
                None => None,
            })
            &&& key@ == probe.proxy.secret_key@
        },
{
}

/// A proxy without a FakeTLS host name, whatever its host, port and secret, is sent
/// the obfuscation handshake as soon as it is connected.
pub proof fn law_connected_plain_proxy_is_sent_the_handshake<'a>(
    probe: ProxyProbe<'a>,
    event: ProxyEvent,
    elapsed: Elapsed,
    next: ProxyProbe<'a>,
    action: ProxyAction<'a>,
)
    requires
        probe.stage is Connecting,
        probe.proxy.faketls_hostname is None,
        event matches ProxyEvent::Connect(Ok(_)),
        call_ensures(ProxyProbe::<'a>::handle, (probe, event, elapsed), next),
        call_ensures(ProxyProbe::<'a>::action, (&next,), action),
    ensures
        next.stage is SendingHandshake,
        action matches ProxyAction::SendHandshake { key, dc_idx, proto } && {
            &&& key@ == probe.proxy.secret_key@
            &&& dc_idx == 2
            &&& proto is PaddedIntermediate
        },
{
}

/// What the probe asks for follows from its stage, with the key and the limit it
/// was given.
pub proof fn law_proxy_asks_by_stage<'a>(probe: ProxyProbe<'a>, action: ProxyAction<'a>)
    requires
        call_ensures(ProxyProbe::<'a>::action, (&probe,), action),
    ensures
        match probe.stage {
            ProxyStage::Connecting => action matches ProxyAction::Connect {
                host,
                port,
                timeout_secs,
            } && host@ == probe.proxy.host@ && port == probe.proxy.port && timeout_secs
                == probe.timeout_secs,
            ProxyStage::SendingClientHello(hostname) => action matches ProxyAction::SendClientHello {
                hostname: shown,
                key,
            } && shown@ == hostname@ && key@ == probe.proxy.secret_key@,
            ProxyStage::DrainingServerHello => action matches ProxyAction::DrainServerHello {
                timeout_secs,
            } && timeout_secs == probe.timeout_secs,
            ProxyStage::SendingHandshake => action matches ProxyAction::SendHandshake {
                key,
                dc_idx,
                proto,
            } && key@ == probe.proxy.secret_key@ && dc_idx == 2 && proto is PaddedIntermediate,
            ProxyStage::Done(status) => action matches ProxyAction::Finish(shown) && shown@
                == status@,
        },
{
}

/// After the ClientHello the probe waits for the answer, after the answer it sends the
/// obfuscation handshake, and after that it passes; it goes on exactly where what it
/// asked for succeeded.
pub proof fn law_proxy_goes_on_after_success<'a>(
    probe: ProxyProbe<'a>,
    event: ProxyEvent,
    elapsed: Elapsed,
    next: ProxyProbe<'a>,
)
    requires
        call_ensures(ProxyProbe::<'a>::handle, (probe, event, elapsed), next),
    ensures
        probe.stage is Connecting ==> ((event matches ProxyEvent::Connect(Ok(_))) <==> (
        next.stage is SendingClientHello || next.stage is SendingHandshake)),
        probe.stage is Connecting ==> (next.stage is SendingClientHello
            ==> probe.proxy.faketls_hostname is Some),
        probe.stage is Connecting ==> (next.stage is SendingHandshake
            ==> probe.proxy.faketls_hostname is None),
        probe.stage is SendingClientHello ==> ((event matches ProxyEvent::Send(Ok(_)))
            <==> next.stage is DrainingServerHello),
        probe.stage is DrainingServerHello ==> (event == ProxyEvent::Drain(true)
            <==> next.stage is SendingHandshake),
        probe.stage is SendingHandshake ==> ((event matches ProxyEvent::Send(Ok(_)))
            <==> next.stage == ProxyStage::<'a>::Done(ProbeStatus::Pass(elapsed))),
{
}

/// Whatever fails ends the probe, and is named with its error.
pub proof fn law_proxy_names_what_failed<'a>(
    probe: ProxyProbe<'a>,
    event: ProxyEvent,
    elapsed: Elapsed,
    next: ProxyProbe<'a>,
)
    requires
        call_ensures(ProxyProbe::<'a>::handle, (probe, event, elapsed), next),
    ensures
        probe.stage is Connecting ==> (event matches ProxyEvent::Connect(Err(e)) ==> {
            &&& next.stage matches ProxyStage::Done(ProbeStatus::Fail(reason))
            &&& reason@ == "TCP connect failed: "@ + e@
        }),
        probe.stage is SendingClientHello ==> (event matches ProxyEvent::Send(Err(e)) ==> {
            &&& next.stage matches ProxyStage::Done(ProbeStatus::Fail(reason))
            &&& reason@ == "send FakeTLS ClientHello: "@ + e@
        }),
        probe.stage is DrainingServerHello && event == ProxyEvent::Drain(false) ==> {
            &&& next.stage matches ProxyStage::Done(ProbeStatus::Fail(reason))
            &&& reason@
                == "FakeTLS server handshake failed or timed out — check secret and proxy address"@
        },
        probe.stage is SendingHandshake ==> (event matches ProxyEvent::Send(Err(e)) ==> {
            &&& next.stage matches ProxyStage::Done(ProbeStatus::Fail(reason))
            &&& reason@ == "send MTProto handshake: "@ + e@
        }),
{
}

/// An event that answers nothing the probe has asked for changes nothing, nor does
/// any event once the verdict stands; and a probe never loses what it was given.
pub proof fn law_proxy_heeds_only_answers<'a>(
    probe: ProxyProbe<'a>,
    event: ProxyEvent,
    elapsed: Elapsed,
    next: ProxyProbe<'a>,
)
    requires
        call_ensures(ProxyProbe::<'a>::handle, (probe, event, elapsed), next),
    ensures
        *next.proxy == *probe.proxy,
        next.timeout_secs == probe.timeout_secs,
        match probe.stage {
            ProxyStage::Connecting => event !is Connect ==> next.stage is Connecting,
            ProxyStage::SendingClientHello(hostname) => event !is Send ==> (next.stage matches
                ProxyStage::SendingClientHello(kept) && kept@ == hostname@),
            ProxyStage::DrainingServerHello => event !is Drain ==> next.stage is DrainingServerHello,
            ProxyStage::SendingHandshake => event !is Send ==> next.stage is SendingHandshake,
            ProxyStage::Done(status) => next.stage matches ProxyStage::Done(kept) && kept@
                == status@,
        },
{
}

/// Whether each probe in `probes` takes in one of `events`, and the next one is
/// what comes of that.
pub open spec fn is_proxy_run<'a>(
    probes: Seq<ProxyProbe<'a>>,
    events: Seq<(ProxyEvent, Elapsed)>,
) -> bool {
    &&& probes.len() == events.len() + 1
    &&& forall|i: int|
        0 <= i < events.len() ==> call_ensures(
            ProxyProbe::<'a>::handle,
            (probes[i], (#[trigger] events[i]).0, events[i].1),
            probes[i + 1],
        )
}

/// Whether a fake TLS handshake goes through: the ClientHello is sent at `hello`,
/// and the answer to it is drained at `drained`.
pub open spec fn tls_goes_through(
    events: Seq<(ProxyEvent, Elapsed)>,
    hello: int,
    drained: int,
) -> bool {
    &&& 0 <= hello < drained < events.len()
    &&& events[hello].0 matches ProxyEvent::Send(Ok(_))
    &&& events[drained].0 == ProxyEvent::Drain(true)
}

/// Whether the obfuscation handshake is sent at `sent`, after a fake TLS handshake
/// where the proxy is a FakeTLS one.
pub open spec fn handshake_goes_through(
    faketls: bool,
    events: Seq<(ProxyEvent, Elapsed)>,
    sent: int,
) -> bool {
    &&& 0 <= sent < events.len()
    &&& events[sent].0 matches ProxyEvent::Send(Ok(_))
    &&& faketls ==> exists|hello: int, drained: int|
        #[trigger] tls_goes_through(events, hello, drained) && drained < sent
}

/// Whether the events up to now account for the stage of a probe that has passed
/// no verdict or a good one.
spec fn accounts_for(
    faketls: bool,
    events: Seq<(ProxyEvent, Elapsed)>,
    stage: ProxyStage<'_>,
) -> bool {
    match stage {
        ProxyStage::Connecting => true,
        ProxyStage::SendingClientHello(_) => faketls,
        ProxyStage::DrainingServerHello => faketls && exists|hello: int|
            0 <= hello < events.len() && ((#[trigger] events[hello]).0 matches ProxyEvent::Send(
                Ok(_),
            )),
        ProxyStage::SendingHandshake => faketls ==> exists|hello: int, drained: int|
            #[trigger] tls_goes_through(events, hello, drained),
        ProxyStage::Done(ProbeStatus::Pass(time)) => exists|sent: int|
            #[trigger] handshake_goes_through(faketls, events, sent) && events[sent].1 == time,
        ProxyStage::Done(ProbeStatus::Fail(_)) => true,
    }
}

proof fn lemma_proxy_history<'a>(
    probes: Seq<ProxyProbe<'a>>,
    events: Seq<(ProxyEvent, Elapsed)>,
)
    requires
        is_proxy_run(probes, events),
        probes[0].stage is Connecting,
    ensures
        *probes.last().proxy == *probes[0].proxy,
        accounts_for(probes[0].proxy.faketls_hostname is Some, events, probes.last().stage),
    decreases events.len(),
{
    if events.len() > 0 {
        let n = events.len() - 1;
        let faketls = probes[0].proxy.faketls_hostname is Some;
        let before = events.drop_last();
        assert forall|i: int| 0 <= i < before.len() implies call_ensures(
            ProxyProbe::<'a>::handle,
            (probes.drop_last()[i], (#[trigger] before[i]).0, before[i].1),
            probes.drop_last()[i + 1],
        ) by {
            assert(events[i] == before[i]);
        }
        lemma_proxy_history(probes.drop_last(), before);
        let probe = probes[n];
        let next = probes[n + 1];
        let event = events[n].0;
        assert(probes.drop_last().last() == probe);
        assert(probes.last() == next);
        assert(events[n] == events.last());
        law_proxy_heeds_only_answers(probe, event, events[n].1, next);
        law_proxy_goes_on_after_success(probe, event, events[n].1, next);
        law_proxy_names_what_failed(probe, event, events[n].1, next);
        match probe.stage {
            ProxyStage::Connecting => {},
            ProxyStage::SendingClientHello(_) => {},
            ProxyStage::DrainingServerHello => {
                let hello = choose|hello: int|
                    0 <= hello < before.len() && ((#[trigger] before[hello]).0 matches
                        ProxyEvent::Send(Ok(_)));
                assert(events[hello] == before[hello]);
                if event == ProxyEvent::Drain(true) {
                    assert(tls_goes_through(events, hello, n));
                }
            },
            ProxyStage::SendingHandshake => {
                if faketls {
                    let (hello, drained) = choose|hello: int, drained: int|
                        #[trigger] tls_goes_through(before, hello, drained);
                    assert(events[hello] == before[hello] && events[drained] == before[drained]);
                    assert(tls_goes_through(events, hello, drained));
                }
                if event matches ProxyEvent::Send(Ok(_)) {
                    assert(handshake_goes_through(faketls, events, n));
                }
            },
            ProxyStage::Done(status) => {
                if let ProbeStatus::Pass(time) = status {
                    let sent = choose|sent: int|
                        #[trigger] handshake_goes_through(faketls, before, sent) && before[sent].1
                            == time;
                    assert(events[sent] == before[sent]);
                    if faketls {
                        let (hello, drained) = choose|hello: int, drained: int|
                            #[trigger] tls_goes_through(before, hello, drained) && drained < sent;
                        assert(events[hello] == before[hello] && events[drained]
                            == before[drained]);
                        assert(tls_goes_through(events, hello, drained));
                    }
                    assert(handshake_goes_through(faketls, events, sent));
                }
            },
        }
    }
}

/// A probe has passed only where the obfuscation handshake was sent, and reports the
/// time of that. A proxy that has a FakeTLS host name passes only where a
/// ClientHello was sent and the answer to it drained before.
pub proof fn law_proxy_run_passes_only_on_handshake<'a>(
    probes: Seq<ProxyProbe<'a>>,
    events: Seq<(ProxyEvent, Elapsed)>,
    elapsed: Elapsed,
)
    requires
        is_proxy_run(probes, events),
        probes[0].stage is Connecting,
        probes.last().stage == ProxyStage::<'a>::Done(ProbeStatus::Pass(elapsed)),
    ensures
        exists|sent: int|
            #[trigger] handshake_goes_through(
                probes[0].proxy.faketls_hostname is Some,
                events,
                sent,
            ) && events[sent].1 == elapsed,
        probes[0].proxy.faketls_hostname is Some ==> exists|i: int|
            0 <= i < events.len() && (#[trigger] events[i]).0 == ProxyEvent::Drain(true),
{
    lemma_proxy_history(probes, events);
    let faketls = probes[0].proxy.faketls_hostname is Some;
    let sent = choose|sent: int|
        #[trigger] handshake_goes_through(faketls, events, sent) && events[sent].1 == elapsed;
    if faketls {
        let (hello, drained) = choose|hello: int, drained: int|
            #[trigger] tls_goes_through(events, hello, drained) && drained < sent;
        assert(events[drained].0 == ProxyEvent::Drain(true));
    }
}

} // verus!
