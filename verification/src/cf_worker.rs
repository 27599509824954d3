//! The probe of a Cloudflare Worker: its tunnel is opened, an MTProto init is
//! pushed through it, and only silence passes.

use vstd::prelude::*;

use crate::config::{ProtoTag, PROBE_DC};
use crate::status::{Elapsed, ProbeStatus, StatusView};
use crate::text;

verus! {

/// How many seconds the probe waits for its tunnel to be torn down before
/// calling it healthy.
///
/// Telegram answers the init with silence, since it only speaks once the client
/// sends a request, so silence is the success signal here and the probe can
/// only wait it out.
pub const WORKER_TUNNEL_SETTLE_SECS: u64 = 3;

/// How far the probe has come. Until it is done it keeps the address that the
/// tunnel leads to.
pub enum WorkerStage<'a> {
    OpeningTunnel(&'a str),
    SendingInit(&'a str),
    /// Waiting for the tunnel to settle; the time when the init was sent.
    Settling(&'a str, Elapsed),
    Done(ProbeStatus),
}

/// A [`WorkerStage`] with its text as sequences.
pub enum WorkerStageView {
    OpeningTunnel(Seq<char>),
    SendingInit(Seq<char>),
    Settling(Seq<char>, Elapsed),
    Done(StatusView),
}

impl<'a> View for WorkerStage<'a> {
    type V = WorkerStageView;

    open spec fn view(&self) -> WorkerStageView {
        match self {
            WorkerStage::OpeningTunnel(dst) => WorkerStageView::OpeningTunnel(dst@),
            WorkerStage::SendingInit(dst) => WorkerStageView::SendingInit(dst@),
            WorkerStage::Settling(dst, sent) => WorkerStageView::Settling(dst@, *sent),
            WorkerStage::Done(status) => WorkerStageView::Done(status@),
        }
    }
}

/// What a tunnel did while the probe waited.
#[derive(Debug, Clone, Copy, PartialEq, Eq)]
pub enum TunnelReply {
    /// Nothing came until the time was over.
    Silence,
    /// The tunnel was closed.
    Closed,
    /// A payload of so many bytes came.
    Data(usize),
}

/// What came of an action. Errors carry their text.
pub enum WorkerEvent {
    /// The attempt to open the tunnel ended: whether it is open.
    Open(bool),
    /// The attempt to send ended.
    Send(Result<(), String>),
    /// The wait ended.
    Settle(TunnelReply),
}

/// What the probe asks for next.
pub enum WorkerAction<'a> {
    OpenTunnel {
        domain: &'a String,
        dst: &'a str,
        dc: i16,
        media: bool,
        skip_tls: bool,
        timeout_secs: u64,
        disable_tls: bool,
    },
    /// Make the init that opens a session with the data centre, and send it.
    SendInit { proto: ProtoTag, dc_idx: i16 },
    /// Wait for a message from the tunnel.
    Settle { timeout_secs: u64 },
    Finish(&'a ProbeStatus),
}

/// A probe of a Worker.
pub struct WorkerProbe<'a> {
    pub domain: &'a String,
    pub skip_tls: bool,
    pub timeout_secs: u64,
    pub disable_tls: bool,
    pub stage: WorkerStage<'a>,
}

/// What the probe makes of the tunnel to `dst` after the wait. The time it
/// reports is that of the sent init: the wait is a fixed cost of the probe, not
/// latency of the tunnel.
pub open spec fn settle_verdict(dst: Seq<char>, sent: Elapsed, reply: TunnelReply) -> StatusView {
    match reply {
        TunnelReply::Silence => StatusView::Pass(sent),
        TunnelReply::Closed => StatusView::Fail(
            "Worker tunnel to "@ + dst
                + " closed immediately — the Worker cannot reach Telegram (check its live logs in the Cloudflare dashboard)"@,
        ),
        TunnelReply::Data(len) => StatusView::Fail(
            "Worker tunnel to "@ + dst + " answered the MTProto init with "@ + text::decimal(
                len as nat,
            ) + " unexpected bytes — the far end is not a Telegram DC"@,
        ),
    }
}

/// The stage that a probe begins at, by the address of the data centre.
pub open spec fn worker_start(dst: Option<Seq<char>>) -> WorkerStageView {
    match dst {
        Some(dst) => WorkerStageView::OpeningTunnel(dst),
        None => WorkerStageView::Done(StatusView::Fail("DC 2 default IP is missing"@)),
    }
}

/// The stage that follows `stage` when `event` comes, `elapsed` after the probe
/// began. An event that answers no pending action changes nothing.
pub open spec fn worker_next(
    stage: WorkerStageView,
    event: WorkerEvent,
    elapsed: Elapsed,
) -> WorkerStageView {
    match (stage, event) {
        (WorkerStageView::OpeningTunnel(dst), WorkerEvent::Open(open)) => if open {
            WorkerStageView::SendingInit(dst)
        } else {
            WorkerStageView::Done(
                StatusView::Fail(
                    "Worker WebSocket tunnel failed — check Worker code and domain"@,
                ),
            )
        },
        (WorkerStageView::SendingInit(dst), WorkerEvent::Send(result)) => match result {
            Ok(_) => WorkerStageView::Settling(dst, elapsed),
            Err(e) => WorkerStageView::Done(
                StatusView::Fail("Worker tunnel closed on send: "@ + e@),
            ),
        },
        (WorkerStageView::Settling(dst, sent), WorkerEvent::Settle(reply)) => WorkerStageView::Done(
            settle_verdict(dst, sent, reply),
        ),
        _ => stage,
    }
}

/// Judges the tunnel to `dst` after the wait.
pub fn judge_tunnel(dst: &str, sent: Elapsed, reply: TunnelReply) -> (status: ProbeStatus)
    ensures
        status@ == settle_verdict(dst@, sent, reply),
{
    match reply {
        TunnelReply::Silence => ProbeStatus::Pass(sent),
        TunnelReply::Closed => {
            let mut reason = text::joined("Worker tunnel to ", dst);
            reason.append(
                " closed immediately — the Worker cannot reach Telegram (check its live logs in the Cloudflare dashboard)",
            );
            ProbeStatus::Fail(reason)
        },
        TunnelReply::Data(len) => {
            let mut reason = text::joined("Worker tunnel to ", dst);
            reason.append(" answered the MTProto init with ");
            reason.append(text::decimal_string(len as u128).as_str());
            reason.append(" unexpected bytes — the far end is not a Telegram DC");
            ProbeStatus::Fail(reason)
        },
    }
}

/// Begins a probe of the Worker at `domain`; `dst` is the default address of the
/// data centre, if there is one.
///
/// The WebSocket upgrade alone proves nothing about the tunnel: Cloudflare
/// answers it from the Worker script itself, whether or not the Worker ever
/// reaches the data centre. Sending the init and watching for a close is what
/// tells the two apart.
pub fn probe_cf_worker<'a>(
    domain: &'a String,
    dst: Option<&'a str>,
    skip_tls: bool,
    timeout_secs: u64,
    disable_tls: bool,
) -> (probe: WorkerProbe<'a>)
    ensures
        probe.domain == domain,
        probe.skip_tls == skip_tls,
        probe.timeout_secs == timeout_secs,
        probe.disable_tls == disable_tls,
        probe.stage@ == worker_start(
            match dst {
                Some(dst) => Some(dst@),
                None => None,
            },
        ),
{
    let stage = match dst {
        Some(dst) => WorkerStage::OpeningTunnel(dst),
        None => WorkerStage::Done(ProbeStatus::Fail("DC 2 default IP is missing".to_owned())),
    };
    WorkerProbe { domain, skip_tls, timeout_secs, disable_tls, stage }
}

impl<'a> WorkerProbe<'a> {
    /// What the probe asks for at its present stage.
    pub fn action<'s>(&'s self) -> (action: WorkerAction<'s>)
        ensures
            match self.stage@ {
                WorkerStageView::OpeningTunnel(dst) => {
                    &&& action matches WorkerAction::OpenTunnel {
                        domain,
                        dst: shown,
                        dc,
                        media,
                        skip_tls,
                        timeout_secs,
                        disable_tls,
                    }
                    &&& domain == self.domain
                    &&& shown@ == dst
                    &&& dc == PROBE_DC
                    &&& !media
                    &&& skip_tls == self.skip_tls
                    &&& timeout_secs == self.timeout_secs
                    &&& disable_tls == self.disable_tls
                },
                WorkerStageView::SendingInit(_) => action == (WorkerAction::SendInit {
                    proto: ProtoTag::Intermediate,
                    dc_idx: PROBE_DC,
                }),
                WorkerStageView::Settling(_, _) => action == (WorkerAction::Settle {
                    timeout_secs: WORKER_TUNNEL_SETTLE_SECS,
                }),
                WorkerStageView::Done(status) => action matches WorkerAction::Finish(shown)
                    && shown@ == status,
            },
    {
        match &self.stage {
            WorkerStage::OpeningTunnel(dst) => WorkerAction::OpenTunnel {
                domain: self.domain,
                dst: *dst,
                dc: PROBE_DC,
                media: false,
                skip_tls: self.skip_tls,
                timeout_secs: self.timeout_secs,
                disable_tls: self.disable_tls,
            },
            WorkerStage::SendingInit(_) => WorkerAction::SendInit {
                proto: ProtoTag::Intermediate,
                dc_idx: PROBE_DC,
            },
            WorkerStage::Settling(_, _) => WorkerAction::Settle {
                timeout_secs: WORKER_TUNNEL_SETTLE_SECS,
            },
            WorkerStage::Done(status) => WorkerAction::Finish(status),
        }
    }

    /// Takes in what came of the last action, `elapsed` after the probe began.
    pub fn handle(self, event: WorkerEvent, elapsed: Elapsed) -> (next: Self)
        ensures
            next.domain == self.domain,
            next.skip_tls == self.skip_tls,
            next.timeout_secs == self.timeout_secs,
            next.disable_tls == self.disable_tls,
            next.stage@ == worker_next(self.stage@, event, elapsed),
    {
        let stage = match (self.stage, event) {
            (WorkerStage::OpeningTunnel(dst), WorkerEvent::Open(open)) => if open {
                WorkerStage::SendingInit(dst)
            } else {
                WorkerStage::Done(
                    ProbeStatus::Fail(
                        "Worker WebSocket tunnel failed — check Worker code and domain".to_owned(),
                    ),
                )
            },
            (WorkerStage::SendingInit(dst), WorkerEvent::Send(result)) => match result {
                Ok(_) => WorkerStage::Settling(dst, elapsed),
                Err(e) => WorkerStage::Done(
                    ProbeStatus::Fail(text::joined("Worker tunnel closed on send: ", e.as_str())),
                ),
            },
            (WorkerStage::Settling(dst, sent), WorkerEvent::Settle(reply)) => WorkerStage::Done(
                judge_tunnel(dst, sent, reply),
            ),
            (stage, _) => stage,
        };
        WorkerProbe {
            domain: self.domain,
            skip_tls: self.skip_tls,
            timeout_secs: self.timeout_secs,
            disable_tls: self.disable_tls,
            stage,
        }
    }
}

// ---------------------------------------------------------------------------
// Laws
// ---------------------------------------------------------------------------
/// The stage after all of `events`, each with the time it came at.
pub open spec fn worker_run(
    stage: WorkerStageView,
    events: Seq<(WorkerEvent, Elapsed)>,
) -> WorkerStageView
    decreases events.len(),
{
    if events.len() == 0 {
        stage
    } else {
        worker_next(worker_run(stage, events.drop_last()), events.last().0, events.last().1)
    }
}

/// Whether `events[sent]` is the send of the init.
pub open spec fn sends_init(
    start: WorkerStageView,
    events: Seq<(WorkerEvent, Elapsed)>,
    sent: int,
) -> bool {
    &&& worker_run(start, events.take(sent)) is SendingInit
    &&& events[sent].0 matches WorkerEvent::Send(Ok(_))
}

/// Whether `events[sent]` is the send of the init and `events[settled]`, later,
/// the end of the wait in silence.
pub open spec fn init_then_silence(
    start: WorkerStageView,
    events: Seq<(WorkerEvent, Elapsed)>,
    sent: int,
    settled: int,
) -> bool {
    &&& 0 <= sent < settled < events.len()
    &&& sends_init(start, events, sent)
    &&& worker_run(start, events.take(settled)) is Settling
    &&& events[settled].0 == WorkerEvent::Settle(TunnelReply::Silence)
}

/// A verdict is final: nothing that comes later changes it.
pub proof fn law_worker_verdict_is_final(status: StatusView, events: Seq<(WorkerEvent, Elapsed)>)
    ensures
        worker_run(WorkerStageView::Done(status), events) == WorkerStageView::Done(status),
    decreases events.len(),
{
    if events.len() > 0 {
        law_worker_verdict_is_final(status, events.drop_last());
    }
}

/// A probe that waits for the tunnel to settle has sent the init, and keeps the
/// time of that.
pub proof fn law_settling_worker_has_sent_init(
    dst: Option<Seq<char>>,
    events: Seq<(WorkerEvent, Elapsed)>,
)
    ensures
        worker_run(worker_start(dst), events) matches WorkerStageView::Settling(_, time) ==> exists|
            sent: int,
        |
            0 <= sent < events.len() && #[trigger] sends_init(worker_start(dst), events, sent)
                && events[sent].1 == time,
    decreases events.len(),
{
    let start = worker_start(dst);
    if events.len() > 0 {
        let before = events.drop_last();
        law_settling_worker_has_sent_init(dst, before);
        if let WorkerStageView::Settling(_, time) = worker_run(start, events) {
            if worker_run(start, before) is Settling {
                let sent = choose|sent: int|
                    0 <= sent < before.len() && #[trigger] sends_init(start, before, sent)
                        && before[sent].1 == time;
                assert(events.take(sent) =~= before.take(sent));
                assert(sends_init(start, events, sent));
            } else {
                let sent = events.len() - 1;
                assert(events.take(sent) =~= before);
                assert(sends_init(start, events, sent));
            }
        }
    }
}

/// Whatever happens, the probe passes only where the init was sent and silence
/// followed it; an open tunnel is not enough. The time it reports is that of
/// the sent init, without the wait.
pub proof fn law_worker_passes_only_on_silence(
    dst: Option<Seq<char>>,
    events: Seq<(WorkerEvent, Elapsed)>,
    elapsed: Elapsed,
)
    requires
        worker_run(worker_start(dst), events) == WorkerStageView::Done(StatusView::Pass(elapsed)),
    ensures
        exists|sent: int, settled: int|
            #[trigger] init_then_silence(worker_start(dst), events, sent, settled)
                && events[sent].1 == elapsed,
    decreases events.len(),
{
    let start = worker_start(dst);
    let before = events.drop_last();
    match worker_run(start, before) {
        WorkerStageView::Done(_) => {
            law_worker_passes_only_on_silence(dst, before, elapsed);
            let (sent, settled) = choose|sent: int, settled: int|
                #[trigger] init_then_silence(start, before, sent, settled) && before[sent].1
                    == elapsed;
            assert(events.take(sent) =~= before.take(sent));
            assert(events.take(settled) =~= before.take(settled));
            assert(init_then_silence(start, events, sent, settled));
        },
        _ => {
            law_settling_worker_has_sent_init(dst, before);
            let sent = choose|sent: int|
                0 <= sent < before.len() && #[trigger] sends_init(start, before, sent)
                    && before[sent].1 == elapsed;
            let settled = events.len() - 1;
            assert(events.take(sent) =~= before.take(sent));
            assert(events.take(settled) =~= before);
            assert(init_then_silence(start, events, sent, settled));
        },
    }
}

/// A tunnel that opens, takes the init and then stays silent passes.
pub proof fn law_worker_passes_on_silence(
    dst: Seq<char>,
    opened: (WorkerEvent, Elapsed),
    sent: (WorkerEvent, Elapsed),
    settled: (WorkerEvent, Elapsed),
)
    requires
        opened.0 == WorkerEvent::Open(true),
        sent.0 matches WorkerEvent::Send(Ok(_)),
        settled.0 == WorkerEvent::Settle(TunnelReply::Silence),
    ensures
        worker_run(worker_start(Some(dst)), seq![opened, sent, settled]) == WorkerStageView::Done(
            StatusView::Pass(sent.1),
        ),
{
    assert(seq![opened, sent, settled].drop_last() =~= seq![opened, sent]);
    assert(seq![opened, sent].drop_last() =~= seq![opened]);
    assert(seq![opened].drop_last() =~= Seq::empty());
    reveal_with_fuel(worker_run, 4);
}

/// A probe that begins asks for a tunnel to the address of data centre 2, through
/// its Worker and with the settings it was given; without an address it fails at
/// once.
pub proof fn law_worker_tunnel_is_asked_for_as_given<'a>(
    domain: &'a String,
    dst: Option<&'a str>,
    skip_tls: bool,
    timeout_secs: u64,
    disable_tls: bool,
    probe: WorkerProbe<'a>,
    action: WorkerAction<'a>,
)
    requires
        call_ensures(probe_cf_worker, (domain, dst, skip_tls, timeout_secs, disable_tls), probe),
        call_ensures(WorkerProbe::<'a>::action, (&probe,), action),
    ensures
        dst matches Some(address) ==> {
            &&& probe.stage matches WorkerStage::OpeningTunnel(kept)
            &&& kept@ == address@
            &&& action matches WorkerAction::OpenTunnel {
                domain: asked,
                dst: shown,
                dc,
                media,
                skip_tls: skip,
                timeout_secs: limit,
                disable_tls: disable,
            }
            &&& asked@ == domain@
            &&& shown@ == address@
            &&& dc == 2
            &&& !media
            &&& skip == skip_tls
            &&& limit == timeout_secs
            &&& disable == disable_tls
        },
        dst is None ==> {
            &&& probe.stage matches WorkerStage::Done(ProbeStatus::Fail(reason))
            &&& reason@ == "DC 2 default IP is missing"@
            &&& action is Finish
        },
{
}

/// Once the tunnel is open the probe asks to send an init for data centre 2, then
/// to wait three seconds, and at the end it shows its verdict.
pub proof fn law_worker_asks_by_stage<'a>(probe: WorkerProbe<'a>, action: WorkerAction<'a>)
    requires
        call_ensures(WorkerProbe::<'a>::action, (&probe,), action),
    ensures
        match probe.stage {
            WorkerStage::OpeningTunnel(_) => action is OpenTunnel,
            WorkerStage::SendingInit(_) => action matches WorkerAction::SendInit { proto, dc_idx }
                && proto is Intermediate && dc_idx == 2,
            WorkerStage::Settling(_, _) => action matches WorkerAction::Settle { timeout_secs }
                && timeout_secs == 3,
            WorkerStage::Done(status) => action matches WorkerAction::Finish(shown) && shown@
                == status@,
        },
{
}

/// A success takes the probe to the next stage of the same tunnel, and the time of
/// the sent init is kept.
pub proof fn law_worker_goes_on_after_success<'a>(
    probe: WorkerProbe<'a>,
    event: WorkerEvent,
    elapsed: Elapsed,
    next: WorkerProbe<'a>,
)
    requires
        call_ensures(WorkerProbe::<'a>::handle, (probe, event, elapsed), next),
    ensures
        probe.stage matches WorkerStage::OpeningTunnel(dst) ==> (event
            == WorkerEvent::Open(true) <==> (next.stage matches WorkerStage::SendingInit(kept)
            && kept@ == dst@)),
        probe.stage matches WorkerStage::SendingInit(dst) ==> ((event matches WorkerEvent::Send(
            Ok(_),
        )) <==> (next.stage matches WorkerStage::Settling(kept, sent) && kept@ == dst@ && sent
            == elapsed)),
{
}

/// A tunnel that does not open, and an init that cannot be sent, fail the probe and
/// are named.
pub proof fn law_worker_names_what_failed<'a>(
    probe: WorkerProbe<'a>,
    event: WorkerEvent,
    elapsed: Elapsed,
    next: WorkerProbe<'a>,
)
    requires
        call_ensures(WorkerProbe::<'a>::handle, (probe, event, elapsed), next),
    ensures
        probe.stage is OpeningTunnel && event == WorkerEvent::Open(false) ==> {
            &&& next.stage matches WorkerStage::Done(ProbeStatus::Fail(reason))
            &&& reason@ == "Worker WebSocket tunnel failed — check Worker code and domain"@
        },
        probe.stage is SendingInit ==> (event matches WorkerEvent::Send(Err(e)) ==> {
            &&& next.stage matches WorkerStage::Done(ProbeStatus::Fail(reason))
            &&& reason@ == "Worker tunnel closed on send: "@ + e@
        }),
{
}

/// Whatever the tunnel does while the probe waits ends the probe. It passes on
/// silence alone, with the time of the sent init; a close and a payload of any
/// number of bytes fail it.
pub proof fn law_any_reply_ends_the_wait<'a>(
    probe: WorkerProbe<'a>,
    reply: TunnelReply,
    elapsed: Elapsed,
    next: WorkerProbe<'a>,
)
    requires
        probe.stage is Settling,
        call_ensures(WorkerProbe::<'a>::handle, (probe, WorkerEvent::Settle(reply), elapsed), next),
    ensures
        next.stage is Done,
        probe.stage matches WorkerStage::Settling(dst, sent) ==> {
            &&& reply is Silence <==> next.stage == WorkerStage::<'a>::Done(ProbeStatus::Pass(sent))
            &&& reply !is Silence <==> (next.stage matches WorkerStage::Done(status)
                && status is Fail)
            &&& reply is Closed ==> (next.stage matches WorkerStage::Done(ProbeStatus::Fail(reason))
                && reason@ == "Worker tunnel to "@ + dst@
                + " closed immediately — the Worker cannot reach Telegram (check its live logs in the Cloudflare dashboard)"@)
            &&& reply matches TunnelReply::Data(len) ==> (next.stage matches WorkerStage::Done(
                ProbeStatus::Fail(reason),
            ) && reason@ == "Worker tunnel to "@ + dst@ + " answered the MTProto init with "@
                + text::decimal(len as nat)
                + " unexpected bytes — the far end is not a Telegram DC"@)
        },
{
}

/// The verdict on a tunnel rests on its reply: it passes on silence alone, with the
/// time of the sent init.
pub proof fn law_tunnel_is_judged_by_its_reply(
    dst: &str,
    sent: Elapsed,
    reply: TunnelReply,
    status: ProbeStatus,
)
    requires
        call_ensures(judge_tunnel, (dst, sent, reply), status),
    ensures
        reply is Silence <==> status == ProbeStatus::Pass(sent),
        reply !is Silence <==> status is Fail,
{
}

/// An event that answers nothing the probe has asked for changes nothing, nor does
/// any event once the verdict stands; and a probe never loses what it was given.
pub proof fn law_worker_heeds_only_answers<'a>(
    probe: WorkerProbe<'a>,
    event: WorkerEvent,
    elapsed: Elapsed,
    next: WorkerProbe<'a>,
)
    requires
        call_ensures(WorkerProbe::<'a>::handle, (probe, event, elapsed), next),
    ensures
        next.domain@ == probe.domain@,
        next.skip_tls == probe.skip_tls,
        next.timeout_secs == probe.timeout_secs,
        next.disable_tls == probe.disable_tls,
        match probe.stage {
            WorkerStage::OpeningTunnel(dst) => event !is Open ==> (next.stage matches
                WorkerStage::OpeningTunnel(kept) && kept@ == dst@),
            WorkerStage::SendingInit(dst) => event !is Send ==> (next.stage matches
                WorkerStage::SendingInit(kept) && kept@ == dst@),
            WorkerStage::Settling(dst, sent) => event !is Settle ==> (next.stage matches
                WorkerStage::Settling(kept, time) && kept@ == dst@ && time == sent),
            WorkerStage::Done(status) => next.stage matches WorkerStage::Done(kept) && kept@
                == status@,
        },
{
}

/// Whether each probe in `probes` takes in one of `events`, and the next one is
/// what comes of that.
pub open spec fn is_worker_run<'a>(
    probes: Seq<WorkerProbe<'a>>,
    events: Seq<(WorkerEvent, Elapsed)>,
) -> bool {
    &&& probes.len() == events.len() + 1
    &&& forall|i: int|
        0 <= i < events.len() ==> call_ensures(
            WorkerProbe::<'a>::handle,
            (probes[i], (#[trigger] events[i]).0, events[i].1),
            probes[i + 1],
        )
}

/// Whether the tunnel opens at `opened`, the init is sent at `sent` and the first
/// wait to end after that ends at `settled`, in silence.
pub open spec fn opened_sent_silent(
    events: Seq<(WorkerEvent, Elapsed)>,
    opened: int,
    sent: int,
    settled: int,
) -> bool {
    &&& 0 <= opened < sent < settled < events.len()
    &&& events[opened].0 == WorkerEvent::Open(true)
    &&& events[sent].0 matches WorkerEvent::Send(Ok(_))
    &&& events[settled].0 == WorkerEvent::Settle(TunnelReply::Silence)
    &&& forall|i: int| sent < i < settled ==> !((#[trigger] events[i]).0 is Settle)
}

/// Whether the events up to now account for the stage of a probe that has passed
/// no verdict or a good one.
spec fn accounts_for(events: Seq<(WorkerEvent, Elapsed)>, stage: WorkerStage<'_>) -> bool {
    match stage {
        WorkerStage::OpeningTunnel(_) => true,
        WorkerStage::SendingInit(_) => exists|opened: int|
            0 <= opened < events.len() && (#[trigger] events[opened]).0 == WorkerEvent::Open(true),
        WorkerStage::Settling(_, time) => exists|opened: int, sent: int|
            0 <= opened < sent < events.len() && (#[trigger] events[opened]).0
                == WorkerEvent::Open(true) && ((#[trigger] events[sent]).0 matches WorkerEvent::Send(
                Ok(_),
            )) && events[sent].1 == time && forall|i: int|
                sent < i < events.len() ==> !((#[trigger] events[i]).0 is Settle),
        WorkerStage::Done(ProbeStatus::Pass(time)) => exists|opened: int, sent: int, settled: int|
            #[trigger] opened_sent_silent(events, opened, sent, settled) && events[sent].1 == time,
        WorkerStage::Done(ProbeStatus::Fail(_)) => true,
    }
}

proof fn lemma_worker_history<'a>(
    probes: Seq<WorkerProbe<'a>>,
    events: Seq<(WorkerEvent, Elapsed)>,
)
    requires
        is_worker_run(probes, events),
        probes[0].stage is OpeningTunnel,
    ensures
        accounts_for(events, probes.last().stage),
    decreases events.len(),
{
    if events.len() > 0 {
        let n = events.len() - 1;
        let before = events.drop_last();
        assert forall|i: int| 0 <= i < before.len() implies call_ensures(
            WorkerProbe::<'a>::handle,
            (probes.drop_last()[i], (#[trigger] before[i]).0, before[i].1),
            probes.drop_last()[i + 1],
        ) by {
            assert(events[i] == before[i]);
        }
        lemma_worker_history(probes.drop_last(), before);
        let probe = probes[n];
        let next = probes[n + 1];
        assert(probes.drop_last().last() == probe);
        assert(probes.last() == next);
        assert(events[n] == events.last());
        assert forall|i: int| 0 <= i < n implies events[i] == #[trigger] before[i] by {}
        law_worker_heeds_only_answers(probe, events[n].0, events[n].1, next);
        law_worker_goes_on_after_success(probe, events[n].0, events[n].1, next);
        law_worker_names_what_failed(probe, events[n].0, events[n].1, next);
        match probe.stage {
            WorkerStage::OpeningTunnel(_) => {},
            WorkerStage::SendingInit(_) => {
                let opened = choose|opened: int|
                    0 <= opened < before.len() && (#[trigger] before[opened]).0
                        == WorkerEvent::Open(true);
                assert(events[opened].0 == WorkerEvent::Open(true));
            },
            WorkerStage::Settling(_, time) => {
                let (opened, sent) = choose|opened: int, sent: int|
                    0 <= opened < sent < before.len() && (#[trigger] before[opened]).0
                        == WorkerEvent::Open(true) && ((#[trigger] before[sent]).0 matches
                        WorkerEvent::Send(Ok(_))) && before[sent].1 == time && forall|i: int|
                        sent < i < before.len() ==> !((#[trigger] before[i]).0 is Settle);
                assert(events[opened].0 == WorkerEvent::Open(true));
                assert(events[sent].0 matches WorkerEvent::Send(Ok(_)));
                assert forall|i: int| sent < i < n implies !((#[trigger] events[i]).0 is Settle) by {
                    assert(events[i] == before[i]);
                }
                if let WorkerEvent::Settle(reply) = events[n].0 {
                    law_any_reply_ends_the_wait(probe, reply, events[n].1, next);
                    if reply is Silence {
                        assert(opened_sent_silent(events, opened, sent, n));
                    }
                }
            },
            WorkerStage::Done(status) => {
                if let ProbeStatus::Pass(time) = status {
                    let (opened, sent, settled) = choose|opened: int, sent: int, settled: int|
                        #[trigger] opened_sent_silent(before, opened, sent, settled)
                            && before[sent].1 == time;
                    assert forall|i: int| sent < i < settled implies !((
                    #[trigger] events[i]).0 is Settle) by {
                        assert(events[i] == before[i]);
                    }
                    assert(events[opened] == before[opened] && events[sent] == before[sent]
                        && events[settled] == before[settled]);
                    assert(opened_sent_silent(events, opened, sent, settled));
                }
            },
        }
    }
}

/// A probe has passed only where its tunnel opened, the init was sent through it,
/// and the first wait to end after that ended in silence. The time is that of the
/// sent init.
pub proof fn law_worker_run_passes_only_on_first_silence<'a>(
    probes: Seq<WorkerProbe<'a>>,
    events: Seq<(WorkerEvent, Elapsed)>,
    elapsed: Elapsed,
)
    requires
        is_worker_run(probes, events),
        probes[0].stage is OpeningTunnel,
        probes.last().stage == WorkerStage::<'a>::Done(ProbeStatus::Pass(elapsed)),
    ensures
        exists|opened: int, sent: int, settled: int|
            #[trigger] opened_sent_silent(events, opened, sent, settled) && events[sent].1
                == elapsed,
{
    lemma_worker_history(probes, events);
}

} // verus!
