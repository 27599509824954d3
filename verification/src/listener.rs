//! The probe of the proxy's own listener: it talks to the listener the way a
//! client would, and only an answer from Telegram passes.

use vstd::prelude::*;

use crate::config::ProtoTag;
use crate::frame;
use crate::status::{Elapsed, ProbeStatus, StatusView};
use crate::text;

verus! {

/// How far the probe has come.
pub enum ListenerStage {
    Connecting,
    SendingHandshake,
    SendingRequest,
    /// Waiting for the reply: the bytes that have come so far, decrypted, and the
    /// time since when the probe waits.
    Reading(Vec<u8>, Elapsed),
    Done(ProbeStatus),
}

/// A [`ListenerStage`] with its bytes and text as sequences.
pub enum ListenerStageView {
    Connecting,
    SendingHandshake,
    SendingRequest,
    Reading(Seq<u8>, Elapsed),
    Done(StatusView),
}

impl View for ListenerStage {
    type V = ListenerStageView;

    open spec fn view(&self) -> ListenerStageView {
        match self {
            ListenerStage::Connecting => ListenerStageView::Connecting,
            ListenerStage::SendingHandshake => ListenerStageView::SendingHandshake,
            ListenerStage::SendingRequest => ListenerStageView::SendingRequest,
            ListenerStage::Reading(plain, since) => ListenerStageView::Reading(plain@, *since),
            ListenerStage::Done(status) => ListenerStageView::Done(status@),
        }
    }
}

/// What came of an action. Errors carry their text.
pub enum ListenerEvent {
    /// The attempt to connect ended.
    Connect(Result<(), String>),
    /// The attempt to send ended.
    Send(Result<(), String>),
    /// A read ended: with decrypted bytes, with none where the listener has
    /// closed the connection, or with an error.
    Read(Result<Vec<u8>, String>),
    /// The time for the reply ran out, and the read had not ended.
    TimedOut,
}

/// What the probe asks for next.
pub enum ListenerAction<'a> {
    Connect { host: &'a str, port: u16, timeout_secs: u64 },
    SendHandshake { secret: &'a [u8], dc_idx: i16, proto: ProtoTag },
    /// Encrypt these bytes with the session's cipher, and send them.
    SendRequest(Vec<u8>),
    /// Read once, waiting for at most this long. A read that can end at once does
    /// so, even where no time is left.
    Read { time_left: Elapsed },
    Finish(&'a ProbeStatus),
}

/// A probe of the listener.
pub struct ListenerProbe<'a> {
    pub host: &'a str,
    pub port: u16,
    pub secret: &'a [u8],
    pub dc_idx: i16,
    pub timeout_secs: u64,
    pub stage: ListenerStage,
}

/// What the probe makes of a decrypted reply.
pub open spec fn reply_verdict(plain: Seq<u8>, elapsed: Elapsed) -> StatusView {
    if frame::is_res_pq(plain) {
        StatusView::Pass(elapsed)
    } else {
        match frame::transport_error(plain) {
            Some(code) => StatusView::Fail("transport error: "@ + text::signed_decimal(code)),
            None => StatusView::Fail(
                "reply is not resPQ ("@ + text::decimal(plain.len()) + " bytes received)"@,
            ),
        }
    }
}

/// The nanoseconds that are left at `now` of the limit of a reply awaited since
/// `since`. All the reads share that one limit.
pub open spec fn time_left(timeout_secs: u64, since: Elapsed, now: Elapsed) -> nat {
    let limit = (timeout_secs * 1_000_000_000) as nat;
    let spent = if now.total_nanos() > since.total_nanos() {
        (now.total_nanos() - since.total_nanos()) as nat
    } else {
        0
    };
    if spent < limit {
        (limit - spent) as nat
    } else {
        0
    }
}

/// What is said where the reply does not come in time.
pub open spec fn no_reply(timeout_secs: u64) -> StatusView {
    StatusView::Fail("no reply within "@ + text::decimal(timeout_secs as nat) + "s"@)
}

/// The stage that follows `stage` when `event` comes, `elapsed` after the probe
/// began. An event that answers no pending action changes nothing.
pub open spec fn listener_next(
    timeout_secs: u64,
    stage: ListenerStageView,
    event: ListenerEvent,
    elapsed: Elapsed,
) -> ListenerStageView {
    match (stage, event) {
        (ListenerStageView::Connecting, ListenerEvent::Connect(result)) => match result {
            Ok(_) => ListenerStageView::SendingHandshake,
            Err(e) => ListenerStageView::Done(StatusView::Fail("TCP connect failed: "@ + e@)),
        },
        (ListenerStageView::SendingHandshake, ListenerEvent::Send(result)) => match result {
            Ok(_) => ListenerStageView::SendingRequest,
            Err(e) => ListenerStageView::Done(StatusView::Fail("send MTProto handshake: "@ + e@)),
        },
        (ListenerStageView::SendingRequest, ListenerEvent::Send(result)) => match result {
            Ok(_) => ListenerStageView::Reading(Seq::empty(), elapsed),
            Err(e) => ListenerStageView::Done(StatusView::Fail("send req_pq_multi: "@ + e@)),
        },
        (ListenerStageView::Reading(plain, since), ListenerEvent::Read(result)) => match result {
            Ok(bytes) => {
                let received = plain + bytes@;
                if bytes@.len() == 0 || frame::reply_settled(received) {
                    ListenerStageView::Done(reply_verdict(received, elapsed))
                } else {
                    ListenerStageView::Reading(received, since)
                }
            },
            Err(e) => ListenerStageView::Done(StatusView::Fail("read from listener: "@ + e@)),
        },
        (ListenerStageView::Reading(_, _), ListenerEvent::TimedOut) => ListenerStageView::Done(
            no_reply(timeout_secs),
        ),
        _ => stage,
    }
}

/// Judges a decrypted reply.
pub fn judge_reply(plain: &[u8], elapsed: Elapsed) -> (status: ProbeStatus)
    ensures
        status@ == reply_verdict(plain@, elapsed),
{
    if frame::reply_is_res_pq(plain) {
        return ProbeStatus::Pass(elapsed);
    }
    match frame::reply_transport_error(plain) {
        Some(code) => {
            let mut reason = "transport error: ".to_owned();
            reason.append(text::signed_decimal_string(code).as_str());
            ProbeStatus::Fail(reason)
        },
        None => {
            let mut reason = "reply is not resPQ (".to_owned();
            reason.append(text::decimal_string(plain.len() as u128).as_str());
            reason.append(" bytes received)");
            ProbeStatus::Fail(reason)
        },
    }
}

/// Whether no further byte can change what the decrypted reply is.
fn is_settled(plain: &[u8]) -> (settled: bool)
    ensures
        settled == frame::reply_settled(plain@),
{
    plain.len() >= frame::FRAME_HEADER_LEN || frame::reply_transport_error(plain).is_some()
}

/// The time that is left at `now` of the limit of a reply awaited since
/// `reading_since`.
pub fn read_time_left(timeout_secs: u64, reading_since: Elapsed, now: Elapsed) -> (left: Elapsed)
    ensures
        left.total_nanos() == time_left(timeout_secs, reading_since, now),
        left.nanos < 1_000_000_000,
{
    let limit: u128 = timeout_secs as u128 * 1_000_000_000;
    let start: u128 = reading_since.as_nanos();
    let end: u128 = now.as_nanos();
    let spent: u128 = if end > start {
        end - start
    } else {
        0
    };
    let left: u128 = if spent < limit {
        limit - spent
    } else {
        0
    };
    Elapsed { secs: (left / 1_000_000_000) as u64, nanos: (left % 1_000_000_000) as u32 }
}

/// Begins a probe of the listener at `host` and `port`.
///
/// It connects, sends the obfuscation handshake and a real `req_pq_multi`, and
/// requires the reply to be `resPQ`. Nothing weaker will do: the listener
/// accepts a handshake before it has anywhere to forward the connection, so a
/// successful send says only that the socket is open.
pub fn probe_listener<'a>(
    host: &'a str,
    port: u16,
    secret: &'a [u8],
    dc_idx: i16,
    timeout_secs: u64,
) -> (probe: ListenerProbe<'a>)
    ensures
        probe.host == host,
        probe.port == port,
        probe.secret == secret,
        probe.dc_idx == dc_idx,
        probe.timeout_secs == timeout_secs,
        probe.stage@ == ListenerStageView::Connecting,
{
    ListenerProbe { host, port, secret, dc_idx, timeout_secs, stage: ListenerStage::Connecting }
}

impl<'a> ListenerProbe<'a> {
    /// What the probe asks for at its present stage, `now` after it began. The
    /// request differs from call to call in its time and its nonce.
    pub fn action<'s>(&'s self, now: Elapsed) -> (action: ListenerAction<'s>)
        ensures
            match self.stage@ {
                ListenerStageView::Connecting => action == (ListenerAction::Connect {
                    host: self.host,
                    port: self.port,
                    timeout_secs: self.timeout_secs,
                }),
                ListenerStageView::SendingHandshake => action == (ListenerAction::SendHandshake {
                    secret: self.secret,
                    dc_idx: self.dc_idx,
                    proto: ProtoTag::PaddedIntermediate,
                }),
                ListenerStageView::SendingRequest => action matches ListenerAction::SendRequest(
                    request,
                ) && frame::is_req_pq_multi(request@) && frame::is_fresh_request(request@),
                ListenerStageView::Reading(_, since) => {
                    &&& action matches ListenerAction::Read { time_left: left }
                    &&& left.total_nanos() == time_left(self.timeout_secs, since, now)
                    &&& left.nanos < 1_000_000_000
                },
                ListenerStageView::Done(status) => action matches ListenerAction::Finish(shown)
                    && shown@ == status,
            },
    {
        match &self.stage {
            ListenerStage::Connecting => ListenerAction::Connect {
                host: self.host,
                port: self.port,
                timeout_secs: self.timeout_secs,
            },
            ListenerStage::SendingHandshake => ListenerAction::SendHandshake {
                secret: self.secret,
                dc_idx: self.dc_idx,
                proto: ProtoTag::PaddedIntermediate,
            },
            ListenerStage::SendingRequest => ListenerAction::SendRequest(
                frame::build_req_pq_multi(),
            ),
            ListenerStage::Reading(_, since) => ListenerAction::Read {
                time_left: read_time_left(self.timeout_secs, *since, now),
            },
            ListenerStage::Done(status) => ListenerAction::Finish(status),
        }
    }

    /// Takes in what came of the last action, `elapsed` after the probe began.
    pub fn handle(self, event: ListenerEvent, elapsed: Elapsed) -> (next: Self)
        ensures
            next.host == self.host,
            next.port == self.port,
            next.secret == self.secret,
            next.dc_idx == self.dc_idx,
            next.timeout_secs == self.timeout_secs,
            next.stage@ == listener_next(self.timeout_secs, self.stage@, event, elapsed),
    {
        let stage = match (self.stage, event) {
            (ListenerStage::Connecting, ListenerEvent::Connect(result)) => match result {
                Ok(_) => ListenerStage::SendingHandshake,
                Err(e) => failed("TCP connect failed: ", &e),
            },
            (ListenerStage::SendingHandshake, ListenerEvent::Send(result)) => match result {
                Ok(_) => ListenerStage::SendingRequest,
                Err(e) => failed("send MTProto handshake: ", &e),
            },
            (ListenerStage::SendingRequest, ListenerEvent::Send(result)) => match result {
                Ok(_) => ListenerStage::Reading(Vec::new(), elapsed),
                Err(e) => failed("send req_pq_multi: ", &e),
            },
            (ListenerStage::Reading(plain, since), ListenerEvent::Read(result)) => match result {
                Ok(bytes) => {
                    let mut received = plain;
                    received.extend_from_slice(bytes.as_slice());
                    proof {
                        assert(received@ =~= plain@ + bytes@);
                    }
                    if bytes.len() == 0 || is_settled(received.as_slice()) {
                        ListenerStage::Done(judge_reply(received.as_slice(), elapsed))
                    } else {
                        ListenerStage::Reading(received, since)
                    }
                },
                Err(e) => failed("read from listener: ", &e),
            },
            (ListenerStage::Reading(_, _), ListenerEvent::TimedOut) => {
                let mut reason = "no reply within ".to_owned();
                reason.append(text::decimal_string(self.timeout_secs as u128).as_str());
                reason.append("s");
                ListenerStage::Done(ProbeStatus::Fail(reason))
            },
            (stage, _) => stage,
        };
        ListenerProbe {
            host: self.host,
            port: self.port,
            secret: self.secret,
            dc_idx: self.dc_idx,
            timeout_secs: self.timeout_secs,
            stage,
        }
    }
}

fn failed(what: &str, error: &String) -> (stage: ListenerStage)
    ensures
        stage@ == ListenerStageView::Done(StatusView::Fail(what@ + error@)),
{
    ListenerStage::Done(ProbeStatus::Fail(text::joined(what, error.as_str())))
}

// ---------------------------------------------------------------------------
// Laws
// ---------------------------------------------------------------------------
/// The stage after all of `events`, each with the time it came at.
pub open spec fn listener_run(
    timeout_secs: u64,
    stage: ListenerStageView,
    events: Seq<(ListenerEvent, Elapsed)>,
) -> ListenerStageView
    decreases events.len(),
{
    if events.len() == 0 {
        stage
    } else {
        listener_next(
            timeout_secs,
            listener_run(timeout_secs, stage, events.drop_last()),
            events.last().0,
            events.last().1,
        )
    }
}

/// The bytes of a read that did not end in an error.
pub open spec fn read_bytes(event: ListenerEvent) -> Seq<u8> {
    match event {
        ListenerEvent::Read(Ok(bytes)) => bytes@,
        _ => Seq::empty(),
    }
}

/// The bytes of all the reads among `events`, in the order they came.
pub open spec fn all_read_bytes(events: Seq<(ListenerEvent, Elapsed)>) -> Seq<u8>
    decreases events.len(),
{
    if events.len() == 0 {
        Seq::empty()
    } else {
        all_read_bytes(events.drop_last()) + read_bytes(events.last().0)
    }
}

/// Whether each of `events` is a read that brought bytes.
pub open spec fn all_bring_bytes(events: Seq<(ListenerEvent, Elapsed)>) -> bool {
    forall|i: int|
        0 <= i < events.len() ==> {
            &&& (#[trigger] events[i]).0 matches ListenerEvent::Read(Ok(bytes))
            &&& bytes@.len() > 0
        }
}

/// Whether `events[at]` is the read that completes a `resPQ`: the stage before
/// it is reading, and with its bytes the reply is one.
pub open spec fn completes_res_pq(
    timeout_secs: u64,
    events: Seq<(ListenerEvent, Elapsed)>,
    at: int,
) -> bool {
    match listener_run(timeout_secs, ListenerStageView::Connecting, events.take(at)) {
        ListenerStageView::Reading(plain, _) => {
            &&& events[at].0 is Read
            &&& frame::is_res_pq(plain + read_bytes(events[at].0))
        },
        _ => false,
    }
}

/// Whether `events[at]` is the send of the request.
pub open spec fn sends_request(
    timeout_secs: u64,
    events: Seq<(ListenerEvent, Elapsed)>,
    at: int,
) -> bool {
    &&& listener_run(
        timeout_secs,
        ListenerStageView::Connecting,
        events.take(at),
    ) is SendingRequest
    &&& events[at].0 matches ListenerEvent::Send(Ok(_))
}

/// A verdict is final: nothing that comes later changes it.
pub proof fn law_listener_verdict_is_final(
    timeout_secs: u64,
    status: StatusView,
    events: Seq<(ListenerEvent, Elapsed)>,
)
    ensures
        listener_run(timeout_secs, ListenerStageView::Done(status), events)
            == ListenerStageView::Done(status),
    decreases events.len(),
{
    if events.len() > 0 {
        law_listener_verdict_is_final(timeout_secs, status, events.drop_last());
    }
}

/// Whatever happens, the probe passes only on a reply that is Telegram's
/// `resPQ`; neither an open socket nor an accepted handshake is enough. The time
/// it reports is that of the read that completed the reply.
pub proof fn law_listener_passes_only_on_res_pq(
    timeout_secs: u64,
    events: Seq<(ListenerEvent, Elapsed)>,
    elapsed: Elapsed,
)
    requires
        listener_run(timeout_secs, ListenerStageView::Connecting, events)
            == ListenerStageView::Done(StatusView::Pass(elapsed)),
    ensures
        exists|at: int|
            0 <= at < events.len() && #[trigger] completes_res_pq(timeout_secs, events, at)
                && events[at].1 == elapsed,
    decreases events.len(),
{
    let before = events.drop_last();
    let stage = listener_run(timeout_secs, ListenerStageView::Connecting, before);
    match stage {
        ListenerStageView::Done(status) => {
            law_listener_passes_only_on_res_pq(timeout_secs, before, elapsed);
            let at = choose|at: int|
                0 <= at < before.len() && #[trigger] completes_res_pq(timeout_secs, before, at)
                    && before[at].1 == elapsed;
            assert(events.take(at) =~= before.take(at));
            assert(completes_res_pq(timeout_secs, events, at));
        },
        _ => {
            let at = events.len() - 1;
            assert(events.take(at) =~= before);
            assert(completes_res_pq(timeout_secs, events, at));
        },
    }
}

/// A probe that waits for the reply has sent the request, and keeps the time of
/// that.
pub proof fn law_reading_listener_has_sent_request(
    timeout_secs: u64,
    events: Seq<(ListenerEvent, Elapsed)>,
)
    ensures
        listener_run(timeout_secs, ListenerStageView::Connecting, events) matches
            ListenerStageView::Reading(_, since) ==> exists|sent: int|
            0 <= sent < events.len() && #[trigger] sends_request(timeout_secs, events, sent)
                && events[sent].1 == since,
    decreases events.len(),
{
    let start = ListenerStageView::Connecting;
    if events.len() > 0 {
        let before = events.drop_last();
        law_reading_listener_has_sent_request(timeout_secs, before);
        if let ListenerStageView::Reading(_, since) = listener_run(timeout_secs, start, events) {
            if listener_run(timeout_secs, start, before) is Reading {
                let sent = choose|sent: int|
                    0 <= sent < before.len() && #[trigger] sends_request(timeout_secs, before, sent)
                        && before[sent].1 == since;
                assert(events.take(sent) =~= before.take(sent));
                assert(sends_request(timeout_secs, events, sent));
            } else {
                let sent = events.len() - 1;
                assert(events.take(sent) =~= before);
                assert(sends_request(timeout_secs, events, sent));
            }
        }
    }
}

/// One time limit spans the whole reply, however many reads it takes: none of
/// them begins the wait anew.
pub proof fn law_reads_keep_the_start_of_the_wait(
    timeout_secs: u64,
    plain: Seq<u8>,
    since: Elapsed,
    events: Seq<(ListenerEvent, Elapsed)>,
)
    ensures
        match listener_run(timeout_secs, ListenerStageView::Reading(plain, since), events) {
            ListenerStageView::Reading(_, start) => start == since,
            ListenerStageView::Done(_) => true,
            _ => false,
        },
    decreases events.len(),
{
    if events.len() > 0 {
        law_reads_keep_the_start_of_the_wait(timeout_secs, plain, since, events.drop_last());
    }
}

/// The wait of every read ends at the same moment, `timeout_secs` after the
/// request was sent; from that moment on a read has no time left.
pub proof fn law_reads_share_one_limit(timeout_secs: u64, since: Elapsed, now: Elapsed)
    requires
        since.total_nanos() <= now.total_nanos(),
    ensures
        ({
            let end = since.total_nanos() + timeout_secs * 1_000_000_000;
            let left = time_left(timeout_secs, since, now);
            if now.total_nanos() < end {
                now.total_nanos() + left == end
            } else {
                left == 0
            }
        }),
{
}

/// Where the time runs out on a probe that waits for the reply, it has failed for
/// good, whatever had come and whatever comes later.
pub proof fn law_no_reply_in_time_is_final(
    timeout_secs: u64,
    plain: Seq<u8>,
    since: Elapsed,
    late: Elapsed,
    events: Seq<(ListenerEvent, Elapsed)>,
)
    ensures
        listener_run(
            timeout_secs,
            ListenerStageView::Reading(plain, since),
            seq![(ListenerEvent::TimedOut, late)] + events,
        ) == ListenerStageView::Done(no_reply(timeout_secs)),
    decreases events.len(),
{
    let all = seq![(ListenerEvent::TimedOut, late)] + events;
    if events.len() == 0 {
        assert(all.drop_last() =~= Seq::empty());
        reveal_with_fuel(listener_run, 2);
    } else {
        assert(all.drop_last() =~= seq![(ListenerEvent::TimedOut, late)] + events.drop_last());
        law_no_reply_in_time_is_final(timeout_secs, plain, since, late, events.drop_last());
    }
}

/// The exchange that a client has with a working listener passes: connected,
/// handshake and request sent, and then a `resPQ` in a single read.
pub proof fn law_listener_passes_on_res_pq(
    timeout_secs: u64,
    connected: (ListenerEvent, Elapsed),
    greeted: (ListenerEvent, Elapsed),
    asked: (ListenerEvent, Elapsed),
    answered: (ListenerEvent, Elapsed),
)
    requires
        connected.0 matches ListenerEvent::Connect(Ok(_)),
        greeted.0 matches ListenerEvent::Send(Ok(_)),
        asked.0 matches ListenerEvent::Send(Ok(_)),
        answered.0 matches ListenerEvent::Read(Ok(bytes)) && frame::is_res_pq(bytes@),
    ensures
        listener_run(
            timeout_secs,
            ListenerStageView::Connecting,
            seq![connected, greeted, asked, answered],
        ) == ListenerStageView::Done(StatusView::Pass(answered.1)),
{
    let events = seq![connected, greeted, asked, answered];
    assert(events.drop_last() =~= seq![connected, greeted, asked]);
    assert(events.drop_last().drop_last() =~= seq![connected, greeted]);
    assert(events.drop_last().drop_last().drop_last() =~= seq![connected]);
    assert(events.drop_last().drop_last().drop_last().drop_last() =~= Seq::empty());
    reveal_with_fuel(listener_run, 5);
    let bytes = read_bytes(answered.0);
    assert(Seq::<u8>::empty() + bytes =~= bytes);
}

/// While reads bring bytes, the probe either holds all of them and needs more,
/// or has judged a settled beginning of them.
proof fn lemma_reading(
    timeout_secs: u64,
    since: Elapsed,
    events: Seq<(ListenerEvent, Elapsed)>,
)
    requires
        all_bring_bytes(events),
    ensures
        ({
            let bytes = all_read_bytes(events);
            match listener_run(
                timeout_secs,
                ListenerStageView::Reading(Seq::empty(), since),
                events,
            ) {
                ListenerStageView::Reading(plain, start) => plain == bytes && start == since
                    && !frame::reply_settled(bytes),
                ListenerStageView::Done(status) => exists|len: int, elapsed: Elapsed|
                    0 <= len <= bytes.len() && frame::reply_settled(bytes.take(len)) && status
                        == #[trigger] reply_verdict(bytes.take(len), elapsed),
                _ => false,
            }
        }),
    decreases events.len(),
{
    let start = ListenerStageView::Reading(Seq::empty(), since);
    let bytes = all_read_bytes(events);
    if events.len() == 0 {
    } else {
        let before = events.drop_last();
        let old_bytes = all_read_bytes(before);
        let chunk = read_bytes(events.last().0);
        assert(all_bring_bytes(before));
        lemma_reading(timeout_secs, since, before);
        assert(events[events.len() - 1].0 is Read);
        match listener_run(timeout_secs, start, before) {
            ListenerStageView::Done(status) => {
                let (len, elapsed) = choose|len: int, elapsed: Elapsed|
                    0 <= len <= old_bytes.len() && frame::reply_settled(old_bytes.take(len))
                        && status == #[trigger] reply_verdict(old_bytes.take(len), elapsed);
                assert(bytes.take(len) =~= old_bytes.take(len));
                assert(status == reply_verdict(bytes.take(len), elapsed));
            },
            _ => {
                assert(bytes.take(bytes.len() as int) =~= bytes);
                assert(frame::reply_settled(bytes) ==> listener_run(timeout_secs, start, events)
                    == ListenerStageView::Done(
                    reply_verdict(bytes.take(bytes.len() as int), events.last().1),
                ));
            },
        }
    }
}

/// The probe waits for no byte more than it needs: once the bytes that have come
/// settle what the reply is, it is done, and it has passed exactly where they
/// are a `resPQ`.
pub proof fn law_settled_reply_ends_the_probe(
    timeout_secs: u64,
    since: Elapsed,
    events: Seq<(ListenerEvent, Elapsed)>,
)
    requires
        all_bring_bytes(events),
        frame::reply_settled(all_read_bytes(events)),
    ensures
        listener_run(timeout_secs, ListenerStageView::Reading(Seq::empty(), since), events) matches
            ListenerStageView::Done(status) && (status is Pass <==> frame::is_res_pq(
            all_read_bytes(events),
        )),
{
    let bytes = all_read_bytes(events);
    lemma_reading(timeout_secs, since, events);
    if let ListenerStageView::Done(status) = listener_run(
        timeout_secs,
        ListenerStageView::Reading(Seq::empty(), since),
        events,
    ) {
        let (len, elapsed) = choose|len: int, elapsed: Elapsed|
            0 <= len <= bytes.len() && frame::reply_settled(bytes.take(len)) && status
                == #[trigger] reply_verdict(bytes.take(len), elapsed);
        assert(bytes.take(len) + bytes.skip(len) =~= bytes);
        frame::law_settled_reply_stays(bytes.take(len), bytes.skip(len));
    }
}

/// How a reply is cut into reads does not matter. After reads that bring
/// `bytes` and then the end of the connection, the probe has passed exactly
/// where `bytes` is a `resPQ`, has named the transport error exactly where it
/// starts with one, and has otherwise counted the bytes, all of them where they
/// fall short of a header.
pub proof fn law_reply_does_not_depend_on_chunks(
    timeout_secs: u64,
    since: Elapsed,
    events: Seq<(ListenerEvent, Elapsed)>,
    end: (ListenerEvent, Elapsed),
)
    requires
        all_bring_bytes(events),
        end.0 matches ListenerEvent::Read(Ok(bytes)) && bytes@.len() == 0,
    ensures
        ({
            let bytes = all_read_bytes(events);
            let stage = listener_run(
                timeout_secs,
                ListenerStageView::Reading(Seq::empty(), since),
                events.push(end),
            );
            &&& stage matches ListenerStageView::Done(status) && {
                &&& status is Pass <==> frame::is_res_pq(bytes)
                &&& frame::transport_error(bytes) matches Some(code) ==> status
                    == StatusView::Fail("transport error: "@ + text::signed_decimal(code))
                &&& !frame::is_res_pq(bytes) && frame::transport_error(bytes) is None ==> exists|
                    len: nat,
                |
                    len <= bytes.len() && (bytes.len() < frame::FRAME_HEADER_LEN ==> len
                        == bytes.len()) && status == StatusView::Fail(
                        "reply is not resPQ ("@ + #[trigger] text::decimal(len)
                            + " bytes received)"@,
                    )
            }
        }),
{
    let bytes = all_read_bytes(events);
    let start = ListenerStageView::Reading(Seq::empty(), since);
    assert(events.push(end).drop_last() =~= events);
    lemma_reading(timeout_secs, since, events);
    match listener_run(timeout_secs, start, events) {
        ListenerStageView::Done(status) => {
            let (len, elapsed) = choose|len: int, elapsed: Elapsed|
                0 <= len <= bytes.len() && frame::reply_settled(bytes.take(len)) && status
                    == #[trigger] reply_verdict(bytes.take(len), elapsed);
            let plain = bytes.take(len);
            assert(plain + bytes.skip(len) =~= bytes);
            frame::law_settled_reply_stays(plain, bytes.skip(len));
            if frame::transport_error(bytes) is Some {
                frame::law_transport_error_is_no_res_pq(bytes);
            }
        },
        ListenerStageView::Reading(plain, _) => {
            assert(plain + read_bytes(end.0) =~= bytes);
        },
        _ => {},
    }
}

/// A probe that begins asks for a connection to its listener, with the limit it was
/// given.
pub proof fn law_listener_is_asked_for_as_given<'a>(
    host: &'a str,
    port: u16,
    secret: &'a [u8],
    dc_idx: i16,
    timeout_secs: u64,
    probe: ListenerProbe<'a>,
    now: Elapsed,
    action: ListenerAction<'a>,
)
    requires
        call_ensures(probe_listener, (host, port, secret, dc_idx, timeout_secs), probe),
        call_ensures(ListenerProbe::<'a>::action, (&probe, now), action),
    ensures
        probe.stage is Connecting,
        probe.secret@ == secret@,
        probe.dc_idx == dc_idx,
        probe.timeout_secs == timeout_secs,
        action matches ListenerAction::Connect {
            host: asked,
            port: asked_port,
            timeout_secs: limit,
        } && asked@ == host@ && asked_port == port && limit == timeout_secs,
{
}

/// What the probe asks for follows from its stage: a connection; the handshake, with
/// the secret and data centre it was given; a `req_pq_multi`; a read, for what is
/// left of the limit; and at the end it shows its verdict.
pub proof fn law_listener_asks_by_stage<'a>(
    probe: ListenerProbe<'a>,
    now: Elapsed,
    action: ListenerAction<'a>,
)
    requires
        call_ensures(ListenerProbe::<'a>::action, (&probe, now), action),
    ensures
        match probe.stage {
            ListenerStage::Connecting => action matches ListenerAction::Connect {
                host,
                port,
                timeout_secs,
            } && host@ == probe.host@ && port == probe.port && timeout_secs == probe.timeout_secs,
            ListenerStage::SendingHandshake => action matches ListenerAction::SendHandshake {
                secret,
                dc_idx,
                proto,
            } && secret@ == probe.secret@ && dc_idx == probe.dc_idx && proto is PaddedIntermediate,
            ListenerStage::SendingRequest => action matches ListenerAction::SendRequest(request)
                && request@.len() == 44 && request@.subrange(0, 4) == seq![40u8, 0u8, 0u8, 0u8]
                && request@.subrange(24, 28) == seq![0xf1u8, 0x8eu8, 0x7eu8, 0xbeu8]
                && frame::is_req_pq_multi(request@) && frame::is_fresh_request(request@),
            ListenerStage::Reading(_, since) => {
                let began = since.secs * 1_000_000_000 + since.nanos;
                let at = now.secs * 1_000_000_000 + now.nanos;
                let end = began + probe.timeout_secs * 1_000_000_000;
                &&& action matches ListenerAction::Read { time_left: left }
                &&& left.nanos < 1_000_000_000
                &&& began <= at <= end ==> at + left.secs * 1_000_000_000 + left.nanos == end
                &&& at >= end ==> left.secs == 0 && left.nanos == 0
                &&& at <= began ==> left.secs == probe.timeout_secs && left.nanos == 0
            },
            ListenerStage::Done(status) => action matches ListenerAction::Finish(shown) && shown@
                == status@,
        },
{
    if let ListenerAction::SendRequest(request) = action {
        if probe.stage is SendingRequest {
            frame::law_is_request_bytes(request@);
        }
    }
}

/// The time left and the time spent make up the limit, for as long as it is not
/// used up; then nothing is left. A wait that has not begun has all of it.
pub proof fn law_time_left_and_spent_make_the_limit(
    timeout_secs: u64,
    since: Elapsed,
    now: Elapsed,
    left: Elapsed,
)
    requires
        call_ensures(read_time_left, (timeout_secs, since, now), left),
    ensures
        ({
            let began = since.secs * 1_000_000_000 + since.nanos;
            let at = now.secs * 1_000_000_000 + now.nanos;
            let end = began + timeout_secs * 1_000_000_000;
            &&& left.nanos < 1_000_000_000
            &&& began <= at <= end ==> at + left.secs * 1_000_000_000 + left.nanos == end
            &&& at >= end ==> left.secs == 0 && left.nanos == 0
            &&& at <= began ==> left.secs == timeout_secs && left.nanos == 0
        }),
{
}

/// A connection is followed by the handshake, that by the request, and that by the
/// wait for the reply, from the time of the sent request: each exactly where the
/// step before it succeeded.
pub proof fn law_listener_goes_on_after_success<'a>(
    probe: ListenerProbe<'a>,
    event: ListenerEvent,
    elapsed: Elapsed,
    next: ListenerProbe<'a>,
)
    requires
        call_ensures(ListenerProbe::<'a>::handle, (probe, event, elapsed), next),
    ensures
        probe.stage is Connecting ==> ((event matches ListenerEvent::Connect(Ok(_)))
            <==> next.stage is SendingHandshake),
        probe.stage is SendingHandshake ==> ((event matches ListenerEvent::Send(Ok(_)))
            <==> next.stage is SendingRequest),
        probe.stage is SendingRequest ==> ((event matches ListenerEvent::Send(Ok(_))) <==> (
        next.stage matches ListenerStage::Reading(plain, since) && plain@.len() == 0 && since
            == elapsed)),
{
}

/// Whatever fails ends the probe, and is named with its error; so does a reply that
/// does not come in time.
pub proof fn law_listener_names_what_failed<'a>(
    probe: ListenerProbe<'a>,
    event: ListenerEvent,
    elapsed: Elapsed,
    next: ListenerProbe<'a>,
)
    requires
        call_ensures(ListenerProbe::<'a>::handle, (probe, event, elapsed), next),
    ensures
        probe.stage is Connecting ==> (event matches ListenerEvent::Connect(Err(e)) ==> {
            &&& next.stage matches ListenerStage::Done(ProbeStatus::Fail(reason))
            &&& reason@ == "TCP connect failed: "@ + e@
        }),
        probe.stage is SendingHandshake ==> (event matches ListenerEvent::Send(Err(e)) ==> {
            &&& next.stage matches ListenerStage::Done(ProbeStatus::Fail(reason))
            &&& reason@ == "send MTProto handshake: "@ + e@
        }),
        probe.stage is SendingRequest ==> (event matches ListenerEvent::Send(Err(e)) ==> {
            &&& next.stage matches ListenerStage::Done(ProbeStatus::Fail(reason))
            &&& reason@ == "send req_pq_multi: "@ + e@
        }),
        probe.stage is Reading ==> (event matches ListenerEvent::Read(Err(e)) ==> {
            &&& next.stage matches ListenerStage::Done(ProbeStatus::Fail(reason))
            &&& reason@ == "read from listener: "@ + e@
        }),
        probe.stage is Reading && event is TimedOut ==> {
            &&& next.stage matches ListenerStage::Done(ProbeStatus::Fail(reason))
            &&& reason@ == "no reply within "@ + text::decimal(probe.timeout_secs as nat) + "s"@
        },
{
}

/// The bytes of a read are added to those that came before. The probe goes on
/// reading where bytes came and they are short of a header and no transport error.
/// Otherwise it ends: it passes, with the time of this read, exactly where all the
/// bytes are a `resPQ`, and else names the transport error or counts the bytes.
pub proof fn law_read_bytes_decide<'a>(
    probe: ListenerProbe<'a>,
    event: ListenerEvent,
    elapsed: Elapsed,
    next: ListenerProbe<'a>,
)
    requires
        probe.stage is Reading,
        event matches ListenerEvent::Read(Ok(_)),
        call_ensures(ListenerProbe::<'a>::handle, (probe, event, elapsed), next),
    ensures
        probe.stage matches ListenerStage::Reading(plain, since) && (event matches
            ListenerEvent::Read(Ok(bytes)) && ({
            let all = plain@ + bytes@;
            let error = frame::transport_error(all);
            let more = bytes@.len() > 0 && all.len() < 28 && error is None;
            &&& more <==> next.stage is Reading
            &&& !more <==> next.stage is Done
            &&& next.stage matches ListenerStage::Reading(kept, start) ==> kept@ == all && start
                == since
            &&& !more ==> (frame::is_res_pq(all) <==> next.stage == ListenerStage::Done(
                ProbeStatus::Pass(elapsed),
            ))
            &&& next.stage matches ListenerStage::Done(ProbeStatus::Pass(_)) ==> frame::is_res_pq(
                all,
            )
            &&& next.stage matches ListenerStage::Done(ProbeStatus::Fail(reason)) ==> reason@ == (
            match error {
                Some(code) => "transport error: "@ + text::signed_decimal(code),
                None => "reply is not resPQ ("@ + text::decimal(all.len()) + " bytes received)"@,
            })
        })),
{
    if let ListenerStage::Reading(plain, _) = probe.stage {
        if let ListenerEvent::Read(Ok(bytes)) = event {
            let all = plain@ + bytes@;
            frame::law_settled_by_header_or_error(all);
            frame::law_transport_error_bytes(all);
            frame::law_res_pq_bytes(all);
        }
    }
}

/// A reply passes, with the time it is given, exactly where it has a zero key id and
/// the constructor of `resPQ`.
pub proof fn law_reply_is_judged_by_its_bytes(plain: &[u8], elapsed: Elapsed, status: ProbeStatus)
    requires
        call_ensures(judge_reply, (plain, elapsed), status),
    ensures
        ({
            let is_answer = {
                &&& plain@.len() >= 28
                &&& forall|i: int| 4 <= i < 12 ==> #[trigger] plain@[i] == 0
                &&& plain@[24] == 0x63 && plain@[25] == 0x24 && plain@[26] == 0x16 && plain@[27]
                    == 0x05
            };
            &&& is_answer <==> status == ProbeStatus::Pass(elapsed)
            &&& !is_answer <==> status is Fail
        }),
{
    frame::law_res_pq_bytes(plain@);
}

/// An event that answers nothing the probe has asked for changes nothing, nor does
/// any event once the verdict stands; and a probe never loses what it was given.
pub proof fn law_listener_heeds_only_answers<'a>(
    probe: ListenerProbe<'a>,
    event: ListenerEvent,
    elapsed: Elapsed,
    next: ListenerProbe<'a>,
)
    requires
        call_ensures(ListenerProbe::<'a>::handle, (probe, event, elapsed), next),
    ensures
        next.host@ == probe.host@,
        next.port == probe.port,
        next.secret@ == probe.secret@,
        next.dc_idx == probe.dc_idx,
        next.timeout_secs == probe.timeout_secs,
        match probe.stage {
            ListenerStage::Connecting => event !is Connect ==> next.stage is Connecting,
            ListenerStage::SendingHandshake => event !is Send ==> next.stage is SendingHandshake,
            ListenerStage::SendingRequest => event !is Send ==> next.stage is SendingRequest,
            ListenerStage::Reading(plain, since) => event !is Read && event !is TimedOut ==> (
            next.stage matches ListenerStage::Reading(kept, start) && kept@ == plain@ && start
                == since),
            ListenerStage::Done(status) => next.stage matches ListenerStage::Done(kept) && kept@
                == status@,
        },
{
}

/// Whether each probe in `probes` takes in one of `events`, and the next one is
/// what comes of that.
pub open spec fn is_listener_run<'a>(
    probes: Seq<ListenerProbe<'a>>,
    events: Seq<(ListenerEvent, Elapsed)>,
) -> bool {
    &&& probes.len() == events.len() + 1
    &&& forall|i: int|
        0 <= i < events.len() ==> call_ensures(
            ListenerProbe::<'a>::handle,
            (probes[i], (#[trigger] events[i]).0, events[i].1),
            probes[i + 1],
        )
}

/// Whether connection, handshake and request succeed, at these places and in this
/// order.
pub open spec fn request_goes_out(
    events: Seq<(ListenerEvent, Elapsed)>,
    connected: int,
    greeted: int,
    asked: int,
) -> bool {
    &&& 0 <= connected < greeted < asked < events.len()
    &&& events[connected].0 matches ListenerEvent::Connect(Ok(_))
    &&& events[greeted].0 matches ListenerEvent::Send(Ok(_))
    &&& events[asked].0 matches ListenerEvent::Send(Ok(_))
}

/// Whether a request goes out, its send ending at `asked`, and the bytes of the reads
/// between that and `answered`, with those of the read at `answered`, are a `resPQ`.
pub open spec fn reply_comes_back(
    events: Seq<(ListenerEvent, Elapsed)>,
    asked: int,
    answered: int,
) -> bool {
    &&& exists|connected: int, greeted: int|
        #[trigger] request_goes_out(events, connected, greeted, asked)
    &&& asked < answered < events.len()
    &&& events[answered].0 is Read
    &&& frame::is_res_pq(all_read_bytes(events.subrange(asked + 1, answered + 1)))
}

/// Whether the events up to now account for the stage of a probe that has passed
/// no verdict or a good one.
spec fn accounts_for(events: Seq<(ListenerEvent, Elapsed)>, stage: ListenerStage) -> bool {
    match stage {
        ListenerStage::Connecting => true,
        ListenerStage::SendingHandshake => exists|connected: int|
            0 <= connected < events.len() && ((#[trigger] events[connected]).0 matches
                ListenerEvent::Connect(Ok(_))),
        ListenerStage::SendingRequest => exists|connected: int, greeted: int|
            0 <= connected < greeted < events.len() && ((#[trigger] events[connected]).0 matches
                ListenerEvent::Connect(Ok(_))) && ((#[trigger] events[greeted]).0 matches
                ListenerEvent::Send(Ok(_))),
        ListenerStage::Reading(plain, since) => exists|connected: int, greeted: int, asked: int|
            #[trigger] request_goes_out(events, connected, greeted, asked) && events[asked].1
                == since && plain@ == all_read_bytes(
                events.subrange(asked + 1, events.len() as int),
            ),
        ListenerStage::Done(ProbeStatus::Pass(time)) => exists|asked: int, answered: int|
            #[trigger] reply_comes_back(events, asked, answered) && events[answered].1 == time,
        ListenerStage::Done(ProbeStatus::Fail(_)) => true,
    }
}

proof fn lemma_listener_history<'a>(
    probes: Seq<ListenerProbe<'a>>,
    events: Seq<(ListenerEvent, Elapsed)>,
)
    requires
        is_listener_run(probes, events),
        probes[0].stage is Connecting,
    ensures
        accounts_for(events, probes.last().stage),
    decreases events.len(),
{
    if events.len() > 0 {
        let n = events.len() - 1;
        let before = events.drop_last();
        assert forall|i: int| 0 <= i < before.len() implies call_ensures(
            ListenerProbe::<'a>::handle,
            (probes.drop_last()[i], (#[trigger] before[i]).0, before[i].1),
            probes.drop_last()[i + 1],
        ) by {
            assert(events[i] == before[i]);
        }
        lemma_listener_history(probes.drop_last(), before);
        let probe = probes[n];
        let next = probes[n + 1];
        let event = events[n].0;
        let elapsed = events[n].1;
        assert(probes.drop_last().last() == probe);
        assert(probes.last() == next);
        assert(events[n] == events.last());
        law_listener_heeds_only_answers(probe, event, elapsed, next);
        law_listener_goes_on_after_success(probe, event, elapsed, next);
        law_listener_names_what_failed(probe, event, elapsed, next);
        match probe.stage {
            ListenerStage::Connecting => {},
            ListenerStage::SendingHandshake => {
                let connected = choose|connected: int|
                    0 <= connected < before.len() && ((#[trigger] before[connected]).0 matches
                        ListenerEvent::Connect(Ok(_)));
                assert(events[connected] == before[connected]);
                if next.stage is SendingRequest {
                    assert(events[n].0 matches ListenerEvent::Send(Ok(_)));
                }
            },
            ListenerStage::SendingRequest => {
                let (connected, greeted) = choose|connected: int, greeted: int|
                    0 <= connected < greeted < before.len() && ((#[trigger] before[connected]).0
                        matches ListenerEvent::Connect(Ok(_))) && ((#[trigger] before[greeted]).0
                        matches ListenerEvent::Send(Ok(_)));
                assert(events[connected] == before[connected] && events[greeted]
                    == before[greeted]);
                if let ListenerStage::Reading(plain, _) = next.stage {
                    assert(request_goes_out(events, connected, greeted, n));
                    assert(events.subrange(n + 1, events.len() as int) =~= Seq::empty());
                    assert(plain@ =~= Seq::empty());
                }
            },
            ListenerStage::Reading(plain, since) => {
                let (connected, greeted, asked) = choose|connected: int, greeted: int, asked: int|
                    #[trigger] request_goes_out(before, connected, greeted, asked)
                        && before[asked].1 == since && plain@ == all_read_bytes(
                        before.subrange(asked + 1, before.len() as int),
                    );
                assert(events[connected] == before[connected] && events[greeted] == before[greeted]
                    && events[asked] == before[asked]);
                assert(request_goes_out(events, connected, greeted, asked));
                let reads = events.subrange(asked + 1, events.len() as int);
                assert(reads.drop_last() =~= before.subrange(asked + 1, before.len() as int));
                assert(reads.last() == events[n]);
                assert(all_read_bytes(reads) == plain@ + read_bytes(event));
                if let ListenerEvent::Read(Ok(bytes)) = event {
                    law_read_bytes_decide(probe, event, elapsed, next);
                    if let ListenerStage::Done(ProbeStatus::Pass(time)) = next.stage {
                        assert(reply_comes_back(events, asked, n));
                    }
                } else {
                    assert(plain@ + read_bytes(event) =~= plain@);
                }
            },
            ListenerStage::Done(status) => {
                if let ProbeStatus::Pass(time) = status {
                    let (asked, answered) = choose|asked: int, answered: int|
                        #[trigger] reply_comes_back(before, asked, answered)
                            && before[answered].1 == time;
                    let (connected, greeted) = choose|connected: int, greeted: int|
                        #[trigger] request_goes_out(before, connected, greeted, asked);
                    assert(events[connected] == before[connected] && events[greeted]
                        == before[greeted] && events[asked] == before[asked] && events[answered]
                        == before[answered]);
                    assert(request_goes_out(events, connected, greeted, asked));
                    assert(events.subrange(asked + 1, answered + 1) =~= before.subrange(
                        asked + 1,
                        answered + 1,
                    ));
                    assert(reply_comes_back(events, asked, answered));
                }
            },
        }
    }
}

/// A probe has passed only where it connected, sent the handshake and the request,
/// and the bytes read since then, put together, are a `resPQ`. The time is that of
/// the read that completed it.
pub proof fn law_listener_run_passes_only_on_res_pq<'a>(
    probes: Seq<ListenerProbe<'a>>,
    events: Seq<(ListenerEvent, Elapsed)>,
    elapsed: Elapsed,
)
    requires
        is_listener_run(probes, events),
        probes[0].stage is Connecting,
        probes.last().stage == ListenerStage::Done(ProbeStatus::Pass(elapsed)),
    ensures
        exists|asked: int, answered: int|
            #[trigger] reply_comes_back(events, asked, answered) && events[answered].1 == elapsed,
{
    lemma_listener_history(probes, events);
}

} // verus!
