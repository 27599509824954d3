//! The probe of a Cloudflare proxy domain.

use vstd::prelude::*;

use crate::config::PROBE_DC;
use crate::status::{Elapsed, ProbeStatus, StatusView};

verus! {

/// How far the probe has come.
pub enum CfDomainStage {
    Connecting,
    Done(ProbeStatus),
}

/// A [`CfDomainStage`] with its text as a sequence.
pub enum CfDomainStageView {
    Connecting,
    Done(StatusView),
}

impl View for CfDomainStage {
    type V = CfDomainStageView;

    open spec fn view(&self) -> CfDomainStageView {
        match self {
            CfDomainStage::Connecting => CfDomainStageView::Connecting,
            CfDomainStage::Done(status) => CfDomainStageView::Done(status@),
        }
    }
}

/// What the probe asks for next.
pub enum CfDomainAction<'a> {
    /// Open a WebSocket connection to the data centre through this one domain.
    Connect {
        dc: i16,
        domain: &'a String,
        media: bool,
        skip_tls: bool,
        timeout_secs: u64,
        disable_tls: bool,
    },
    Finish(&'a ProbeStatus),
}

/// A probe of a domain.
pub struct CfDomainProbe<'a> {
    pub domain: &'a String,
    pub skip_tls: bool,
    pub timeout_secs: u64,
    pub disable_tls: bool,
    pub stage: CfDomainStage,
}

/// The stage that follows `stage` when the attempt to connect has ended,
/// `elapsed` after the probe began. A probe that is done stays as it is.
pub open spec fn cf_domain_next(
    stage: CfDomainStageView,
    connected: bool,
    elapsed: Elapsed,
) -> CfDomainStageView {
    match stage {
        CfDomainStageView::Connecting => CfDomainStageView::Done(
            if connected {
                StatusView::Pass(elapsed)
            } else {
                StatusView::Fail(
                    "WebSocket connection failed — check DNS records and Cloudflare settings"@,
                )
            },
        ),
        CfDomainStageView::Done(_) => stage,
    }
}

/// Begins a probe of `domain`.
///
/// One data centre stands for all: if the domain is correctly configured in
/// Cloudflare, the probe succeeds and the other data centres should work too.
pub fn probe_cf_domain<'a>(
    domain: &'a String,
    skip_tls: bool,
    timeout_secs: u64,
    disable_tls: bool,
) -> (probe: CfDomainProbe<'a>)
    ensures
        probe.domain == domain,
        probe.skip_tls == skip_tls,
        probe.timeout_secs == timeout_secs,
        probe.disable_tls == disable_tls,
        probe.stage@ == CfDomainStageView::Connecting,
{
    CfDomainProbe { domain, skip_tls, timeout_secs, disable_tls, stage: CfDomainStage::Connecting }
}

impl<'a> CfDomainProbe<'a> {
    /// What the probe asks for at its present stage.
    pub fn action<'s>(&'s self) -> (action: CfDomainAction<'s>)
        ensures
            match self.stage@ {
                CfDomainStageView::Connecting => action == (CfDomainAction::Connect {
                    dc: PROBE_DC,
                    domain: self.domain,
                    media: false,
                    skip_tls: self.skip_tls,
                    timeout_secs: self.timeout_secs,
                    disable_tls: self.disable_tls,
                }),
                CfDomainStageView::Done(status) => action matches CfDomainAction::Finish(shown)
                    && shown@ == status,
            },
    {
        match &self.stage {
            CfDomainStage::Connecting => CfDomainAction::Connect {
                dc: PROBE_DC,
                domain: self.domain,
                media: false,
                skip_tls: self.skip_tls,
                timeout_secs: self.timeout_secs,
                disable_tls: self.disable_tls,
            },
            CfDomainStage::Done(status) => CfDomainAction::Finish(status),
        }
    }

    /// Takes in whether the connection was made, `elapsed` after the probe began.
    pub fn handle(self, connected: bool, elapsed: Elapsed) -> (next: Self)
        ensures
            next.domain == self.domain,
            next.skip_tls == self.skip_tls,
            next.timeout_secs == self.timeout_secs,
            next.disable_tls == self.disable_tls,
            next.stage@ == cf_domain_next(self.stage@, connected, elapsed),
    {
        let stage = match self.stage {
            CfDomainStage::Connecting => CfDomainStage::Done(
                if connected {
                    ProbeStatus::Pass(elapsed)
                } else {
                    ProbeStatus::Fail(
                        "WebSocket connection failed — check DNS records and Cloudflare settings".to_owned(),
                    )
                },
            ),
            CfDomainStage::Done(status) => CfDomainStage::Done(status),
        };
        CfDomainProbe {
            domain: self.domain,
            skip_tls: self.skip_tls,
            timeout_secs: self.timeout_secs,
            disable_tls: self.disable_tls,
            stage,
        }
    }
}

// ---------------------------------------------------------------------------
// Laws
// ---------------------------------------------------------------------------
/// A probe that begins asks for a WebSocket connection to data centre 2 through its
/// one domain, with the settings it was given.
pub proof fn law_cf_domain_is_asked_for_as_given<'a>(
    domain: &'a String,
    skip_tls: bool,
    timeout_secs: u64,
    disable_tls: bool,
    probe: CfDomainProbe<'a>,
    action: CfDomainAction<'a>,
)
    requires
        call_ensures(probe_cf_domain, (domain, skip_tls, timeout_secs, disable_tls), probe),
        call_ensures(CfDomainProbe::<'a>::action, (&probe,), action),
    ensures
        probe.stage is Connecting,
        action matches CfDomainAction::Connect {
            dc,
            domain: asked,
            media,
            skip_tls: skip,
            timeout_secs: limit,
            disable_tls: disable,
        } && {
            &&& dc == 2
            &&& asked@ == domain@
            &&& !media
            &&& skip == skip_tls
            &&& limit == timeout_secs
            &&& disable == disable_tls
        },
{
}

/// Whether the connection was made is all that decides a probe, however long the
/// attempt took: it passes, with that time, exactly where the connection was made,
/// and fails where it was not.
pub proof fn law_connection_alone_decides<'a>(
    probe: CfDomainProbe<'a>,
    connected: bool,
    elapsed: Elapsed,
    next: CfDomainProbe<'a>,
)
    requires
        probe.stage is Connecting,
        call_ensures(CfDomainProbe::<'a>::handle, (probe, connected, elapsed), next),
    ensures
        connected <==> next.stage == CfDomainStage::Done(ProbeStatus::Pass(elapsed)),
        !connected ==> (next.stage matches CfDomainStage::Done(ProbeStatus::Fail(reason))
            && reason@
            == "WebSocket connection failed — check DNS records and Cloudflare settings"@),
{
}

/// A verdict is shown as it is and kept as it is, and a probe never loses what it
/// was given.
pub proof fn law_cf_domain_verdict_stands<'a>(
    probe: CfDomainProbe<'a>,
    connected: bool,
    elapsed: Elapsed,
    next: CfDomainProbe<'a>,
    action: CfDomainAction<'a>,
)
    requires
        call_ensures(CfDomainProbe::<'a>::handle, (probe, connected, elapsed), next),
        call_ensures(CfDomainProbe::<'a>::action, (&probe,), action),
    ensures
        next.domain@ == probe.domain@,
        next.skip_tls == probe.skip_tls,
        next.timeout_secs == probe.timeout_secs,
        next.disable_tls == probe.disable_tls,
        action is Finish <==> probe.stage is Done,
        probe.stage matches CfDomainStage::Done(status) ==> {
            &&& action matches CfDomainAction::Finish(shown)
            &&& shown@ == status@
            &&& next.stage matches CfDomainStage::Done(kept)
            &&& kept@ == status@
        },
{
}

/// Whether each probe in `probes` takes in one of `answers`, and the next one is
/// what comes of that.
pub open spec fn is_cf_domain_run<'a>(
    probes: Seq<CfDomainProbe<'a>>,
    answers: Seq<(bool, Elapsed)>,
) -> bool {
    &&& probes.len() == answers.len() + 1
    &&& forall|i: int|
        0 <= i < answers.len() ==> call_ensures(
            CfDomainProbe::<'a>::handle,
            (probes[i], (#[trigger] answers[i]).0, answers[i].1),
            probes[i + 1],
        )
}

/// The first answer decides for good: however many follow, the probe has passed
/// exactly where the first connection was made, and reports its time.
pub proof fn law_first_answer_decides<'a>(
    probes: Seq<CfDomainProbe<'a>>,
    answers: Seq<(bool, Elapsed)>,
)
    requires
        is_cf_domain_run(probes, answers),
        answers.len() > 0,
        probes[0].stage is Connecting,
    ensures
        answers[0].0 <==> probes.last().stage == CfDomainStage::Done(
            ProbeStatus::Pass(answers[0].1),
        ),
        !answers[0].0 <==> (probes.last().stage matches CfDomainStage::Done(status)
            && status is Fail),
    decreases answers.len(),
{
    let last = answers.len() - 1;
    if last > 0 {
        let before = answers.drop_last();
        assert forall|i: int| 0 <= i < before.len() implies call_ensures(
            CfDomainProbe::<'a>::handle,
            (probes.drop_last()[i], (#[trigger] before[i]).0, before[i].1),
            probes.drop_last()[i + 1],
        ) by {
            assert(answers[i] == before[i]);
        }
        law_first_answer_decides(probes.drop_last(), before);
        assert(probes.drop_last().last() == probes[last]);
        assert(before[0] == answers[0]);
    }
    assert(answers[last] == answers.last());
    assert(probes.last() == probes[last + 1]);
}

} // verus!
