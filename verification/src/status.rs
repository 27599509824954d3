//! How a probe ended, and how the report shows it.

use vstd::prelude::*;

use crate::text;

verus! {

/// A span of time: whole seconds, and the nanoseconds past them.
#[derive(Debug, Clone, Copy, PartialEq, Eq)]
pub struct Elapsed {
    pub secs: u64,
    pub nanos: u32,
}

impl Elapsed {
    /// The time in whole milliseconds, rounded down.
    pub open spec fn millis(self) -> nat {
        (self.secs * 1000 + self.nanos / 1_000_000) as nat
    }

    /// The time in nanoseconds.
    pub open spec fn total_nanos(self) -> nat {
        (self.secs * 1_000_000_000 + self.nanos) as nat
    }

    /// The time in nanoseconds.
    pub fn as_nanos(&self) -> (nanos: u128)
        ensures
            nanos == self.total_nanos(),
    {
        self.secs as u128 * 1_000_000_000 + self.nanos as u128
    }

    /// The time in whole milliseconds, rounded down.
    pub fn as_millis(&self) -> (millis: u128)
        ensures
            millis == self.millis(),
    {
        self.secs as u128 * 1000 + (self.nanos / 1_000_000) as u128
    }
}

/// The outcome of a probe: how long it took, or why it failed.
#[derive(Debug, Clone, PartialEq, Eq)]
pub enum ProbeStatus {
    Pass(Elapsed),
    Fail(String),
}

/// A [`ProbeStatus`] with its text as a sequence of characters.
pub enum StatusView {
    Pass(Elapsed),
    Fail(Seq<char>),
}

impl View for ProbeStatus {
    type V = StatusView;

    open spec fn view(&self) -> StatusView {
        match self {
            ProbeStatus::Pass(elapsed) => StatusView::Pass(*elapsed),
            ProbeStatus::Fail(reason) => StatusView::Fail(reason@),
        }
    }
}

impl StatusView {
    /// What stands between the brackets of a report line.
    pub open spec fn marker(self) -> Seq<char> {
        match self {
            StatusView::Pass(_) => "OK "@,
            StatusView::Fail(_) => "FAIL"@,
        }
    }

    /// What follows the brackets: the milliseconds, or the reason.
    pub open spec fn detail(self) -> Seq<char> {
        match self {
            StatusView::Pass(elapsed) => text::decimal(elapsed.millis()) + "ms"@,
            StatusView::Fail(reason) => reason,
        }
    }

    /// The end of a report line, once the probe is done.
    pub open spec fn line(self) -> Seq<char> {
        "["@ + self.marker() + "]  "@ + self.detail() + "\n"@
    }
}

impl ProbeStatus {
    pub fn marker(&self) -> (marker: &'static str)
        ensures
            marker@ == self@.marker(),
    {
        match self {
            ProbeStatus::Pass(_) => "OK ",
            ProbeStatus::Fail(_) => "FAIL",
        }
    }

    pub fn detail(&self) -> (detail: String)
        ensures
            detail@ == self@.detail(),
    {
        match self {
            ProbeStatus::Pass(elapsed) => {
                let mut detail = text::decimal_string(elapsed.as_millis());
                detail.append("ms");
                detail
            },
            ProbeStatus::Fail(reason) => reason.clone(),
        }
    }

    pub fn is_ok(&self) -> (ok: bool)
        ensures
            ok == (self@ is Pass),
    {
        match self {
            ProbeStatus::Pass(_) => true,
            ProbeStatus::Fail(_) => false,
        }
    }

    /// The end of a report line, once the probe is done.
    pub fn line(&self) -> (line: String)
        ensures
            line@ == self@.line(),
    {
        let mut line = text::joined("[", self.marker());
        line.append("]  ");
        line.append(self.detail().as_str());
        line.append("\n");
        line
    }
}

// ---------------------------------------------------------------------------
// Laws
// ---------------------------------------------------------------------------
/// Two outcomes look alike in contracts exactly where they are the same: passed
/// in the same time, or failed for the same reason.
pub proof fn law_outcomes_are_told_apart(a: ProbeStatus, b: ProbeStatus)
    ensures
        a@ == b@ <==> match (a, b) {
            (ProbeStatus::Pass(s), ProbeStatus::Pass(t)) => s.secs == t.secs && s.nanos == t.nanos,
            (ProbeStatus::Fail(s), ProbeStatus::Fail(t)) => s@ == t@,
            _ => false,
        },
{
}

/// The milliseconds are all the whole ones of the time: they do not exceed it, and
/// one more would.
pub proof fn law_millis_round_down(elapsed: Elapsed, millis: u128)
    requires
        call_ensures(Elapsed::as_millis, (&elapsed,), millis),
    ensures
        ({
            let nanos = elapsed.secs * 1_000_000_000 + elapsed.nanos;
            millis * 1_000_000 <= nanos < (millis + 1) * 1_000_000
        }),
{
}

/// The nanoseconds are those of the seconds and those past them.
pub proof fn law_nanos_add_up(elapsed: Elapsed, nanos: u128)
    requires
        call_ensures(Elapsed::as_nanos, (&elapsed,), nanos),
    ensures
        nanos - elapsed.nanos == elapsed.secs * 1_000_000_000,
{
}

/// An outcome is shown as what it is: passed, with its milliseconds, or failed,
/// with its reason.
pub proof fn law_outcome_is_shown(
    status: ProbeStatus,
    ok: bool,
    marker: &'static str,
    detail: String,
    line: String,
)
    requires
        call_ensures(ProbeStatus::is_ok, (&status,), ok),
        call_ensures(ProbeStatus::marker, (&status,), marker),
        call_ensures(ProbeStatus::detail, (&status,), detail),
        call_ensures(ProbeStatus::line, (&status,), line),
    ensures
        line@ == "["@ + marker@ + "]  "@ + detail@ + "\n"@,
        match status {
            ProbeStatus::Pass(elapsed) => {
                &&& ok
                &&& marker@ == seq!['O', 'K', ' ']
                &&& detail@ == text::decimal(
                    ((elapsed.secs * 1_000_000_000 + elapsed.nanos) / 1_000_000) as nat,
                ) + seq!['m', 's']
            },
            ProbeStatus::Fail(reason) => {
                &&& !ok
                &&& marker@ == seq!['F', 'A', 'I', 'L']
                &&& detail@ == reason@
            },
        },
{
    reveal_strlit("OK ");
    reveal_strlit("FAIL");
    reveal_strlit("ms");
    assert("OK "@ =~= seq!['O', 'K', ' ']);
    assert("FAIL"@ =~= seq!['F', 'A', 'I', 'L']);
    assert("ms"@ =~= seq!['m', 's']);
}

} // verus!
