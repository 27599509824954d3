//! What a whole check prints and decides, as a function of the configuration
//! and of how its probes end.

use vstd::prelude::*;

use crate::config;
use crate::config::{Config, PROBE_DC};
use crate::report;
use crate::report::{
    CheckActionView, CheckEventView, CheckRun, CheckView, Entry, Step, StepView, Target, TargetView,
};
use crate::status::StatusView;
use crate::text;

verus! {

/// What a check shows for itself: the text on standard output, the text of its
/// error messages, and the verdict.
pub struct Outcome {
    pub printed: Seq<char>,
    pub warned: Seq<char>,
    pub passed: bool,
}

/// The outcome of a check at `v` that does what it asks for until it is over,
/// where the probes that are left end with `statuses`, in that order.
pub open spec fn outcome(v: CheckView, statuses: Seq<StatusView>) -> Outcome
    decreases v.todo.len(), (if v.todo.len() > 0 && v.todo[0] is Probe { 1nat } else { 0nat }),
{
    match report::check_action(v) {
        CheckActionView::Finish(passed) => Outcome {
            printed: Seq::empty(),
            warned: Seq::empty(),
            passed,
        },
        CheckActionView::Print(t) => {
            let rest = outcome(report::check_next(v, CheckEventView::Printed), statuses);
            Outcome { printed: t + rest.printed, warned: rest.warned, passed: rest.passed }
        },
        CheckActionView::Warn(t) => {
            let rest = outcome(report::check_next(v, CheckEventView::Printed), statuses);
            Outcome { printed: rest.printed, warned: t + rest.warned, passed: rest.passed }
        },
        CheckActionView::Probe(_) => outcome(
            report::check_next(v, CheckEventView::Probed(statuses[0])),
            statuses.drop_first(),
        ),
    }
}

/// Whether every probe passed.
pub open spec fn all_pass(statuses: Seq<StatusView>) -> bool {
    forall|i: int| 0 <= i < statuses.len() ==> (#[trigger] statuses[i]) is Pass
}

/// Whether the listener is probed.
pub open spec fn probes_listener(c: Config) -> bool {
    c.check_listener && c.normalized_listen_faketls_domain is None && config::probe_secret(
        c,
    ) is Some
}

/// Whether the listener should be probed, and there is no key to do it with.
pub open spec fn lacks_secret(c: Config) -> bool {
    c.check_listener && c.normalized_listen_faketls_domain is None && config::probe_secret(
        c,
    ) is None
}

/// The number of probes that a check runs.
pub open spec fn probe_count(c: Config) -> nat {
    c.cf_domains@.len() + c.cf_worker_domains@.len() + c.mtproto_proxies@.len() + (
    if probes_listener(c) {
        1nat
    } else {
        0nat
    })
}

/// Whether a check passes: every probe passed, and no key was missing.
pub open spec fn passes(c: Config, statuses: Seq<StatusView>) -> bool {
    all_pass(statuses) && !lacks_secret(c)
}

/// The lines of a section: label and ending of each entry.
pub open spec fn entry_lines(entries: Seq<Entry>, statuses: Seq<StatusView>) -> Seq<char>
    decreases entries.len(),
{
    if entries.len() == 0 {
        Seq::empty()
    } else {
        report::line_start(entries[0].label) + statuses[0].line() + entry_lines(
            entries.drop_first(),
            statuses.drop_first(),
        )
    }
}

/// A section: the title and the lines, or nothing where there are no entries.
pub open spec fn section(title: Seq<char>, entries: Seq<Entry>, statuses: Seq<StatusView>) -> Seq<
    char,
> {
    if entries.len() == 0 {
        Seq::empty()
    } else {
        title + entry_lines(entries, statuses)
    }
}

/// The section of the listener; `statuses` holds how its probe ended, if it is
/// probed.
pub open spec fn listener_section(c: Config, statuses: Seq<StatusView>) -> Seq<char> {
    if !c.check_listener {
        Seq::empty()
    } else {
        report::listener_title() + report::line_start(report::listener_label(c)) + (
        if c.normalized_listen_faketls_domain is Some {
            report::skip_line()
        } else if config::probe_secret(c) is Some {
            statuses[0].line()
        } else {
            report::no_secret_line()
        })
    }
}

/// The whole report of a check whose probes end with `statuses`.
pub open spec fn full_report(c: Config, statuses: Seq<StatusView>) -> Seq<char> {
    if report::is_idle(c) {
        report::header() + report::nothing_to_check()
    } else {
        let domains = c.cf_domains@.len() as int;
        let workers = domains + c.cf_worker_domains@.len();
        let proxies = workers + c.mtproto_proxies@.len();
        report::header() + section(report::cf_title(), report::cf_entries(c), statuses) + section(
            report::worker_title(),
            report::worker_entries(c),
            statuses.skip(domains),
        ) + section(report::proxy_title(), report::proxy_entries(c), statuses.skip(workers))
            + listener_section(c, statuses.skip(proxies)) + report::summary(passes(c, statuses))
    }
}

/// The first step is printed, and the rest goes on.
proof fn lemma_print(t: Seq<char>, rest: Seq<StepView>, ok: bool, statuses: Seq<StatusView>)
    ensures
        ({
            let v = CheckView { todo: seq![StepView::Print(t)] + rest, all_ok: ok };
            let after = outcome(CheckView { todo: rest, all_ok: ok }, statuses);
            outcome(v, statuses) == (Outcome {
                printed: t + after.printed,
                warned: after.warned,
                passed: after.passed,
            })
        }),
{
    let v = CheckView { todo: seq![StepView::Print(t)] + rest, all_ok: ok };
    assert(v.todo.drop_first() =~= rest);
}

/// A probe is run, its ending printed, and the rest goes on.
proof fn lemma_probe(target: TargetView, rest: Seq<StepView>, ok: bool, statuses: Seq<StatusView>)
    ensures
        ({
            let v = CheckView { todo: seq![StepView::Probe(target)] + rest, all_ok: ok };
            let after = outcome(
                CheckView { todo: rest, all_ok: ok && statuses[0] is Pass },
                statuses.drop_first(),
            );
            outcome(v, statuses) == (Outcome {
                printed: statuses[0].line() + after.printed,
                warned: after.warned,
                passed: after.passed,
            })
        }),
{
    let v = CheckView { todo: seq![StepView::Probe(target)] + rest, all_ok: ok };
    let next = report::check_next(v, CheckEventView::Probed(statuses[0]));
    assert(v.todo.drop_first() =~= rest);
    assert(next.todo == seq![StepView::Print(statuses[0].line())] + rest);
    lemma_print(statuses[0].line(), rest, ok && statuses[0] is Pass, statuses.drop_first());
}

/// The entries of a section are run, and the rest goes on.
proof fn lemma_entries(
    entries: Seq<Entry>,
    rest: Seq<StepView>,
    ok: bool,
    statuses: Seq<StatusView>,
)
    requires
        entries.len() <= statuses.len(),
    ensures
        ({
            let n = entries.len() as int;
            let v = CheckView { todo: report::entry_steps(entries) + rest, all_ok: ok };
            let after = outcome(
                CheckView { todo: rest, all_ok: ok && all_pass(statuses.take(n)) },
                statuses.skip(n),
            );
            outcome(v, statuses) == (Outcome {
                printed: entry_lines(entries, statuses) + after.printed,
                warned: after.warned,
                passed: after.passed,
            })
        }),
    decreases entries.len(),
{
    let n = entries.len() as int;
    let v = CheckView { todo: report::entry_steps(entries) + rest, all_ok: ok };
    let after = outcome(
        CheckView { todo: rest, all_ok: ok && all_pass(statuses.take(n)) },
        statuses.skip(n),
    );
    if n == 0 {
        assert(v.todo =~= rest);
        assert(statuses.skip(0) =~= statuses);
        assert(entry_lines(entries, statuses) + after.printed =~= after.printed);
    } else {
        let tail = entries.drop_first();
        let later = statuses.drop_first();
        let start = report::line_start(entries[0].label);
        let first_ok = ok && statuses[0] is Pass;
        let probe_on = seq![StepView::Probe(entries[0].target)] + (report::entry_steps(tail)
            + rest);
        assert(v.todo =~= seq![StepView::Print(start)] + probe_on);
        lemma_print(start, probe_on, ok, statuses);
        lemma_probe(entries[0].target, report::entry_steps(tail) + rest, ok, statuses);
        lemma_entries(tail, rest, first_ok, later);
        assert(later.skip(n - 1) =~= statuses.skip(n));
        let taken = statuses.take(n);
        assert(later.take(n - 1) =~= taken.drop_first());
        assert((statuses[0] is Pass && all_pass(later.take(n - 1))) == all_pass(taken)) by {
            assert(taken[0] == statuses[0]);
            if statuses[0] is Pass && all_pass(later.take(n - 1)) {
                assert forall|i: int| 0 <= i < taken.len() implies (#[trigger] taken[i]) is Pass by {
                    if i > 0 {
                        assert(taken[i] == later.take(n - 1)[i - 1]);
                    }
                }
            }
            if all_pass(taken) {
                assert forall|i: int| 0 <= i < n - 1 implies (#[trigger] later.take(
                    n - 1,
                )[i]) is Pass by {
                    assert(taken[i + 1] == later.take(n - 1)[i]);
                }
            }
        }
        assert(start + (statuses[0].line() + (entry_lines(tail, later) + after.printed))
            =~= entry_lines(entries, statuses) + after.printed);
    }
}

/// A section is run, and the rest goes on.
proof fn lemma_section(
    title: Seq<char>,
    entries: Seq<Entry>,
    rest: Seq<StepView>,
    ok: bool,
    statuses: Seq<StatusView>,
)
    requires
        entries.len() <= statuses.len(),
    ensures
        ({
            let n = entries.len() as int;
            let v = CheckView { todo: report::section_steps(title, entries) + rest, all_ok: ok };
            let after = outcome(
                CheckView { todo: rest, all_ok: ok && all_pass(statuses.take(n)) },
                statuses.skip(n),
            );
            outcome(v, statuses) == (Outcome {
                printed: section(title, entries, statuses) + after.printed,
                warned: after.warned,
                passed: after.passed,
            })
        }),
{
    let n = entries.len() as int;
    let after = outcome(
        CheckView { todo: rest, all_ok: ok && all_pass(statuses.take(n)) },
        statuses.skip(n),
    );
    lemma_entries(entries, rest, ok, statuses);
    if n == 0 {
        assert(report::section_steps(title, entries) + rest =~= report::entry_steps(entries)
            + rest);
        assert(section(title, entries, statuses) + after.printed =~= entry_lines(entries, statuses)
            + after.printed);
    } else {
        let lines = report::entry_steps(entries) + rest;
        assert(report::section_steps(title, entries) + rest =~= seq![StepView::Print(title)]
            + lines);
        lemma_print(title, lines, ok, statuses);
        assert(title + (entry_lines(entries, statuses) + after.printed) =~= section(
            title,
            entries,
            statuses,
        ) + after.printed);
    }
}

/// The summary is printed, and the check is over.
proof fn lemma_summary(ok: bool, statuses: Seq<StatusView>)
    ensures
        outcome(CheckView { todo: seq![StepView::Summary], all_ok: ok }, statuses) == (Outcome {
            printed: report::summary(ok),
            warned: Seq::empty(),
            passed: ok,
        }),
{
    let v = CheckView { todo: seq![StepView::Summary], all_ok: ok };
    let end = CheckView { todo: Seq::empty(), all_ok: ok };
    assert(v.todo.drop_first() =~= end.todo);
    assert(outcome(end, statuses).printed =~= Seq::<char>::empty());
    assert(report::summary(ok) + Seq::<char>::empty() =~= report::summary(ok));
}

/// The listener's section is run, and the summary follows.
proof fn lemma_listener(c: Config, ok: bool, statuses: Seq<StatusView>)
    requires
        statuses.len() == (if probes_listener(c) {
            1nat
        } else {
            0nat
        }),
    ensures
        ({
            let v = CheckView {
                todo: report::listener_steps(c) + seq![StepView::Summary],
                all_ok: ok,
            };
            let passed = ok && all_pass(statuses) && !lacks_secret(c);
            outcome(v, statuses) == (Outcome {
                printed: listener_section(c, statuses) + report::summary(passed),
                warned: Seq::empty(),
                passed,
            })
        }),
{
    let end = seq![StepView::Summary];
    let passed = ok && all_pass(statuses) && !lacks_secret(c);
    if !c.check_listener {
        assert(report::listener_steps(c) + end =~= end);
        lemma_summary(ok, statuses);
        assert(listener_section(c, statuses) + report::summary(passed) =~= report::summary(passed));
    } else {
        let title = report::listener_title();
        let start = report::line_start(report::listener_label(c));
        let step = report::listener_step(c);
        let from_step = seq![step] + end;
        let from_start = seq![StepView::Print(start)] + from_step;
        assert(report::listener_steps(c) + end =~= seq![StepView::Print(title)] + from_start);
        lemma_print(title, from_start, ok, statuses);
        lemma_print(start, from_step, ok, statuses);
        if c.normalized_listen_faketls_domain is Some {
            lemma_print(report::skip_line(), end, ok, statuses);
            lemma_summary(ok, statuses);
            assert(title + (start + (report::skip_line() + report::summary(ok)))
                =~= listener_section(c, statuses) + report::summary(ok));
        } else {
            match config::probe_secret(c) {
                Some(secret) => {
                    let target = TargetView::Listener {
                        host: config::reachable_host(c.bind_host@),
                        port: c.port,
                        secret,
                        dc_idx: PROBE_DC,
                        timeout_secs: c.handshake_timeout,
                    };
                    lemma_probe(target, end, ok, statuses);
                    assert(all_pass(statuses) == statuses[0] is Pass);
                    lemma_summary(passed, statuses.drop_first());
                    assert(title + (start + (statuses[0].line() + report::summary(passed)))
                        =~= listener_section(c, statuses) + report::summary(passed));
                },
                None => {
                    let v = CheckView { todo: from_step, all_ok: ok };
                    assert(v.todo.drop_first() =~= end);
                    lemma_summary(false, statuses);
                    assert(title + (start + (report::no_secret_line() + report::summary(false)))
                        =~= listener_section(c, statuses) + report::summary(false));
                },
            }
        }
    }
}

/// Every part of a list of statuses passes exactly where all of it does.
proof fn lemma_all_pass_split(statuses: Seq<StatusView>, at: int)
    requires
        0 <= at <= statuses.len(),
    ensures
        all_pass(statuses) == (all_pass(statuses.take(at)) && all_pass(statuses.skip(at))),
{
    if all_pass(statuses.take(at)) && all_pass(statuses.skip(at)) {
        assert forall|i: int| 0 <= i < statuses.len() implies (#[trigger] statuses[i]) is Pass by {
            if i < at {
                assert(statuses.take(at)[i] == statuses[i]);
            } else {
                assert(statuses.skip(at)[i - at] == statuses[i]);
            }
        }
    }
    if all_pass(statuses) {
        assert forall|i: int| 0 <= i < at implies (#[trigger] statuses.take(at)[i]) is Pass by {
            assert(statuses.take(at)[i] == statuses[i]);
        }
        assert forall|i: int| 0 <= i < statuses.len() - at implies (#[trigger] statuses.skip(
            at,
        )[i]) is Pass by {
            assert(statuses.skip(at)[i] == statuses[at + i]);
        }
    }
}

/// Text that is put together from the end is the text put together from the
/// start.
proof fn lemma_joined(
    a: Seq<char>,
    b: Seq<char>,
    c: Seq<char>,
    d: Seq<char>,
    e: Seq<char>,
    f: Seq<char>,
)
    ensures
        a + (b + (c + (d + (e + f)))) == a + b + c + d + e + f,
{
    assert(d + (e + f) =~= d + e + f);
    assert(c + (d + e + f) =~= c + d + e + f);
    assert(b + (c + d + e + f) =~= b + c + d + e + f);
    assert(a + (b + c + d + e + f) =~= a + b + c + d + e + f);
}

/// A check with nothing configured prints the report that says so.
proof fn lemma_idle(c: Config, statuses: Seq<StatusView>)
    requires
        report::is_idle(c),
    ensures
        outcome(CheckView { todo: report::script(c), all_ok: true }, statuses) == (Outcome {
            printed: report::header() + report::nothing_to_check(),
            warned: Seq::empty(),
            passed: true,
        }),
{
    let head = report::header();
    let nothing = report::nothing_to_check();
    let end: Seq<StepView> = Seq::empty();
    assert(report::script(c) =~= seq![StepView::Print(head)] + (seq![StepView::Print(nothing)]
        + end));
    lemma_print(head, seq![StepView::Print(nothing)] + end, true, statuses);
    lemma_print(nothing, end, true, statuses);
    assert(nothing + Seq::<char>::empty() =~= nothing);
}

/// A check that is carried through prints the whole report, warns of nothing,
/// and passes exactly where every probe passed and no key was missing.
pub proof fn law_check_reports_and_decides(c: Config, statuses: Seq<StatusView>)
    requires
        statuses.len() == probe_count(c),
    ensures
        outcome(CheckView { todo: report::script(c), all_ok: true }, statuses) == (Outcome {
            printed: full_report(c, statuses),
            warned: Seq::empty(),
            passed: passes(c, statuses),
        }),
{
    if report::is_idle(c) {
        lemma_idle(c, statuses);
        assert(all_pass(statuses));
    } else {
        let head = report::header();
        let domains = c.cf_domains@.len() as int;
        let workers = domains + c.cf_worker_domains@.len();
        let proxies = workers + c.mtproto_proxies@.len();
        let after_domains = statuses.skip(domains);
        let after_workers = statuses.skip(workers);
        let after_proxies = statuses.skip(proxies);
        assert(after_domains.skip(workers - domains) =~= after_workers);
        assert(after_workers.skip(proxies - workers) =~= after_proxies);

        let listener = report::listener_steps(c) + seq![StepView::Summary];
        let from_proxies = report::section_steps(report::proxy_title(), report::proxy_entries(c))
            + listener;
        let from_workers = report::section_steps(report::worker_title(), report::worker_entries(c))
            + from_proxies;
        let from_domains = report::section_steps(report::cf_title(), report::cf_entries(c))
            + from_workers;

        let ok1 = all_pass(statuses.take(domains));
        let ok2 = ok1 && all_pass(after_domains.take(workers - domains));
        let ok3 = ok2 && all_pass(after_workers.take(proxies - workers));
        lemma_all_pass_split(statuses, domains);
        lemma_all_pass_split(after_domains, workers - domains);
        lemma_all_pass_split(after_workers, proxies - workers);

        lemma_print(head, from_domains, true, statuses);
        lemma_section(
            report::cf_title(),
            report::cf_entries(c),
            from_workers,
            true,
            statuses,
        );
        lemma_section(
            report::worker_title(),
            report::worker_entries(c),
            from_proxies,
            ok1,
            after_domains,
        );
        lemma_section(
            report::proxy_title(),
            report::proxy_entries(c),
            listener,
            ok2,
            after_workers,
        );
        lemma_listener(c, ok3, after_proxies);

        let s1 = section(report::cf_title(), report::cf_entries(c), statuses);
        let s2 = section(report::worker_title(), report::worker_entries(c), after_domains);
        let s3 = section(report::proxy_title(), report::proxy_entries(c), after_workers);
        let s4 = listener_section(c, after_proxies);
        let s5 = report::summary(passes(c, statuses));
        lemma_joined(head, s1, s2, s3, s4, s5);
    }
}

/// With nothing configured nothing is probed, and the check passes.
pub proof fn law_idle_check_passes(c: Config)
    requires
        report::is_idle(c),
    ensures
        probe_count(c) == 0,
        outcome(CheckView { todo: report::script(c), all_ok: true }, Seq::empty()) == (Outcome {
            printed: report::header() + report::nothing_to_check(),
            warned: Seq::empty(),
            passed: true,
        }),
{
    law_check_reports_and_decides(c, Seq::empty());
}

/// A check without an outbound connector reports the error, prints nothing,
/// probes nothing, and fails.
pub proof fn law_check_without_outbound_fails(error: Seq<char>, statuses: Seq<StatusView>)
    ensures
        outcome(
            CheckView {
                todo: seq![StepView::Warn(report::outbound_warning(error))],
                all_ok: false,
            },
            statuses,
        ) == (Outcome {
            printed: Seq::empty(),
            warned: report::outbound_warning(error),
            passed: false,
        }),
{
    let warning = report::outbound_warning(error);
    let v = CheckView { todo: seq![StepView::Warn(warning)], all_ok: false };
    let end = CheckView { todo: Seq::empty(), all_ok: false };
    assert(v.todo.drop_first() =~= end.todo);
    assert(outcome(end, statuses).warned =~= Seq::<char>::empty());
    assert(warning + Seq::<char>::empty() =~= warning);
}

/// The targets of the probes among `steps`, in order.
pub open spec fn targets(steps: Seq<StepView>) -> Seq<TargetView>
    decreases steps.len(),
{
    if steps.len() == 0 {
        Seq::empty()
    } else {
        (match steps[0] {
            StepView::Probe(target) => seq![target],
            _ => Seq::empty(),
        }) + targets(steps.drop_first())
    }
}

/// The targets of `entries`.
pub open spec fn entry_targets(entries: Seq<Entry>) -> Seq<TargetView> {
    Seq::new(entries.len(), |i: int| entries[i].target)
}

/// The target of the listener's probe, if it is probed.
pub open spec fn listener_targets(c: Config) -> Seq<TargetView> {
    if probes_listener(c) {
        seq![
            TargetView::Listener {
                host: config::reachable_host(c.bind_host@),
                port: c.port,
                secret: config::probe_secret(c)->Some_0,
                dc_idx: PROBE_DC,
                timeout_secs: c.handshake_timeout,
            },
        ]
    } else {
        Seq::empty()
    }
}

proof fn lemma_targets_add(a: Seq<StepView>, b: Seq<StepView>)
    ensures
        targets(a + b) == targets(a) + targets(b),
    decreases a.len(),
{
    if a.len() == 0 {
        assert(a + b =~= b);
        assert(targets(a) + targets(b) =~= targets(b));
    } else {
        lemma_targets_add(a.drop_first(), b);
        assert((a + b).drop_first() =~= a.drop_first() + b);
        assert(targets(a + b) =~= targets(a) + targets(b));
    }
}

proof fn lemma_targets_of_section(title: Seq<char>, entries: Seq<Entry>)
    ensures
        targets(report::section_steps(title, entries)) == entry_targets(entries),
{
    lemma_targets_of_entries(entries);
    if entries.len() > 0 {
        let steps = report::section_steps(title, entries);
        assert(steps.drop_first() =~= report::entry_steps(entries));
        assert(targets(steps) =~= targets(report::entry_steps(entries)));
    }
}

proof fn lemma_targets_of_entries(entries: Seq<Entry>)
    ensures
        targets(report::entry_steps(entries)) == entry_targets(entries),
    decreases entries.len(),
{
    if entries.len() == 0 {
        assert(entry_targets(entries) =~= Seq::empty());
    } else {
        let rest = entries.drop_first();
        lemma_targets_of_entries(rest);
        let steps = report::entry_steps(entries);
        let from_probe = steps.drop_first();
        assert(from_probe =~= seq![StepView::Probe(entries[0].target)] + report::entry_steps(rest));
        assert(from_probe.drop_first() =~= report::entry_steps(rest));
        assert(targets(from_probe) == seq![entries[0].target] + entry_targets(rest));
        assert(targets(steps) =~= targets(from_probe));
        assert(seq![entries[0].target] + entry_targets(rest) =~= entry_targets(entries));
    }
}

/// Every configured Cloudflare domain, Worker and proxy is probed exactly once,
/// in that order and each in the order it is configured, and the listener last.
pub proof fn law_every_target_is_probed(c: Config)
    ensures
        targets(report::script(c)) == entry_targets(report::cf_entries(c)) + entry_targets(
            report::worker_entries(c),
        ) + entry_targets(report::proxy_entries(c)) + listener_targets(c),
        targets(report::script(c)).len() == probe_count(c),
{
    reveal_with_fuel(targets, 4);
    let t1 = entry_targets(report::cf_entries(c));
    let t2 = entry_targets(report::worker_entries(c));
    let t3 = entry_targets(report::proxy_entries(c));
    let t4 = listener_targets(c);
    if report::is_idle(c) {
        assert(targets(report::script(c)) =~= t1 + t2 + t3 + t4);
    } else {
        let head = seq![StepView::Print(report::header())];
        let end = seq![StepView::Summary];
        let listener = report::listener_steps(c) + end;
        let from_proxies = report::section_steps(report::proxy_title(), report::proxy_entries(c))
            + listener;
        let from_workers = report::section_steps(report::worker_title(), report::worker_entries(c))
            + from_proxies;
        let from_domains = report::section_steps(report::cf_title(), report::cf_entries(c))
            + from_workers;
        lemma_targets_of_section(report::cf_title(), report::cf_entries(c));
        lemma_targets_of_section(report::worker_title(), report::worker_entries(c));
        lemma_targets_of_section(report::proxy_title(), report::proxy_entries(c));
        lemma_targets_add(head, from_domains);
        lemma_targets_add(
            report::section_steps(report::cf_title(), report::cf_entries(c)),
            from_workers,
        );
        lemma_targets_add(
            report::section_steps(report::worker_title(), report::worker_entries(c)),
            from_proxies,
        );
        lemma_targets_add(
            report::section_steps(report::proxy_title(), report::proxy_entries(c)),
            listener,
        );
        lemma_targets_add(report::listener_steps(c), end);
        assert(targets(head) =~= Seq::empty());
        assert(targets(end) =~= Seq::empty());
        assert(targets(report::listener_steps(c)) =~= t4);
        assert(targets(report::script(c)) =~= t1 + t2 + t3 + t4);
    }
}

// ---------------------------------------------------------------------------
// The steps, one by one
// ---------------------------------------------------------------------------
/// The number of steps of a section with `n` probes: its title, and a label and a
/// probe each, or nothing.
pub open spec fn section_len(n: nat) -> int {
    if n == 0 {
        0
    } else {
        1int + 2 * n
    }
}

/// The place of the first step about the Workers.
pub open spec fn workers_at(c: Config) -> int {
    1 + section_len(c.cf_domains@.len())
}

/// The place of the first step about the upstream proxies.
pub open spec fn proxies_at(c: Config) -> int {
    workers_at(c) + section_len(c.cf_worker_domains@.len())
}

/// The place of the first step about the listener.
pub open spec fn listener_at(c: Config) -> int {
    proxies_at(c) + section_len(c.mtproto_proxies@.len())
}

/// Whether `step` prints `t`.
pub open spec fn prints(step: Step<'_>, t: Seq<char>) -> bool {
    step matches Step::Print(shown) && shown@ == t
}

proof fn lemma_entry_steps_at(entries: Seq<Entry>)
    ensures
        report::entry_steps(entries).len() == 2 * entries.len(),
        forall|i: int|
            0 <= i < entries.len() ==> {
                &&& report::entry_steps(entries)[2 * i] == StepView::Print(
                    report::line_start((#[trigger] entries[i]).label),
                )
                &&& report::entry_steps(entries)[2 * i + 1] == StepView::Probe(entries[i].target)
            },
    decreases entries.len(),
{
    if entries.len() > 0 {
        let rest = entries.drop_first();
        let steps = report::entry_steps(entries);
        lemma_entry_steps_at(rest);
        assert forall|i: int| 0 <= i < entries.len() implies {
            &&& steps[2 * i] == StepView::Print(report::line_start((#[trigger] entries[i]).label))
            &&& steps[2 * i + 1] == StepView::Probe(entries[i].target)
        } by {
            if i > 0 {
                assert(rest[i - 1] == entries[i]);
                assert(steps[2 * i] == report::entry_steps(rest)[2 * (i - 1)]);
                assert(steps[2 * i + 1] == report::entry_steps(rest)[2 * (i - 1) + 1]);
            }
        }
    }
}

/// A section stands in `all` from `at` on.
proof fn lemma_section_at(
    title: Seq<char>,
    entries: Seq<Entry>,
    all: Seq<StepView>,
    at: int,
    rest: Seq<StepView>,
)
    requires
        0 <= at <= all.len(),
        all.skip(at) == report::section_steps(title, entries) + rest,
    ensures
        all.len() == at + section_len(entries.len()) + rest.len(),
        all.skip(at + section_len(entries.len())) == rest,
        entries.len() > 0 ==> all[at] == StepView::Print(title),
        forall|i: int|
            0 <= i < entries.len() ==> {
                &&& all[at + 1 + 2 * i] == StepView::Print(
                    report::line_start((#[trigger] entries[i]).label),
                )
                &&& all[at + 2 + 2 * i] == StepView::Probe(entries[i].target)
            },
{
    let section = report::section_steps(title, entries);
    let steps = report::entry_steps(entries);
    let n = section_len(entries.len());
    lemma_entry_steps_at(entries);
    assert(section.len() == n);
    assert(all.skip(at).len() == all.len() - at);
    assert(all.skip(at + n) =~= rest) by {
        assert forall|k: int| 0 <= k < rest.len() implies all.skip(at + n)[k] == rest[k] by {
            assert(all.skip(at)[n + k] == rest[k]);
        }
    }
    assert forall|k: int| 0 <= k < n implies all[at + k] == #[trigger] section[k] by {
        assert(all.skip(at)[k] == section[k]);
    }
    if entries.len() > 0 {
        assert(all[at + 0] == section[0]);
        assert forall|i: int| 0 <= i < entries.len() implies {
            &&& all[at + 1 + 2 * i] == StepView::Print(
                report::line_start((#[trigger] entries[i]).label),
            )
            &&& all[at + 2 + 2 * i] == StepView::Probe(entries[i].target)
        } by {
            assert(section[1 + 2 * i] == steps[2 * i]);
            assert(section[2 + 2 * i] == steps[2 * i + 1]);
            assert(all[at + (1 + 2 * i)] == section[1 + 2 * i]);
            assert(all[at + (2 + 2 * i)] == section[2 + 2 * i]);
        }
    }
}

/// The sections stand in the script one after the other.
proof fn lemma_script_sections(c: Config)
    requires
        !report::is_idle(c),
    ensures
        ({
            let all = report::script(c);
            let end = report::listener_steps(c) + seq![StepView::Summary];
            let third = report::section_steps(report::proxy_title(), report::proxy_entries(c))
                + end;
            let second = report::section_steps(report::worker_title(), report::worker_entries(c))
                + third;
            let first = report::section_steps(report::cf_title(), report::cf_entries(c)) + second;
            &&& all[0] == StepView::Print(report::header())
            &&& all.skip(1) == first
            &&& all.skip(workers_at(c)) == second
            &&& all.skip(proxies_at(c)) == third
            &&& all.skip(listener_at(c)) == end
            &&& 1 <= workers_at(c) <= proxies_at(c) <= listener_at(c)
            &&& all.len() == listener_at(c) + end.len()
        }),
{
    let all = report::script(c);
    let end = report::listener_steps(c) + seq![StepView::Summary];
    let third = report::section_steps(report::proxy_title(), report::proxy_entries(c)) + end;
    let second = report::section_steps(report::worker_title(), report::worker_entries(c)) + third;
    let first = report::section_steps(report::cf_title(), report::cf_entries(c)) + second;
    assert(all.skip(1) =~= first);
    lemma_section_at(report::cf_title(), report::cf_entries(c), all, 1, second);
    lemma_section_at(report::worker_title(), report::worker_entries(c), all, workers_at(c), third);
    lemma_section_at(report::proxy_title(), report::proxy_entries(c), all, proxies_at(c), end);
}

/// Where the steps of the Cloudflare domains stand in the script.
proof fn lemma_cf_steps(c: Config, i: int)
    requires
        0 <= i < report::cf_entries(c).len(),
    ensures
        ({
            let all = report::script(c);
            let entry = report::cf_entries(c)[i];
            let at = 1int;
            &&& 0 < at && at + 2 + 2 * i < all.len()
            &&& all[at] == StepView::Print(report::cf_title())
            &&& all[at + 1 + 2 * i] == StepView::Print(report::line_start(entry.label))
            &&& all[at + 2 + 2 * i] == StepView::Probe(entry.target)
        }),
{
    let all = report::script(c);
    lemma_script_sections(c);
    lemma_section_at(
        report::cf_title(),
        report::cf_entries(c),
        all,
        1,
        all.skip(workers_at(c)),
    );
    let entry = report::cf_entries(c)[i];
    assert(all[1 + 1 + 2 * i] == StepView::Print(report::line_start(entry.label)));
}

/// Where the steps of the Workers stand in the script.
proof fn lemma_worker_steps(c: Config, i: int)
    requires
        0 <= i < report::worker_entries(c).len(),
    ensures
        ({
            let all = report::script(c);
            let entry = report::worker_entries(c)[i];
            let at = workers_at(c);
            &&& 0 < at && at + 2 + 2 * i < all.len()
            &&& all[at] == StepView::Print(report::worker_title())
            &&& all[at + 1 + 2 * i] == StepView::Print(report::line_start(entry.label))
            &&& all[at + 2 + 2 * i] == StepView::Probe(entry.target)
        }),
{
    let all = report::script(c);
    lemma_script_sections(c);
    lemma_section_at(
        report::worker_title(),
        report::worker_entries(c),
        all,
        workers_at(c),
        all.skip(proxies_at(c)),
    );
    let entry = report::worker_entries(c)[i];
    assert(all[workers_at(c) + 1 + 2 * i] == StepView::Print(report::line_start(entry.label)));
}

/// Where the steps of the upstream proxies stand in the script.
proof fn lemma_proxy_steps(c: Config, i: int)
    requires
        0 <= i < report::proxy_entries(c).len(),
    ensures
        ({
            let all = report::script(c);
            let entry = report::proxy_entries(c)[i];
            let at = proxies_at(c);
            &&& 0 < at && at + 2 + 2 * i < all.len()
            &&& all[at] == StepView::Print(report::proxy_title())
            &&& all[at + 1 + 2 * i] == StepView::Print(report::line_start(entry.label))
            &&& all[at + 2 + 2 * i] == StepView::Probe(entry.target)
        }),
{
    let all = report::script(c);
    lemma_script_sections(c);
    lemma_section_at(
        report::proxy_title(),
        report::proxy_entries(c),
        all,
        proxies_at(c),
        all.skip(listener_at(c)),
    );
    let entry = report::proxy_entries(c)[i];
    assert(all[proxies_at(c) + 1 + 2 * i] == StepView::Print(report::line_start(entry.label)));
}

/// Where the steps of the listener stand in the script.
proof fn lemma_listener_steps(c: Config)
    requires
        c.check_listener,
    ensures
        ({
            let all = report::script(c);
            let at = listener_at(c);
            &&& 0 < at && at + 2 < all.len()
            &&& all[at] == StepView::Print(report::listener_title())
            &&& all[at + 1] == StepView::Print(report::line_start(report::listener_label(c)))
            &&& all[at + 2] == report::listener_step(c)
        }),
{
    let all = report::script(c);
    let at = listener_at(c);
    let end = report::listener_steps(c) + seq![StepView::Summary];
    lemma_script_sections(c);
    assert(all.skip(at) == end);
    assert(all.skip(at)[0] == all[at]);
    assert(all.skip(at)[1] == all[at + 1]);
    assert(all.skip(at)[2] == all[at + 2]);
}

/// The steps of a check that begins are those of the script.
proof fn lemma_begins_with_script<'a>(config: &'a Config, run: CheckRun<'a>)
    requires
        call_ensures(report::run_check_with_outbound, (config,), run),
    ensures
        run.all_ok,
        run.todo@.len() == report::script(*config).len(),
        forall|k: int|
            0 <= k < run.todo@.len() ==> (#[trigger] report::nth_step(run, k))@ == report::script(
                *config,
            )[k],
{
    let todo = report::from_top(run.todo@);
    assert(todo == report::script(*config));
    assert(todo.len() == run.todo@.len());
    assert forall|k: int| 0 <= k < run.todo@.len() implies (#[trigger] report::nth_step(run, k))@
        == report::script(*config)[k] by {
        assert(todo[k] == report::nth_step(run, k)@);
    }
}

/// A check with nothing configured prints its head and that there is nothing to
/// check, and is good.
pub proof fn law_idle_check_says_so<'a>(config: &'a Config, run: CheckRun<'a>)
    requires
        call_ensures(report::run_check_with_outbound, (config,), run),
        config.cf_domains@.len() == 0,
        config.cf_worker_domains@.len() == 0,
        config.mtproto_proxies@.len() == 0,
        !config.check_listener,
    ensures
        run.all_ok,
        run.todo@.len() == 2,
        prints(
            report::nth_step(run, 0),
            "============================================================"@ + "\n  tg-ws-proxy connectivity check\n"@ + "============================================================"@ + "\n"@,
        ),
        prints(
            report::nth_step(run, 1),
            "\n  Nothing to check.\n  Configure --cf-domain, --cf-worker-domain, --mtproto-proxy and/or --check-listener and re-run.\n"@
                + "============================================================"@ + "\n"@,
        ),
{
    lemma_begins_with_script(config, run);
    assert(report::nth_step(run, 0)@ == report::script(*config)[0]);
    assert(report::nth_step(run, 1)@ == report::script(*config)[1]);
}

/// A check with something configured is good to begin with. It prints its head
/// first and its result last, and between them it has the steps of its sections and
/// no others.
pub proof fn law_check_begins_with_head_and_ends_with_result<'a>(
    config: &'a Config,
    run: CheckRun<'a>,
)
    requires
        call_ensures(report::run_check_with_outbound, (config,), run),
        config.cf_domains@.len() > 0 || config.cf_worker_domains@.len() > 0
            || config.mtproto_proxies@.len() > 0 || config.check_listener,
    ensures
        run.all_ok,
        run.todo@.len() == listener_at(*config) + (if config.check_listener {
            3int
        } else {
            0int
        }) + 1,
        prints(
            report::nth_step(run, 0),
            "============================================================"@ + "\n  tg-ws-proxy connectivity check\n"@ + "============================================================"@ + "\n"@,
        ),
        report::nth_step(run, run.todo@.len() - 1) is Summary,
{
    let all = report::script(*config);
    let end = report::listener_steps(*config) + seq![StepView::Summary];
    lemma_begins_with_script(config, run);
    lemma_script_sections(*config);
    assert(report::nth_step(run, 0)@ == all[0]);
    assert(all.skip(listener_at(*config))[end.len() - 1] == all[all.len() - 1]);
    assert(report::nth_step(run, run.todo@.len() - 1)@ == all[all.len() - 1]);
}

/// Every configured Cloudflare domain has its line and, right after the label, its
/// probe, in the order of the configuration and with the settings of the
/// configuration.
pub proof fn law_cf_domains_are_probed_as_configured<'a>(
    config: &'a Config,
    run: CheckRun<'a>,
    i: int,
)
    requires
        call_ensures(report::run_check_with_outbound, (config,), run),
        0 <= i < config.cf_domains@.len(),
    ensures
        prints(
            report::nth_step(run, 1),
            "\nCloudflare proxy domains (DC2 WebSocket probe):\n"@,
        ),
        prints(
            report::nth_step(run, 2 + 2 * i),
            "  "@ + text::padded("kws2."@ + config.cf_domains@[i]@, 40) + "  ... "@,
        ),
        report::nth_step(run, 3 + 2 * i) matches Step::Probe(target) && (target matches
            Target::CfDomain { domain, skip_tls, timeout_secs, disable_tls } && {
            &&& domain@ == config.cf_domains@[i]@
            &&& skip_tls == config.skip_tls_verify
            &&& timeout_secs == config.cf_connect_timeout
            &&& disable_tls == config.cf_disable_tls
        }),
        3 + 2 * i < run.todo@.len(),
{
    lemma_begins_with_script(config, run);
    lemma_cf_steps(*config, i);
    let all = report::script(*config);
    assert(report::nth_step(run, 1)@ == all[1]);
    assert(report::nth_step(run, 2 + 2 * i)@ == all[1 + 1 + 2 * i]);
    assert(report::nth_step(run, 3 + 2 * i)@ == all[1 + 2 + 2 * i]);
}

/// Every configured Worker has its line and, right after the label, its probe, after
/// the domains, in the order of the configuration and with the settings of the
/// configuration.
pub proof fn law_workers_are_probed_as_configured<'a>(
    config: &'a Config,
    run: CheckRun<'a>,
    i: int,
)
    requires
        call_ensures(report::run_check_with_outbound, (config,), run),
        0 <= i < config.cf_worker_domains@.len(),
    ensures
        ({
            let at = workers_at(*config);
            &&& prints(
                report::nth_step(run, at),
                "\nCloudflare Worker domains (DC2 TCP tunnel probe):\n"@,
            )
            &&& prints(
                report::nth_step(run, at + 1 + 2 * i),
                "  "@ + text::padded(config.cf_worker_domains@[i]@, 40) + "  ... "@,
            )
            &&& report::nth_step(run, at + 2 + 2 * i) matches Step::Probe(target)
            &&& target matches Target::CfWorker { domain, skip_tls, timeout_secs, disable_tls }
            &&& domain@ == config.cf_worker_domains@[i]@
            &&& skip_tls == config.skip_tls_verify
            &&& timeout_secs == config.cf_connect_timeout
            &&& disable_tls == config.cf_disable_tls
            &&& at + 2 + 2 * i < run.todo@.len()
        }),
{
    lemma_begins_with_script(config, run);
    lemma_worker_steps(*config, i);
    let all = report::script(*config);
    let at = workers_at(*config);
    assert(report::nth_step(run, at)@ == all[at]);
    assert(report::nth_step(run, at + 1 + 2 * i)@ == all[at + 1 + 2 * i]);
    assert(report::nth_step(run, at + 2 + 2 * i)@ == all[at + 2 + 2 * i]);
}

/// Every configured upstream proxy has its line, labelled with host, port and kind,
/// and right after the label its probe, after the Workers, in the order of the
/// configuration and with the limit of the configuration.
pub proof fn law_proxies_are_probed_as_configured<'a>(
    config: &'a Config,
    run: CheckRun<'a>,
    i: int,
    kind: &'static str,
)
    requires
        call_ensures(report::run_check_with_outbound, (config,), run),
        0 <= i < config.mtproto_proxies@.len(),
        call_ensures(config::proxy_kind, (&config.mtproto_proxies@[i],), kind),
    ensures
        ({
            let at = proxies_at(*config);
            let configured = config.mtproto_proxies@[i];
            &&& prints(report::nth_step(run, at), "\nUpstream MTProto proxies:\n"@)
            &&& prints(
                report::nth_step(run, at + 1 + 2 * i),
                "  "@ + text::padded(
                    configured.host@ + ":"@ + text::decimal(configured.port as nat) + "  ["@ + kind@
                        + "]"@,
                    40,
                ) + "  ... "@,
            )
            &&& report::nth_step(run, at + 2 + 2 * i) matches Step::Probe(target)
            &&& target matches Target::Proxy { proxy, timeout_secs }
            &&& *proxy == configured
            &&& timeout_secs == config.upstream_connect_timeout
            &&& at + 2 + 2 * i < run.todo@.len()
        }),
{
    lemma_begins_with_script(config, run);
    lemma_proxy_steps(*config, i);
    let all = report::script(*config);
    let at = proxies_at(*config);
    assert(report::nth_step(run, at)@ == all[at]);
    assert(report::nth_step(run, at + 1 + 2 * i)@ == all[at + 1 + 2 * i]);
    assert(report::nth_step(run, at + 2 + 2 * i)@ == all[at + 2 + 2 * i]);
}

/// A listener that is to be checked has its line after all others, labelled with
/// where it is reached. One that wants a TLS record first is skipped; otherwise it is
/// probed with the first key, or, where that is no key of sixteen bytes, reported as
/// failed.
pub proof fn law_listener_is_probed_as_configured<'a>(
    config: &'a Config,
    run: CheckRun<'a>,
    host: String,
)
    requires
        call_ensures(report::run_check_with_outbound, (config,), run),
        call_ensures(config::listener_probe_host, (config,), host),
        config.check_listener,
    ensures
        ({
            let at = listener_at(*config);
            let step = report::nth_step(run, at + 2);
            let keys = config.normalized_secrets@;
            let has_key = keys.len() > 0 && keys[0]@.len() == 16;
            &&& prints(
                report::nth_step(run, at),
                "\nOwn listener (end-to-end MTProto probe):\n"@,
            )
            &&& prints(
                report::nth_step(run, at + 1),
                "  "@ + text::padded(host@ + ":"@ + text::decimal(config.port as nat), 40)
                    + "  ... "@,
            )
            &&& config.normalized_listen_faketls_domain is Some ==> prints(
                step,
                "[SKIP]  FakeTLS listener: this probe speaks the plain transport\n"@,
            )
            &&& config.normalized_listen_faketls_domain is None && !has_key ==> (step matches
                Step::Fail(t) && t@
                == "[FAIL]  no --secret to probe with — pass the one the proxy serves\n"@)
            &&& config.normalized_listen_faketls_domain is None && has_key ==> (step matches
                Step::Probe(target) && (target matches Target::Listener {
                host: asked,
                port,
                secret,
                dc_idx,
                timeout_secs,
            } && {
                &&& asked@ == host@
                &&& port == config.port
                &&& secret@ == keys[0]@
                &&& dc_idx == 2
                &&& timeout_secs == config.handshake_timeout
            }))
            &&& at + 2 < run.todo@.len()
        }),
{
    lemma_begins_with_script(config, run);
    lemma_listener_steps(*config);
    let all = report::script(*config);
    let at = listener_at(*config);
    assert(report::nth_step(run, at)@ == all[at]);
    assert(report::nth_step(run, at + 1)@ == all[at + 1]);
    assert(report::nth_step(run, at + 2)@ == all[at + 2]);
}

} // verus!
