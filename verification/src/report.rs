//! The check as a whole: which probes run, in which order, what is printed
//! around them, and the verdict.

use vstd::prelude::*;

use crate::cf_domain::{probe_cf_domain, CfDomainProbe, CfDomainStageView};
use crate::cf_worker::{probe_cf_worker, WorkerProbe};
use crate::config::{
    listener_probe_host, listener_probe_secret, proxy_kind, Config, MtProtoProxy, PROBE_DC,
};
use crate::listener::{probe_listener, ListenerProbe, ListenerStageView};
use crate::mtproto_proxy::{probe_mtproto_proxy, ProxyProbe, ProxyStageView};
use crate::status::{ProbeStatus, StatusView};
use crate::{cf_worker, config, text};

verus! {

/// What a probe is aimed at.
pub enum Target<'a> {
    CfDomain { domain: &'a String, skip_tls: bool, timeout_secs: u64, disable_tls: bool },
    CfWorker { domain: &'a String, skip_tls: bool, timeout_secs: u64, disable_tls: bool },
    Proxy { proxy: &'a MtProtoProxy, timeout_secs: u64 },
    Listener { host: String, port: u16, secret: &'a Vec<u8>, dc_idx: i16, timeout_secs: u64 },
}

/// A [`Target`] with its text and bytes as sequences.
pub enum TargetView {
    CfDomain { domain: Seq<char>, skip_tls: bool, timeout_secs: u64, disable_tls: bool },
    CfWorker { domain: Seq<char>, skip_tls: bool, timeout_secs: u64, disable_tls: bool },
    Proxy { proxy: MtProtoProxy, timeout_secs: u64 },
    Listener { host: Seq<char>, port: u16, secret: Seq<u8>, dc_idx: i16, timeout_secs: u64 },
}

impl<'a> View for Target<'a> {
    type V = TargetView;

    open spec fn view(&self) -> TargetView {
        match self {
            Target::CfDomain { domain, skip_tls, timeout_secs, disable_tls } =>
                TargetView::CfDomain {
                domain: domain@,
                skip_tls: *skip_tls,
                timeout_secs: *timeout_secs,
                disable_tls: *disable_tls,
            },
            Target::CfWorker { domain, skip_tls, timeout_secs, disable_tls } =>
                TargetView::CfWorker {
                domain: domain@,
                skip_tls: *skip_tls,
                timeout_secs: *timeout_secs,
                disable_tls: *disable_tls,
            },
            Target::Proxy { proxy, timeout_secs } => TargetView::Proxy {
                proxy: **proxy,
                timeout_secs: *timeout_secs,
            },
            Target::Listener { host, port, secret, dc_idx, timeout_secs } =>
                TargetView::Listener {
                host: host@,
                port: *port,
                secret: secret@,
                dc_idx: *dc_idx,
                timeout_secs: *timeout_secs,
            },
        }
    }
}

/// A step of the check.
pub enum Step<'a> {
    /// Print a text.
    Print(String),
    /// Print a text as an error message.
    Warn(String),
    /// Print a text that reports a failure, which fails the check.
    Fail(String),
    /// Run a probe, and print how it ended.
    Probe(Target<'a>),
    /// Print the result.
    Summary,
}

/// A [`Step`] with its text as a sequence.
pub enum StepView {
    Print(Seq<char>),
    Warn(Seq<char>),
    Fail(Seq<char>),
    Probe(TargetView),
    Summary,
}

impl<'a> View for Step<'a> {
    type V = StepView;

    open spec fn view(&self) -> StepView {
        match self {
            Step::Print(t) => StepView::Print(t@),
            Step::Warn(t) => StepView::Warn(t@),
            Step::Fail(t) => StepView::Fail(t@),
            Step::Probe(target) => StepView::Probe(target@),
            Step::Summary => StepView::Summary,
        }
    }
}

/// A check under way.
pub struct CheckRun<'a> {
    /// The steps that are left, the next one last.
    pub todo: Vec<Step<'a>>,
    /// Whether nothing has failed so far.
    pub all_ok: bool,
}

/// A [`CheckRun`] with its steps in the order they are taken.
pub struct CheckView {
    pub todo: Seq<StepView>,
    pub all_ok: bool,
}

/// The steps on a stack, the top one first.
pub open spec fn from_top(steps: Seq<Step<'_>>) -> Seq<StepView> {
    Seq::new(steps.len(), |i: int| steps[steps.len() - 1 - i]@)
}

impl<'a> View for CheckRun<'a> {
    type V = CheckView;

    open spec fn view(&self) -> CheckView {
        CheckView { todo: from_top(self.todo@), all_ok: self.all_ok }
    }
}

// ---------------------------------------------------------------------------
// Text
// ---------------------------------------------------------------------------
/// The line of sixty equals signs that frames the report.
pub open spec fn separator() -> Seq<char> {
    "============================================================"@
}

/// The head of the report.
pub open spec fn header() -> Seq<char> {
    separator() + "\n  tg-ws-proxy connectivity check\n"@ + separator() + "\n"@
}

/// The report where nothing is configured.
pub open spec fn nothing_to_check() -> Seq<char> {
    "\n  Nothing to check.\n  Configure --cf-domain, --cf-worker-domain, --mtproto-proxy and/or --check-listener and re-run.\n"@
        + separator() + "\n"@
}

/// The end of the report.
pub open spec fn summary(all_ok: bool) -> Seq<char> {
    "\n"@ + separator() + (if all_ok {
        "\n  Result: all checks passed\n"@
    } else {
        "\n  Result: one or more checks FAILED\n"@
    }) + separator() + "\n"@
}

/// The start of a probe's line: its label, forty characters wide.
pub open spec fn line_start(label: Seq<char>) -> Seq<char> {
    "  "@ + text::padded(label, 40) + "  ... "@
}

pub open spec fn cf_title() -> Seq<char> {
    "\nCloudflare proxy domains (DC2 WebSocket probe):\n"@
}

pub open spec fn worker_title() -> Seq<char> {
    "\nCloudflare Worker domains (DC2 TCP tunnel probe):\n"@
}

pub open spec fn proxy_title() -> Seq<char> {
    "\nUpstream MTProto proxies:\n"@
}

pub open spec fn listener_title() -> Seq<char> {
    "\nOwn listener (end-to-end MTProto probe):\n"@
}

pub open spec fn skip_line() -> Seq<char> {
    "[SKIP]  FakeTLS listener: this probe speaks the plain transport\n"@
}

pub open spec fn no_secret_line() -> Seq<char> {
    "[FAIL]  no --secret to probe with — pass the one the proxy serves\n"@
}

/// What is said of an outbound proxy configuration that cannot be used.
pub open spec fn outbound_warning(error: Seq<char>) -> Seq<char> {
    "Invalid outbound proxy configuration: "@ + error + "\n"@
}

// ---------------------------------------------------------------------------
// The script
// ---------------------------------------------------------------------------
/// A probe with the label of its line.
pub struct Entry {
    pub label: Seq<char>,
    pub target: TargetView,
}

pub open spec fn cf_entry(c: Config, i: int) -> Entry {
    Entry {
        label: "kws2."@ + c.cf_domains@[i]@,
        target: TargetView::CfDomain {
            domain: c.cf_domains@[i]@,
            skip_tls: c.skip_tls_verify,
            timeout_secs: c.cf_connect_timeout,
            disable_tls: c.cf_disable_tls,
        },
    }
}

pub open spec fn worker_entry(c: Config, i: int) -> Entry {
    Entry {
        label: c.cf_worker_domains@[i]@,
        target: TargetView::CfWorker {
            domain: c.cf_worker_domains@[i]@,
            skip_tls: c.skip_tls_verify,
            timeout_secs: c.cf_connect_timeout,
            disable_tls: c.cf_disable_tls,
        },
    }
}

pub open spec fn proxy_entry(c: Config, i: int) -> Entry {
    let proxy = c.mtproto_proxies@[i];
    Entry {
        label: proxy.host@ + ":"@ + text::decimal(proxy.port as nat) + "  ["@ + config::secret_kind(
            proxy.secret@,
        ) + "]"@,
        target: TargetView::Proxy { proxy, timeout_secs: c.upstream_connect_timeout },
    }
}

/// The probes of the Cloudflare domains, in the order they are configured.
pub open spec fn cf_entries(c: Config) -> Seq<Entry> {
    Seq::new(c.cf_domains@.len(), |i: int| cf_entry(c, i))
}

/// The probes of the Workers, in the order they are configured.
pub open spec fn worker_entries(c: Config) -> Seq<Entry> {
    Seq::new(c.cf_worker_domains@.len(), |i: int| worker_entry(c, i))
}

/// The probes of the upstream proxies, in the order they are configured.
pub open spec fn proxy_entries(c: Config) -> Seq<Entry> {
    Seq::new(c.mtproto_proxies@.len(), |i: int| proxy_entry(c, i))
}

/// The label of the listener's line.
pub open spec fn listener_label(c: Config) -> Seq<char> {
    config::reachable_host(c.bind_host@) + ":"@ + text::decimal(c.port as nat)
}

/// The steps that print the label of each entry and run its probe.
pub open spec fn entry_steps(entries: Seq<Entry>) -> Seq<StepView>
    decreases entries.len(),
{
    if entries.len() == 0 {
        Seq::empty()
    } else {
        seq![StepView::Print(line_start(entries[0].label)), StepView::Probe(entries[0].target)]
            + entry_steps(entries.drop_first())
    }
}

/// A section of the report: a title and the entries, or nothing where there
/// are none.
pub open spec fn section_steps(title: Seq<char>, entries: Seq<Entry>) -> Seq<StepView> {
    if entries.len() == 0 {
        Seq::empty()
    } else {
        seq![StepView::Print(title)] + entry_steps(entries)
    }
}

/// What is done about the listener. A listener that wants a TLS record first is
/// skipped: the plain probe cannot speak to it, and a failure would blame a
/// configuration that works for its clients.
pub open spec fn listener_step(c: Config) -> StepView {
    if c.normalized_listen_faketls_domain is Some {
        StepView::Print(skip_line())
    } else {
        match config::probe_secret(c) {
            Some(secret) => StepView::Probe(
                TargetView::Listener {
                    host: config::reachable_host(c.bind_host@),
                    port: c.port,
                    secret,
                    dc_idx: PROBE_DC,
                    timeout_secs: c.handshake_timeout,
                },
            ),
            None => StepView::Fail(no_secret_line()),
        }
    }
}

/// The section of the listener.
pub open spec fn listener_steps(c: Config) -> Seq<StepView> {
    if c.check_listener {
        seq![
            StepView::Print(listener_title()),
            StepView::Print(line_start(listener_label(c))),
            listener_step(c),
        ]
    } else {
        Seq::empty()
    }
}

/// Whether there is nothing to check.
pub open spec fn is_idle(c: Config) -> bool {
    &&& c.cf_domains@.len() == 0
    &&& c.cf_worker_domains@.len() == 0
    &&& c.mtproto_proxies@.len() == 0
    &&& !c.check_listener
}

/// All the steps of the check.
pub open spec fn script(c: Config) -> Seq<StepView> {
    if is_idle(c) {
        seq![StepView::Print(header()), StepView::Print(nothing_to_check())]
    } else {
        seq![StepView::Print(header())] + (section_steps(cf_title(), cf_entries(c)) + (section_steps(
            worker_title(),
            worker_entries(c),
        ) + (section_steps(proxy_title(), proxy_entries(c)) + (listener_steps(c) + seq![
            StepView::Summary,
        ]))))
    }
}

// ---------------------------------------------------------------------------
// The run
// ---------------------------------------------------------------------------
/// What came of an action.
pub enum CheckEvent {
    /// The text is printed.
    Printed,
    /// The probe has ended.
    Probed(ProbeStatus),
}

/// A [`CheckEvent`] with its text as a sequence.
pub enum CheckEventView {
    Printed,
    Probed(StatusView),
}

impl View for CheckEvent {
    type V = CheckEventView;

    open spec fn view(&self) -> CheckEventView {
        match self {
            CheckEvent::Printed => CheckEventView::Printed,
            CheckEvent::Probed(status) => CheckEventView::Probed(status@),
        }
    }
}

/// What the check asks for next.
pub enum CheckAction<'a> {
    /// Print this text, and flush it: the user sees a label before the
    /// potentially slow probe.
    Print(String),
    /// Print this text as an error message.
    Warn(String),
    /// Run a probe of this target to its end.
    Probe(&'a Target<'a>),
    /// The check is over: whether it passed.
    Finish(bool),
}

/// A [`CheckAction`] with its text as a sequence.
pub enum CheckActionView {
    Print(Seq<char>),
    Warn(Seq<char>),
    Probe(TargetView),
    Finish(bool),
}

impl<'a> View for CheckAction<'a> {
    type V = CheckActionView;

    open spec fn view(&self) -> CheckActionView {
        match self {
            CheckAction::Print(t) => CheckActionView::Print(t@),
            CheckAction::Warn(t) => CheckActionView::Warn(t@),
            CheckAction::Probe(target) => CheckActionView::Probe(target@),
            CheckAction::Finish(ok) => CheckActionView::Finish(*ok),
        }
    }
}

/// What a check at `v` asks for.
pub open spec fn check_action(v: CheckView) -> CheckActionView {
    if v.todo.len() == 0 {
        CheckActionView::Finish(v.all_ok)
    } else {
        match v.todo[0] {
            StepView::Print(t) => CheckActionView::Print(t),
            StepView::Warn(t) => CheckActionView::Warn(t),
            StepView::Fail(t) => CheckActionView::Print(t),
            StepView::Probe(target) => CheckActionView::Probe(target),
            StepView::Summary => CheckActionView::Print(summary(v.all_ok)),
        }
    }
}

/// Where a check at `v` goes when `event` comes. An event that answers no
/// pending action changes nothing.
pub open spec fn check_next(v: CheckView, event: CheckEventView) -> CheckView {
    if v.todo.len() == 0 {
        v
    } else {
        let rest = v.todo.drop_first();
        match (v.todo[0], event) {
            (StepView::Probe(_), CheckEventView::Probed(status)) => CheckView {
                todo: seq![StepView::Print(status.line())] + rest,
                all_ok: v.all_ok && status is Pass,
            },
            (StepView::Probe(_), CheckEventView::Printed) => v,
            (StepView::Fail(_), CheckEventView::Printed) => CheckView { todo: rest, all_ok: false },
            (_, CheckEventView::Printed) => CheckView { todo: rest, all_ok: v.all_ok },
            _ => v,
        }
    }
}

fn line_start_string(label: &str) -> (start: String)
    ensures
        start@ == line_start(label@),
{
    let mut start = text::joined("  ", text::padded_string(label, 40).as_str());
    start.append("  ... ");
    start
}

fn header_string() -> (t: String)
    ensures
        t@ == header(),
{
    let rule: &str = "============================================================";
    let mut t = text::joined(rule, "\n  tg-ws-proxy connectivity check\n");
    t.append(rule);
    t.append("\n");
    t
}

fn nothing_to_check_string() -> (t: String)
    ensures
        t@ == nothing_to_check(),
{
    let mut t = text::joined(
        "\n  Nothing to check.\n  Configure --cf-domain, --cf-worker-domain, --mtproto-proxy and/or --check-listener and re-run.\n",
        "============================================================",
    );
    t.append("\n");
    t
}

fn summary_string(all_ok: bool) -> (t: String)
    ensures
        t@ == summary(all_ok),
{
    let rule: &str = "============================================================";
    let mut t = text::joined("\n", rule);
    if all_ok {
        t.append("\n  Result: all checks passed\n");
    } else {
        t.append("\n  Result: one or more checks FAILED\n");
    }
    t.append(rule);
    t.append("\n");
    t
}

/// Puts `step` before the steps that are there.
fn put_before<'a>(todo: &mut Vec<Step<'a>>, step: Step<'a>)
    ensures
        from_top(final(todo)@) == seq![step@] + from_top(old(todo)@),
{
    todo.push(step);
    proof {
        assert(from_top(todo@) =~= seq![step@] + from_top(old(todo)@));
    }
}

proof fn lemma_entry_steps_from(entries: Seq<Entry>, i: int)
    requires
        0 <= i < entries.len(),
    ensures
        entry_steps(entries.skip(i)) == seq![
            StepView::Print(line_start(entries[i].label)),
            StepView::Probe(entries[i].target),
        ] + entry_steps(entries.skip(i + 1)),
{
    assert(entries.skip(i).drop_first() =~= entries.skip(i + 1));
}

/// Puts the line and the probe of an entry before the steps that are there.
fn put_entry_before<'a>(todo: &mut Vec<Step<'a>>, label: &str, target: Target<'a>)
    ensures
        from_top(final(todo)@) == seq![
            StepView::Print(line_start(label@)),
            StepView::Probe(target@),
        ] + from_top(old(todo)@),
{
    put_before(todo, Step::Probe(target));
    put_before(todo, Step::Print(line_start_string(label)));
    proof {
        assert(from_top(todo@) =~= seq![
            StepView::Print(line_start(label@)),
            StepView::Probe(target@),
        ] + from_top(old(todo)@));
    }
}

/// A target with the label of its line.
struct Labelled<'a> {
    label: String,
    target: Target<'a>,
}

impl<'a> View for Labelled<'a> {
    type V = Entry;

    closed spec fn view(&self) -> Entry {
        Entry { label: self.label@, target: self.target@ }
    }
}

/// The entries that a list stands for.
spec fn entries_of(list: Seq<Labelled<'_>>) -> Seq<Entry> {
    Seq::new(list.len(), |i: int| list[i]@)
}

fn list_cf_domains<'a>(config: &'a Config) -> (list: Vec<Labelled<'a>>)
    ensures
        entries_of(list@) == cf_entries(*config),
{
    let mut list: Vec<Labelled<'a>> = Vec::new();
    for i in 0..config.cf_domains.len()
        invariant
            list@.len() == i,
            forall|j: int| 0 <= j < i ==> (#[trigger] list@[j])@ == cf_entry(*config, j),
    {
        let domain: &'a String = &config.cf_domains[i];
        let target = Target::CfDomain {
            domain,
            skip_tls: config.skip_tls_verify,
            timeout_secs: config.cf_connect_timeout,
            disable_tls: config.cf_disable_tls,
        };
        list.push(Labelled { label: text::joined("kws2.", domain.as_str()), target });
    }
    proof {
        assert(entries_of(list@) =~= cf_entries(*config));
    }
    list
}

fn list_cf_workers<'a>(config: &'a Config) -> (list: Vec<Labelled<'a>>)
    ensures
        entries_of(list@) == worker_entries(*config),
{
    let mut list: Vec<Labelled<'a>> = Vec::new();
    for i in 0..config.cf_worker_domains.len()
        invariant
            list@.len() == i,
            forall|j: int| 0 <= j < i ==> (#[trigger] list@[j])@ == worker_entry(*config, j),
    {
        let domain: &'a String = &config.cf_worker_domains[i];
        let target = Target::CfWorker {
            domain,
            skip_tls: config.skip_tls_verify,
            timeout_secs: config.cf_connect_timeout,
            disable_tls: config.cf_disable_tls,
        };
        list.push(Labelled { label: domain.clone(), target });
    }
    proof {
        assert(entries_of(list@) =~= worker_entries(*config));
    }
    list
}

fn list_proxies<'a>(config: &'a Config) -> (list: Vec<Labelled<'a>>)
    ensures
        entries_of(list@) == proxy_entries(*config),
{
    let mut list: Vec<Labelled<'a>> = Vec::new();
    for i in 0..config.mtproto_proxies.len()
        invariant
            list@.len() == i,
            forall|j: int| 0 <= j < i ==> (#[trigger] list@[j])@ == proxy_entry(*config, j),
    {
        let proxy: &'a MtProtoProxy = &config.mtproto_proxies[i];
        let mut label = text::joined(proxy.host.as_str(), ":");
        label.append(text::decimal_string(proxy.port as u128).as_str());
        label.append("  [");
        label.append(proxy_kind(proxy));
        label.append("]");
        let target = Target::Proxy { proxy, timeout_secs: config.upstream_connect_timeout };
        list.push(Labelled { label, target });
    }
    proof {
        assert(entries_of(list@) =~= proxy_entries(*config));
    }
    list
}

/// Puts a section before the steps that are there.
fn put_section<'a>(todo: &mut Vec<Step<'a>>, title: &str, list: Vec<Labelled<'a>>)
    ensures
        from_top(final(todo)@) == section_steps(title@, entries_of(list@)) + from_top(old(todo)@),
{
    let ghost entries = entries_of(list@);
    let ghost after = from_top(todo@);
    let any: bool = list.len() > 0;
    let mut left = list;
    proof {
        assert(entry_steps(entries.skip(entries.len() as int)) + after =~= after);
    }
    while left.len() > 0
        invariant
            left@.len() <= entries.len(),
            entries_of(left@) =~= entries.take(left@.len() as int),
            from_top(todo@) == entry_steps(entries.skip(left@.len() as int)) + after,
        decreases left@.len(),
    {
        let ghost at = left@.len() - 1;
        proof {
            assert(entries[at] == entries_of(left@)[at]);
            lemma_entry_steps_from(entries, at);
        }
        if let Some(last) = left.pop() {
            put_entry_before(todo, last.label.as_str(), last.target);
        }
        proof {
            assert(entries_of(left@) =~= entries.take(at));
            assert(from_top(todo@) =~= entry_steps(entries.skip(at)) + after);
        }
    }
    if any {
        put_before(todo, Step::Print(title.to_owned()));
    }
    proof {
        assert(entries.skip(0) =~= entries);
        assert(from_top(todo@) =~= section_steps(title@, entries) + after);
    }
}

fn put_listener_section<'a>(todo: &mut Vec<Step<'a>>, config: &'a Config)
    ensures
        from_top(final(todo)@) == listener_steps(*config) + from_top(old(todo)@),
{
    let ghost after = from_top(todo@);
    if config.check_listener {
        let host = listener_probe_host(config);
        let mut label = text::joined(host.as_str(), ":");
        label.append(text::decimal_string(config.port as u128).as_str());
        let step = if config.normalized_listen_faketls_domain.is_some() {
            Step::Print(
                "[SKIP]  FakeTLS listener: this probe speaks the plain transport\n".to_owned(),
            )
        } else {
            match listener_probe_secret(config) {
                Some(secret) => Step::Probe(
                    Target::Listener {
                        host,
                        port: config.port,
                        secret,
                        dc_idx: PROBE_DC,
                        timeout_secs: config.handshake_timeout,
                    },
                ),
                None => Step::Fail(
                    "[FAIL]  no --secret to probe with — pass the one the proxy serves\n".to_owned(),
                ),
            }
        };
        put_before(todo, step);
        put_before(todo, Step::Print(line_start_string(label.as_str())));
        put_before(
            todo,
            Step::Print("\nOwn listener (end-to-end MTProto probe):\n".to_owned()),
        );
    }
    proof {
        assert(from_top(todo@) =~= listener_steps(*config) + after);
    }
}

/// Begins the full check of all configured Cloudflare domains, Workers and
/// MTProto proxies and of the listener, where the outbound connector is ready.
pub fn run_check_with_outbound<'a>(config: &'a Config) -> (run: CheckRun<'a>)
    ensures
        run@.todo == script(*config),
        run@.all_ok,
{
    let mut todo: Vec<Step<'a>> = Vec::new();
    let idle: bool = config.cf_domains.len() == 0 && config.cf_worker_domains.len() == 0
        && config.mtproto_proxies.len() == 0 && !config.check_listener;
    if idle {
        put_before(&mut todo, Step::Print(nothing_to_check_string()));
    } else {
        put_before(&mut todo, Step::Summary);
        proof {
            assert(from_top(todo@) =~= seq![StepView::Summary]);
        }
        put_listener_section(&mut todo, config);
        put_section(&mut todo, "\nUpstream MTProto proxies:\n", list_proxies(config));
        put_section(
            &mut todo,
            "\nCloudflare Worker domains (DC2 TCP tunnel probe):\n",
            list_cf_workers(config),
        );
        put_section(
            &mut todo,
            "\nCloudflare proxy domains (DC2 WebSocket probe):\n",
            list_cf_domains(config),
        );
    }
    put_before(&mut todo, Step::Print(header_string()));
    proof {
        assert(from_top(todo@) =~= script(*config));
    }
    CheckRun { todo, all_ok: true }
}

/// Begins the full check. `outbound` tells whether an outbound connector could
/// be made of the configuration: if not, its error is all that is reported, and
/// the check fails.
pub fn run_check<'a>(config: &'a Config, outbound: Result<(), String>) -> (run: CheckRun<'a>)
    ensures
        match outbound {
            Ok(_) => run@ == (CheckView { todo: script(*config), all_ok: true }),
            Err(e) => run@ == (CheckView {
                todo: seq![StepView::Warn(outbound_warning(e@))],
                all_ok: false,
            }),
        },
{
    match outbound {
        Ok(_) => run_check_with_outbound(config),
        Err(e) => {
            let mut warning = text::joined("Invalid outbound proxy configuration: ", e.as_str());
            warning.append("\n");
            let mut todo: Vec<Step<'a>> = Vec::new();
            put_before(&mut todo, Step::Warn(warning));
            proof {
                assert(from_top(todo@) =~= seq![StepView::Warn(outbound_warning(e@))]);
            }
            CheckRun { todo, all_ok: false }
        },
    }
}

impl<'a> CheckRun<'a> {
    /// What the check asks for next.
    pub fn action<'s>(&'s self) -> (action: CheckAction<'s>)
        ensures
            action@ == check_action(self@),
    {
        let len: usize = self.todo.len();
        if len == 0 {
            return CheckAction::Finish(self.all_ok);
        }
        match &self.todo[len - 1] {
            Step::Print(t) => CheckAction::Print(t.clone()),
            Step::Warn(t) => CheckAction::Warn(t.clone()),
            Step::Fail(t) => CheckAction::Print(t.clone()),
            Step::Probe(target) => CheckAction::Probe(target),
            Step::Summary => CheckAction::Print(summary_string(self.all_ok)),
        }
    }

    /// Takes in what came of the last action.
    pub fn handle(self, event: CheckEvent) -> (next: Self)
        ensures
            next@ == check_next(self@, event@),
    {
        let mut todo = self.todo;
        let mut all_ok: bool = self.all_ok;
        let ghost before = from_top(todo@);
        match todo.pop() {
            None => {},
            Some(step) => {
                proof {
                    assert(before[0] == step@);
                    assert(from_top(todo@) =~= before.drop_first());
                }
                match (step, event) {
                    (Step::Probe(_), CheckEvent::Probed(status)) => {
                        all_ok = all_ok && status.is_ok();
                        put_before(&mut todo, Step::Print(status.line()));
                    },
                    (Step::Fail(_), CheckEvent::Printed) => {
                        all_ok = false;
                    },
                    (Step::Print(_), CheckEvent::Printed) => {},
                    (Step::Warn(_), CheckEvent::Printed) => {},
                    (Step::Summary, CheckEvent::Printed) => {},
                    (step, _) => {
                        put_before(&mut todo, step);
                        proof {
                            assert(seq![before[0]] + before.drop_first() =~= before);
                        }
                    },
                }
            },
        }
        CheckRun { todo, all_ok }
    }
}

/// A probe under way.
pub enum Probe<'a> {
    CfDomain(CfDomainProbe<'a>),
    CfWorker(WorkerProbe<'a>),
    Proxy(ProxyProbe<'a>),
    Listener(ListenerProbe<'a>),
}

/// Begins the probe of `target`; `dc_ip` is the default address of the data
/// centre that a Worker's tunnel leads to.
pub fn begin_probe<'a>(target: &'a Target<'a>, dc_ip: Option<&'a str>) -> (probe: Probe<'a>)
    ensures
        match target@ {
            TargetView::CfDomain { domain, skip_tls, timeout_secs, disable_tls } => {
                &&& probe matches Probe::CfDomain(p)
                &&& p.domain@ == domain
                &&& p.skip_tls == skip_tls
                &&& p.timeout_secs == timeout_secs
                &&& p.disable_tls == disable_tls
                &&& p.stage@ == CfDomainStageView::Connecting
            },
            TargetView::CfWorker { domain, skip_tls, timeout_secs, disable_tls } => {
                &&& probe matches Probe::CfWorker(p)
                &&& p.domain@ == domain
                &&& p.skip_tls == skip_tls
                &&& p.timeout_secs == timeout_secs
                &&& p.disable_tls == disable_tls
                &&& p.stage@ == cf_worker::worker_start(
                    match dc_ip {
                        Some(dst) => Some(dst@),
                        None => None,
                    },
                )
            },
            TargetView::Proxy { proxy, timeout_secs } => {
                &&& probe matches Probe::Proxy(p)
                &&& *p.proxy == proxy
                &&& p.timeout_secs == timeout_secs
                &&& p.stage@ == ProxyStageView::Connecting
            },
            TargetView::Listener { host, port, secret, dc_idx, timeout_secs } => {
                &&& probe matches Probe::Listener(p)
                &&& p.host@ == host
                &&& p.port == port
                &&& p.secret@ == secret
                &&& p.dc_idx == dc_idx
                &&& p.timeout_secs == timeout_secs
                &&& p.stage@ == ListenerStageView::Connecting
            },
        },
{
    match target {
        Target::CfDomain { domain, skip_tls, timeout_secs, disable_tls } => Probe::CfDomain(
            probe_cf_domain(domain, *skip_tls, *timeout_secs, *disable_tls),
        ),
        Target::CfWorker { domain, skip_tls, timeout_secs, disable_tls } => Probe::CfWorker(
            probe_cf_worker(domain, dc_ip, *skip_tls, *timeout_secs, *disable_tls),
        ),
        Target::Proxy { proxy, timeout_secs } => Probe::Proxy(
            probe_mtproto_proxy(proxy, *timeout_secs),
        ),
        Target::Listener { host, port, secret, dc_idx, timeout_secs } => Probe::Listener(
            probe_listener(host.as_str(), *port, secret.as_slice(), *dc_idx, *timeout_secs),
        ),
    }
}

// ---------------------------------------------------------------------------
// Laws
// ---------------------------------------------------------------------------
/// The frame of the report is drawn with sixty equals signs.
pub proof fn law_separator_is_sixty_signs()
    ensures
        separator().len() == 60,
        forall|i: int| 0 <= i < 60 ==> #[trigger] separator()[i] == '=',
{
    reveal_strlit("============================================================");
}

/// The line of a probe begins with two spaces, the label, spaces up to the end of
/// the column where the label is shorter than that, and dots.
pub proof fn law_line_starts_with_the_label(label: Seq<char>)
    ensures
        ({
            let start = line_start(label);
            let column = if label.len() < 40 {
                40
            } else {
                label.len() as int
            };
            &&& start.len() == column + 8
            &&& start[0] == ' ' && start[1] == ' '
            &&& start.subrange(2, 2int + label.len()) == label
            &&& forall|i: int| 2 + label.len() <= i < 2 + column ==> #[trigger] start[i] == ' '
            &&& start.skip(2 + column) == seq![' ', ' ', '.', '.', '.', ' ']
        }),
{
    reveal_strlit("  ");
    reveal_strlit("  ... ");
    let start = line_start(label);
    let column = if label.len() < 40 {
        40
    } else {
        label.len() as int
    };
    assert("  "@.len() == 2 && "  ... "@.len() == 6);
    assert(start.subrange(2, 2int + label.len()) =~= label);
    assert(start.skip(2 + column) =~= seq![' ', ' ', '.', '.', '.', ' ']);
}

/// Two targets look alike in contracts exactly where they agree in all they hold.
pub proof fn law_targets_are_told_apart<'a>(a: Target<'a>, b: Target<'a>)
    ensures
        a@ == b@ <==> match (a, b) {
            (
                Target::CfDomain { domain, skip_tls, timeout_secs, disable_tls },
                Target::CfDomain { domain: d, skip_tls: s, timeout_secs: t, disable_tls: n },
            ) => domain@ == d@ && skip_tls == s && timeout_secs == t && disable_tls == n,
            (
                Target::CfWorker { domain, skip_tls, timeout_secs, disable_tls },
                Target::CfWorker { domain: d, skip_tls: s, timeout_secs: t, disable_tls: n },
            ) => domain@ == d@ && skip_tls == s && timeout_secs == t && disable_tls == n,
            (
                Target::Proxy { proxy, timeout_secs },
                Target::Proxy { proxy: p, timeout_secs: t },
            ) => *proxy == *p && timeout_secs == t,
            (
                Target::Listener { host, port, secret, dc_idx, timeout_secs },
                Target::Listener { host: h, port: p, secret: s, dc_idx: d, timeout_secs: t },
            ) => host@ == h@ && port == p && secret@ == s@ && dc_idx == d && timeout_secs == t,
            _ => false,
        },
{
}

/// Two steps look alike in contracts exactly where they do the same.
pub proof fn law_steps_are_told_apart<'a>(a: Step<'a>, b: Step<'a>)
    ensures
        a@ == b@ <==> match (a, b) {
            (Step::Print(s), Step::Print(t)) => s@ == t@,
            (Step::Warn(s), Step::Warn(t)) => s@ == t@,
            (Step::Fail(s), Step::Fail(t)) => s@ == t@,
            (Step::Probe(s), Step::Probe(t)) => s@ == t@,
            (Step::Summary, Step::Summary) => true,
            _ => false,
        },
{
}

/// The step that a check takes after `k` others.
pub open spec fn nth_step<'a>(run: CheckRun<'a>, k: int) -> Step<'a> {
    run.todo@[run.todo@.len() - 1 - k]
}

/// A check asks for what its next step is, and finishes with its verdict exactly
/// where no step is left.
pub proof fn law_check_asks_for_the_next_step<'a>(run: CheckRun<'a>, action: CheckAction<'a>)
    requires
        call_ensures(CheckRun::<'a>::action, (&run,), action),
    ensures
        run.todo@.len() == 0 <==> action is Finish,
        action matches CheckAction::Finish(passed) ==> passed == run.all_ok,
        run.todo@.len() > 0 ==> match nth_step(run, 0) {
            Step::Print(t) => action matches CheckAction::Print(shown) && shown@ == t@,
            Step::Warn(t) => action matches CheckAction::Warn(shown) && shown@ == t@,
            Step::Fail(t) => action matches CheckAction::Print(shown) && shown@ == t@,
            Step::Probe(target) => action matches CheckAction::Probe(shown) && shown@ == target@,
            Step::Summary => action matches CheckAction::Print(shown) && shown@ == "\n"@
                + "============================================================"@ + (if run.all_ok {
                "\n  Result: all checks passed\n"@
            } else {
                "\n  Result: one or more checks FAILED\n"@
            }) + "============================================================"@ + "\n"@,
        },
{
    if run.todo@.len() > 0 {
        assert(from_top(run.todo@)[0] == nth_step(run, 0)@);
    }
}

/// Whether `event` answers what a check with a step left asks for: a probe ends, and
/// everything else is printed.
pub open spec fn is_answered<'a>(run: CheckRun<'a>, event: CheckEvent) -> bool {
    run.todo@.len() > 0 && (nth_step(run, 0) is Probe <==> event is Probed)
}

/// Whether `event` makes a check fail: a probe has failed, or a failure is reported.
pub open spec fn is_failure<'a>(run: CheckRun<'a>, event: CheckEvent) -> bool {
    is_answered(run, event) && (nth_step(run, 0) is Fail || (event matches CheckEvent::Probed(
        status,
    ) && status is Fail))
}

/// An answered step is done, and the steps below it stay as they are; a probe leaves
/// the end of its line to be printed in its place. A check is still good exactly
/// where it was and the event is no failure. An event that answers nothing changes
/// nothing.
pub proof fn law_check_takes_one_step<'a>(run: CheckRun<'a>, event: CheckEvent, next: CheckRun<'a>)
    requires
        call_ensures(CheckRun::<'a>::handle, (run, event), next),
    ensures
        ({
            let n = run.todo@.len();
            let answered = is_answered(run, event);
            &&& next.todo@.len() == (if answered && nth_step(run, 0) !is Probe {
                n - 1
            } else {
                n as int
            })
            &&& forall|j: int|
                0 <= j < n && (answered ==> j < n - 1) ==> (#[trigger] next.todo@[j])@
                    == run.todo@[j]@
            &&& next.all_ok == (run.all_ok && !is_failure(run, event))
            &&& answered ==> (event matches CheckEvent::Probed(status) ==> {
                &&& next.todo@[n - 1] matches Step::Print(t)
                &&& t@ == (match status {
                    ProbeStatus::Pass(elapsed) => "["@ + "OK "@ + "]  "@ + (text::decimal(
                        ((elapsed.secs * 1_000_000_000 + elapsed.nanos) / 1_000_000) as nat,
                    ) + "ms"@) + "\n"@,
                    ProbeStatus::Fail(reason) => "["@ + "FAIL"@ + "]  "@ + reason@ + "\n"@,
                })
            })
        }),
{
    let n = run.todo@.len() as int;
    let m = next.todo@.len() as int;
    let before = from_top(run.todo@);
    let after = from_top(next.todo@);
    let answered = is_answered(run, event);
    if n > 0 {
        assert(before[0] == nth_step(run, 0)@);
        assert(after == check_next(run@, event@).todo);
        if answered && event is Probed {
            assert(after[0] == next.todo@[m - 1]@);
        }
    }
    assert forall|j: int| 0 <= j < n && (answered ==> j < n - 1) implies (
    #[trigger] next.todo@[j])@ == run.todo@[j]@ by {
        assert(before[n - 1 - j] == run.todo@[j]@);
        assert(after[m - 1 - j] == next.todo@[j]@);
    }
}

/// Whether each check in `runs` takes in one of `events`, and the next one is what
/// comes of that.
pub open spec fn is_check_run<'a>(runs: Seq<CheckRun<'a>>, events: Seq<CheckEvent>) -> bool {
    &&& runs.len() == events.len() + 1
    &&& forall|i: int|
        0 <= i < events.len() ==> call_ensures(
            CheckRun::<'a>::handle,
            (runs[i], #[trigger] events[i]),
            runs[i + 1],
        )
}

/// A check is good at the end exactly where it was at the beginning and nothing has
/// failed in between: one failure fails it for good, and nothing else does.
pub proof fn law_one_failure_fails_the_check<'a>(
    runs: Seq<CheckRun<'a>>,
    events: Seq<CheckEvent>,
)
    requires
        is_check_run(runs, events),
    ensures
        runs.last().all_ok <==> runs[0].all_ok && forall|i: int|
            0 <= i < events.len() ==> !is_failure(runs[i], #[trigger] events[i]),
    decreases events.len(),
{
    if events.len() > 0 {
        let n = events.len() - 1;
        let before = events.drop_last();
        assert forall|i: int| 0 <= i < before.len() implies call_ensures(
            CheckRun::<'a>::handle,
            (runs.drop_last()[i], #[trigger] before[i]),
            runs.drop_last()[i + 1],
        ) by {
            assert(events[i] == before[i]);
        }
        law_one_failure_fails_the_check(runs.drop_last(), before);
        assert(runs.drop_last().last() == runs[n]);
        assert(runs.last() == runs[n + 1]);
        assert(events[n] == events.last());
        law_check_takes_one_step(runs[n], events[n], runs[n + 1]);
        if runs.last().all_ok {
            assert forall|i: int| 0 <= i < events.len() implies !is_failure(
                runs[i],
                #[trigger] events[i],
            ) by {
                if i < n {
                    assert(before[i] == events[i]);
                }
            }
        }
        if runs[0].all_ok && forall|i: int|
            0 <= i < events.len() ==> !is_failure(runs[i], #[trigger] events[i]) {
            assert forall|i: int| 0 <= i < before.len() implies !is_failure(
                runs.drop_last()[i],
                #[trigger] before[i],
            ) by {
                assert(before[i] == events[i]);
            }
            assert(!is_failure(runs[n], events[n]));
        }
    }
}

/// A check whose outbound connector could be made is the check itself; one whose
/// connector could not is over with a warning that holds the error, and has failed.
pub proof fn law_outbound_error_is_all_there_is<'a>(
    config: &'a Config,
    outbound: Result<(), String>,
    run: CheckRun<'a>,
    plain: CheckRun<'a>,
)
    requires
        call_ensures(run_check, (config, outbound), run),
        call_ensures(run_check_with_outbound, (config,), plain),
    ensures
        match outbound {
            Ok(_) => {
                &&& run.all_ok
                &&& run.todo@.len() == plain.todo@.len()
                &&& forall|k: int|
                    0 <= k < run.todo@.len() ==> (#[trigger] nth_step(run, k))@ == nth_step(
                        plain,
                        k,
                    )@
            },
            Err(e) => {
                &&& !run.all_ok
                &&& run.todo@.len() == 1
                &&& nth_step(run, 0) matches Step::Warn(t)
                &&& t@ == "Invalid outbound proxy configuration: "@ + e@ + "\n"@
            },
        },
{
    match outbound {
        Ok(_) => {
            assert(from_top(run.todo@) == from_top(plain.todo@));
            assert(from_top(run.todo@).len() == from_top(plain.todo@).len());
            assert forall|k: int| 0 <= k < run.todo@.len() implies (#[trigger] nth_step(run, k))@
                == nth_step(plain, k)@ by {
                assert(from_top(run.todo@)[k] == nth_step(run, k)@);
                assert(from_top(plain.todo@)[k] == nth_step(plain, k)@);
            }
        },
        Err(e) => {
            assert(from_top(run.todo@).len() == 1);
            assert(from_top(run.todo@)[0] == nth_step(run, 0)@);
        },
    }
}

/// The probe of a target begins with what the target holds; that of a Worker leads
/// to the address of the data centre.
pub proof fn law_probe_begins_with_its_target<'a>(
    target: &'a Target<'a>,
    dc_ip: Option<&'a str>,
    probe: Probe<'a>,
)
    requires
        call_ensures(begin_probe, (target, dc_ip), probe),
    ensures
        match *target {
            Target::CfDomain { domain, skip_tls, timeout_secs, disable_tls } => {
                &&& probe matches Probe::CfDomain(p)
                &&& p.domain@ == domain@
                &&& p.skip_tls == skip_tls
                &&& p.timeout_secs == timeout_secs
                &&& p.disable_tls == disable_tls
                &&& p.stage is Connecting
            },
            Target::CfWorker { domain, skip_tls, timeout_secs, disable_tls } => {
                &&& probe matches Probe::CfWorker(p)
                &&& p.domain@ == domain@
                &&& p.skip_tls == skip_tls
                &&& p.timeout_secs == timeout_secs
                &&& p.disable_tls == disable_tls
                &&& dc_ip matches Some(dst) ==> (p.stage matches cf_worker::WorkerStage::OpeningTunnel(
                    kept,
                ) && kept@ == dst@)
                &&& dc_ip is None ==> (p.stage matches cf_worker::WorkerStage::Done(
                    ProbeStatus::Fail(reason),
                ) && reason@ == "DC 2 default IP is missing"@)
            },
            Target::Proxy { proxy, timeout_secs } => {
                &&& probe matches Probe::Proxy(p)
                &&& *p.proxy == *proxy
                &&& p.timeout_secs == timeout_secs
                &&& p.stage is Connecting
            },
            Target::Listener { host, port, secret, dc_idx, timeout_secs } => {
                &&& probe matches Probe::Listener(p)
                &&& p.host@ == host@
                &&& p.port == port
                &&& p.secret@ == secret@
                &&& p.dc_idx == dc_idx
                &&& p.timeout_secs == timeout_secs
                &&& p.stage is Connecting
            },
        },
{
}

} // verus!
