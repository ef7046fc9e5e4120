//! The error tracking service: normalization of reports, the panic hook's
//! state, and the body of a submission.

use std::sync::Arc;

use vstd::prelude::*;

use super::helper::{
    anonymize, anonymized, collapse_stack, collapsed, law_collapsed_is_bounded,
    lemma_one_frame, rule_texts, truncate_message, truncated, MAX_FRAME_SIZE, MAX_MESSAGE_LENGTH,
    MAX_STACK_SIZE,
};
use super::tracker::{
    cause_views, context_view, error_json, error_views, is_ignored, law_repeat_is_counted,
    with_report, CauseFrame,    CauseView, IgnoreRule, TrackedError, TrackedView, Tracker,
};
use crate::domain::attributes::Attributes;
use crate::domain::sdk_info::{SdkInfo, SdkInfoView};
use crate::domain::server_id::{hyphenated, ServerId};
use crate::error::{Error, ErrorView};
use crate::json::json_tree;
use crate::metrics::service::MetricsEvent;
use crate::regexes::Pattern;
use crate::text::{decimal, decimal_text, lemma_texts_push, opt_str, opt_text, texts};
use crate::transport::{
    compressed_body, header_texts, join_server_url, joined_url, resolve_server_url, resolved_url,
    submit_headers, Request, SubmissionOutcome, Transport, TransportView, Url,
};
use crate::value::{items_view, lemma_items_view_push, JsonMap, JsonValue, JsonView};

verus! {

/// The path that errors are submitted to.
pub const ERROR_PATH: &'static str = "/v1/error";

/// The environment variable that overrides the error tracking server.
pub const ERROR_TRACKER_SERVER_ENV: &'static str = "FASTSTATS_ERROR_TRACKER_SERVER";

/// The error tracking server.
pub const DEFAULT_ERROR_TRACKER_SERVER: &'static str = "https://metrics.faststats.dev";

/// The time between two submissions, in seconds (30 minutes).
pub const SUBMISSION_PERIOD: u64 = 30 * 60;

/// How many causes of an error are reported at most.
pub const MAX_CAUSE_DEPTH: usize = 16;

/// How many characters of a cause's text serve as its type at most.
pub const MAX_CAUSE_TYPE_LENGTH: usize = 40;

/// The address that errors are submitted to.
pub open spec fn error_url(server: Option<Seq<char>>) -> Result<Seq<char>, ErrorView> {
    match resolved_url(ERROR_TRACKER_SERVER_ENV@, server, DEFAULT_ERROR_TRACKER_SERVER@) {
        Ok(base) => joined_url(ERROR_TRACKER_SERVER_ENV@, base, ERROR_PATH@),
        Err(e) => Err(e),
    }
}

/// The type of a cause: the start of its text, since nothing better is
/// known of it.
pub open spec fn cause_type(text: Seq<char>) -> Seq<char> {
    if text.len() == 0 {
        "UnknownCause"@
    } else if text.len() <= MAX_CAUSE_TYPE_LENGTH {
        text
    } else {
        text.take(MAX_CAUSE_TYPE_LENGTH as int)
    }
}

/// The type of a cause with the given text. It is never empty.
pub fn error_type_name(text: &str) -> (s: String)
    ensures
        s@ == cause_type(text@),
        0 < s@.len() <= MAX_CAUSE_TYPE_LENGTH,
{
    proof {
        reveal_strlit("UnknownCause");
    }
    let len: usize = text.unicode_len();
    if len == 0 {
        "UnknownCause".to_owned()
    } else if len <= MAX_CAUSE_TYPE_LENGTH {
        text.to_owned()
    } else {
        assert(text@.subrange(0, MAX_CAUSE_TYPE_LENGTH as int) =~= text@.take(
            MAX_CAUSE_TYPE_LENGTH as int,
        ));
        text.substring_char(0, MAX_CAUSE_TYPE_LENGTH).to_owned()
    }
}

/// The texts of a chain of causes that are reported: those before the first
/// that repeats one, and no more than [`MAX_CAUSE_DEPTH`].
pub open spec fn reported_causes(chain: Seq<Seq<char>>) -> Seq<Seq<char>>
    decreases chain.len(),
{
    if chain.len() == 0 {
        Seq::empty()
    } else {
        let before = reported_causes(chain.drop_last());
        if before.len() == chain.len() - 1 && before.len() < MAX_CAUSE_DEPTH && !before.contains(
            chain.last(),
        ) {
            before.push(chain.last())
        } else {
            before
        }
    }
}

/// A cause before it is anonymized. Its text stands for its type and for its
/// stack.
pub open spec fn raw_cause(text: Seq<char>) -> CauseView {
    CauseView { error_type: text, message: Some(text), stack: seq![text] }
}

/// Collects the causes of an error out of the texts of its chain of causes,
/// the nearest first. Stops at a text that occurred before, since the chain
/// may be a cycle, and at [`MAX_CAUSE_DEPTH`] causes.
pub fn collect_causes(chain: &Vec<String>) -> (r: Vec<CauseFrame>)
    ensures
        cause_views(r@) == reported_causes(texts(chain@)).map_values(
            |text: Seq<char>| raw_cause(text),
        ),
        r@.len() <= MAX_CAUSE_DEPTH,
{
    let ghost all = texts(chain@);
    let mut r: Vec<CauseFrame> = Vec::new();
    let mut i: usize = 0;
    assert(all.take(0) =~= Seq::empty());
    assert(cause_views(r@) =~= reported_causes(all.take(0)).map_values(
        |text: Seq<char>| raw_cause(text),
    ));
    while i < chain.len() && i < MAX_CAUSE_DEPTH && !contains_text(chain, i)
        invariant
            i <= chain@.len(),
            i <= MAX_CAUSE_DEPTH,
            r@.len() == i,
            all == texts(chain@),
            reported_causes(all.take(i as int)) == all.take(i as int),
            cause_views(r@) == all.take(i as int).map_values(|text: Seq<char>| raw_cause(text)),
        decreases chain@.len() - i,
    {
        let text = &chain[i];
        let mut stack: Vec<String> = Vec::new();
        stack.push(text.clone());
        let cause = CauseFrame {
            error_type: text.clone(),
            message: Some(text.clone()),
            stack,
        };
        proof {
            let next = all.take(i + 1);
            assert(next.drop_last() =~= all.take(i as int));
            assert(next.last() == text@);
            assert(next =~= all.take(i as int).push(text@));
            assert(texts(stack@) =~= seq![text@]);
            assert(cause@ == raw_cause(text@));
            assert(cause_views(r@.push(cause)) =~= cause_views(r@).push(cause@));
            assert(next.map_values(|text: Seq<char>| raw_cause(text)) =~= all.take(
                i as int,
            ).map_values(|text: Seq<char>| raw_cause(text)).push(cause@));
        }
        r.push(cause);
        i += 1;
    }
    proof {
        lemma_chain_stops(all, i as int);
    }
    r
}

/// Whether the text at `i` is also one before it.
fn contains_text(chain: &Vec<String>, i: usize) -> (r: bool)
    requires
        i < chain@.len(),
    ensures
        r == texts(chain@).take(i as int).contains(texts(chain@)[i as int]),
{
    let ghost before = texts(chain@).take(i as int);
    let mut j: usize = 0;
    while j < i
        invariant
            j <= i < chain@.len(),
            before == texts(chain@).take(i as int),
            forall|k: int| 0 <= k < j ==> #[trigger] before[k] != texts(chain@)[i as int],
        decreases i - j,
    {
        if chain[j] == chain[i] {
            assert(before[j as int] == texts(chain@)[i as int]);
            return true;
        }
        j += 1;
    }
    false
}

/// Where the walk along a chain stops, nothing more of it is reported.
proof fn lemma_chain_stops(chain: Seq<Seq<char>>, n: int)
    requires
        0 <= n <= chain.len(),
        n <= MAX_CAUSE_DEPTH,
        reported_causes(chain.take(n)) == chain.take(n),
        n == chain.len() || n == MAX_CAUSE_DEPTH || chain.take(n).contains(chain[n]),
    ensures
        reported_causes(chain) == chain.take(n),
    decreases chain.len() - n,
{
    if n == chain.len() {
        assert(chain.take(n) =~= chain);
    } else {
        lemma_chain_stops_at(chain, n, chain.len() as int);
        assert(chain.take(chain.len() as int) =~= chain);
    }
}

proof fn lemma_chain_stops_at(chain: Seq<Seq<char>>, n: int, m: int)
    requires
        0 <= n < chain.len(),
        n <= m <= chain.len(),
        n <= MAX_CAUSE_DEPTH,
        reported_causes(chain.take(n)) == chain.take(n),
        n == MAX_CAUSE_DEPTH || chain.take(n).contains(chain[n]),
    ensures
        reported_causes(chain.take(m)) == chain.take(n),
    decreases m - n,
{
    if m > n {
        lemma_chain_stops_at(chain, n, m - 1);
        assert(chain.take(m).drop_last() =~= chain.take(m - 1));
        if m == n + 1 {
            assert(chain.take(m).last() == chain[n]);
        }
    }
}

/// A message as it is reported.
pub open spec fn reported_message(
    message: Option<Seq<char>>,
    rules: Seq<(Seq<char>, Seq<char>)>,
    username: Option<Seq<char>>,
) -> Option<Seq<char>> {
    match message {
        Some(m) => Some(truncated(anonymized(m, rules, username), MAX_MESSAGE_LENGTH as nat)),
        None => None,
    }
}

/// A stack as it is reported.
pub open spec fn reported_stack(
    stack: Seq<Seq<char>>,
    rules: Seq<(Seq<char>, Seq<char>)>,
    username: Option<Seq<char>>,
) -> Seq<Seq<char>> {
    collapsed(stack.map_values(|frame: Seq<char>| anonymized(frame, rules, username)))
}

/// A cause as it is reported. Its type is taken of the anonymized text.
pub open spec fn reported_cause(
    cause: CauseView,
    rules: Seq<(Seq<char>, Seq<char>)>,
    username: Option<Seq<char>>,
) -> CauseView {
    CauseView {
        error_type: cause_type(anonymized(cause.error_type, rules, username)),
        message: reported_message(cause.message, rules, username),
        stack: reported_stack(cause.stack, rules, username),
    }
}

/// An error as it is reported, where `error` holds what was handed in: texts
/// anonymized, messages cut to their limit and stacks collapsed.
pub open spec fn reported_error(
    error: TrackedView,
    rules: Seq<(Seq<char>, Seq<char>)>,
    username: Option<Seq<char>>,
) -> TrackedView {
    TrackedView {
        error_type: error.error_type,
        message: reported_message(error.message, rules, username),
        stack: reported_stack(error.stack, rules, username),
        handled: error.handled,
        context: error.context,
        causes: error.causes.map_values(|cause: CauseView| reported_cause(cause, rules, username)),
        count: 1,
    }
}

fn report_message(
    message: Option<&str>,
    extra_patterns: &[(Pattern, &'static str)],
    username: Option<&str>,
) -> (r: Option<String>)
    ensures
        opt_text(r) == reported_message(
            opt_str(message),
            rule_texts(extra_patterns@),
            opt_str(username),
        ),
{
    match message {
        Some(m) => {
            let anonymous = anonymize(m, extra_patterns, username);
            Some(truncate_message(anonymous.as_str()))
        },
        None => None,
    }
}

fn report_stack(
    stack: &Vec<String>,
    extra_patterns: &[(Pattern, &'static str)],
    username: Option<&str>,
) -> (r: Vec<String>)
    ensures
        texts(r@) == reported_stack(
            texts(stack@),
            rule_texts(extra_patterns@),
            opt_str(username),
        ),
{
    let ghost rules = rule_texts(extra_patterns@);
    let ghost frames = texts(stack@).map_values(
        |frame: Seq<char>| anonymized(frame, rules, opt_str(username)),
    );
    let mut anonymous: Vec<String> = Vec::new();
    let mut i: usize = 0;
    assert(texts(anonymous@) =~= frames.take(0));
    while i < stack.len()
        invariant
            i <= stack@.len(),
            rules == rule_texts(extra_patterns@),
            frames == texts(stack@).map_values(
                |frame: Seq<char>| anonymized(frame, rules, opt_str(username)),
            ),
            texts(anonymous@) == frames.take(i as int),
        decreases stack@.len() - i,
    {
        let frame = anonymize(stack[i].as_str(), extra_patterns, username);
        proof {
            lemma_texts_push(anonymous@, frame);
            assert(frames.take(i + 1) =~= frames.take(i as int).push(frame@));
        }
        anonymous.push(frame);
        i += 1;
    }
    assert(frames.take(i as int) =~= frames);
    collapse_stack(&anonymous)
}

fn report_causes(
    causes: &Vec<CauseFrame>,
    extra_patterns: &[(Pattern, &'static str)],
    username: Option<&str>,
) -> (r: Vec<CauseFrame>)
    ensures
        cause_views(r@) == cause_views(causes@).map_values(
            |cause: CauseView|
                reported_cause(cause, rule_texts(extra_patterns@), opt_str(username)),
        ),
{
    let ghost expected = cause_views(causes@).map_values(
        |cause: CauseView| reported_cause(cause, rule_texts(extra_patterns@), opt_str(username)),
    );
    let mut r: Vec<CauseFrame> = Vec::new();
    let mut i: usize = 0;
    assert(cause_views(r@) =~= expected.take(0));
    while i < causes.len()
        invariant
            i <= causes@.len(),
            expected == cause_views(causes@).map_values(
                |cause: CauseView|
                    reported_cause(cause, rule_texts(extra_patterns@), opt_str(username)),
            ),
            cause_views(r@) == expected.take(i as int),
        decreases causes@.len() - i,
    {
        let cause = &causes[i];
        let message = match &cause.message {
            Some(m) => Some(m.as_str()),
            None => None,
        };
        let anonymous_type = anonymize(cause.error_type.as_str(), extra_patterns, username);
        let reported = CauseFrame {
            error_type: error_type_name(anonymous_type.as_str()),
            message: report_message(message, extra_patterns, username),
            stack: report_stack(&cause.stack, extra_patterns, username),
        };
        proof {
            assert(reported@ == expected[i as int]);
            assert(expected.take(i + 1) =~= expected.take(i as int).push(reported@));
            assert(cause_views(r@.push(reported)) =~= cause_views(r@).push(reported@));
        }
        r.push(reported);
        i += 1;
    }
    assert(expected.take(i as int) =~= expected);
    r
}

/// Builds an [`ErrorTracker`].
pub struct Factory {
    project_name: String,
    sdk_info: SdkInfo,
    ignore_rules: Vec<IgnoreRule>,
    extra_patterns: Vec<(Pattern, &'static str)>,
    attributes: Option<Attributes>,
}

/// What a [`Factory`] holds.
pub struct FactoryView {
    pub project_name: Seq<char>,
    pub sdk_info: SdkInfoView,
    pub rules: Seq<IgnoreRule>,
    pub patterns: Seq<(Seq<char>, Seq<char>)>,
    pub attributes: Option<Map<Seq<char>, JsonView>>,
}

impl View for Factory {
    type V = FactoryView;

    closed spec fn view(&self) -> FactoryView {
        FactoryView {
            project_name: self.project_name@,
            sdk_info: self.sdk_info@,
            rules: self.ignore_rules@,
            patterns: rule_texts(self.extra_patterns@),
            attributes: context_view(self.attributes),
        }
    }
}

impl Factory {
    /// Creates a new error tracking factory. `project_name` identifies the
    /// program, `sdk_info` the SDK itself.
    pub fn new(project_name: &str, sdk_info: SdkInfo) -> (r: Self)
        ensures
            r@ == (FactoryView {
                project_name: project_name@,
                sdk_info: sdk_info@,
                rules: seq![],
                patterns: seq![],
                attributes: None,
            }),
    {
        let r = Factory {
            project_name: project_name.to_owned(),
            sdk_info,
            ignore_rules: Vec::new(),
            extra_patterns: Vec::new(),
            attributes: None,
        };
        assert(r@.rules =~= seq![]);
        assert(r@.patterns =~= seq![]);
        r
    }

    /// Ignore every error of the given exact type.
    pub fn ignore_error_type(self, error_type: String) -> (r: Self)
        ensures
            r@ == (FactoryView { rules: self@.rules.push(IgnoreRule::Type(error_type)), ..self@ }),
    {
        self.with_rule(IgnoreRule::Type(error_type))
    }

    /// Ignore every error whose message matches `pattern`.
    pub fn ignore_error_message(self, pattern: Pattern) -> (r: Self)
        ensures
            r@ == (FactoryView {
                rules: self@.rules.push(IgnoreRule::MessagePattern(pattern)),
                ..self@
            }),
    {
        self.with_rule(IgnoreRule::MessagePattern(pattern))
    }

    /// Ignore errors that match both `error_type` and `pattern`.
    pub fn ignore_error(self, error_type: String, pattern: Pattern) -> (r: Self)
        ensures
            r@ == (FactoryView {
                rules: self@.rules.push(IgnoreRule::TypeAndPattern(error_type, pattern)),
                ..self@
            }),
    {
        self.with_rule(IgnoreRule::TypeAndPattern(error_type, pattern))
    }

    fn with_rule(self, rule: IgnoreRule) -> (r: Self)
        ensures
            r@ == (FactoryView { rules: self@.rules.push(rule), ..self@ }),
    {
        let mut r = self;
        r.ignore_rules.push(rule);
        r
    }

    /// Registers an additional anonymization pattern, applied after the
    /// built-in ones.
    pub fn anonymize(self, pattern: Pattern, replacement: &'static str) -> (r: Self)
        ensures
            r@ == (FactoryView { patterns: self@.patterns.push((pattern@, replacement@)), ..self@ }),
    {
        let mut r = self;
        r.extra_patterns.push((pattern, replacement));
        assert(r@.patterns =~= self@.patterns.push((pattern@, replacement@)));
        r
    }

    /// Attributes that are part of every submission's `context`.
    pub fn attributes(self, attributes: Attributes) -> (r: Self)
        ensures
            r@ == (FactoryView { attributes: Some(attributes@), ..self@ }),
    {
        let mut r = self;
        r.attributes = Some(attributes);
        r
    }

    /// Builds the service. `server` is the value of the environment variable
    /// [`ERROR_TRACKER_SERVER_ENV`].
    pub fn build(self, transport: Arc<Transport>, server_id: ServerId, server: Option<&str>) -> (r:
        Result<ErrorTracker, Error>)
        ensures
            match r {
                Ok(tracker) => error_url(opt_str(server)) == Ok::<Seq<char>, ErrorView>(
                    tracker@.url,
                ) && tracker@ == (ErrorTrackerView {
                    transport: transport@,
                    url: tracker@.url,
                    project_name: self@.project_name,
                    sdk_info: self@.sdk_info,
                    server_id,
                    patterns: self@.patterns,
                    attributes: self@.attributes,
                    rules: self@.rules,
                    pending: seq![],
                    panic_hook_installed: false,
                }),
                Err(e) => error_url(opt_str(server)) == Err::<Seq<char>, ErrorView>(e@),
            },
    {
        let base = match resolve_server_url(
            ERROR_TRACKER_SERVER_ENV,
            server,
            DEFAULT_ERROR_TRACKER_SERVER,
        ) {
            Ok(base) => base,
            Err(e) => {
                return Err(e);
            },
        };
        let url = match join_server_url(ERROR_TRACKER_SERVER_ENV, &base, ERROR_PATH) {
            Ok(url) => url,
            Err(e) => {
                return Err(e);
            },
        };
        let ghost rules = self.ignore_rules@;
        let mut remaining = self.ignore_rules;
        let mut tracker = Tracker::new();
        assert(rules.take(0) =~= seq![]);
        while remaining.len() > 0
            invariant
                tracker.rules() + remaining@ =~= rules,
                tracker.pending() == Seq::<TrackedView>::empty(),
            decreases remaining@.len(),
        {
            tracker.add_ignore_rule(remaining.remove(0));
        }
        assert(tracker.rules() =~= rules);
        Ok(
            ErrorTracker {
                transport,
                url,
                project_name: self.project_name,
                sdk_info: self.sdk_info,
                server_id,
                extra_patterns: self.extra_patterns,
                attributes: self.attributes,
                tracker,
                panic_hook_installed: false,
            },
        )
    }
}

/// The error tracking service.
pub struct ErrorTracker {
    transport: Arc<Transport>,
    url: Url,
    project_name: String,
    sdk_info: SdkInfo,
    server_id: ServerId,
    extra_patterns: Vec<(Pattern, &'static str)>,
    attributes: Option<Attributes>,
    tracker: Tracker,
    panic_hook_installed: bool,
}

/// What an [`ErrorTracker`] holds.
pub struct ErrorTrackerView {
    pub transport: TransportView,
    pub url: Seq<char>,
    pub project_name: Seq<char>,
    pub sdk_info: SdkInfoView,
    pub server_id: ServerId,
    pub patterns: Seq<(Seq<char>, Seq<char>)>,
    pub attributes: Option<Map<Seq<char>, JsonView>>,
    pub rules: Seq<IgnoreRule>,
    pub pending: Seq<TrackedView>,
    pub panic_hook_installed: bool,
}

impl View for ErrorTracker {
    type V = ErrorTrackerView;

    closed spec fn view(&self) -> ErrorTrackerView {
        ErrorTrackerView {
            transport: self.transport@,
            url: self.url@,
            project_name: self.project_name@,
            sdk_info: self.sdk_info@,
            server_id: self.server_id,
            patterns: rule_texts(self.extra_patterns@),
            attributes: context_view(self.attributes),
            rules: self.tracker.rules(),
            pending: self.tracker.pending(),
            panic_hook_installed: self.panic_hook_installed,
        }
    }
}

/// The service after a report: the error, as it is reported, is pending,
/// unless a rule ignores it.
pub open spec fn with_error(
    service: ErrorTrackerView,
    error: TrackedView,
    username: Option<Seq<char>>,
) -> ErrorTrackerView {
    let reported = reported_error(error, service.patterns, username);
    if is_ignored(service.rules, reported.error_type, reported.message) {
        service
    } else {
        ErrorTrackerView { pending: with_report(service.pending, reported), ..service }
    }
}

/// What is handed in about an error.
pub open spec fn raw_error(
    error_type: Seq<char>,
    message: Option<Seq<char>>,
    stack: Seq<Seq<char>>,
    handled: bool,
    context: Option<Map<Seq<char>, JsonView>>,
    causes: Seq<CauseView>,
) -> TrackedView {
    TrackedView { error_type, message, stack, handled, context, causes, count: 1 }
}

/// Where a panic happened.
#[derive(Debug)]
pub struct PanicLocation {
    pub file: String,
    pub line: u32,
    pub column: u32,
}

/// The frame that stands for the place of a panic.
pub open spec fn location_text(location: Option<PanicLocation>) -> Seq<char> {
    match location {
        Some(l) => l.file@ + ":"@ + decimal_text(l.line as nat) + ":"@ + decimal_text(
            l.column as nat,
        ),
        None => "unknown location"@,
    }
}

/// What is handed in about a panic.
pub open spec fn raw_panic(
    message: Option<Seq<char>>,
    location: Option<PanicLocation>,
    thread_name: Option<Seq<char>>,
) -> TrackedView {
    raw_error(
        "panic"@,
        message,
        seq![location_text(location)],
        false,
        Some(
            map![
                "thread_name"@ => JsonView::String(
                    match thread_name {
                        Some(name) => name,
                        None => "unnamed"@,
                    },
                ),
            ],
        ),
        seq![],
    )
}

/// The message of the report on a custom metric that failed.
pub open spec fn metric_failure_text(metric_id: Seq<char>, error: Seq<char>) -> Seq<char> {
    "custom metric '"@ + metric_id + "' failed: "@ + error
}

/// The attributes and the metrics that go with every report; the attributes
/// win where both have an entry.
pub open spec fn report_context(
    attributes: Option<Map<Seq<char>, JsonView>>,
    snapshot: Option<Map<Seq<char>, JsonView>>,
) -> Map<Seq<char>, JsonView> {
    let own = match attributes {
        Some(map) => map,
        None => Map::empty(),
    };
    match snapshot {
        Some(metrics) => metrics.union_prefer_right(own),
        None => own,
    }
}

/// The body of a submission.
pub open spec fn errors_json(
    service: ErrorTrackerView,
    snapshot: Option<Map<Seq<char>, JsonView>>,
) -> JsonView {
    let base = map![
        "identifier"@ => JsonView::String(hyphenated(service.server_id.0)),
        "language"@ => JsonView::String("rust"@),
        "project_name"@ => JsonView::String(service.project_name),
        "sdk_name"@ => JsonView::String(service.sdk_info.name),
        "sdk_version"@ => JsonView::String(service.sdk_info.version),
    ];
    let context = report_context(service.attributes, snapshot);
    let with_context = if context != Map::<Seq<char>, JsonView>::empty() {
        base.insert("context"@, JsonView::Object(context))
    } else {
        base
    };
    JsonView::Object(
        with_context.insert(
            "errors"@,
            JsonView::Array(service.pending.map_values(|error: TrackedView| error_json(error))),
        ),
    )
}

/// The metrics snapshot, where there is one.
pub open spec fn snapshot_view(snapshot: Option<&JsonMap>) -> Option<Map<Seq<char>, JsonView>> {
    match snapshot {
        Some(map) => Some(map@),
        None => None,
    }
}

impl ErrorTracker {
    /// Records an error, as a handled one. `username` is the current OS
    /// username, which is scrubbed.
    pub fn track_error(
        &mut self,
        error_type: &str,
        message: Option<&str>,
        stack: &Vec<String>,
        context: Option<Attributes>,
        username: Option<&str>,
    )
        ensures
            final(self)@ == with_error(
                old(self)@,
                raw_error(
                    error_type@,
                    opt_str(message),
                    texts(stack@),
                    true,
                    context_view(context),
                    seq![],
                ),
                opt_str(username),
            ),
    {
        let causes: Vec<CauseFrame> = Vec::new();
        assert(cause_views(causes@) =~= seq![]);
        self.record(error_type.to_owned(), message, stack, true, context, &causes, username);
    }

    /// Records an error, as a handled one, together with its causes. `chain`
    /// holds the texts of its chain of causes, the nearest first.
    pub fn track_error_with_source(
        &mut self,
        error_type: &str,
        message: Option<&str>,
        stack: &Vec<String>,
        context: Option<Attributes>,
        chain: &Vec<String>,
        username: Option<&str>,
    )
        ensures
            final(self)@ == with_error(
                old(self)@,
                raw_error(
                    error_type@,
                    opt_str(message),
                    texts(stack@),
                    true,
                    context_view(context),
                    reported_causes(texts(chain@)).map_values(|text: Seq<char>| raw_cause(text)),
                ),
                opt_str(username),
            ),
    {
        let causes = collect_causes(chain);
        self.record(error_type.to_owned(), message, stack, true, context, &causes, username);
    }

    /// Records a panic, as an error that nobody handled.
    pub fn track_panic(
        &mut self,
        message: Option<&str>,
        location: &Option<PanicLocation>,
        thread_name: Option<&str>,
        username: Option<&str>,
    )
        ensures
            final(self)@ == with_error(
                old(self)@,
                raw_panic(opt_str(message), *location, opt_str(thread_name)),
                opt_str(username),
            ),
    {
        let place = match location {
            Some(l) => {
                let mut s = l.file.clone();
                s.append(":");
                s.append(decimal(l.line as u64).as_str());
                s.append(":");
                s.append(decimal(l.column as u64).as_str());
                s
            },
            None => "unknown location".to_owned(),
        };
        assert(place@ =~= location_text(*location));
        let mut stack: Vec<String> = Vec::new();
        stack.push(place);
        assert(texts(stack@) =~= seq![location_text(*location)]);
        let name = match thread_name {
            Some(name) => name,
            None => "unnamed",
        };
        let mut context = Attributes::empty();
        let _ = context.put("thread_name", JsonValue::string(name));
        let causes: Vec<CauseFrame> = Vec::new();
        assert(cause_views(causes@) =~= seq![]);
        self.record("panic".to_owned(), message, &stack, false, Some(context), &causes, username);
    }

    /// Records what the metrics service tells: a custom metric that failed
    /// is a handled error.
    pub fn track_metrics_event(&mut self, event: &MetricsEvent, username: Option<&str>)
        ensures
            match *event {
                MetricsEvent::CustomMetricFailed { metric_id, error } => final(self)@
                    == with_error(
                    old(self)@,
                    raw_error(
                        "CustomMetricFailure"@,
                        Some(metric_failure_text(metric_id@, error@)),
                        seq![],
                        true,
                        None,
                        seq![],
                    ),
                    opt_str(username),
                ),
            },
    {
        match event {
            MetricsEvent::CustomMetricFailed { metric_id, error } => {
                let mut message = "custom metric '".to_owned();
                message.append(metric_id.as_str());
                message.append("' failed: ");
                message.append(error.as_str());
                assert(message@ =~= metric_failure_text(metric_id@, error@));
                let stack: Vec<String> = Vec::new();
                assert(texts(stack@) =~= seq![]);
                self.track_error(
                    "CustomMetricFailure",
                    Some(message.as_str()),
                    &stack,
                    None,
                    username,
                );
            },
        }
    }

    /// Records an error: anonymizes its texts, cuts its messages to their
    /// limit, collapses its stacks, and tracks what is left. The type of a
    /// cause is the start of what stands there, once that is anonymized.
    pub fn record(
        &mut self,
        error_type: String,
        message: Option<&str>,
        stack: &Vec<String>,
        handled: bool,
        context: Option<Attributes>,
        raw_causes: &Vec<CauseFrame>,
        username: Option<&str>,
    )
        ensures
            final(self)@ == with_error(
                old(self)@,
                raw_error(
                    error_type@,
                    opt_str(message),
                    texts(stack@),
                    handled,
                    context_view(context),
                    cause_views(raw_causes@),
                ),
                opt_str(username),
            ),
    {
        let patterns = self.extra_patterns.as_slice();
        let error = TrackedError {
            error_type,
            message: report_message(message, patterns, username),
            stack: report_stack(stack, patterns, username),
            handled,
            context,
            causes: report_causes(raw_causes, patterns, username),
            count: 1,
        };
        assert(error@ == reported_error(
            raw_error(
                error_type@,
                opt_str(message),
                texts(stack@),
                handled,
                context_view(context),
                cause_views(raw_causes@),
            ),
            self@.patterns,
            opt_str(username),
        ));
        self.tracker.track(error);
    }

    /// Whether there are no pending errors.
    pub fn is_empty(&self) -> (r: bool)
        ensures
            r == (self@.pending.len() == 0),
    {
        self.tracker.is_empty()
    }

    /// Builds the body of a submission out of the pending errors, and
    /// starts over with none; nothing, if there are none. `snapshot` is the
    /// current data of the metrics service, where there is one.
    pub fn create_data(&mut self, snapshot: Option<&JsonMap>) -> (r: Option<JsonValue>)
        ensures
            final(self)@ == (ErrorTrackerView { pending: seq![], ..old(self)@ }),
            match r {
                Some(data) => old(self)@.pending.len() > 0 && data@ == errors_json(
                    old(self)@,
                    snapshot_view(snapshot),
                ),
                None => old(self)@.pending.len() == 0,
            },
    {
        let ghost service = self@;
        let pending = self.tracker.drain();
        if pending.len() == 0 {
            return None;
        }
        let mut data = JsonMap::new();
        data.insert("identifier", JsonValue::String(self.server_id.text()));
        data.insert("language", JsonValue::string("rust"));
        data.insert("project_name", JsonValue::string(self.project_name.as_str()));
        data.insert("sdk_name", JsonValue::string(self.sdk_info.name()));
        data.insert("sdk_version", JsonValue::string(self.sdk_info.version()));
        let mut context = match &self.attributes {
            Some(attributes) => attributes.to_json_map(),
            None => JsonMap::new(),
        };
        match snapshot {
            Some(metrics) => context.fill_missing(metrics),
            None => {},
        }
        assert(context@ == report_context(service.attributes, snapshot_view(snapshot)));
        if !context.is_empty() {
            data.insert("context", JsonValue::Object(context));
        }
        let errors = errors_of(&pending);
        data.insert("errors", errors);
        Some(JsonValue::Object(data))
    }

    /// The request that submits `data`, a body that
    /// [`ErrorTracker::create_data`] built. `tree` is the body as `serde_json` holds it;
    /// if it holds anything else, that is an error.
    pub fn request(&self, data: &JsonValue, tree: &serde_json::Value) -> (r: Result<
        Request,
        Error,
    >)
        ensures
            match r {
                Ok(request) => request.url@ == self@.url && header_texts(request.headers@)
                    == submit_headers(self@.transport) && compressed_body(data@, json_tree(*tree))
                    == Ok::<Seq<u8>, ErrorView>(request.body@),
                Err(e) => compressed_body(data@, json_tree(*tree)) == Err::<Seq<u8>, ErrorView>(
                    e@,
                ),
            },
    {
        self.transport.submit(&self.url, data, tree)
    }

    /// Claims the panic hook. Says whether it has to be installed now: not
    /// if it is installed already.
    pub fn install_panic_hook(&mut self) -> (install: bool)
        ensures
            install == !old(self)@.panic_hook_installed,
            final(self)@ == (ErrorTrackerView { panic_hook_installed: true, ..old(self)@ }),
    {
        let install = !self.panic_hook_installed;
        self.panic_hook_installed = true;
        install
    }

    /// Gives up the panic hook. Says whether the one before it has to be
    /// restored: not if the hook is not installed.
    pub fn detach(&mut self) -> (restore: bool)
        ensures
            restore == old(self)@.panic_hook_installed,
            final(self)@ == (ErrorTrackerView { panic_hook_installed: false, ..old(self)@ }),
    {
        let restore = self.panic_hook_installed;
        self.panic_hook_installed = false;
        restore
    }
}

/// Whether a submission was accepted. A submission with nothing to submit
/// counts as accepted; `outcome` is there if there was something.
pub fn accepted(outcome: &Option<Result<SubmissionOutcome, Error>>) -> (r: bool)
    ensures
        r == (match *outcome {
            None => true,
            Some(Ok(o)) => 200 <= o.status@ < 300,
            Some(Err(_)) => false,
        }),
{
    match outcome {
        None => true,
        Some(Ok(o)) => o.is_successful(),
        Some(Err(_)) => false,
    }
}

fn errors_of(errors: &Vec<TrackedError>) -> (r: JsonValue)
    ensures
        r@ == JsonView::Array(
            error_views(errors@).map_values(|error: TrackedView| error_json(error)),
        ),
{
    let ghost expected = error_views(errors@).map_values(|error: TrackedView| error_json(error));
    let mut items: Vec<JsonValue> = Vec::new();
    let mut i: usize = 0;
    assert(expected.take(0) =~= items_view(items@));
    while i < errors.len()
        invariant
            i <= errors@.len(),
            expected == error_views(errors@).map_values(|error: TrackedView| error_json(error)),
            items_view(items@) == expected.take(i as int),
        decreases errors@.len() - i,
    {
        let item = errors[i].to_json();
        proof {
            lemma_items_view_push(items@, item);
            assert(error_views(errors@)[i as int] == errors@[i as int]@);
            assert(expected.take(i + 1) =~= expected.take(i as int).push(item@));
        }
        items.push(item);
        i += 1;
    }
    assert(expected.take(i as int) =~= expected);
    JsonValue::Array(items)
}

/// What is reported stays within its limits: messages of at most
/// [`MAX_MESSAGE_LENGTH`] characters, and stacks of at most one entry more
/// than [`MAX_STACK_SIZE`], for the error itself and for each of its causes.
pub proof fn law_reports_are_bounded(
    error: TrackedView,
    rules: Seq<(Seq<char>, Seq<char>)>,
    username: Option<Seq<char>>,
)
    ensures
        reported_error(error, rules, username).message is Some ==> reported_error(
            error,
            rules,
            username,
        ).message->0.len() <= MAX_MESSAGE_LENGTH,
        reported_error(error, rules, username).stack.len() <= MAX_STACK_SIZE + 1,
        forall|i: int|
            0 <= i < error.causes.len() ==> (#[trigger] reported_error(
                error,
                rules,
                username,
            ).causes[i]).stack.len() <= MAX_STACK_SIZE + 1,
        forall|i: int|
            0 <= i < error.causes.len() && error.causes[i].message is Some ==> (
            #[trigger] reported_error(error, rules, username).causes[i]).message->0.len()
                <= MAX_MESSAGE_LENGTH,
{
    reveal_strlit("...");
    law_collapsed_is_bounded(
        error.stack.map_values(|frame: Seq<char>| anonymized(frame, rules, username)),
    );
    assert forall|i: int| 0 <= i < error.causes.len() implies (#[trigger] reported_error(
        error,
        rules,
        username,
    ).causes[i]).stack.len() <= MAX_STACK_SIZE + 1 by {
        law_collapsed_is_bounded(
            error.causes[i].stack.map_values(
                |frame: Seq<char>| anonymized(frame, rules, username),
            ),
        );
    }
}

/// Nothing of a cause is reported but its anonymized text: its type is the
/// start of it, and its message and its one frame are the text, cut to their
/// limits.
pub proof fn law_causes_are_anonymized(
    text: Seq<char>,
    rules: Seq<(Seq<char>, Seq<char>)>,
    username: Option<Seq<char>>,
)
    ensures
        ({
            let anonymous = anonymized(text, rules, username);
            let cause = reported_cause(raw_cause(text), rules, username);
            &&& anonymous.len() > 0 ==> cause.error_type.is_prefix_of(anonymous)
            &&& anonymous.len() == 0 ==> cause.error_type == "UnknownCause"@
            &&& cause.message == Some(truncated(anonymous, MAX_MESSAGE_LENGTH as nat))
            &&& cause.stack == seq![truncated(anonymous, MAX_FRAME_SIZE as nat)]
        }),
{
    let anonymous = anonymized(text, rules, username);
    let frames = raw_cause(text).stack.map_values(
        |frame: Seq<char>| anonymized(frame, rules, username),
    );
    assert(frames =~= seq![anonymous]);
    lemma_one_frame(anonymous);
}

/// Of an attribute and a metric with the same key, the attribute is
/// reported.
pub proof fn law_attributes_win_over_metrics(
    attributes: Map<Seq<char>, JsonView>,
    snapshot: Map<Seq<char>, JsonView>,
    key: Seq<char>,
)
    ensures
        attributes.contains_key(key) ==> report_context(Some(attributes), Some(snapshot))[key]
            == attributes[key],
        snapshot.contains_key(key) && !attributes.contains_key(key) ==> report_context(
            Some(attributes),
            Some(snapshot),
        )[key] == snapshot[key],
        report_context(Some(attributes), Some(snapshot)).contains_key(key) <==>
            attributes.contains_key(key) || snapshot.contains_key(key),
{
}

/// The same error reported twice is pending once.
pub proof fn law_repeated_error_is_pending_once(
    service: ErrorTrackerView,
    error: TrackedView,
    username: Option<Seq<char>>,
)
    ensures
        with_error(with_error(service, error, username), error, username).pending.len()
            == with_error(service, error, username).pending.len(),
{
    law_repeat_is_counted(service.pending, reported_error(error, service.patterns, username));
}

} // verus!
