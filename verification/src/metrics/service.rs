//! The metrics submission service: platform metrics, custom metrics gated by
//! the configuration, flush callbacks, and the schedule of submissions.

use std::sync::Arc;

use vstd::prelude::*;

use super::metric::{computed_view, Metric};
use super::platform::{append_internal_data, with_platform, PlatformInfo};
use crate::domain::server_id::{hyphenated, ServerId};
use crate::error::{error_text, refused, Error, ErrorView};
use crate::features::terminal::{append_terminal_data, with_terminal, TerminalInfo};
use crate::json::json_tree;
use crate::text::{opt_str, parse_u64, trim, trimmed, unsigned_of};
use crate::transport::{
    compressed_body, header_texts, join_server_url, joined_url, resolve_server_url, resolved_url,
    submit_headers, Request, SubmissionOutcome, Transport, TransportView, Url,
};
use crate::value::{JsonMap, JsonValue, JsonView};

verus! {

/// The path that metrics are submitted to.
pub const COLLECT_PATH: &'static str = "/v1/collect";

/// The environment variable that overrides the metrics server.
pub const METRICS_SERVER_ENV: &'static str = "FASTSTATS_METRICS_SERVER";

/// The metrics server.
pub const DEFAULT_METRICS_SERVER: &'static str = "https://metrics.faststats.dev";

/// The environment variable that overrides the delay before the first
/// submission, in seconds.
pub const INITIAL_DELAY_ENV: &'static str = "FASTSTATS_INITIAL_DELAY";

/// The delay before the first submission, in seconds.
pub const DEFAULT_INITIAL_DELAY: u64 = 30;

/// The time between two submissions, in seconds (30 minutes).
pub const SUBMISSION_PERIOD: u64 = 30 * 60;

/// What the metrics service tells its siblings, so that the error tracker
/// can react.
#[derive(Debug)]
pub enum MetricsEvent {
    /// The computation of a custom metric failed.
    CustomMetricFailed { metric_id: String, error: String },
}

impl Clone for MetricsEvent {
    fn clone(&self) -> (r: Self)
        ensures
            r == *self,
    {
        match self {
            MetricsEvent::CustomMetricFailed { metric_id, error } => {
                MetricsEvent::CustomMetricFailed {
                    metric_id: metric_id.clone(),
                    error: error.clone(),
                }
            },
        }
    }
}

/// Why a custom metric is missing from the data.
#[derive(Debug)]
pub enum Skipped {
    /// There was an entry with its id already.
    Duplicate(String),
    /// It had nothing to report.
    Null(String),
    /// Its computation failed.
    Failed(MetricsEvent),
}

/// What a [`Skipped`] says.
pub enum SkippedView {
    Duplicate(Seq<char>),
    Null(Seq<char>),
    Failed { metric_id: Seq<char>, error: Seq<char> },
}

impl View for Skipped {
    type V = SkippedView;

    open spec fn view(&self) -> SkippedView {
        match *self {
            Skipped::Duplicate(id) => SkippedView::Duplicate(id@),
            Skipped::Null(id) => SkippedView::Null(id@),
            Skipped::Failed(MetricsEvent::CustomMetricFailed { metric_id, error }) => {
                SkippedView::Failed { metric_id: metric_id@, error: error@ }
            },
        }
    }
}

/// The views of skipped metrics, one by one.
pub open spec fn skipped_views(skipped: Seq<Skipped>) -> Seq<SkippedView> {
    skipped.map_values(|s: Skipped| s@)
}

/// What a custom metric reports: a value, nothing, or an error.
pub type Reported = Result<Option<JsonView>, ErrorView>;

/// The data after one custom metric: a value is added, unless there is an
/// entry with that id.
pub open spec fn with_custom(
    data: Map<Seq<char>, JsonView>,
    id: Seq<char>,
    reported: Reported,
) -> Map<Seq<char>, JsonView> {
    match reported {
        Ok(Some(value)) if !data.contains_key(id) => data.insert(id, value),
        _ => data,
    }
}

/// Why one custom metric is missing from the data, if it is.
pub open spec fn skip_of(
    data: Map<Seq<char>, JsonView>,
    id: Seq<char>,
    reported: Reported,
) -> Seq<SkippedView> {
    if data.contains_key(id) {
        seq![SkippedView::Duplicate(id)]
    } else {
        match reported {
            Ok(Some(_)) => seq![],
            Ok(None) => seq![SkippedView::Null(id)],
            Err(e) => seq![SkippedView::Failed { metric_id: id, error: error_text(e) }],
        }
    }
}

/// The data after custom metrics with these ids and reports, one after
/// another.
pub open spec fn with_customs(
    data: Map<Seq<char>, JsonView>,
    ids: Seq<Seq<char>>,
    reported: Seq<Reported>,
) -> Map<Seq<char>, JsonView>
    decreases ids.len(),
{
    if ids.len() == 0 {
        data
    } else {
        with_custom(
            with_customs(data, ids.drop_last(), reported.drop_last()),
            ids.last(),
            reported.last(),
        )
    }
}

/// Which custom metrics are missing from the data, and why.
pub open spec fn skips_of(
    data: Map<Seq<char>, JsonView>,
    ids: Seq<Seq<char>>,
    reported: Seq<Reported>,
) -> Seq<SkippedView>
    decreases ids.len(),
{
    if ids.len() == 0 {
        seq![]
    } else {
        skips_of(data, ids.drop_last(), reported.drop_last()) + skip_of(
            with_customs(data, ids.drop_last(), reported.drop_last()),
            ids.last(),
            reported.last(),
        )
    }
}

/// Adds what one custom metric reports, unless there is an entry with that
/// id, or nothing to add. Says why, where nothing is added.
pub fn merge_custom(
    data: &mut JsonMap,
    id: &str,
    reported: Result<Option<JsonValue>, Error>,
) -> (skipped: Option<Skipped>)
    ensures
        final(data)@ == with_custom(old(data)@, id@, computed_view(reported)),
        match skipped {
            Some(s) => skip_of(old(data)@, id@, computed_view(reported)) == seq![s@],
            None => skip_of(old(data)@, id@, computed_view(reported)) == Seq::<
                SkippedView,
            >::empty(),
        },
{
    if data.contains_key(id) {
        return Some(Skipped::Duplicate(id.to_owned()));
    }
    match reported {
        Ok(Some(value)) => {
            data.insert(id, value);
            None
        },
        Ok(None) => Some(Skipped::Null(id.to_owned())),
        Err(e) => Some(
            Skipped::Failed(
                MetricsEvent::CustomMetricFailed { metric_id: id.to_owned(), error: e.message() },
            ),
        ),
    }
}

/// The ids of metrics, one by one.
pub open spec fn metric_ids<F: Fn() -> Result<Option<JsonValue>, Error>>(
    metrics: Seq<Metric<F>>,
) -> Seq<Seq<char>> {
    metrics.map_values(|metric: Metric<F>| metric.id_view())
}

/// Whether a round of computations can give these reports. A metric whose
/// id is taken is not computed; its report does not matter.
pub open spec fn can_report<F: Fn() -> Result<Option<JsonValue>, Error>>(
    metrics: Seq<Metric<F>>,
    data: Map<Seq<char>, JsonView>,
    reported: Seq<Reported>,
) -> bool {
    &&& reported.len() == metrics.len()
    &&& forall|i: int|
        0 <= i < metrics.len() ==> with_customs(
            data,
            metric_ids(metrics).take(i),
            reported.take(i),
        ).contains_key((#[trigger] metrics[i]).id_view()) || metrics[i].can_give(reported[i])
}

/// Whether appending the custom metrics to `data` can give `result`, with
/// these metrics skipped.
pub open spec fn can_append<F: Fn() -> Result<Option<JsonValue>, Error>>(
    metrics: Seq<Metric<F>>,
    data: Map<Seq<char>, JsonView>,
    result: Map<Seq<char>, JsonView>,
    skipped: Seq<SkippedView>,
) -> bool {
    exists|reported: Seq<Reported>| #[trigger]
        can_report(metrics, data, reported) && result == with_customs(
            data,
            metric_ids(metrics),
            reported,
        ) && skipped == skips_of(data, metric_ids(metrics), reported)
}

/// Builds a [`Metrics`] instance.
pub struct Factory<F: Fn() -> Result<Option<JsonValue>, Error>, G: Fn()> {
    project_name: String,
    project_version: String,
    metrics: Vec<Metric<F>>,
    flush: Vec<G>,
}

/// What a [`Factory`] holds.
#[verifier::reject_recursive_types(F)]
#[verifier::reject_recursive_types(G)]
pub struct FactoryView<F: Fn() -> Result<Option<JsonValue>, Error>, G: Fn()> {
    pub project_name: Seq<char>,
    pub project_version: Seq<char>,
    pub metrics: Seq<Metric<F>>,
    pub flush: Seq<G>,
}

/// Whether no two of the metrics have the same id.
pub open spec fn distinct_ids<F: Fn() -> Result<Option<JsonValue>, Error>>(
    metrics: Seq<Metric<F>>,
) -> bool {
    forall|i: int, j: int|
        0 <= i < j < metrics.len() ==> (#[trigger] metrics[i]).id_view() != (
        #[trigger] metrics[j]).id_view()
}

/// Whether one of the metrics has this id.
pub open spec fn has_metric<F: Fn() -> Result<Option<JsonValue>, Error>>(
    metrics: Seq<Metric<F>>,
    id: Seq<char>,
) -> bool {
    exists|i: int| 0 <= i < metrics.len() && (#[trigger] metrics[i]).id_view() == id
}

impl<F: Fn() -> Result<Option<JsonValue>, Error>, G: Fn()> View for Factory<F, G> {
    type V = FactoryView<F, G>;

    closed spec fn view(&self) -> FactoryView<F, G> {
        FactoryView {
            project_name: self.project_name@,
            project_version: self.project_version@,
            metrics: self.metrics@,
            flush: self.flush@,
        }
    }
}

impl<F: Fn() -> Result<Option<JsonValue>, Error>, G: Fn()> Factory<F, G> {
    #[verifier::type_invariant]
    spec fn well_formed(self) -> bool {
        &&& distinct_ids(self.metrics@)
        &&& forall|i: int| 0 <= i < self.flush@.len() ==> (#[trigger] self.flush@[i]).requires(())
    }

    /// Creates a new, empty metrics factory for the given project.
    pub fn new(project_name: &str, project_version: &str) -> (r: Self)
        ensures
            r@ == (FactoryView::<F, G> {
                project_name: project_name@,
                project_version: project_version@,
                metrics: seq![],
                flush: seq![],
            }),
    {
        let r = Factory {
            project_name: project_name.to_owned(),
            project_version: project_version.to_owned(),
            metrics: Vec::new(),
            flush: Vec::new(),
        };
        assert(r@.metrics =~= seq![]);
        assert(r@.flush =~= seq![]);
        r
    }

    fn has(&self, id: &str) -> (r: bool)
        ensures
            r == has_metric(self.metrics@, id@),
    {
        let mut i: usize = 0;
        while i < self.metrics.len()
            invariant
                i <= self.metrics@.len(),
                forall|j: int| 0 <= j < i ==> (#[trigger] self.metrics@[j]).id_view() != id@,
            decreases self.metrics@.len() - i,
        {
            if crate::text::equal(self.metrics[i].id().as_str(), id) {
                return true;
            }
            i += 1;
        }
        false
    }

    /// Registers a custom metric. Refuses one with an id that was added
    /// already.
    pub fn add_metric(self, metric: Metric<F>) -> (r: Result<Self, Error>)
        ensures
            match r {
                Ok(factory) => !has_metric(self@.metrics, metric.id_view()) && factory@ == (
                FactoryView { metrics: self@.metrics.push(metric), ..self@ }),
                Err(e) => has_metric(self@.metrics, metric.id_view()) && e@ == refused(
                    "metrics id"@,
                    "metric already added: "@ + metric.id_view(),
                ),
            },
    {
        if self.has(metric.id().as_str()) {
            let mut reason = "metric already added: ".to_owned();
            reason.append(metric.id().as_str());
            return Err(Error::Validation { kind: "metrics id", reason });
        }
        proof {
            use_type_invariant(&self);
        }
        let Factory { project_name, project_version, metrics, flush } = self;
        let mut metrics = metrics;
        metrics.push(metric);
        Ok(Factory { project_name, project_version, metrics, flush })
    }

    /// Registers a callback that is due after every accepted submission.
    /// Callbacks run in the order in which they were registered.
    pub fn on_flush(self, callback: G) -> (r: Self)
        requires
            callback.requires(()),
        ensures
            r@ == (FactoryView { flush: self@.flush.push(callback), ..self@ }),
    {
        proof {
            use_type_invariant(&self);
        }
        let Factory { project_name, project_version, metrics, flush } = self;
        let mut flush = flush;
        flush.push(callback);
        Factory { project_name, project_version, metrics, flush }
    }

    /// Builds the service. Custom metrics take part only with
    /// `additional_metrics`; internal ones always do. `server` is the value
    /// of the environment variable [`METRICS_SERVER_ENV`].
    pub fn build(
        self,
        transport: Arc<Transport>,
        server_id: ServerId,
        additional_metrics: bool,
        server: Option<&str>,
    ) -> (r: Result<Metrics<F, G>, Error>)
        ensures
            match r {
                Ok(metrics) => collect_url(opt_str(server)) == Ok::<Seq<char>, ErrorView>(
                    metrics@.url,
                ) && metrics@ == (MetricsView {
                    transport: transport@,
                    url: metrics@.url,
                    project_name: self@.project_name,
                    project_version: self@.project_version,
                    server_id,
                    metrics: if additional_metrics {
                        self@.metrics
                    } else {
                        seq![]
                    },
                    flush: self@.flush,
                }),
                Err(e) => collect_url(opt_str(server)) == Err::<Seq<char>, ErrorView>(e@),
            },
    {
        proof {
            use_type_invariant(&self);
        }
        let base = match resolve_server_url(METRICS_SERVER_ENV, server, DEFAULT_METRICS_SERVER) {
            Ok(base) => base,
            Err(e) => {
                return Err(e);
            },
        };
        let url = match join_server_url(METRICS_SERVER_ENV, &base, COLLECT_PATH) {
            Ok(url) => url,
            Err(e) => {
                return Err(e);
            },
        };
        let metrics: Vec<Metric<F>> = if additional_metrics {
            self.metrics
        } else {
            Vec::new()
        };
        assert(!additional_metrics ==> metrics@ =~= seq![]);
        Ok(
            Metrics {
                transport,
                url,
                project_name: self.project_name,
                project_version: self.project_version,
                server_id,
                metrics,
                flush: self.flush,
            },
        )
    }
}

/// The address that metrics are submitted to.
pub open spec fn collect_url(server: Option<Seq<char>>) -> Result<Seq<char>, ErrorView> {
    match resolved_url(METRICS_SERVER_ENV@, server, DEFAULT_METRICS_SERVER@) {
        Ok(base) => joined_url(METRICS_SERVER_ENV@, base, COLLECT_PATH@),
        Err(e) => Err(e),
    }
}

/// The metrics submission service.
pub struct Metrics<F: Fn() -> Result<Option<JsonValue>, Error>, G: Fn()> {
    transport: Arc<Transport>,
    url: Url,
    project_name: String,
    project_version: String,
    server_id: ServerId,
    metrics: Vec<Metric<F>>,
    flush: Vec<G>,
}

/// What a [`Metrics`] service holds.
#[verifier::reject_recursive_types(F)]
#[verifier::reject_recursive_types(G)]
pub struct MetricsView<F: Fn() -> Result<Option<JsonValue>, Error>, G: Fn()> {
    pub transport: TransportView,
    pub url: Seq<char>,
    pub project_name: Seq<char>,
    pub project_version: Seq<char>,
    pub server_id: ServerId,
    pub metrics: Seq<Metric<F>>,
    pub flush: Seq<G>,
}

impl<F: Fn() -> Result<Option<JsonValue>, Error>, G: Fn()> View for Metrics<F, G> {
    type V = MetricsView<F, G>;

    closed spec fn view(&self) -> MetricsView<F, G> {
        MetricsView {
            transport: self.transport@,
            url: self.url@,
            project_name: self.project_name@,
            project_version: self.project_version@,
            server_id: self.server_id,
            metrics: self.metrics@,
            flush: self.flush@,
        }
    }
}

/// The data before the custom metrics.
pub open spec fn internal_data(
    project_version: Seq<char>,
    platform: PlatformInfo,
    terminal: Option<TerminalInfo>,
) -> Map<Seq<char>, JsonView> {
    let base = with_platform(Map::empty(), platform, project_version);
    match terminal {
        Some(terminal) => with_terminal(base, terminal),
        None => base,
    }
}

/// The body of a submission.
pub open spec fn metrics_json(
    project_name: Seq<char>,
    server_id: ServerId,
    data: Map<Seq<char>, JsonView>,
) -> JsonView {
    JsonView::Object(
        map![
            "project_name"@ => JsonView::String(project_name),
            "identifier"@ => JsonView::String(hyphenated(server_id.0)),
            "data"@ => JsonView::Object(data),
        ],
    )
}

impl<F: Fn() -> Result<Option<JsonValue>, Error>, G: Fn()> Metrics<F, G> {
    #[verifier::type_invariant]
    spec fn well_formed(self) -> bool {
        &&& distinct_ids(self.metrics@)
        &&& forall|i: int| 0 <= i < self.flush@.len() ==> (#[trigger] self.flush@[i]).requires(())
    }

    /// A snapshot of the metrics data, as the next submission would send it,
    /// and the custom metrics that are missing from it.
    pub fn snapshot(&self, platform: &PlatformInfo, terminal: &Option<TerminalInfo>) -> (r: (
        JsonMap,
        Vec<Skipped>,
    ))
        ensures
            can_append(
                self@.metrics,
                internal_data(self@.project_version, *platform, *terminal),
                r.0@,
                skipped_views(r.1@),
            ),
    {
        let mut data = JsonMap::new();
        let skipped = self.append_data(&mut data, platform, terminal);
        (data, skipped)
    }

    /// Appends internal, terminal and custom metrics to empty data.
    fn append_data(
        &self,
        data: &mut JsonMap,
        platform: &PlatformInfo,
        terminal: &Option<TerminalInfo>,
    ) -> (skipped: Vec<Skipped>)
        requires
            old(data)@ == Map::<Seq<char>, JsonView>::empty(),
        ensures
            can_append(
                self@.metrics,
                internal_data(self@.project_version, *platform, *terminal),
                final(data)@,
                skipped_views(skipped@),
            ),
    {
        append_internal_data(data, platform, self.project_version.as_str());
        match terminal {
            Some(terminal) => append_terminal_data(data, terminal),
            None => {},
        }
        self.append_custom_data(data)
    }

    /// Appends the values of the custom metrics. One whose id is taken, that
    /// fails or that has nothing to report is skipped; the others are not
    /// affected.
    pub fn append_custom_data(&self, data: &mut JsonMap) -> (skipped: Vec<Skipped>)
        ensures
            can_append(self@.metrics, old(data)@, final(data)@, skipped_views(skipped@)),
    {
        let ghost ids = metric_ids(self.metrics@);
        let ghost start = data@;
        let ghost mut reported: Seq<Reported> = Seq::empty();
        let mut skipped: Vec<Skipped> = Vec::new();
        let mut i: usize = 0;
        assert(skipped_views(skipped@) =~= seq![]);
        while i < self.metrics.len()
            invariant
                i <= self.metrics@.len(),
                ids == metric_ids(self.metrics@),
                reported.len() == i,
                data@ == with_customs(start, ids.take(i as int), reported),
                skipped_views(skipped@) == skips_of(start, ids.take(i as int), reported),
                forall|j: int|
                    0 <= j < i ==> with_customs(
                        start,
                        ids.take(j),
                        reported.take(j),
                    ).contains_key((#[trigger] self.metrics@[j]).id_view())
                        || self.metrics@[j].can_give(reported[j]),
            decreases self.metrics@.len() - i,
        {
            let metric = &self.metrics[i];
            let id = metric.id().as_str();
            let ghost before = data@;
            let ghost skipped_before = skipped_views(skipped@);
            let result = if data.contains_key(id) {
                Ok(None)
            } else {
                metric.compute()
            };
            let ghost report = computed_view(result);
            let ghost next = reported.push(report);
            let skip = merge_custom(data, id, result);
            proof {
                assert(ids.take(i + 1).drop_last() =~= ids.take(i as int));
                assert(ids.take(i + 1).last() == id@);
                assert(next.drop_last() =~= reported);
                assert(next.take(i as int) =~= reported);
                assert forall|j: int| 0 <= j < i + 1 implies with_customs(
                    start,
                    ids.take(j),
                    next.take(j),
                ).contains_key((#[trigger] self.metrics@[j]).id_view())
                    || self.metrics@[j].can_give(next[j]) by {
                    if j < i {
                        assert(next.take(j) =~= reported.take(j));
                    }
                }
            }
            match skip {
                Some(s) => {
                    skipped.push(s);
                    assert(skipped_views(skipped@) =~= skipped_before + seq![s@]);
                },
                None => {
                    assert(skipped_before + Seq::<SkippedView>::empty() =~= skipped_before);
                },
            }
            proof {
                reported = next;
            }
            i += 1;
        }
        proof {
            assert(ids.take(i as int) =~= ids);
            assert(can_report(self.metrics@, start, reported));
        }
        skipped
    }

    /// Builds the body of a submission, and says which custom metrics are
    /// missing from it.
    pub fn create_data(&self, platform: &PlatformInfo, terminal: &Option<TerminalInfo>) -> (r: (
        JsonValue,
        Vec<Skipped>,
    ))
        ensures
            exists|data: Map<Seq<char>, JsonView>| #[trigger]
                can_append(
                    self@.metrics,
                    internal_data(self@.project_version, *platform, *terminal),
                    data,
                    skipped_views(r.1@),
                ) && r.0@ == metrics_json(self@.project_name, self@.server_id, data),
    {
        let mut metrics = JsonMap::new();
        let skipped = self.append_data(&mut metrics, platform, terminal);
        let ghost appended = metrics@;
        let r = (self.wrap_data(metrics), skipped);
        assert(can_append(
            self@.metrics,
            internal_data(self@.project_version, *platform, *terminal),
            appended,
            skipped_views(r.1@),
        ));
        r
    }

    /// The body of a submission of the given metrics data.
    pub fn wrap_data(&self, metrics: JsonMap) -> (r: JsonValue)
        ensures
            r@ == metrics_json(self@.project_name, self@.server_id, metrics@),
    {
        let mut data = JsonMap::new();
        data.insert("project_name", JsonValue::string(self.project_name.as_str()));
        data.insert("identifier", JsonValue::String(self.server_id.text()));
        data.insert("data", JsonValue::Object(metrics));
        JsonValue::Object(data)
    }

    /// The request that submits `data`, a body that
    /// [`Metrics::create_data`] built. `tree` is the body as `serde_json` holds it;
    /// if it holds anything else, that is an error.
    pub fn request(&self, data: &JsonValue, tree: &serde_json::Value) -> (r: Result<
        Request,
        Error,
    >)
        ensures
            match r {
                Ok(request) => request.url@ == self@.url && header_texts(request.headers@)
                    == submit_headers(self@.transport) && compressed_body(data@, json_tree(*tree))
                    == Ok::<Seq<u8>, ErrorView>(request.body@),
                Err(e) => compressed_body(data@, json_tree(*tree)) == Err::<Seq<u8>, ErrorView>(
                    e@,
                ),
            },
    {
        self.transport.submit(&self.url, data, tree)
    }

    /// Concludes a submission, whose outcome is given, or an error if the
    /// server was not reached. If it was accepted, the flush callbacks are
    /// due: all of them, each once, in the order in which they were
    /// registered. Otherwise nothing is, and the submission failed.
    pub fn due_callbacks(&self, outcome: &Result<SubmissionOutcome, Error>) -> (r: Option<&Vec<G>>)
        ensures
            match r {
                Some(due) => is_accepted(*outcome) && due@ == self@.flush && forall|i: int|
                    0 <= i < due@.len() ==> (#[trigger] due@[i]).requires(()),
                None => !is_accepted(*outcome),
            },
    {
        proof {
            use_type_invariant(self);
        }
        match outcome {
            Ok(o) => if o.is_successful() {
                Some(&self.flush)
            } else {
                None
            },
            Err(_) => None,
        }
    }
}

/// Whether a submission was accepted: the server was reached, and answered
/// with a status of success.
pub open spec fn is_accepted(outcome: Result<SubmissionOutcome, Error>) -> bool {
    match outcome {
        Ok(o) => 200 <= o.status@ < 300,
        Err(_) => false,
    }
}

/// The delay before the first submission, in seconds.
pub open spec fn delay_of(value: Option<Seq<char>>) -> u64 {
    match value {
        Some(s) => match unsigned_of(trimmed(s)) {
            Some(seconds) => seconds,
            None => DEFAULT_INITIAL_DELAY,
        },
        None => DEFAULT_INITIAL_DELAY,
    }
}

/// The delay before the first submission, in seconds, out of the value of
/// [`INITIAL_DELAY_ENV`].
pub fn initial_delay_from_env(value: Option<&str>) -> (seconds: u64)
    ensures
        seconds == delay_of(opt_str(value)),
{
    match value {
        Some(s) => match parse_u64(trim(s).as_str()) {
            Some(seconds) => seconds,
            None => DEFAULT_INITIAL_DELAY,
        },
        None => DEFAULT_INITIAL_DELAY,
    }
}

/// The built-in metrics are always there, whatever custom metrics report.
pub proof fn law_internal_metrics_are_present(
    project_version: Seq<char>,
    platform: PlatformInfo,
    terminal: Option<TerminalInfo>,
    ids: Seq<Seq<char>>,
    reported: Seq<Reported>,
)
    ensures
        ({
            let data = with_customs(
                internal_data(project_version, platform, terminal),
                ids,
                reported,
            );
            &&& data.contains_key("os_name"@)
            &&& data.contains_key("os_arch"@)
            &&& data.contains_key("os_version"@)
            &&& data.contains_key("pointer_width"@)
            &&& data.contains_key("core_count"@)
            &&& data.contains_key("debug_assertions"@)
            &&& data.contains_key("program_version"@)
        }),
{
    let data = internal_data(project_version, platform, terminal);
    law_customs_keep_entries(data, ids, reported, "os_name"@);
    law_customs_keep_entries(data, ids, reported, "os_arch"@);
    law_customs_keep_entries(data, ids, reported, "os_version"@);
    law_customs_keep_entries(data, ids, reported, "pointer_width"@);
    law_customs_keep_entries(data, ids, reported, "core_count"@);
    law_customs_keep_entries(data, ids, reported, "debug_assertions"@);
    law_customs_keep_entries(data, ids, reported, "program_version"@);
}

/// Custom metrics never change an entry that is there already.
pub proof fn law_customs_keep_entries(
    data: Map<Seq<char>, JsonView>,
    ids: Seq<Seq<char>>,
    reported: Seq<Reported>,
    key: Seq<char>,
)
    requires
        data.contains_key(key),
    ensures
        with_customs(data, ids, reported).contains_key(key),
        with_customs(data, ids, reported)[key] == data[key],
    decreases ids.len(),
{
    if ids.len() > 0 {
        law_customs_keep_entries(data, ids.drop_last(), reported.drop_last(), key);
    }
}

/// A custom metric that reports a value is in the data, whatever the other
/// ones report, if its id is free and no other metric's.
pub proof fn law_custom_value_is_reported(
    data: Map<Seq<char>, JsonView>,
    ids: Seq<Seq<char>>,
    reported: Seq<Reported>,
    i: int,
    value: JsonView,
)
    requires
        reported.len() == ids.len(),
        ids.no_duplicates(),
        0 <= i < ids.len(),
        !data.contains_key(ids[i]),
        reported[i] == Ok::<Option<JsonView>, ErrorView>(Some(value)),
    ensures
        with_customs(data, ids, reported).contains_key(ids[i]),
        with_customs(data, ids, reported)[ids[i]] == value,
    decreases ids.len(),
{
    let front = ids.drop_last();
    let reports = reported.drop_last();
    if i == front.len() {
        lemma_customs_add_only_ids(data, front, reports, ids[i]);
    } else {
        assert(front[i] == ids[i] && reports[i] == reported[i]);
        assert(front.no_duplicates());
        law_custom_value_is_reported(data, front, reports, i, value);
    }
}

/// Custom metrics add entries with their own ids only.
proof fn lemma_customs_add_only_ids(
    data: Map<Seq<char>, JsonView>,
    ids: Seq<Seq<char>>,
    reported: Seq<Reported>,
    key: Seq<char>,
)
    requires
        !data.contains_key(key),
        !ids.contains(key),
    ensures
        !with_customs(data, ids, reported).contains_key(key),
    decreases ids.len(),
{
    if ids.len() > 0 {
        assert(ids[ids.len() - 1] != key);
        assert forall|j: int| 0 <= j < ids.len() - 1 implies ids.drop_last()[j] != key by {
            assert(ids[j] != key);
        }
        lemma_customs_add_only_ids(data, ids.drop_last(), reported.drop_last(), key);
    }
}

} // verus!
