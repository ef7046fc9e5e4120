//! Laws of metrics: what custom metrics report, what is built in, and when
//! callbacks are due.

use std::sync::Arc;

use vstd::prelude::*;

use crate::domain::server_id::{hyphenated, ServerId};
use crate::error::{error_text, Error, ErrorView};
use crate::features::terminal::{append_terminal_data, detected_terminal_emulator, TerminalInfo};
use crate::metrics::metric::{check_computed, computed_view, Metric};
use crate::metrics::platform::{append_internal_data, cpu_count, PlatformInfo};
use crate::metrics::service::{
    can_append, initial_delay_from_env, internal_data, merge_custom, skipped_views, skips_of,
    with_customs, Factory, Metrics, MetricsEvent, Reported, Skipped, SkippedView,
};
use crate::text::{is_blank, trimmed, unsigned_of};
use crate::transport::{SubmissionOutcome, Transport};
use crate::validated::id::is_id;
use crate::value::{all_finite, JsonMap, JsonValue, JsonView, Number};

verus! {

/// A value that is finite and not null is reported as it is, of whatever
/// kind; there is nothing to report exactly without a value or with null;
/// and a value that is not finite is an error, as is a failed computation.
pub proof fn law_values_are_reported(
    computed: Result<Option<JsonValue>, Error>,
    r: Result<Option<JsonValue>, Error>,
)
    requires
        call_ensures(check_computed, (computed,), r),
    ensures
        match computed {
            Err(e) => r is Err && r->Err_0@ == e@,
            Ok(None) => r is Ok && r->Ok_0 is None,
            Ok(Some(value)) => {
                &&& r is Err <==> !all_finite(value@)
                &&& r is Err ==> r->Err_0@ == (ErrorView::Validation {
                    kind: "metric value"@,
                    reason: "float is NaN or infinite"@,
                })
                &&& r is Ok && r->Ok_0 is None <==> value@ == JsonView::Null
                &&& r is Ok && r->Ok_0 is Some ==> r->Ok_0->0@ == value@
            },
        },
{
    match computed {
        Ok(Some(value)) => {
            assert(computed_view(r) == computed_view(r));
            if value@ == JsonView::Null {
                assert(all_finite(value@));
            }
        },
        _ => {},
    }
}

/// A boolean, a string, an integer and any other finite value that is not
/// null is never left out.
pub proof fn law_no_finite_value_is_left_out(
    value: JsonValue,
    r: Result<Option<JsonValue>, Error>,
)
    requires
        call_ensures(check_computed, (Ok(Some(value)),), r),
    ensures
        value@ is Bool || value@ is String || (value@ is Number && !(value@->Number_0 is Float))
            ==> r is Ok && r->Ok_0 is Some && r->Ok_0->0@ == value@,
        (value@ is Array || value@ is Object || value@ is Number) && all_finite(value@) ==> r is Ok
            && r->Ok_0 is Some && r->Ok_0->0@ == value@,
{
    law_values_are_reported(Ok(Some(value)), r);
}

/// A metric reports what its function gives, checked as above; a metric with
/// a proper id is always made.
pub proof fn law_metric<F: Fn() -> Result<Option<JsonValue>, Error>>(
    id: &str,
    compute: F,
    made: Result<Metric<F>, Error>,
    value: JsonValue,
    r: Result<Option<JsonValue>, Error>,
)
    requires
        call_ensures(Metric::<F>::try_new, (id, compute), made),
        made is Ok,
        call_ensures(Metric::<F>::compute, (&made->Ok_0,), r),
        forall|given: Result<Option<JsonValue>, Error>| #[trigger]
            compute.ensures((), given) ==> given is Ok && given->Ok_0 is Some && given->Ok_0->0@
                == value@,
    ensures
        is_id(id@),
        all_finite(value@) && value@ != JsonView::Null ==> r is Ok && r->Ok_0 is Some
            && r->Ok_0->0@ == value@,
        value@ == JsonView::Null ==> r is Ok && r->Ok_0 is None,
        !all_finite(value@) ==> r is Err,
{
    let metric = made->Ok_0;
    let given = choose|given: Result<Option<JsonValue>, Error>| #[trigger]
        metric.function().ensures((), given) && computed_view(r)
            == crate::metrics::metric::checked(computed_view(given));
    assert(compute.ensures((), given));
}

/// A metric is refused exactly if its id is no id.
pub proof fn law_metric_id<F: Fn() -> Result<Option<JsonValue>, Error>>(
    id: &str,
    compute: F,
    made: Result<Metric<F>, Error>,
)
    requires
        call_ensures(Metric::<F>::try_new, (id, compute), made),
    ensures
        made is Ok <==> is_id(id@),
        made is Ok ==> made->Ok_0.id_view() == id@ && made->Ok_0.function() == compute,
{
}

/// A custom metric adds its value under its id, and nothing else; an entry
/// that is there stays, and nothing is added for nothing or an error. What
/// was not added is told, with the reason.
pub proof fn law_merge_custom(
    data: &mut JsonMap,
    id: &str,
    reported: Result<Option<JsonValue>, Error>,
    r: Option<Skipped>,
)
    requires
        call_ensures(merge_custom, (data, id, reported), r),
    ensures
        final(data)@.remove(id@) == old(data)@.remove(id@),
        old(data)@.contains_key(id@) ==> final(data)@ == old(data)@ && r is Some && r->0
            is Duplicate && r->0->Duplicate_0@ == id@,
        !old(data)@.contains_key(id@) ==> match reported {
            Ok(Some(value)) => final(data)@.contains_key(id@) && final(data)@[id@] == value@
                && r is None,
            Ok(None) => final(data)@ == old(data)@ && r is Some && r->0 is Null && r->0->Null_0@
                == id@,
            Err(e) => final(data)@ == old(data)@ && r is Some && (match r->0 {
                Skipped::Failed(MetricsEvent::CustomMetricFailed { metric_id, error }) => metric_id@
                    == id@ && error@ == error_text(e@),
                _ => false,
            }),
        },
{
    assert(final(data)@.remove(id@) =~= data@.remove(id@));
    let skip = crate::metrics::service::skip_of(data@, id@, computed_view(reported));
    match r {
        Some(s) => {
            assert(skip.len() == 1);
            assert(skip[0] == s@);
            match reported {
                Ok(None) => assert(data@.contains_key(id@) || s is Null),
                Err(e) => assert(data@.contains_key(id@) || s is Failed),
                _ => {},
            }
        },
        None => {
            assert(skip.len() == 0);
        },
    }
}

/// Custom metrics with distinct ids, none of them taken, are in the data
/// exactly if they report a value, with that value; all of them, however
/// many there are, and nothing else is.
pub proof fn law_customs(
    data: Map<Seq<char>, JsonView>,
    ids: Seq<Seq<char>>,
    reported: Seq<Reported>,
    key: Seq<char>,
)
    requires
        reported.len() == ids.len(),
        ids.no_duplicates(),
    ensures
        !ids.contains(key) || data.contains_key(key) ==> with_customs(
            data,
            ids,
            reported,
        ).contains_key(key) == data.contains_key(key),
        data.contains_key(key) ==> with_customs(data, ids, reported)[key] == data[key],
        forall|i: int|
            0 <= i < ids.len() && #[trigger] ids[i] == key && !data.contains_key(key) ==> (
            with_customs(data, ids, reported).contains_key(key) <==> reported[i] is Ok
                && reported[i]->Ok_0 is Some),
        forall|i: int|
            0 <= i < ids.len() && #[trigger] ids[i] == key && !data.contains_key(key)
                && reported[i] is Ok && reported[i]->Ok_0 is Some ==> with_customs(
                data,
                ids,
                reported,
            )[key] == reported[i]->Ok_0->0,
    decreases ids.len(),
{
    if ids.len() > 0 {
        let front = ids.drop_last();
        let reports = reported.drop_last();
        assert(front.no_duplicates());
        law_customs(data, front, reports, key);
        let last = ids.last();
        assert(ids[front.len() as int] == last);
        if key == last {
            assert(!front.contains(key)) by {
                if front.contains(key) {
                    let i = choose|i: int| 0 <= i < front.len() && front[i] == key;
                    assert(ids[i] == ids[front.len() as int]);
                }
            }
            assert forall|i: int| 0 <= i < ids.len() && #[trigger] ids[i] == key implies i
                == front.len() by {
                if i < front.len() {
                    assert(ids[i] != ids[front.len() as int]);
                }
            }
        } else {
            if front.contains(key) {
                let i = choose|i: int| 0 <= i < front.len() && front[i] == key;
                assert(ids[i] == key);
            }
            if ids.contains(key) {
                let i = choose|i: int| 0 <= i < ids.len() && ids[i] == key;
                assert(front[i] == key);
            }
            assert forall|i: int| 0 <= i < ids.len() && #[trigger] ids[i] == key implies i
                < front.len() && front[i] == key && reports[i] == reported[i] by {}
        }
    }
}

/// Whether metric `i` is skipped, and how: its id is taken, it gave nothing,
/// or it failed.
pub open spec fn is_skipped(
    data: Map<Seq<char>, JsonView>,
    id: Seq<char>,
    reported: Reported,
    skip: SkippedView,
) -> bool {
    if data.contains_key(id) {
        skip == SkippedView::Duplicate(id)
    } else {
        match reported {
            Ok(Some(_)) => false,
            Ok(None) => skip == SkippedView::Null(id),
            Err(e) => skip == (SkippedView::Failed { metric_id: id, error: error_text(e) }),
        }
    }
}

/// Exactly the metrics that report no value are skipped, each with the
/// reason.
pub proof fn law_skips(
    data: Map<Seq<char>, JsonView>,
    ids: Seq<Seq<char>>,
    reported: Seq<Reported>,
    skip: SkippedView,
)
    requires
        reported.len() == ids.len(),
        ids.no_duplicates(),
    ensures
        skips_of(data, ids, reported).contains(skip) <==> exists|i: int|
            0 <= i < ids.len() && #[trigger] is_skipped(data, ids[i], reported[i], skip),
        skips_of(data, ids, reported).len() <= ids.len(),
    decreases ids.len(),
{
    if ids.len() > 0 {
        let front = ids.drop_last();
        let reports = reported.drop_last();
        let n = front.len() as int;
        let last = ids.last();
        let before = with_customs(data, front, reports);
        let rest = skips_of(data, front, reports);
        let own = crate::metrics::service::skip_of(before, last, reported.last());
        assert(front.no_duplicates());
        law_skips(data, front, reports, skip);
        assert(!front.contains(last)) by {
            if front.contains(last) {
                let i = choose|i: int| 0 <= i < front.len() && front[i] == last;
                assert(ids[i] == ids[n]);
            }
        }
        law_customs(data, front, reports, last);
        assert(own.contains(skip) <==> is_skipped(data, last, reported.last(), skip)) by {
            if is_skipped(data, last, reported.last(), skip) {
                assert(own[0] == skip);
            }
        }
        assert((rest + own).contains(skip) <==> rest.contains(skip) || own.contains(skip)) by {
            if rest.contains(skip) {
                let i = choose|i: int| 0 <= i < rest.len() && rest[i] == skip;
                assert((rest + own)[i] == skip);
            }
            if own.contains(skip) {
                let i = choose|i: int| 0 <= i < own.len() && own[i] == skip;
                assert((rest + own)[rest.len() + i] == skip);
            }
        }
        if rest.contains(skip) {
            let i = choose|i: int|
                0 <= i < front.len() && #[trigger] is_skipped(data, front[i], reports[i], skip);
            assert(is_skipped(data, ids[i], reported[i], skip));
        }
        if own.contains(skip) {
            assert(is_skipped(data, ids[n], reported[n], skip));
        }
        if exists|i: int|
            0 <= i < ids.len() && #[trigger] is_skipped(data, ids[i], reported[i], skip) {
            let i = choose|i: int|
                0 <= i < ids.len() && #[trigger] is_skipped(data, ids[i], reported[i], skip);
            if i < n {
                assert(is_skipped(data, front[i], reports[i], skip));
            }
        }
    }
}

/// The built-in metrics have their values, and take the place of nothing
/// else.
pub proof fn law_internal_data(
    metrics: &mut JsonMap,
    platform: &PlatformInfo,
    version: &str,
    other: Seq<char>,
)
    requires
        call_ensures(append_internal_data, (metrics, platform, version), ()),
    ensures
        ({
            let r = final(metrics)@;
            &&& r.contains_key("os_name"@) && r["os_name"@] == JsonView::String(platform.os_name@)
            &&& r.contains_key("os_arch"@) && r["os_arch"@] == JsonView::String(
                if platform.os_arch is Some {
                    platform.os_arch->0@
                } else {
                    platform.build_arch@
                },
            )
            &&& r.contains_key("os_version"@) && r["os_version"@] == JsonView::String(
                platform.os_version@,
            )
            &&& r.contains_key("pointer_width"@) && r["pointer_width"@] == JsonView::Number(
                Number::PosInt(
                    if platform.is_32_bit {
                        32
                    } else {
                        64
                    },
                ),
            )
            &&& r.contains_key("core_count"@) && r["core_count"@] is Number
                && r["core_count"@]->Number_0 is PosInt && r["core_count"@]->Number_0->PosInt_0
                >= 1
            &&& platform.parallelism is Some && platform.parallelism->0 > 0 ==> r["core_count"@]
                == JsonView::Number(Number::PosInt(platform.parallelism->0 as u64))
            &&& platform.parallelism is None || platform.parallelism->0 == 0 ==> r["core_count"@]
                == JsonView::Number(Number::PosInt(1))
            &&& r.contains_key("debug_assertions"@) && r["debug_assertions"@] == JsonView::Bool(
                platform.debug_assertions,
            )
            &&& r.contains_key("program_version"@) && r["program_version"@] == JsonView::String(
                version@,
            )
            &&& other != "os_name"@ && other != "os_arch"@ && other != "os_version"@ && other
                != "pointer_width"@ && other != "core_count"@ && other != "debug_assertions"@
                && other != "program_version"@ ==> (r.contains_key(other) <==> old(
                metrics)@.contains_key(other)) && r[other] == old(metrics)@[other]
        }),
{
    reveal_strlit("os_name");
    reveal_strlit("os_arch");
    reveal_strlit("os_version");
    reveal_strlit("pointer_width");
    reveal_strlit("core_count");
    reveal_strlit("debug_assertions");
    reveal_strlit("program_version");
    assert("os_name"@.len() == 7 && "os_arch"@.len() == 7 && "os_version"@.len() == 10);
    assert("pointer_width"@.len() == 13 && "core_count"@.len() == 10);
    assert("debug_assertions"@.len() == 16 && "program_version"@.len() == 15);
    assert("os_name"@[3] == 'n' && "os_arch"@[3] == 'a');
    assert("os_version"@[0] == 'o' && "core_count"@[0] == 'c');
}

/// The number of processors is the one that is known, and at least one.
pub proof fn law_cpu_count(known: Option<usize>, n: usize)
    requires
        call_ensures(cpu_count, (known,), n),
    ensures
        n >= 1,
        known is Some && known->0 >= 1 ==> n == known->0,
        known is None || known->0 == 0 ==> n == 1,
{
}

/// What is known of the terminal is there, what is not is left out, and
/// nothing else changes.
pub proof fn law_terminal_data(metrics: &mut JsonMap, terminal: &TerminalInfo)
    requires
        call_ensures(append_terminal_data, (metrics, terminal), ()),
        !old(metrics)@.contains_key("terminal_columns"@),
        !old(metrics)@.contains_key("terminal_rows"@),
        !old(metrics)@.contains_key("terminal_emulator"@),
    ensures
        ({
            let r = final(metrics)@;
            &&& r.contains_key("terminal_columns"@) <==> terminal.size is Some
            &&& r.contains_key("terminal_rows"@) <==> terminal.size is Some
            &&& r.contains_key("terminal_emulator"@) <==> terminal.emulator is Some
            &&& terminal.emulator is Some ==> r["terminal_emulator"@] == JsonView::String(
                terminal.emulator->0@,
            )
            &&& match terminal.size {
                Some((columns, rows)) => r["terminal_columns"@] == JsonView::Number(
                    Number::PosInt(columns as u64),
                ) && r["terminal_rows"@] == JsonView::Number(Number::PosInt(rows as u64)),
                None => true,
            }
            &&& r.remove("terminal_columns"@).remove("terminal_rows"@).remove(
                "terminal_emulator"@,
            ) == old(metrics)@
        }),
{
    reveal_strlit("terminal_columns");
    reveal_strlit("terminal_rows");
    reveal_strlit("terminal_emulator");
    assert("terminal_columns"@.len() == 16 && "terminal_rows"@.len() == 13);
    assert("terminal_emulator"@.len() == 17);
    assert(final(metrics)@.remove("terminal_columns"@).remove("terminal_rows"@).remove(
        "terminal_emulator"@,
    ) =~= metrics@);
}

/// The first variable that is set names the terminal emulator; a blank one
/// counts as none, and does not let a later one take its place.
pub proof fn law_terminal_emulator(
    term_program: Option<String>,
    colorterm: Option<String>,
    term: Option<String>,
    r: Option<String>,
)
    requires
        call_ensures(detected_terminal_emulator, (term_program, colorterm, term), r),
    ensures
        ({
            let first = if term_program is Some {
                term_program
            } else if colorterm is Some {
                colorterm
            } else {
                term
            };
            &&& first is None ==> r is None
            &&& first is Some && is_blank(first->0@) ==> r is None
            &&& first is Some && !is_blank(first->0@) ==> r is Some && r->0@ == first->0@
        }),
{
}

/// The data of a service start with the built-in metrics and, if there is a
/// terminal, what is known of it.
pub proof fn law_internal_and_terminal(
    version: Seq<char>,
    platform: PlatformInfo,
    terminal: TerminalInfo,
)
    ensures
        internal_data(version, platform, None) == crate::metrics::platform::with_platform(
            Map::empty(),
            platform,
            version,
        ),
        internal_data(version, platform, Some(terminal))
            == crate::features::terminal::with_terminal(
            internal_data(version, platform, None),
            terminal,
        ),
{
}

/// A body names the project and the installation, and holds the data.
pub proof fn law_metrics_body<F: Fn() -> Result<Option<JsonValue>, Error>, G: Fn()>(
    metrics: &Metrics<F, G>,
    data: JsonMap,
    r: JsonValue,
)
    requires
        call_ensures(Metrics::<F, G>::wrap_data, (metrics, data), r),
    ensures
        r@ is Object,
        ({
            let body = r@->Object_0;
            &&& body.contains_key("project_name"@) && body["project_name"@] == JsonView::String(
                metrics@.project_name,
            )
            &&& body.contains_key("identifier"@) && body["identifier"@] == JsonView::String(
                hyphenated(metrics@.server_id.0),
            )
            &&& body.contains_key("data"@) && body["data"@] == JsonView::Object(data@)
            &&& forall|key: Seq<char>| #[trigger]
                body.contains_key(key) ==> key == "project_name"@ || key == "identifier"@ || key
                    == "data"@
        }),
{
    reveal_strlit("project_name");
    reveal_strlit("identifier");
    reveal_strlit("data");
    assert("project_name"@.len() == 12 && "identifier"@.len() == 10 && "data"@.len() == 4);
}

/// What is submitted holds what a snapshot can hold, and tells the same
/// metrics as skipped.
pub proof fn law_submitted_metrics<F: Fn() -> Result<Option<JsonValue>, Error>, G: Fn()>(
    metrics: &Metrics<F, G>,
    platform: &PlatformInfo,
    terminal: &Option<TerminalInfo>,
    snapshot: (JsonMap, Vec<Skipped>),
    submitted: (JsonValue, Vec<Skipped>),
)
    requires
        call_ensures(Metrics::<F, G>::snapshot, (metrics, platform, terminal), snapshot),
        call_ensures(Metrics::<F, G>::create_data, (metrics, platform, terminal), submitted),
    ensures
        can_append(
            metrics@.metrics,
            internal_data(metrics@.project_version, *platform, *terminal),
            snapshot.0@,
            skipped_views(snapshot.1@),
        ),
        exists|data: Map<Seq<char>, JsonView>| #[trigger]
            can_append(
                metrics@.metrics,
                internal_data(metrics@.project_version, *platform, *terminal),
                data,
                skipped_views(submitted.1@),
            ) && submitted.0@ == crate::metrics::service::metrics_json(
                metrics@.project_name,
                metrics@.server_id,
                data,
            ),
{
}

/// What is appended of a service is what its own metrics can report.
pub proof fn law_append_custom_data<F: Fn() -> Result<Option<JsonValue>, Error>, G: Fn()>(
    metrics: &Metrics<F, G>,
    data: &mut JsonMap,
    skipped: Vec<Skipped>,
)
    requires
        call_ensures(Metrics::<F, G>::append_custom_data, (metrics, data), skipped),
    ensures
        can_append(metrics@.metrics, old(data)@, final(data)@, skipped_views(skipped@)),
{
}

/// Whatever custom metrics give, the built-in ones are in what is appended
/// to, unchanged; and a metric whose id is free and whose function gives a
/// finite value other than null is there with that value.
pub proof fn law_appended_data<F: Fn() -> Result<Option<JsonValue>, Error>>(
    metrics: Seq<Metric<F>>,
    data: Map<Seq<char>, JsonView>,
    result: Map<Seq<char>, JsonView>,
    skipped: Seq<crate::metrics::service::SkippedView>,
    key: Seq<char>,
    i: int,
    value: JsonView,
)
    requires
        can_append(metrics, data, result, skipped),
        crate::metrics::service::distinct_ids(metrics),
    ensures
        data.contains_key(key) ==> result.contains_key(key) && result[key] == data[key],
        0 <= i < metrics.len() && !data.contains_key(metrics[i].id_view()) && (forall|
            given: Result<Option<JsonValue>, Error>,
        | #[trigger]
            metrics[i].function().ensures((), given) ==> given is Ok && given->Ok_0 is Some
                && given->Ok_0->0@ == value) && all_finite(value) && value != JsonView::Null
            ==> result.contains_key(metrics[i].id_view()) && result[metrics[i].id_view()] == value,
{
    let ids = crate::metrics::service::metric_ids(metrics);
    let reported = choose|reported: Seq<Reported>| #[trigger]
        crate::metrics::service::can_report(metrics, data, reported) && result == with_customs(
            data,
            ids,
            reported,
        ) && skipped == crate::metrics::service::skips_of(data, ids, reported);
    assert(ids.no_duplicates()) by {
        assert forall|a: int, b: int| 0 <= a < b < ids.len() implies ids[a] != ids[b] by {
            assert(metrics[a].id_view() != metrics[b].id_view());
        }
    }
    law_customs(data, ids, reported, key);
    if 0 <= i < metrics.len() {
        let id = metrics[i].id_view();
        assert(ids[i] == id);
        law_customs(data, ids, reported, id);
        if !data.contains_key(id) {
            assert(ids.take(i).no_duplicates());
            law_customs(data, ids.take(i), reported.take(i), id);
            assert(!ids.take(i).contains(id)) by {
                if ids.take(i).contains(id) {
                    let j = choose|j: int| 0 <= j < i && ids.take(i)[j] == id;
                    assert(ids[j] != ids[i]);
                }
            }
            assert(metrics[i].can_give(reported[i]));
        }
    }
}

/// A metric is refused exactly if one with its id was added, and is the last
/// one otherwise; callbacks are kept in order.
pub proof fn law_metrics_factory<F: Fn() -> Result<Option<JsonValue>, Error>, G: Fn()>(
    name: &str,
    version: &str,
    factory: Factory<F, G>,
    metric: Metric<F>,
    callback: G,
    fresh: Factory<F, G>,
    added: Result<Factory<F, G>, Error>,
    with_callback: Factory<F, G>,
)
    requires
        call_ensures(Factory::<F, G>::new, (name, version), fresh),
        call_ensures(Factory::<F, G>::add_metric, (factory, metric), added),
        call_ensures(Factory::<F, G>::on_flush, (factory, callback), with_callback),
    ensures
        fresh@.project_name == name@ && fresh@.project_version == version@,
        fresh@.metrics.len() == 0 && fresh@.flush.len() == 0,
        added is Err <==> exists|i: int|
            0 <= i < factory@.metrics.len() && (#[trigger] factory@.metrics[i]).id_view()
                == metric.id_view(),
        added is Err ==> added->Err_0@ == (ErrorView::Validation {
            kind: "metrics id"@,
            reason: "metric already added: "@ + metric.id_view(),
        }),
        added is Ok ==> added->Ok_0@.metrics == factory@.metrics.push(metric)
            && added->Ok_0@.flush == factory@.flush && added->Ok_0@.project_name
            == factory@.project_name && added->Ok_0@.project_version == factory@.project_version,
        with_callback@.flush == factory@.flush.push(callback) && with_callback@.metrics
            == factory@.metrics && with_callback@.project_name == factory@.project_name
            && with_callback@.project_version == factory@.project_version,
{
}

/// A built service has all custom metrics, or none if these are turned off,
/// and all callbacks either way.
pub proof fn law_metrics_build<F: Fn() -> Result<Option<JsonValue>, Error>, G: Fn()>(
    factory: Factory<F, G>,
    transport: Arc<Transport>,
    server_id: ServerId,
    additional: bool,
    server: Option<&str>,
    r: Result<Metrics<F, G>, Error>,
)
    requires
        call_ensures(
            Factory::<F, G>::build,
            (factory, transport, server_id, additional, server),
            r,
        ),
        r is Ok,
    ensures
        additional ==> r->Ok_0@.metrics == factory@.metrics,
        !additional ==> r->Ok_0@.metrics.len() == 0,
        r->Ok_0@.flush == factory@.flush,
        r->Ok_0@.project_name == factory@.project_name,
        r->Ok_0@.project_version == factory@.project_version,
        r->Ok_0@.server_id == server_id,
        r->Ok_0@.transport == transport@,
{
}

/// All callbacks are due, in order, exactly if the server answered with a
/// status in the two hundreds.
pub proof fn law_due_callbacks<F: Fn() -> Result<Option<JsonValue>, Error>, G: Fn()>(
    metrics: &Metrics<F, G>,
    outcome: &Result<SubmissionOutcome, Error>,
    r: Option<&Vec<G>>,
)
    requires
        call_ensures(Metrics::<F, G>::due_callbacks, (metrics, outcome), r),
    ensures
        outcome is Err ==> r is None,
        outcome is Ok ==> (r is Some <==> outcome->Ok_0.status@ / 100 == 2),
        r is Some ==> r->0@ == metrics@.flush,
{
}

/// The delay is the number of seconds that is asked for, white space around
/// it or not, and half a minute without a proper one.
pub proof fn law_initial_delay(value: Option<&str>, seconds: u64)
    requires
        call_ensures(initial_delay_from_env, (value,), seconds),
    ensures
        value is Some && unsigned_of(trimmed(value->0@)) is Some ==> seconds == unsigned_of(
            trimmed(value->0@),
        )->0,
        value is Some && unsigned_of(trimmed(value->0@)) is None ==> seconds == 30,
        value is None ==> seconds == 30,
{
}

} // verus!
