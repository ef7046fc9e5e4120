//! Laws of error reports: which errors are the same, which are ignored, what
//! is reported of them, and what is submitted.

use std::sync::Arc;

use vstd::prelude::*;

use crate::domain::attributes::Attributes;
use crate::domain::sdk_info::SdkInfo;
use crate::domain::server_id::{hyphenated, ServerId};
use crate::error::Error;
use crate::error_tracking::helper::{anonymized, collapsed, truncated};
use crate::error_tracking::hooks::{PanicHooks, PanicStep};
use crate::error_tracking::service::{
    accepted, cause_type, collect_causes, error_type_name, raw_cause, report_context,
    reported_causes, reported_error, with_error, ErrorTracker, ErrorTrackerView, Factory,
    PanicLocation,
};
use crate::error_tracking::tracker::{
    cause_header, cause_lines, cause_views, context_view, error_json, error_views, is_ignored,
    is_pending, law_identity, rule_matches, same_error, with_report, CauseFrame, CauseView,
    IgnoreRule, TrackedError, TrackedView, Tracker,
};
use crate::metrics::service::MetricsEvent;
use crate::regexes::{regex_is_match, Pattern};
use crate::text::{decimal_text, opt_str, texts};
use crate::transport::{SubmissionOutcome, Transport};
use crate::value::{string_items, JsonMap, JsonValue, JsonView, Number};

verus! {

/// Two reports are of the same error exactly if they are the same but for
/// their counts.
pub proof fn law_same_error(a: TrackedView, b: TrackedView)
    ensures
        same_error(a, b) <==> (TrackedView { count: 0, ..a }) == (TrackedView { count: 0, ..b }),
{
}

/// The identities of two errors are the same exactly if the errors are, but
/// for their counts.
pub proof fn law_identities(a: &TrackedError, b: &TrackedError, x: JsonValue, y: JsonValue)
    requires
        call_ensures(TrackedError::identity, (a,), x),
        call_ensures(TrackedError::identity, (b,), y),
    ensures
        x@ == y@ <==> a.error_type@ == b.error_type@ && opt_texts_equal(a.message, b.message)
            && texts(a.stack@) == texts(b.stack@) && a.handled == b.handled && context_view(
            a.context,
        ) == context_view(b.context) && cause_views(a.causes@) == cause_views(b.causes@),
{
    law_identity(a@, b@);
}

/// Whether both strings are missing, or both are there with the same text.
pub open spec fn opt_texts_equal(a: Option<String>, b: Option<String>) -> bool {
    match (a, b) {
        (Some(x), Some(y)) => x@ == y@,
        (None, None) => true,
        _ => false,
    }
}

/// A rule by type matches that type and no other; a rule by message matches
/// a message that is there and that its pattern matches; a rule by both
/// matches what both match.
pub proof fn law_ignore_rules(
    name: String,
    pattern: Pattern,
    error_type: &str,
    message: Option<&str>,
    by_type: bool,
    by_message: bool,
    by_both: bool,
)
    requires
        call_ensures(
            IgnoreRule::matches,
            (&IgnoreRule::Type(name), error_type, message),
            by_type,
        ),
        call_ensures(
            IgnoreRule::matches,
            (&IgnoreRule::MessagePattern(pattern), error_type, message),
            by_message,
        ),
        call_ensures(
            IgnoreRule::matches,
            (&IgnoreRule::TypeAndPattern(name, pattern), error_type, message),
            by_both,
        ),
    ensures
        by_type <==> name@ == error_type@,
        by_message <==> message is Some && regex_is_match(pattern@, message->0@),
        by_both <==> by_type && by_message,
{
}

/// An error is ignored exactly if a rule matches it; one more rule ignores
/// what it matches, and lets everything else be as before.
pub proof fn law_ignored(
    rules: Seq<IgnoreRule>,
    rule: IgnoreRule,
    error_type: Seq<char>,
    message: Option<Seq<char>>,
)
    ensures
        !is_ignored(Seq::empty(), error_type, message),
        is_ignored(rules.push(rule), error_type, message) <==> is_ignored(
            rules,
            error_type,
            message,
        ) || rule_matches(rule, error_type, message),
{
    let more = rules.push(rule);
    if is_ignored(rules, error_type, message) {
        let i = choose|i: int|
            0 <= i < rules.len() && rule_matches(#[trigger] rules[i], error_type, message);
        assert(rule_matches(more[i], error_type, message));
    }
    if rule_matches(rule, error_type, message) {
        assert(rule_matches(more[rules.len() as int], error_type, message));
    }
    if is_ignored(more, error_type, message) && !rule_matches(rule, error_type, message) {
        let i = choose|i: int|
            0 <= i < more.len() && rule_matches(#[trigger] more[i], error_type, message);
        assert(rule_matches(rules[i], error_type, message));
    }
}

/// A rule that is added is the last one, and pending errors stay.
pub proof fn law_add_ignore_rule(tracker: &mut Tracker, rule: IgnoreRule)
    requires
        call_ensures(Tracker::add_ignore_rule, (tracker, rule), ()),
    ensures
        final(tracker).rules() == old(tracker).rules().push(rule),
        final(tracker).pending() == old(tracker).pending(),
{
}

/// Tracking an error says whether no rule matches it. If one does, nothing
/// changes. If none does, the error is pending afterwards, no other pending
/// error is touched, and none is lost.
pub proof fn law_track(tracker: &mut Tracker, error: TrackedError, r: bool)
    requires
        call_ensures(Tracker::track, (tracker, error), r),
    ensures
        r <==> !is_ignored(old(tracker).rules(), error@.error_type, error@.message),
        final(tracker).rules() == old(tracker).rules(),
        !r ==> final(tracker).pending() == old(tracker).pending(),
        r ==> is_pending(final(tracker).pending(), error@),
        r ==> forall|i: int|
            0 <= i < old(tracker).pending().len() && !same_error(
                old(tracker).pending()[i],
                error@,
            ) ==> #[trigger] final(tracker).pending()[i] == old(tracker).pending()[i],
        r ==> forall|i: int|
            0 <= i < old(tracker).pending().len() && same_error(
                old(tracker).pending()[i],
                error@,
            ) ==> #[trigger] final(tracker).pending()[i] == (TrackedView {
                count: if old(tracker).pending()[i].count == 0xffff_ffff {
                    0xffff_ffff
                } else {
                    (old(tracker).pending()[i].count + 1) as u32
                },
                ..old(tracker).pending()[i]
            }),
        r && !is_pending(old(tracker).pending(), error@) ==> final(tracker).pending() == old(
            tracker).pending().push(error@),
        r && is_pending(old(tracker).pending(), error@) ==> final(tracker).pending().len() == old(
            tracker).pending().len(),
{
    crate::error_tracking::tracker::law_repeat_is_counted(tracker.pending(), error@);
}

/// A drain hands out everything that is pending, in order, and leaves
/// nothing but the rules. A second one hands out nothing.
pub proof fn law_drain(
    tracker: &mut Tracker,
    again: &mut Tracker,
    r: Vec<TrackedError>,
    empty: bool,
    nothing: Vec<TrackedError>,
)
    requires
        call_ensures(Tracker::drain, (tracker,), r),
        *again == *final(tracker),
        call_ensures(Tracker::is_empty, (&*final(tracker),), empty),
        call_ensures(Tracker::drain, (again,), nothing),
    ensures
        r@.len() == old(tracker).pending().len(),
        forall|i: int| 0 <= i < r@.len() ==> (#[trigger] r@[i])@ == old(tracker).pending()[i],
        empty,
        nothing@.len() == 0,
        final(again).rules() == old(tracker).rules(),
{
    assert(error_views(r@).len() == r@.len());
    assert forall|i: int| 0 <= i < r@.len() implies (#[trigger] r@[i])@ == tracker.pending()[i] by {
        assert(error_views(r@)[i] == r@[i]@);
    }
    assert(error_views(nothing@).len() == nothing@.len());
}

/// The lines of causes stand one cause after another: of each a line that
/// names it, and then its own frames.
pub proof fn law_cause_lines(causes: Seq<CauseView>, cause: CauseView)
    ensures
        cause_lines(Seq::empty()) == Seq::<Seq<char>>::empty(),
        cause_lines(causes.push(cause)) == cause_lines(causes) + seq![cause_header(cause)]
            + cause.stack,
        cause.message is Some ==> cause_header(cause) == "Caused by: "@ + cause.error_type + ": "@
            + cause.message->0,
        cause.message is None ==> cause_header(cause) == "Caused by: "@ + cause.error_type,
{
    assert(causes.push(cause).drop_last() =~= causes);
    assert(cause_lines(causes).push(cause_header(cause)) =~= cause_lines(causes) + seq![
        cause_header(cause),
    ]);
}

/// A submitted error has its type, its frames followed by the lines of its
/// causes, and whether it was handled; and its message, attributes and count
/// where it has them.
pub proof fn law_submitted_error(error: &TrackedError, r: JsonValue)
    requires
        call_ensures(TrackedError::to_json, (error,), r),
    ensures
        r@ is Object,
        ({
            let map = r@->Object_0;
            &&& map.contains_key("error"@) && map["error"@] == JsonView::String(error.error_type@)
            &&& map.contains_key("handled"@) && map["handled"@] == JsonView::Bool(error.handled)
            &&& map.contains_key("stack"@) && map["stack"@] == JsonView::Array(
                string_items(texts(error.stack@) + cause_lines(cause_views(error.causes@))),
            )
            &&& error.message is Some <==> map.contains_key("message"@)
            &&& error.message is Some ==> map["message"@] == JsonView::String(error.message->0@)
            &&& error.count > 1 <==> map.contains_key("count"@)
            &&& error.count > 1 ==> map["count"@] == JsonView::Number(
                Number::PosInt(error.count as u64),
            )
            &&& map.contains_key("context"@) <==> error.context is Some && error.context->0@
                != Map::<Seq<char>, JsonView>::empty()
            &&& map.contains_key("context"@) ==> map["context"@] == JsonView::Object(
                error.context->0@,
            )
            &&& forall|key: Seq<char>| #[trigger]
                map.contains_key(key) ==> key == "error"@ || key == "message"@ || key == "stack"@
                    || key == "handled"@ || key == "context"@ || key == "count"@
        }),
{
    reveal_strlit("error");
    reveal_strlit("message");
    reveal_strlit("stack");
    reveal_strlit("handled");
    reveal_strlit("context");
    reveal_strlit("count");
    assert("error"@.len() == 5 && "stack"@.len() == 5 && "count"@.len() == 5);
    assert("message"@.len() == 7 && "handled"@.len() == 7 && "context"@.len() == 7);
    assert("message"@[0] == 'm' && "handled"@[0] == 'h' && "context"@[0] == 'c');
    assert("error"@[0] == 'e' && "stack"@[0] == 's' && "count"@[0] == 'c');
}

/// The JSON strings of texts are those texts, in order.
pub proof fn law_string_items(strings: Seq<Seq<char>>)
    ensures
        string_items(strings).len() == strings.len(),
        forall|i: int|
            0 <= i < strings.len() ==> #[trigger] string_items(strings)[i] == JsonView::String(
                strings[i],
            ),
{
}

/// The type of a cause is the start of its text, up to 40 characters; only an
/// empty text has none, and gets a name.
pub proof fn law_cause_type(text: &str, r: String)
    requires
        call_ensures(error_type_name, (text,), r),
    ensures
        0 < text@.len() <= 40 ==> r@ == text@,
        text@.len() > 40 ==> r@ == text@.take(40),
        text@.len() == 0 ==> r@ == "UnknownCause"@,
        r@ == cause_type(text@),
{
}

/// The causes that are reported are the start of the chain: all of it up to
/// 16 causes, or up to the first text that occurred before.
pub proof fn law_collected_causes(chain: &Vec<String>, r: Vec<CauseFrame>)
    requires
        call_ensures(collect_causes, (chain,), r),
    ensures
        r@.len() <= 16,
        r@.len() <= chain@.len(),
        forall|i: int|
            0 <= i < r@.len() ==> (#[trigger] cause_views(r@)[i]) == raw_cause(chain@[i]@),
        forall|i: int, j: int|
            0 <= i < j < r@.len() ==> (#[trigger] chain@[i])@ != (#[trigger] chain@[j])@,
        r@.len() < chain@.len() && r@.len() < 16 ==> exists|i: int|
            0 <= i < r@.len() && (#[trigger] chain@[i])@ == chain@[r@.len() as int]@,
{
    let all = texts(chain@);
    let kept = reported_causes(all);
    lemma_reported_causes(all);
    assert(cause_views(r@).len() == r@.len());
    assert(kept.len() == r@.len());
    assert forall|i: int, j: int| 0 <= i < j < r@.len() implies (#[trigger] chain@[i])@ != (
    #[trigger] chain@[j])@ by {
        assert(kept[i] == all[i] && kept[j] == all[j]);
    }
    assert forall|i: int| 0 <= i < r@.len() implies (#[trigger] cause_views(r@)[i]) == raw_cause(
        chain@[i]@,
    ) by {
        assert(kept[i] == all[i]);
    }
    if r@.len() < chain@.len() && r@.len() < 16 {
        let i = choose|i: int| 0 <= i < kept.len() && kept[i] == all[kept.len() as int];
        assert(chain@[i]@ == chain@[r@.len() as int]@);
    }
}

proof fn lemma_reported_causes(chain: Seq<Seq<char>>)
    ensures
        ({
            let kept = reported_causes(chain);
            &&& kept.len() <= 16
            &&& kept.len() <= chain.len()
            &&& kept == chain.take(kept.len() as int)
            &&& kept.no_duplicates()
            &&& kept.len() < chain.len() && kept.len() < 16 ==> kept.contains(
                chain[kept.len() as int],
            )
        }),
    decreases chain.len(),
{
    if chain.len() > 0 {
        let front = chain.drop_last();
        let before = reported_causes(front);
        let kept = reported_causes(chain);
        lemma_reported_causes(front);
        assert(kept =~= chain.take(kept.len() as int));
        if kept.len() > before.len() {
            assert forall|i: int, j: int| 0 <= i < j < kept.len() implies kept[i] != kept[j] by {
                if j == before.len() {
                    assert(before[i] == kept[i]);
                    assert(before.contains(before[i]));
                } else {
                    assert(before[i] == kept[i] && before[j] == kept[j]);
                }
            }
        } else if before.len() < front.len() {
            assert(front[before.len() as int] == chain[before.len() as int]);
        }
    }
}

/// What a cause stands for before it is reported: its text, three times.
pub proof fn law_raw_cause(text: Seq<char>)
    ensures
        raw_cause(text).error_type == text,
        raw_cause(text).message == Some(text),
        raw_cause(text).stack == seq![text],
{
}

/// An error is reported with its own type, flag and attributes, with one
/// occurrence, with its message anonymized and cut to 1000 characters, its
/// stack anonymized frame by frame and collapsed, and each of its causes
/// likewise; none of them is left out.
pub proof fn law_reported_error(
    error: TrackedView,
    rules: Seq<(Seq<char>, Seq<char>)>,
    username: Option<Seq<char>>,
)
    ensures
        ({
            let r = reported_error(error, rules, username);
            &&& r.error_type == error.error_type
            &&& r.handled == error.handled
            &&& r.context == error.context
            &&& r.count == 1
            &&& r.message is Some <==> error.message is Some
            &&& r.message is Some ==> r.message->0 == truncated(
                anonymized(error.message->0, rules, username),
                1000,
            )
            &&& r.stack == collapsed(anonymized_frames(error.stack, rules, username))
            &&& r.causes.len() == error.causes.len()
            &&& forall|i: int|
                0 <= i < error.causes.len() ==> is_reported_cause(
                    #[trigger] r.causes[i],
                    error.causes[i],
                    rules,
                    username,
                )
        }),
{
    let r = reported_error(error, rules, username);
    assert(r.stack == collapsed(anonymized_frames(error.stack, rules, username))) by {
        assert(anonymized_frames(error.stack, rules, username) =~= error.stack.map_values(
            |frame: Seq<char>| anonymized(frame, rules, username),
        ));
    }
    assert forall|i: int| 0 <= i < error.causes.len() implies is_reported_cause(
        #[trigger] r.causes[i],
        error.causes[i],
        rules,
        username,
    ) by {
        let stack = error.causes[i].stack;
        assert(anonymized_frames(stack, rules, username) =~= stack.map_values(
            |frame: Seq<char>| anonymized(frame, rules, username),
        ));
    }
}

/// The frames, each of them anonymized.
pub open spec fn anonymized_frames(
    frames: Seq<Seq<char>>,
    rules: Seq<(Seq<char>, Seq<char>)>,
    username: Option<Seq<char>>,
) -> Seq<Seq<char>> {
    Seq::new(frames.len(), |i: int| anonymized(frames[i], rules, username))
}

/// Whether `reported` is what is reported of `cause`.
pub open spec fn is_reported_cause(
    reported: CauseView,
    cause: CauseView,
    rules: Seq<(Seq<char>, Seq<char>)>,
    username: Option<Seq<char>>,
) -> bool {
    &&& reported.error_type == cause_type(anonymized(cause.error_type, rules, username))
    &&& reported.message is Some <==> cause.message is Some
    &&& reported.message is Some ==> reported.message->0 == truncated(
        anonymized(cause.message->0, rules, username),
        1000,
    )
    &&& reported.stack == collapsed(anonymized_frames(cause.stack, rules, username))
}

/// A report that a rule ignores changes nothing. Any other one is pending
/// afterwards, beside everything that was; and nothing else changes.
pub proof fn law_with_error(
    service: ErrorTrackerView,
    error: TrackedView,
    username: Option<Seq<char>>,
)
    ensures
        ({
            let reported = reported_error(error, service.patterns, username);
            let after = with_error(service, error, username);
            let ignored = is_ignored(service.rules, reported.error_type, reported.message);
            &&& ignored ==> after == service
            &&& !ignored ==> after.pending == with_report(service.pending, reported)
            &&& after == (ErrorTrackerView { pending: after.pending, ..service })
        }),
{
}

/// An error is recorded as a handled one, without causes; with causes, if
/// there is a chain of them.
pub proof fn law_track_error(
    tracker: &mut ErrorTracker,
    other: &mut ErrorTracker,
    error_type: &str,
    message: Option<&str>,
    stack: &Vec<String>,
    context: Option<Attributes>,
    chain: &Vec<String>,
    username: Option<&str>,
)
    requires
        call_ensures(
            ErrorTracker::track_error,
            (tracker, error_type, message, stack, context, username),
            (),
        ),
        call_ensures(
            ErrorTracker::track_error_with_source,
            (other, error_type, message, stack, context, chain, username),
            (),
        ),
    ensures
        final(tracker)@ == with_error(
            old(tracker)@,
            TrackedView {
                error_type: error_type@,
                message: opt_str(message),
                stack: texts(stack@),
                handled: true,
                context: context_view(context),
                causes: seq![],
                count: 1,
            },
            opt_str(username),
        ),
        final(other)@ == with_error(
            old(other)@,
            TrackedView {
                error_type: error_type@,
                message: opt_str(message),
                stack: texts(stack@),
                handled: true,
                context: context_view(context),
                causes: reported_causes(texts(chain@)).map_values(
                    |text: Seq<char>| raw_cause(text),
                ),
                count: 1,
            },
            opt_str(username),
        ),
{
}

/// A report is recorded with everything that is said of it, once.
pub proof fn law_record(
    tracker: &mut ErrorTracker,
    error_type: String,
    message: Option<&str>,
    stack: &Vec<String>,
    handled: bool,
    context: Option<Attributes>,
    causes: &Vec<CauseFrame>,
    username: Option<&str>,
)
    requires
        call_ensures(
            ErrorTracker::record,
            (tracker, error_type, message, stack, handled, context, causes, username),
            (),
        ),
    ensures
        final(tracker)@ == with_error(
            old(tracker)@,
            TrackedView {
                error_type: error_type@,
                message: opt_str(message),
                stack: texts(stack@),
                handled,
                context: context_view(context),
                causes: cause_views(causes@),
                count: 1,
            },
            opt_str(username),
        ),
{
}

/// A panic is recorded as an unhandled error, with its place as the one
/// frame, and the thread in its attributes.
pub proof fn law_track_panic(
    tracker: &mut ErrorTracker,
    message: Option<&str>,
    location: &Option<PanicLocation>,
    thread_name: Option<&str>,
    username: Option<&str>,
)
    requires
        call_ensures(
            ErrorTracker::track_panic,
            (tracker, message, location, thread_name, username),
            (),
        ),
    ensures
        final(tracker)@ == with_error(
            old(tracker)@,
            TrackedView {
                error_type: "panic"@,
                message: opt_str(message),
                stack: seq![
                    match *location {
                        Some(l) => l.file@ + ":"@ + decimal_text(l.line as nat) + ":"@
                            + decimal_text(l.column as nat),
                        None => "unknown location"@,
                    },
                ],
                handled: false,
                context: Some(
                    Map::<Seq<char>, JsonView>::empty().insert(
                        "thread_name"@,
                        JsonView::String(
                            if thread_name is Some {
                                thread_name->0@
                            } else {
                                "unnamed"@
                            },
                        ),
                    ),
                ),
                causes: seq![],
                count: 1,
            },
            opt_str(username),
        ),
{
}

/// A custom metric that failed is recorded as a handled error that names it.
pub proof fn law_track_metrics_event(
    tracker: &mut ErrorTracker,
    metric_id: String,
    error: String,
    username: Option<&str>,
)
    requires
        call_ensures(
            ErrorTracker::track_metrics_event,
            (tracker, &MetricsEvent::CustomMetricFailed { metric_id, error }, username),
            (),
        ),
    ensures
        final(tracker)@ == with_error(
            old(tracker)@,
            TrackedView {
                error_type: "CustomMetricFailure"@,
                message: Some("custom metric '"@ + metric_id@ + "' failed: "@ + error@),
                stack: seq![],
                handled: true,
                context: None,
                causes: seq![],
                count: 1,
            },
            opt_str(username),
        ),
{
}

/// What is reported beside the errors: the attributes and the metrics, each
/// of them whether or not there are the others; where both have an entry,
/// the attribute.
pub proof fn law_report_context(
    attributes: Option<Map<Seq<char>, JsonView>>,
    snapshot: Option<Map<Seq<char>, JsonView>>,
    key: Seq<char>,
)
    ensures
        ({
            let context = report_context(attributes, snapshot);
            let own = attributes is Some && attributes->0.contains_key(key);
            let measured = snapshot is Some && snapshot->0.contains_key(key);
            &&& context.contains_key(key) <==> own || measured
            &&& own ==> context[key] == attributes->0[key]
            &&& measured && !own ==> context[key] == snapshot->0[key]
        }),
{
}

/// A submission holds every pending error, in order, and says who submits
/// it; there is one exactly if an error is pending, and afterwards none is.
pub proof fn law_create_data(
    tracker: &mut ErrorTracker,
    snapshot: Option<&JsonMap>,
    r: Option<JsonValue>,
    empty: bool,
)
    requires
        call_ensures(ErrorTracker::create_data, (tracker, snapshot), r),
        call_ensures(ErrorTracker::is_empty, (&*tracker,), empty),
    ensures
        r is None <==> empty,
        empty <==> old(tracker)@.pending.len() == 0,
        final(tracker)@ == (ErrorTrackerView { pending: seq![], ..old(tracker)@ }),
        r is Some ==> r->0@ is Object && is_submission(r->0@->Object_0, old(tracker)@, snapshot),
{
    reveal_strlit("identifier");
    reveal_strlit("language");
    reveal_strlit("project_name");
    reveal_strlit("sdk_name");
    reveal_strlit("sdk_version");
    reveal_strlit("context");
    reveal_strlit("errors");
    assert("identifier"@.len() == 10 && "language"@.len() == 8 && "project_name"@.len() == 12);
    assert("sdk_name"@.len() == 8 && "sdk_version"@.len() == 11 && "context"@.len() == 7);
    assert("errors"@.len() == 6);
    assert("language"@[0] == 'l' && "sdk_name"@[0] == 's');
}

/// Whether the entries are those of a submission of what is pending.
pub open spec fn is_submission(
    data: Map<Seq<char>, JsonView>,
    service: ErrorTrackerView,
    snapshot: Option<&JsonMap>,
) -> bool {
    let context = report_context(
        service.attributes,
        if snapshot is Some {
            Some(snapshot->0@)
        } else {
            None
        },
    );
    &&& data["identifier"@] == JsonView::String(hyphenated(service.server_id.0))
    &&& data["language"@] == JsonView::String("rust"@)
    &&& data["project_name"@] == JsonView::String(service.project_name)
    &&& data["sdk_name"@] == JsonView::String(service.sdk_info.name)
    &&& data["sdk_version"@] == JsonView::String(service.sdk_info.version)
    &&& data.contains_key("identifier"@) && data.contains_key("language"@) && data.contains_key(
        "project_name"@,
    ) && data.contains_key("sdk_name"@) && data.contains_key("sdk_version"@) && data.contains_key(
        "errors"@,
    )
    &&& data.contains_key("context"@) <==> context != Map::<Seq<char>, JsonView>::empty()
    &&& data.contains_key("context"@) ==> data["context"@] == JsonView::Object(context)
    &&& data["errors"@] is Array
    &&& data["errors"@]->Array_0.len() == service.pending.len()
    &&& forall|i: int|
        0 <= i < service.pending.len() ==> #[trigger] data["errors"@]->Array_0[i] == error_json(
            service.pending[i],
        )
    &&& forall|key: Seq<char>| #[trigger]
        data.contains_key(key) ==> key == "identifier"@ || key == "language"@ || key
            == "project_name"@ || key == "sdk_name"@ || key == "sdk_version"@ || key == "context"@
            || key == "errors"@
}

/// A built service starts with what the factory holds, and with nothing
/// pending.
pub proof fn law_build(
    factory: Factory,
    transport: Arc<Transport>,
    server_id: ServerId,
    server: Option<&str>,
    r: Result<ErrorTracker, Error>,
)
    requires
        call_ensures(Factory::build, (factory, transport, server_id, server), r),
        r is Ok,
    ensures
        ({
            let service = r->Ok_0@;
            &&& service.transport == transport@
            &&& service.project_name == factory@.project_name
            &&& service.sdk_info == factory@.sdk_info
            &&& service.server_id == server_id
            &&& service.patterns == factory@.patterns
            &&& service.attributes == factory@.attributes
            &&& service.rules == factory@.rules
            &&& service.pending.len() == 0
            &&& !service.panic_hook_installed
        }),
{
}

/// What is registered with a factory is added to what it holds, and takes
/// nothing away.
pub proof fn law_factory(
    project_name: &str,
    sdk_info: SdkInfo,
    factory: Factory,
    name: String,
    pattern: Pattern,
    replacement: &'static str,
    attributes: Attributes,
    fresh: Factory,
    by_type: Factory,
    by_message: Factory,
    by_both: Factory,
    with_pattern: Factory,
    with_attributes: Factory,
)
    requires
        call_ensures(Factory::new, (project_name, sdk_info), fresh),
        call_ensures(Factory::ignore_error_type, (factory, name), by_type),
        call_ensures(Factory::ignore_error_message, (factory, pattern), by_message),
        call_ensures(Factory::ignore_error, (factory, name, pattern), by_both),
        call_ensures(Factory::anonymize, (factory, pattern, replacement), with_pattern),
        call_ensures(Factory::attributes, (factory, attributes), with_attributes),
    ensures
        fresh@.project_name == project_name@ && fresh@.sdk_info == sdk_info@,
        fresh@.rules.len() == 0 && fresh@.patterns.len() == 0 && fresh@.attributes is None,
        by_type@.rules == factory@.rules.push(IgnoreRule::Type(name)),
        by_message@.rules == factory@.rules.push(IgnoreRule::MessagePattern(pattern)),
        by_both@.rules == factory@.rules.push(IgnoreRule::TypeAndPattern(name, pattern)),
        with_pattern@.patterns == factory@.patterns.push((pattern@, replacement@)),
        with_pattern@.rules == factory@.rules && with_pattern@.attributes == factory@.attributes,
        by_type@.patterns == factory@.patterns && by_message@.patterns == factory@.patterns
            && by_both@.patterns == factory@.patterns,
        by_type@.attributes == factory@.attributes && by_message@.attributes == factory@.attributes
            && by_both@.attributes == factory@.attributes,
        with_attributes@.attributes == Some(attributes@),
        with_attributes@.rules == factory@.rules && with_attributes@.patterns == factory@.patterns,
        by_type@.project_name == factory@.project_name && with_pattern@.project_name
            == factory@.project_name && with_attributes@.project_name == factory@.project_name,
        by_type@.sdk_info == factory@.sdk_info && with_pattern@.sdk_info == factory@.sdk_info
            && with_attributes@.sdk_info == factory@.sdk_info,
{
}

/// A tracker claims the panic hook once, until it gives it up, and gives it
/// up once.
pub proof fn law_panic_hook(
    tracker: &mut ErrorTracker,
    again: &mut ErrorTracker,
    released: &mut ErrorTracker,
    first: bool,
    second: bool,
    restored: bool,
)
    requires
        call_ensures(ErrorTracker::install_panic_hook, (tracker,), first),
        *again == *final(tracker),
        call_ensures(ErrorTracker::install_panic_hook, (again,), second),
        *released == *final(again),
        call_ensures(ErrorTracker::detach, (released,), restored),
    ensures
        first <==> !old(tracker)@.panic_hook_installed,
        !second,
        restored,
        !final(released)@.panic_hook_installed,
        final(released)@.pending == old(tracker)@.pending,
        final(released)@.rules == old(tracker)@.rules,
{
}

/// A submission is accepted exactly if there was nothing to submit, or the
/// server answered with a status in the two hundreds.
pub proof fn law_accepted(outcome: &Option<Result<SubmissionOutcome, Error>>, r: bool)
    requires
        call_ensures(accepted, (outcome,), r),
    ensures
        *outcome is None ==> r,
        *outcome is Some && outcome->0 is Err ==> !r,
        *outcome is Some && outcome->0 is Ok ==> (r <==> outcome->0->Ok_0.status@ / 100 == 2),
{
}

/// The hook that trackers share records a panic with each of them, the
/// newest first, and then calls the earlier hook.
pub proof fn law_shared_hook(hooks: &PanicHooks, steps: Vec<PanicStep>)
    requires
        call_ensures(PanicHooks::on_panic, (hooks,), steps),
    ensures
        steps@.len() == hooks@.len() + 1,
        forall|i: int|
            0 <= i < hooks@.len() ==> steps@[i] == PanicStep::Record(#[trigger] hooks@[i]),
        steps@[hooks@.len() as int] == PanicStep::CallEarlier,
{
}

/// Attaching tells whether the earlier hook has to be taken, and detaching
/// whether it has to be restored: with the first tracker, and with the last.
pub proof fn law_attach_and_detach(
    hooks: &mut PanicHooks,
    after: &mut PanicHooks,
    tracker: u64,
    take: bool,
    restore: bool,
)
    requires
        call_ensures(PanicHooks::attach, (hooks, tracker), take),
        *after == *final(hooks),
        call_ensures(PanicHooks::detach, (after, tracker), restore),
        !old(hooks)@.contains(tracker),
    ensures
        take <==> old(hooks)@.len() == 0,
        final(hooks)@ == seq![tracker] + old(hooks)@,
        final(after)@ == old(hooks)@,
        restore <==> take,
{
    lemma_detach_newest(hooks@, tracker);
}

/// A new hook has no trackers. A tracker that is attached twice is attached
/// once, and only it goes with it.
pub proof fn law_attach_again(
    new: PanicHooks,
    hooks: &mut PanicHooks,
    other: &mut PanicHooks,
    tracker: u64,
    take: bool,
    restore: bool,
    i: int,
)
    requires
        call_ensures(PanicHooks::new, (), new),
        old(hooks)@.contains(tracker),
        call_ensures(PanicHooks::attach, (hooks, tracker), take),
        old(other)@.no_duplicates(),
        0 <= i < old(other)@.len(),
        call_ensures(PanicHooks::detach, (other, old(other)@[i]), restore),
    ensures
        new@.len() == 0,
        final(hooks)@ == old(hooks)@,
        !take,
        final(other)@ == old(other)@.remove(i),
        restore <==> old(other)@.len() == 1,
{
    crate::error_tracking::hooks::lemma_without_at(other@, i);
}

proof fn lemma_detach_newest(attached: Seq<u64>, tracker: u64)
    requires
        !attached.contains(tracker),
    ensures
        crate::error_tracking::hooks::without_tracker(seq![tracker] + attached, tracker)
            == attached,
    decreases attached.len(),
{
    let all = seq![tracker] + attached;
    if attached.len() == 0 {
        reveal_with_fuel(crate::error_tracking::hooks::without_tracker, 2);
        assert(all.drop_last() =~= attached);
    } else {
        let front = attached.drop_last();
        assert(attached[attached.len() - 1] != tracker);
        assert forall|i: int| 0 <= i < front.len() implies front[i] != tracker by {
            assert(attached[i] != tracker);
        }
        lemma_detach_newest(front, tracker);
        assert(all.drop_last() =~= seq![tracker] + front);
        assert(front.push(attached.last()) =~= attached);
    }
}

} // verus!
