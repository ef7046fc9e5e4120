//! `TrackedError` and the in-memory table of pending errors. Errors with
//! the same type, message, stack, handled flag, attributes and causes are
//! one error with a count; ignore rules keep errors out of the table.

use vstd::prelude::*;

use crate::domain::attributes::Attributes;
use crate::regexes::{regex_is_match, Pattern};
use crate::text::{clone_strings, equal, equal_strings, opt_str, opt_text, texts};
use crate::value::{
    items_view, lemma_items_view_push, push_strings, string_items, string_or_null, JsonMap,
    JsonView, Number, JsonValue,
};

verus! {

/// One entry in an error's chain of causes, beyond the error itself, already
/// anonymized and with its stack collapsed.
#[derive(Debug, Eq)]
pub struct CauseFrame {
    pub error_type: String,
    pub message: Option<String>,
    pub stack: Vec<String>,
}

/// What a [`CauseFrame`] holds.
pub struct CauseView {
    pub error_type: Seq<char>,
    pub message: Option<Seq<char>>,
    pub stack: Seq<Seq<char>>,
}

impl View for CauseFrame {
    type V = CauseView;

    open spec fn view(&self) -> CauseView {
        CauseView {
            error_type: self.error_type@,
            message: opt_text(self.message),
            stack: texts(self.stack@),
        }
    }
}

/// A tracked error, ready for submission, with the number of times it
/// occurred. `handled` is `false` for panics that the panic hook caught.
#[derive(Debug)]
pub struct TrackedError {
    pub error_type: String,
    pub message: Option<String>,
    pub stack: Vec<String>,
    pub handled: bool,
    pub context: Option<Attributes>,
    pub causes: Vec<CauseFrame>,
    pub count: u32,
}

/// What a [`TrackedError`] holds.
pub struct TrackedView {
    pub error_type: Seq<char>,
    pub message: Option<Seq<char>>,
    pub stack: Seq<Seq<char>>,
    pub handled: bool,
    pub context: Option<Map<Seq<char>, JsonView>>,
    pub causes: Seq<CauseView>,
    pub count: u32,
}

/// The attributes of an error that may have none.
pub open spec fn context_view(context: Option<Attributes>) -> Option<Map<Seq<char>, JsonView>> {
    match context {
        Some(attributes) => Some(attributes@),
        None => None,
    }
}

/// The causes, one by one.
pub open spec fn cause_views(causes: Seq<CauseFrame>) -> Seq<CauseView> {
    causes.map_values(|cause: CauseFrame| cause@)
}

impl View for TrackedError {
    type V = TrackedView;

    open spec fn view(&self) -> TrackedView {
        TrackedView {
            error_type: self.error_type@,
            message: opt_text(self.message),
            stack: texts(self.stack@),
            handled: self.handled,
            context: context_view(self.context),
            causes: cause_views(self.causes@),
            count: self.count,
        }
    }
}

/// Whether two reports are of the same error: all fields but the count
/// agree.
pub open spec fn same_error(a: TrackedView, b: TrackedView) -> bool {
    &&& a.error_type == b.error_type
    &&& a.message == b.message
    &&& a.stack == b.stack
    &&& a.handled == b.handled
    &&& a.context == b.context
    &&& a.causes == b.causes
}

/// A cause in the identity of an error.
pub open spec fn cause_json(cause: CauseView) -> JsonView {
    JsonView::Object(
        map![
            "error_type"@ => JsonView::String(cause.error_type),
            "message"@ => string_or_null(cause.message),
            "stack"@ => JsonView::Array(string_items(cause.stack)),
        ],
    )
}

/// The attributes in the identity of an error.
pub open spec fn context_json(context: Option<Map<Seq<char>, JsonView>>) -> JsonView {
    match context {
        Some(map) => JsonView::Object(map),
        None => JsonView::Null,
    }
}

/// The identity of an error: all of it but the count.
pub open spec fn identity_json(error: TrackedView) -> JsonView {
    JsonView::Object(
        map![
            "error_type"@ => JsonView::String(error.error_type),
            "message"@ => string_or_null(error.message),
            "stack"@ => JsonView::Array(string_items(error.stack)),
            "handled"@ => JsonView::Bool(error.handled),
            "context"@ => context_json(error.context),
            "causes"@ => JsonView::Array(error.causes.map_values(|cause: CauseView| cause_json(cause))),
        ],
    )
}

/// The line that opens a cause in a reported stack.
pub open spec fn cause_header(cause: CauseView) -> Seq<char> {
    match cause.message {
        Some(message) => "Caused by: "@ + cause.error_type + ": "@ + message,
        None => "Caused by: "@ + cause.error_type,
    }
}

/// The lines of the causes in a reported stack: of each its header and then
/// its own frames.
pub open spec fn cause_lines(causes: Seq<CauseView>) -> Seq<Seq<char>>
    decreases causes.len(),
{
    if causes.len() == 0 {
        Seq::empty()
    } else {
        cause_lines(causes.drop_last()).push(cause_header(causes.last())) + causes.last().stack
    }
}

/// An error as it is submitted. A message or attributes are there only if
/// the error has them, the count only if it occurred more than once.
pub open spec fn error_json(error: TrackedView) -> JsonView {
    let base = Map::<Seq<char>, JsonView>::empty().insert(
        "error"@,
        JsonView::String(error.error_type),
    );
    let with_message = match error.message {
        Some(message) => base.insert("message"@, JsonView::String(message)),
        None => base,
    };
    let with_handled = with_message.insert(
        "stack"@,
        JsonView::Array(string_items(error.stack + cause_lines(error.causes))),
    ).insert("handled"@, JsonView::Bool(error.handled));
    let with_context = match error.context {
        Some(map) if map != Map::<Seq<char>, JsonView>::empty() => with_handled.insert(
            "context"@,
            JsonView::Object(map),
        ),
        _ => with_handled,
    };
    JsonView::Object(
        if error.count > 1 {
            with_context.insert(
                "count"@,
                JsonView::Number(Number::PosInt(error.count as u64)),
            )
        } else {
            with_context
        },
    )
}

proof fn lemma_string_items_injective(a: Seq<Seq<char>>, b: Seq<Seq<char>>)
    requires
        string_items(a) == string_items(b),
    ensures
        a == b,
{
    assert(a.len() == string_items(a).len());
    assert(b.len() == string_items(b).len());
    assert forall|i: int| 0 <= i < a.len() implies a[i] == b[i] by {
        assert(string_items(a)[i] == JsonView::String(a[i]));
        assert(string_items(b)[i] == JsonView::String(b[i]));
    }
    assert(a =~= b);
}

proof fn lemma_cause_json_injective(a: CauseView, b: CauseView)
    requires
        cause_json(a) == cause_json(b),
    ensures
        a == b,
{
    reveal_strlit("error_type");
    reveal_strlit("message");
    reveal_strlit("stack");
    assert("error_type"@.len() == 10 && "message"@.len() == 7 && "stack"@.len() == 5);
    let x = cause_json(a)->Object_0;
    let y = cause_json(b)->Object_0;
    assert(x["error_type"@] == y["error_type"@]);
    assert(x["message"@] == y["message"@]);
    assert(x["stack"@] == y["stack"@]);
    lemma_string_items_injective(a.stack, b.stack);
}

/// Two errors have the same identity exactly if they agree on type, message,
/// stack, handled flag, attributes and causes.
pub proof fn law_identity(a: TrackedView, b: TrackedView)
    ensures
        identity_json(a) == identity_json(b) <==> same_error(a, b),
{
    if identity_json(a) == identity_json(b) {
        reveal_strlit("error_type");
        reveal_strlit("message");
        reveal_strlit("stack");
        reveal_strlit("handled");
        reveal_strlit("context");
        reveal_strlit("causes");
        let x = identity_json(a)->Object_0;
        let y = identity_json(b)->Object_0;
        assert("error_type"@.len() == 10 && "stack"@.len() == 5 && "causes"@.len() == 6);
        assert("message"@.len() == 7 && "handled"@.len() == 7 && "context"@.len() == 7);
        assert("message"@[0] != "handled"@[0]);
        assert("message"@[0] != "context"@[0]);
        assert("handled"@[0] != "context"@[0]);
        assert(x["error_type"@] == y["error_type"@]);
        assert(x["message"@] == y["message"@]);
        assert(x["stack"@] == y["stack"@]);
        assert(x["handled"@] == y["handled"@]);
        assert(x["context"@] == y["context"@]);
        assert(x["causes"@] == y["causes"@]);
        lemma_string_items_injective(a.stack, b.stack);
        let p = a.causes.map_values(|cause: CauseView| cause_json(cause));
        let q = b.causes.map_values(|cause: CauseView| cause_json(cause));
        assert(p == q);
        assert(p.len() == a.causes.len());
        assert(q.len() == b.causes.len());
        assert forall|i: int| 0 <= i < a.causes.len() implies a.causes[i] == b.causes[i] by {
            assert(p[i] == cause_json(a.causes[i]));
            assert(q[i] == cause_json(b.causes[i]));
            lemma_cause_json_injective(a.causes[i], b.causes[i]);
        }
        assert(a.causes =~= b.causes);
    }
}

impl CauseFrame {
    fn to_json(&self) -> (r: JsonValue)
        ensures
            r@ == cause_json(self@),
    {
        let mut object = JsonMap::new();
        object.insert("error_type", JsonValue::string(self.error_type.as_str()));
        object.insert("message", JsonValue::optional_string(&self.message));
        object.insert("stack", JsonValue::strings(&self.stack));
        JsonValue::Object(object)
    }

    fn header(&self) -> (s: String)
        ensures
            s@ == cause_header(self@),
    {
        let mut s = "Caused by: ".to_owned();
        s.append(self.error_type.as_str());
        match &self.message {
            Some(message) => {
                s.append(": ");
                s.append(message.as_str());
            },
            None => {},
        }
        s
    }
}

impl TrackedError {
    /// The identity of the error: reports with the same identity are of the
    /// same error. The count is not part of it.
    pub fn identity(&self) -> (r: JsonValue)
        ensures
            r@ == identity_json(self@),
    {
        let context = match &self.context {
            Some(attributes) => JsonValue::Object(attributes.to_json_map()),
            None => JsonValue::Null,
        };
        let ghost expected = self@.causes.map_values(|cause: CauseView| cause_json(cause));
        let mut causes: Vec<JsonValue> = Vec::new();
        let mut i: usize = 0;
        while i < self.causes.len()
            invariant
                i <= self.causes@.len(),
                expected == self@.causes.map_values(|cause: CauseView| cause_json(cause)),
                items_view(causes@) == expected.take(i as int),
            decreases self.causes@.len() - i,
        {
            let cause = self.causes[i].to_json();
            proof {
                lemma_items_view_push(causes@, cause);
                assert(self@.causes[i as int] == self.causes@[i as int]@);
                assert(expected.take(i + 1) =~= expected.take(i as int).push(cause@));
            }
            causes.push(cause);
            i += 1;
        }
        assert(expected.take(i as int) =~= expected);
        let mut object = JsonMap::new();
        object.insert("error_type", JsonValue::string(self.error_type.as_str()));
        object.insert("message", JsonValue::optional_string(&self.message));
        object.insert("stack", JsonValue::strings(&self.stack));
        object.insert("handled", JsonValue::Bool(self.handled));
        object.insert("context", context);
        object.insert("causes", JsonValue::Array(causes));
        JsonValue::Object(object)
    }

    /// The error as it is submitted. The causes follow the frames in the
    /// same `stack` array, each as a `Caused by: <type>: <message>` line and
    /// its own frames.
    pub fn to_json(&self) -> (r: JsonValue)
        ensures
            r@ == error_json(self@),
    {
        let mut object = JsonMap::new();
        object.insert("error", JsonValue::string(self.error_type.as_str()));
        match &self.message {
            Some(message) => object.insert("message", JsonValue::string(message.as_str())),
            None => {},
        }
        object.insert("stack", self.stack_json());
        object.insert("handled", JsonValue::Bool(self.handled));
        match &self.context {
            Some(context) => if !context.is_empty() {
                object.insert("context", JsonValue::Object(context.to_json_map()));
            },
            None => {},
        }
        if self.count > 1 {
            object.insert("count", JsonValue::unsigned(self.count as u64));
        }
        JsonValue::Object(object)
    }

    fn stack_json(&self) -> (r: JsonValue)
        ensures
            r@ == JsonView::Array(string_items(self@.stack + cause_lines(self@.causes))),
    {
        let mut stack: Vec<JsonValue> = Vec::new();
        push_strings(&mut stack, &self.stack);
        let ghost causes = self@.causes;
        let mut i: usize = 0;
        assert(items_view(stack@) =~= string_items(self@.stack + cause_lines(causes.take(0))));
        while i < self.causes.len()
            invariant
                i <= self.causes@.len(),
                causes == self@.causes,
                items_view(stack@) == string_items(
                    self@.stack + cause_lines(causes.take(i as int)),
                ),
            decreases self.causes@.len() - i,
        {
            let cause = &self.causes[i];
            let ghost next = causes.take(i + 1);
            let header = JsonValue::String(cause.header());
            proof {
                lemma_items_view_push(stack@, header);
                assert(next.drop_last() =~= causes.take(i as int));
                assert(causes[i as int] == cause@);
            }
            stack.push(header);
            push_strings(&mut stack, &cause.stack);
            i += 1;
            assert(items_view(stack@) =~= string_items(self@.stack + cause_lines(next)));
        }
        assert(causes.take(i as int) =~= causes);
        JsonValue::Array(stack)
    }
}

impl Clone for CauseFrame {
    fn clone(&self) -> (r: Self)
        ensures
            r@ == self@,
    {
        CauseFrame {
            error_type: self.error_type.clone(),
            message: self.message.clone(),
            stack: clone_strings(&self.stack),
        }
    }
}

impl PartialEq for CauseFrame {
    fn eq(&self, other: &Self) -> (r: bool) {
        let same_message = match (&self.message, &other.message) {
            (Some(a), Some(b)) => *a == *b,
            (None, None) => true,
            _ => false,
        };
        same_message && self.error_type == other.error_type && equal_strings(
            &self.stack,
            &other.stack,
        )
    }
}

impl vstd::std_specs::cmp::PartialEqSpecImpl for CauseFrame {
    open spec fn obeys_eq_spec() -> bool {
        true
    }

    open spec fn eq_spec(&self, other: &Self) -> bool {
        self@ == other@
    }
}

impl Clone for TrackedError {
    fn clone(&self) -> (r: Self)
        ensures
            r@ == self@,
    {
        let mut causes: Vec<CauseFrame> = Vec::new();
        let mut i: usize = 0;
        while i < self.causes.len()
            invariant
                i <= self.causes@.len(),
                cause_views(causes@) == cause_views(self.causes@).take(i as int),
            decreases self.causes@.len() - i,
        {
            let cause = self.causes[i].clone();
            let ghost views = cause_views(self.causes@);
            proof {
                assert(views.take(i + 1) =~= views.take(i as int).push(cause@));
                assert(cause_views(causes@.push(cause)) =~= cause_views(causes@).push(cause@));
            }
            causes.push(cause);
            i += 1;
        }
        assert(cause_views(self.causes@).take(i as int) =~= cause_views(self.causes@));
        TrackedError {
            error_type: self.error_type.clone(),
            message: self.message.clone(),
            stack: clone_strings(&self.stack),
            handled: self.handled,
            context: match &self.context {
                Some(context) => Some(context.clone()),
                None => None,
            },
            causes,
            count: self.count,
        }
    }
}

/// A rule that keeps matching errors from ever being tracked.
#[derive(Debug)]
pub enum IgnoreRule {
    /// Ignore every error whose type exactly matches.
    Type(String),
    /// Ignore every error whose message matches the pattern. An error
    /// without a message never matches.
    MessagePattern(Pattern),
    /// Ignore only errors that match both the type and the pattern.
    TypeAndPattern(String, Pattern),
}

/// Whether the message is there and matches the pattern.
pub open spec fn message_matches(pattern: Seq<char>, message: Option<Seq<char>>) -> bool {
    message is Some && regex_is_match(pattern, message->0)
}

/// Whether the rule matches an error of this type and message.
pub open spec fn rule_matches(
    rule: IgnoreRule,
    error_type: Seq<char>,
    message: Option<Seq<char>>,
) -> bool {
    match rule {
        IgnoreRule::Type(t) => t@ == error_type,
        IgnoreRule::MessagePattern(pattern) => message_matches(pattern@, message),
        IgnoreRule::TypeAndPattern(t, pattern) => t@ == error_type && message_matches(
            pattern@,
            message,
        ),
    }
}

/// Whether any of the rules matches.
pub open spec fn is_ignored(
    rules: Seq<IgnoreRule>,
    error_type: Seq<char>,
    message: Option<Seq<char>>,
) -> bool {
    exists|i: int| 0 <= i < rules.len() && rule_matches(#[trigger] rules[i], error_type, message)
}

impl IgnoreRule {
    /// Whether the rule matches an error of this type and message.
    pub fn matches(&self, error_type: &str, message: Option<&str>) -> (r: bool)
        ensures
            r == rule_matches(*self, error_type@, opt_str(message)),
    {
        match self {
            IgnoreRule::Type(t) => equal(t.as_str(), error_type),
            IgnoreRule::MessagePattern(pattern) => matches_message(pattern, message),
            IgnoreRule::TypeAndPattern(t, pattern) => equal(t.as_str(), error_type)
                && matches_message(pattern, message),
        }
    }
}

fn matches_message(pattern: &Pattern, message: Option<&str>) -> (r: bool)
    ensures
        r == message_matches(pattern@, opt_str(message)),
{
    match message {
        Some(m) => pattern.is_match(m),
        None => false,
    }
}

/// Whether one of the pending errors is the same error.
pub open spec fn is_pending(pending: Seq<TrackedView>, error: TrackedView) -> bool {
    exists|i: int| 0 <= i < pending.len() && same_error(#[trigger] pending[i], error)
}

/// The error with one more occurrence; the count stops at its limit.
pub open spec fn counted_again(error: TrackedView) -> TrackedView {
    TrackedView {
        count: if error.count < u32::MAX {
            (error.count + 1) as u32
        } else {
            u32::MAX
        },
        ..error
    }
}

/// The pending errors after one more report: counted again if the error is
/// pending already, else at the end.
pub open spec fn with_report(pending: Seq<TrackedView>, error: TrackedView) -> Seq<TrackedView> {
    if is_pending(pending, error) {
        pending.map_values(
            |p: TrackedView|
                if same_error(p, error) {
                    counted_again(p)
                } else {
                    p
                },
        )
    } else {
        pending.push(error)
    }
}

/// Whether no two of the errors are the same.
pub open spec fn all_distinct(pending: Seq<TrackedView>) -> bool {
    forall|i: int, j: int|
        0 <= i < j < pending.len() ==> !same_error(#[trigger] pending[i], #[trigger] pending[j])
}

/// A pending error beside its identity.
#[derive(Debug)]
struct Pending {
    identity: JsonValue,
    error: TrackedError,
}

/// The tracking table: pending errors, each of them once, in the order in
/// which they were first seen, and the ignore rules.
#[derive(Debug)]
pub struct Tracker {
    ignore_rules: Vec<IgnoreRule>,
    pending: Vec<Pending>,
}

spec fn pending_views(pending: Seq<Pending>) -> Seq<TrackedView> {
    pending.map_values(|p: Pending| p.error@)
}

/// The errors, one by one.
pub open spec fn error_views(errors: Seq<TrackedError>) -> Seq<TrackedView> {
    errors.map_values(|e: TrackedError| e@)
}

impl Tracker {
    #[verifier::type_invariant]
    spec fn well_formed(self) -> bool {
        &&& all_distinct(pending_views(self.pending@))
        &&& forall|i: int|
            0 <= i < self.pending@.len() ==> (#[trigger] self.pending@[i]).identity@
                == identity_json(self.pending@[i].error@)
    }

    /// The rules, in the order in which they were added.
    pub closed spec fn rules(self) -> Seq<IgnoreRule> {
        self.ignore_rules@
    }

    /// The pending errors, in the order in which they were first seen.
    pub closed spec fn pending(self) -> Seq<TrackedView> {
        pending_views(self.pending@)
    }

    /// Creates a table without rules or errors.
    pub fn new() -> (r: Self)
        ensures
            r.rules() == Seq::<IgnoreRule>::empty(),
            r.pending() == Seq::<TrackedView>::empty(),
    {
        let r = Tracker { ignore_rules: Vec::new(), pending: Vec::new() };
        assert(r.pending() =~= Seq::<TrackedView>::empty());
        r
    }

    /// Adds an ignore rule. Rules are checked in the order in which they
    /// were added; the first match suppresses the error.
    pub fn add_ignore_rule(&mut self, rule: IgnoreRule)
        ensures
            final(self).rules() == old(self).rules().push(rule),
            final(self).pending() == old(self).pending(),
    {
        proof {
            use_type_invariant(&*self);
        }
        let mut rules: Vec<IgnoreRule> = Vec::new();
        std::mem::swap(&mut rules, &mut self.ignore_rules);
        rules.push(rule);
        self.ignore_rules = rules;
    }

    /// Whether an error of this type and message is suppressed.
    pub fn is_ignored(&self, error_type: &str, message: Option<&str>) -> (r: bool)
        ensures
            r == is_ignored(self.rules(), error_type@, opt_str(message)),
    {
        let mut i: usize = 0;
        while i < self.ignore_rules.len()
            invariant
                i <= self.ignore_rules@.len(),
                forall|j: int|
                    0 <= j < i ==> !rule_matches(
                        #[trigger] self.ignore_rules@[j],
                        error_type@,
                        opt_str(message),
                    ),
            decreases self.ignore_rules@.len() - i,
        {
            if self.ignore_rules[i].matches(error_type, message) {
                assert(rule_matches(self.rules()[i as int], error_type@, opt_str(message)));
                return true;
            }
            i += 1;
        }
        false
    }

    fn find(&self, identity: &JsonValue) -> (r: Option<usize>)
        ensures
            match r {
                Some(i) => i < self.pending@.len() && self.pending@[i as int].identity@
                    == identity@,
                None => forall|i: int|
                    0 <= i < self.pending@.len() ==> (#[trigger] self.pending@[i]).identity@
                        != identity@,
            },
    {
        let mut i: usize = 0;
        while i < self.pending.len()
            invariant
                i <= self.pending@.len(),
                forall|j: int|
                    0 <= j < i ==> (#[trigger] self.pending@[j]).identity@ != identity@,
            decreases self.pending@.len() - i,
        {
            if self.pending[i].identity.same(identity) {
                return Some(i);
            }
            i += 1;
        }
        None
    }

    /// Records an already normalized error: counts it again if it is
    /// pending, and adds it otherwise. Returns `false`, and records nothing,
    /// if an ignore rule matches.
    pub fn track(&mut self, error: TrackedError) -> (r: bool)
        ensures
            r == !is_ignored(old(self).rules(), error@.error_type, error@.message),
            final(self).rules() == old(self).rules(),
            final(self).pending() == if r {
                with_report(old(self).pending(), error@)
            } else {
                old(self).pending()
            },
    {
        let message = match &error.message {
            Some(m) => Some(m.as_str()),
            None => None,
        };
        if self.is_ignored(error.error_type.as_str(), message) {
            return false;
        }
        proof {
            use_type_invariant(&*self);
        }
        let identity = error.identity();
        let found = self.find(&identity);
        let ghost before = self.pending@;
        let ghost views = pending_views(before);
        let mut pending: Vec<Pending> = Vec::new();
        std::mem::swap(&mut pending, &mut self.pending);
        proof {
            assert forall|i: int| 0 <= i < before.len() implies (#[trigger] before[i]).identity@
                == identity@ <==> same_error(views[i], error@) by {
                law_identity(views[i], error@);
            }
        }
        match found {
            Some(i) => {
                assert(same_error(views[i as int], error@));
                let mut entry = pending.remove(i);
                if entry.error.count < u32::MAX {
                    entry.error.count = entry.error.count + 1;
                }
                pending.insert(i, entry);
                proof {
                    let after = pending_views(pending@);
                    assert forall|j: int| 0 <= j < views.len() && j != i implies !same_error(
                        #[trigger] views[j],
                        error@,
                    ) by {
                        if same_error(views[j], error@) {
                            assert(same_error(views[j], views[i as int]));
                            assert(same_error(views[i as int], views[j]));
                        }
                    }
                    assert(after =~= with_report(views, error@));
                    assert forall|a: int, b: int| 0 <= a < b < after.len() implies !same_error(
                        #[trigger] after[a],
                        #[trigger] after[b],
                    ) by {
                        assert(!same_error(views[a], views[b]));
                    }
                    assert forall|j: int| 0 <= j < pending@.len() implies (
                    #[trigger] pending@[j]).identity@ == identity_json(pending@[j].error@) by {
                        assert(before[j].identity@ == identity_json(before[j].error@));
                        law_identity(before[j].error@, pending@[j].error@);
                    }
                }
            },
            None => {
                let entry = Pending { identity, error };
                pending.push(entry);
                proof {
                    let after = pending_views(pending@);
                    assert forall|j: int| 0 <= j < views.len() implies !same_error(
                        #[trigger] views[j],
                        error@,
                    ) by {
                        assert(before[j].identity@ != identity@);
                    }
                    assert(after =~= views.push(error@));
                    assert forall|a: int, b: int| 0 <= a < b < after.len() implies !same_error(
                        #[trigger] after[a],
                        #[trigger] after[b],
                    ) by {
                        assert(views[a] == after[a]);
                    }
                }
            },
        }
        self.pending = pending;
        true
    }

    /// Whether there are no pending errors.
    pub fn is_empty(&self) -> (r: bool)
        ensures
            r == (self.pending().len() == 0),
    {
        self.pending.len() == 0
    }

    /// Takes out all pending errors, in the order in which they were first
    /// seen. The table starts over; the rules stay.
    pub fn drain(&mut self) -> (r: Vec<TrackedError>)
        ensures
            error_views(r@) == old(self).pending(),
            all_distinct(error_views(r@)),
            final(self).pending() == Seq::<TrackedView>::empty(),
            final(self).rules() == old(self).rules(),
    {
        proof {
            use_type_invariant(&*self);
        }
        let mut pending: Vec<Pending> = Vec::new();
        std::mem::swap(&mut pending, &mut self.pending);
        let ghost all = pending_views(pending@);
        let mut r: Vec<TrackedError> = Vec::new();
        assert(all.take(0) =~= error_views(r@));
        while pending.len() > 0
            invariant
                error_views(r@) + pending_views(pending@) == all,
            decreases pending@.len(),
        {
            let ghost before = pending_views(pending@);
            let ghost taken = error_views(r@);
            let entry = pending.remove(0);
            r.push(entry.error);
            proof {
                assert(error_views(r@) =~= taken.push(before[0]));
                assert(pending_views(pending@) =~= before.skip(1));
                assert(error_views(r@) + pending_views(pending@) =~= taken + before);
            }
        }
        proof {
            assert(error_views(r@) =~= all);
            assert(final(self).pending() =~= Seq::<TrackedView>::empty());
        }
        r
    }
}

impl Default for Tracker {
    fn default() -> (r: Self)
        ensures
            r.rules() == Seq::<IgnoreRule>::empty(),
            r.pending() == Seq::<TrackedView>::empty(),
    {
        Tracker::new()
    }
}

/// A report of a pending error is counted where the error stands, and adds
/// no entry; a report twice in a row is one entry.
pub proof fn law_repeat_is_counted(pending: Seq<TrackedView>, error: TrackedView)
    ensures
        is_pending(pending, error) ==> with_report(pending, error).len() == pending.len() && forall|
            i: int,
        |
            0 <= i < pending.len() ==> #[trigger] with_report(pending, error)[i] == if same_error(
                pending[i],
                error,
            ) {
                counted_again(pending[i])
            } else {
                pending[i]
            },
        is_pending(with_report(pending, error), error),
        with_report(with_report(pending, error), error).len() == with_report(pending, error).len(),
{
    let after = with_report(pending, error);
    if is_pending(pending, error) {
        let i = choose|i: int| 0 <= i < pending.len() && same_error(#[trigger] pending[i], error);
        assert(same_error(after[i], error));
    } else {
        assert(same_error(after[pending.len() as int], error));
    }
}

/// A report moves no pending error and takes none away: each stays where it
/// was first seen, and a new one goes to the end.
pub proof fn law_first_seen_order_is_kept(pending: Seq<TrackedView>, error: TrackedView)
    ensures
        pending.len() <= with_report(pending, error).len() <= pending.len() + 1,
        forall|i: int|
            0 <= i < pending.len() ==> same_error(
                pending[i],
                #[trigger] with_report(pending, error)[i],
            ),
        !is_pending(pending, error) ==> with_report(pending, error).last() == error,
{
}

/// No error is pending twice.
pub proof fn law_pending_errors_are_distinct(pending: Seq<TrackedView>, error: TrackedView)
    requires
        all_distinct(pending),
    ensures
        all_distinct(with_report(pending, error)),
{
    let after = with_report(pending, error);
    assert forall|i: int, j: int| 0 <= i < j < after.len() implies !same_error(
        #[trigger] after[i],
        #[trigger] after[j],
    ) by {
        if j < pending.len() {
            assert(!same_error(pending[i], pending[j]));
        } else {
            assert(!same_error(pending[i], error));
        }
    }
}

/// How many occurrences of errors are pending.
pub open spec fn occurrences(pending: Seq<TrackedView>) -> nat
    decreases pending.len(),
{
    if pending.len() == 0 {
        0
    } else {
        occurrences(pending.drop_last()) + pending.last().count as nat
    }
}

/// Every report is counted: it adds one occurrence, as long as no count has
/// reached its limit.
pub proof fn law_reports_add_up(pending: Seq<TrackedView>, error: TrackedView)
    requires
        all_distinct(pending),
        error.count == 1,
        forall|i: int| 0 <= i < pending.len() ==> (#[trigger] pending[i]).count < u32::MAX,
    ensures
        occurrences(with_report(pending, error)) == occurrences(pending) + 1,
    decreases pending.len(),
{
    let after = with_report(pending, error);
    if !is_pending(pending, error) {
        assert(after.drop_last() =~= pending);
    } else {
        let front = pending.drop_last();
        let last = pending.last();
        let n = front.len() as int;
        assert(all_distinct(front)) by {
            assert forall|i: int, j: int| 0 <= i < j < front.len() implies !same_error(
                #[trigger] front[i],
                #[trigger] front[j],
            ) by {
                assert(!same_error(pending[i], pending[j]));
            }
        }
        if same_error(last, error) {
            assert forall|i: int| 0 <= i < n implies after[i] == front[i] by {
                assert(!same_error(pending[i], pending[n]));
            }
            assert(after.drop_last() =~= front);
        } else {
            let i = choose|i: int|
                0 <= i < pending.len() && same_error(#[trigger] pending[i], error);
            assert(same_error(front[i], error));
            law_reports_add_up(front, error);
            assert(after.drop_last() =~= with_report(front, error));
        }
    }
}

/// The pending errors after several reports, one after another.
pub open spec fn after_reports(pending: Seq<TrackedView>, reports: Seq<TrackedView>) -> Seq<
    TrackedView,
>
    decreases reports.len(),
{
    if reports.len() == 0 {
        pending
    } else {
        with_report(after_reports(pending, reports.drop_last()), reports.last())
    }
}

/// The reports that are the first ones of their error, in order.
pub open spec fn first_seen(reports: Seq<TrackedView>) -> Seq<TrackedView>
    decreases reports.len(),
{
    if reports.len() == 0 {
        reports
    } else if is_pending(reports.drop_last(), reports.last()) {
        first_seen(reports.drop_last())
    } else {
        first_seen(reports.drop_last()).push(reports.last())
    }
}

/// How many of the reports are of this error.
pub open spec fn reports_of(reports: Seq<TrackedView>, error: TrackedView) -> nat
    decreases reports.len(),
{
    if reports.len() == 0 {
        0
    } else {
        reports_of(reports.drop_last(), error) + if same_error(reports.last(), error) {
            1nat
        } else {
            0nat
        }
    }
}

/// Each error that was reported once, in the order in which they were first
/// reported, with the number of its reports; the number stops at its limit.
pub open spec fn summary(reports: Seq<TrackedView>) -> Seq<TrackedView> {
    first_seen(reports).map_values(
        |first: TrackedView|
            TrackedView {
                count: if reports_of(reports, first) <= u32::MAX {
                    reports_of(reports, first) as u32
                } else {
                    u32::MAX
                },
                ..first
            },
    )
}

/// An error is among the first reports exactly if it was reported.
proof fn lemma_first_seen(reports: Seq<TrackedView>, error: TrackedView)
    ensures
        is_pending(first_seen(reports), error) <==> is_pending(reports, error),
        is_pending(reports, error) <==> reports_of(reports, error) > 0,
    decreases reports.len(),
{
    if reports.len() > 0 {
        let front = reports.drop_last();
        let last = reports.last();
        let firsts = first_seen(front);
        lemma_first_seen(front, error);
        lemma_first_seen(front, last);
        if is_pending(front, error) {
            let i = choose|i: int| 0 <= i < front.len() && same_error(#[trigger] front[i], error);
            assert(same_error(reports[i], error));
            let j = choose|j: int| 0 <= j < firsts.len() && same_error(#[trigger] firsts[j], error);
            assert(same_error(first_seen(reports)[j], error));
        }
        if same_error(last, error) {
            assert(same_error(reports[front.len() as int], error));
            if is_pending(front, last) {
                let i = choose|i: int| 0 <= i < front.len() && same_error(#[trigger] front[i], last);
                assert(same_error(front[i], error));
            } else {
                assert(same_error(first_seen(reports)[firsts.len() as int], error));
            }
        }
        if is_pending(reports, error) && !same_error(last, error) {
            let i = choose|i: int|
                0 <= i < reports.len() && same_error(#[trigger] reports[i], error);
            assert(same_error(front[i], error));
        }
        if is_pending(first_seen(reports), error) && !same_error(last, error) {
            let j = choose|j: int|
                0 <= j < first_seen(reports).len() && same_error(
                    #[trigger] first_seen(reports)[j],
                    error,
                );
            assert(same_error(firsts[j], error));
        }
    }
}

/// No error has more reports than there are.
proof fn lemma_reports_of_bounded(reports: Seq<TrackedView>, error: TrackedView)
    ensures
        reports_of(reports, error) <= reports.len(),
    decreases reports.len(),
{
    if reports.len() > 0 {
        lemma_reports_of_bounded(reports.drop_last(), error);
    }
}

/// Whatever is reported, from one drain to the next: what is pending, and so
/// what a drain hands out, is one entry for each error among the reports, in
/// the order in which these were first reported, counted as often as it was
/// reported.
pub proof fn law_drain_gives_each_error_once(reports: Seq<TrackedView>)
    requires
        forall|i: int| 0 <= i < reports.len() ==> (#[trigger] reports[i]).count == 1,
    ensures
        after_reports(Seq::empty(), reports) == summary(reports),
        all_distinct(summary(reports)),
        forall|error: TrackedView| #[trigger]
            is_pending(summary(reports), error) <==> is_pending(reports, error),
        reports.len() <= u32::MAX ==> occurrences(summary(reports)) == reports.len(),
    decreases reports.len(),
{
    let all = summary(reports);
    if reports.len() == 0 {
        assert(all =~= Seq::empty());
    } else {
        let front = reports.drop_last();
        let last = reports.last();
        let before = summary(front);
        let firsts = first_seen(front);
        assert forall|i: int| 0 <= i < front.len() implies (#[trigger] front[i]).count == 1 by {
            assert(front[i] == reports[i]);
        }
        law_drain_gives_each_error_once(front);
        lemma_first_seen(front, last);
        assert(is_pending(before, last) <==> is_pending(front, last));
        assert forall|i: int| 0 <= i < firsts.len() implies same_error(
            #[trigger] before[i],
            firsts[i],
        ) by {}
        assert forall|i: int| 0 <= i < firsts.len() implies reports_of(
            reports,
            #[trigger] firsts[i],
        ) == reports_of(front, firsts[i]) + if same_error(firsts[i], last) {
            1nat
        } else {
            0nat
        } by {}
        if is_pending(front, last) {
            assert(with_report(before, last) =~= all);
        } else {
            assert forall|i: int| 0 <= i < firsts.len() implies !same_error(
                #[trigger] firsts[i],
                last,
            ) by {
                assert(!same_error(before[i], last));
            }
            assert(reports_of(reports, last) == 1);
            assert(with_report(before, last) =~= all);
        }
        law_pending_errors_are_distinct(before, last);
        if reports.len() <= u32::MAX {
            assert forall|i: int| 0 <= i < before.len() implies (#[trigger] before[i]).count
                < u32::MAX by {
                lemma_reports_of_bounded(front, firsts[i]);
            }
            law_reports_add_up(before, last);
        }
    }
    assert forall|error: TrackedView| #[trigger]
        is_pending(all, error) <==> is_pending(reports, error) by {
        lemma_first_seen(reports, error);
        let firsts = first_seen(reports);
        if is_pending(all, error) {
            let i = choose|i: int| 0 <= i < all.len() && same_error(#[trigger] all[i], error);
            assert(same_error(firsts[i], error));
        }
        if is_pending(firsts, error) {
            let i = choose|i: int| 0 <= i < firsts.len() && same_error(#[trigger] firsts[i], error);
            assert(same_error(all[i], error));
        }
    }
}

/// A submitted error has a message, attributes or a count exactly if it has
/// something to say there.
pub proof fn law_optional_fields(error: TrackedView)
    ensures
        error_json(error)->Object_0.contains_key("message"@) <==> error.message is Some,
        error_json(error)->Object_0.contains_key("count"@) <==> error.count > 1,
        error_json(error)->Object_0.contains_key("context"@) <==> error.context is Some
            && error.context->0 != Map::<Seq<char>, JsonView>::empty(),
{
    reveal_strlit("error");
    reveal_strlit("message");
    reveal_strlit("stack");
    reveal_strlit("handled");
    reveal_strlit("context");
    reveal_strlit("count");
    assert("error"@.len() == 5 && "stack"@.len() == 5 && "count"@.len() == 5);
    assert("message"@.len() == 7 && "handled"@.len() == 7 && "context"@.len() == 7);
    assert("message"@[0] == 'm' && "handled"@[0] == 'h' && "context"@[0] == 'c');
    assert("error"@[0] == 'e' && "stack"@[0] == 's' && "count"@[0] == 'c');
}

} // verus!
