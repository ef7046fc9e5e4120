//! The feature flag service. A fetched value is kept for a time that is the
//! same for all flags; requests are plain JSON; a failed fetch is an error
//! and never falls back to the default value; and fetches of the same flag
//! at the same time share one request and one outcome.

use std::sync::Arc;

use vstd::prelude::*;

use super::cache::{is_fresh, CachedValue, CachedView};
use super::flag::{FeatureFlag, FeatureFlagView};
use super::value::{flag_of_json, same_flag, FlagValue, FlagView};
use crate::domain::attributes::Attributes;
use crate::domain::server_id::{hyphenated, ServerId};
use crate::error::{error_text, refused, Error, ErrorView};
use crate::json::{json_of_text, json_text, json_tree, plain, read_tree, tree_get, tree_text};
use crate::text::opt_str;
use crate::transport::{
    body_text, header_texts, join_server_url, joined_url, json_headers, plain_body,
    resolve_server_url, resolved_url, status_text, Request, SubmissionOutcome, Transport, TransportView, Url,
};
use crate::validated::id::Id;
use crate::value::{JsonMap, JsonValue, JsonView};

verus! {

/// The path that a flag's value is fetched from.
pub const CHECK_PATH: &'static str = "/v1/check";

/// The path that opts in to a flag.
pub const OPT_IN_PATH: &'static str = "/v1/opt-in";

/// The path that opts out of a flag.
pub const OPT_OUT_PATH: &'static str = "/v1/opt-out";

/// The environment variable that overrides the feature flag server.
pub const FLAGS_SERVER_ENV: &'static str = "FASTSTATS_FLAGS_SERVER";

/// The feature flag server.
pub const DEFAULT_FLAGS_SERVER: &'static str = "https://flags.faststats.dev";

/// For how long a fetched value is valid by default, in nanoseconds (5
/// minutes).
pub const DEFAULT_TTL: u128 = 5 * 60 * 1_000_000_000;

/// Builds a [`FeatureFlags`] instance.
pub struct Factory {
    flags: Vec<FeatureFlag>,
    attributes: Option<Attributes>,
    ttl: u128,
}

/// What a [`Factory`] holds.
pub struct FactoryView {
    pub flags: Seq<FeatureFlagView>,
    pub attributes: Option<Map<Seq<char>, JsonView>>,
    pub ttl: u128,
}

/// The flags, one by one.
pub open spec fn flag_views(flags: Seq<FeatureFlag>) -> Seq<FeatureFlagView> {
    flags.map_values(|flag: FeatureFlag| flag@)
}

/// What attributes that may be missing hold.
pub open spec fn held_attributes(attributes: Option<Attributes>) -> Option<
    Map<Seq<char>, JsonView>,
> {
    match attributes {
        Some(a) => Some(a@),
        None => None,
    }
}

/// Whether one of the flags has this id.
pub open spec fn has_flag(flags: Seq<FeatureFlagView>, id: Seq<char>) -> bool {
    exists|i: int| 0 <= i < flags.len() && (#[trigger] flags[i]).id == id
}

/// Whether no two of the flags have the same id.
pub open spec fn distinct_flags(flags: Seq<FeatureFlagView>) -> bool {
    forall|i: int, j: int|
        0 <= i < j < flags.len() ==> (#[trigger] flags[i]).id != (#[trigger] flags[j]).id
}

impl View for Factory {
    type V = FactoryView;

    closed spec fn view(&self) -> FactoryView {
        FactoryView {
            flags: flag_views(self.flags@),
            attributes: held_attributes(self.attributes),
            ttl: self.ttl,
        }
    }
}

/// What the service knows of one flag.
pub struct FlagEntry {
    pub flag: FeatureFlagView,
    pub cached: Option<CachedView>,
    pub in_progress: bool,
}

/// A flag, what was fetched for it, and whether a fetch is in progress.
struct FlagState {
    flag: FeatureFlag,
    cached: Option<CachedValue>,
    in_progress: bool,
}

impl FlagState {
    spec fn entry(self) -> FlagEntry {
        FlagEntry {
            flag: self.flag@,
            cached: match self.cached {
                Some(cached) => Some(cached@),
                None => None,
            },
            in_progress: self.in_progress,
        }
    }
}

spec fn distinct_states(states: Seq<FlagState>) -> bool {
    forall|i: int, j: int|
        0 <= i < j < states.len() ==> (#[trigger] states[i]).flag@.id != (
        #[trigger] states[j]).flag@.id
}

/// The states by the ids of their flags.
spec fn states_map(states: Seq<FlagState>) -> Map<Seq<char>, FlagEntry>
    decreases states.len(),
{
    if states.len() == 0 {
        Map::empty()
    } else {
        states_map(states.drop_last()).insert(states.last().flag@.id, states.last().entry())
    }
}

/// The entries of flags before anything was fetched, by their ids.
pub open spec fn fresh_entries(flags: Seq<FeatureFlagView>) -> Map<Seq<char>, FlagEntry>
    decreases flags.len(),
{
    if flags.len() == 0 {
        Map::empty()
    } else {
        fresh_entries(flags.drop_last()).insert(
            flags.last().id,
            FlagEntry { flag: flags.last(), cached: None, in_progress: false },
        )
    }
}

proof fn lemma_states_map(states: Seq<FlagState>)
    requires
        distinct_states(states),
    ensures
        forall|i: int|
            0 <= i < states.len() ==> states_map(states).contains_key(
                (#[trigger] states[i]).flag@.id,
            ) && states_map(states)[states[i].flag@.id] == states[i].entry(),
        forall|id: Seq<char>| #[trigger]
            states_map(states).contains_key(id) ==> exists|i: int|
                0 <= i < states.len() && (#[trigger] states[i]).flag@.id == id,
    decreases states.len(),
{
    if states.len() > 0 {
        let front = states.drop_last();
        let last = states.last();
        assert forall|i: int, j: int| 0 <= i < j < front.len() implies (
        #[trigger] front[i]).flag@.id != (#[trigger] front[j]).flag@.id by {
            assert(front[i] == states[i] && front[j] == states[j]);
        }
        lemma_states_map(front);
        assert forall|i: int| 0 <= i < states.len() implies states_map(states).contains_key(
            (#[trigger] states[i]).flag@.id,
        ) && states_map(states)[states[i].flag@.id] == states[i].entry() by {
            if i < front.len() {
                assert(front[i] == states[i]);
                assert(states[i].flag@.id != states[states.len() - 1].flag@.id);
            }
        }
        assert forall|id: Seq<char>| #[trigger] states_map(states).contains_key(id) implies exists|
            i: int,
        | 0 <= i < states.len() && (#[trigger] states[i]).flag@.id == id by {
            if id == last.flag@.id {
                assert(states[states.len() - 1].flag@.id == id);
            } else {
                let i = choose|i: int| 0 <= i < front.len() && (#[trigger] front[i]).flag@.id == id;
                assert(states[i].flag@.id == id);
            }
        }
    }
}

proof fn lemma_states_map_update(states: Seq<FlagState>, i: int, state: FlagState)
    requires
        distinct_states(states),
        0 <= i < states.len(),
        state.flag@.id == states[i].flag@.id,
    ensures
        distinct_states(states.update(i, state)),
        states_map(states.update(i, state)) == states_map(states).insert(
            state.flag@.id,
            state.entry(),
        ),
{
    let changed = states.update(i, state);
    assert forall|a: int, b: int| 0 <= a < b < changed.len() implies (
    #[trigger] changed[a]).flag@.id != (#[trigger] changed[b]).flag@.id by {
        assert(states[a].flag@.id != states[b].flag@.id);
    }
    lemma_states_map(states);
    lemma_states_map(changed);
    let before = states_map(states);
    let after = states_map(changed);
    let expected = before.insert(state.flag@.id, state.entry());
    assert forall|id: Seq<char>| after.contains_key(id) <==> #[trigger] expected.contains_key(
        id,
    ) by {
        if after.contains_key(id) {
            let j = choose|j: int| 0 <= j < changed.len() && (#[trigger] changed[j]).flag@.id == id;
            assert(states[j].flag@.id == id);
        }
        if before.contains_key(id) {
            let j = choose|j: int| 0 <= j < states.len() && (#[trigger] states[j]).flag@.id == id;
            assert(changed[j].flag@.id == id);
        }
        assert(changed[i].flag@.id == state.flag@.id);
    }
    assert forall|id: Seq<char>| after.contains_key(id) implies #[trigger] after[id]
        == expected[id] by {
        let j = choose|j: int| 0 <= j < changed.len() && (#[trigger] changed[j]).flag@.id == id;
        if j != i {
            assert(changed[j] == states[j]);
            if j < i {
                assert(states[j].flag@.id != states[i].flag@.id);
            } else {
                assert(states[i].flag@.id != states[j].flag@.id);
            }
        }
    }
    assert(after =~= expected);
}

impl Factory {
    #[verifier::type_invariant]
    spec fn well_formed(self) -> bool {
        distinct_flags(flag_views(self.flags@))
    }

    /// Creates a factory without flags.
    pub fn new() -> (r: Self)
        ensures
            r@ == (FactoryView { flags: seq![], attributes: None, ttl: DEFAULT_TTL }),
    {
        let r = Factory { flags: Vec::new(), attributes: None, ttl: DEFAULT_TTL };
        assert(r@.flags =~= seq![]);
        r
    }

    /// Registers a flag. Refuses one with an id that was added already.
    pub fn add_flag(self, flag: FeatureFlag) -> (r: Result<Self, Error>)
        ensures
            match r {
                Ok(factory) => !has_flag(self@.flags, flag@.id) && factory@ == (FactoryView {
                    flags: self@.flags.push(flag@),
                    ..self@
                }),
                Err(e) => has_flag(self@.flags, flag@.id) && e@ == refused(
                    "feature flag id"@,
                    "flag already added: "@ + flag@.id,
                ),
            },
    {
        proof {
            use_type_invariant(&self);
        }
        let mut i: usize = 0;
        while i < self.flags.len()
            invariant
                i <= self.flags@.len(),
                forall|j: int| 0 <= j < i ==> (#[trigger] self@.flags[j]).id != flag@.id,
            decreases self.flags@.len() - i,
        {
            if *self.flags[i].id() == *flag.id() {
                assert(self@.flags[i as int].id == flag@.id);
                let mut reason = "flag already added: ".to_owned();
                reason.append(flag.id().as_str());
                return Err(Error::Validation { kind: "feature flag id", reason });
            }
            i += 1;
        }
        let Factory { flags, attributes, ttl } = self;
        let ghost before = flag_views(flags@);
        let mut flags = flags;
        flags.push(flag);
        proof {
            let after = flag_views(flags@);
            assert(after =~= before.push(flag@));
            assert forall|a: int, b: int| 0 <= a < b < after.len() implies (
            #[trigger] after[a]).id != (#[trigger] after[b]).id by {
                assert(after[a] == before[a]);
            }
        }
        Ok(Factory { flags, attributes, ttl })
    }

    /// Attributes that are part of every request; those of a flag win over
    /// them.
    pub fn attributes(self, attributes: Attributes) -> (r: Self)
        ensures
            r@ == (FactoryView { attributes: Some(attributes@), ..self@ }),
    {
        proof {
            use_type_invariant(&self);
        }
        Factory { flags: self.flags, attributes: Some(attributes), ttl: self.ttl }
    }

    /// For how long fetched values are valid, in nanoseconds.
    pub fn ttl(self, ttl: u128) -> (r: Self)
        ensures
            r@ == (FactoryView { ttl, ..self@ }),
    {
        proof {
            use_type_invariant(&self);
        }
        Factory { flags: self.flags, attributes: self.attributes, ttl }
    }

    /// Builds the service. `server` is the value of the environment variable
    /// [`FLAGS_SERVER_ENV`].
    pub fn build(self, transport: Arc<Transport>, server_id: ServerId, server: Option<&str>) -> (r:
        Result<FeatureFlags, Error>)
        ensures
            match r {
                Ok(service) => flags_urls(opt_str(server)) == Ok::<FlagUrls, ErrorView>(
                    service@.urls,
                ) && service@ == (FeatureFlagsView {
                    transport: transport@,
                    urls: service@.urls,
                    server_id,
                    attributes: self@.attributes,
                    ttl: self@.ttl,
                    entries: fresh_entries(self@.flags),
                }),
                Err(e) => flags_urls(opt_str(server)) == Err::<FlagUrls, ErrorView>(e@),
            },
    {
        proof {
            use_type_invariant(&self);
        }
        let base = match resolve_server_url(FLAGS_SERVER_ENV, server, DEFAULT_FLAGS_SERVER) {
            Ok(base) => base,
            Err(e) => {
                return Err(e);
            },
        };
        let check_url = match join_server_url(FLAGS_SERVER_ENV, &base, CHECK_PATH) {
            Ok(url) => url,
            Err(e) => {
                return Err(e);
            },
        };
        let opt_in_url = match join_server_url(FLAGS_SERVER_ENV, &base, OPT_IN_PATH) {
            Ok(url) => url,
            Err(e) => {
                return Err(e);
            },
        };
        let opt_out_url = match join_server_url(FLAGS_SERVER_ENV, &base, OPT_OUT_PATH) {
            Ok(url) => url,
            Err(e) => {
                return Err(e);
            },
        };
        let ghost views = self@.flags;
        let mut remaining = self.flags;
        let mut states: Vec<FlagState> = Vec::new();
        assert(views.take(0) =~= seq![]);
        while remaining.len() > 0
            invariant
                distinct_flags(views),
                states@.len() + remaining@.len() == views.len(),
                flag_views(remaining@) =~= views.skip(states@.len() as int),
                forall|i: int|
                    0 <= i < states@.len() ==> (#[trigger] states@[i]).flag@ == views[i],
                states_map(states@) == fresh_entries(views.take(states@.len() as int)),
            decreases remaining@.len(),
        {
            let ghost before = states@;
            let ghost left = flag_views(remaining@);
            let flag = remaining.remove(0);
            let state = FlagState { flag, cached: None, in_progress: false };
            states.push(state);
            proof {
                let n = before.len() as int;
                assert(left[0] == flag@);
                assert(views[n] == flag@);
                assert(states@.drop_last() =~= before);
                assert(views.take(n + 1).drop_last() =~= views.take(n));
                assert(flag_views(remaining@) =~= left.skip(1));
            }
        }
        proof {
            assert(views.take(states@.len() as int) =~= views);
            assert forall|i: int, j: int| 0 <= i < j < states@.len() implies (
            #[trigger] states@[i]).flag@.id != (#[trigger] states@[j]).flag@.id by {
                assert(views[i].id != views[j].id);
            }
        }
        Ok(
            FeatureFlags {
                transport,
                check_url,
                opt_in_url,
                opt_out_url,
                server_id,
                attributes: self.attributes,
                ttl: self.ttl,
                states,
            },
        )
    }
}

impl Default for Factory {
    fn default() -> (r: Self)
        ensures
            r@ == (FactoryView { flags: seq![], attributes: None, ttl: DEFAULT_TTL }),
    {
        Factory::new()
    }
}

/// The addresses of the service.
pub struct FlagUrls {
    pub check: Seq<char>,
    pub opt_in: Seq<char>,
    pub opt_out: Seq<char>,
}

/// The addresses of the service, or the first error.
pub open spec fn flags_urls(server: Option<Seq<char>>) -> Result<FlagUrls, ErrorView> {
    match resolved_url(FLAGS_SERVER_ENV@, server, DEFAULT_FLAGS_SERVER@) {
        Ok(base) => match joined_url(FLAGS_SERVER_ENV@, base, CHECK_PATH@) {
            Ok(check) => match joined_url(FLAGS_SERVER_ENV@, base, OPT_IN_PATH@) {
                Ok(opt_in) => match joined_url(FLAGS_SERVER_ENV@, base, OPT_OUT_PATH@) {
                    Ok(opt_out) => Ok(FlagUrls { check, opt_in, opt_out }),
                    Err(e) => Err(e),
                },
                Err(e) => Err(e),
            },
            Err(e) => Err(e),
        },
        Err(e) => Err(e),
    }
}

/// The feature flag service: the flags, what was fetched for them, and which
/// fetches are in progress.
pub struct FeatureFlags {
    transport: Arc<Transport>,
    check_url: Url,
    opt_in_url: Url,
    opt_out_url: Url,
    server_id: ServerId,
    attributes: Option<Attributes>,
    ttl: u128,
    states: Vec<FlagState>,
}

/// What a [`FeatureFlags`] service holds.
pub struct FeatureFlagsView {
    pub transport: TransportView,
    pub urls: FlagUrls,
    pub server_id: ServerId,
    pub attributes: Option<Map<Seq<char>, JsonView>>,
    pub ttl: u128,
    pub entries: Map<Seq<char>, FlagEntry>,
}

impl View for FeatureFlags {
    type V = FeatureFlagsView;

    closed spec fn view(&self) -> FeatureFlagsView {
        FeatureFlagsView {
            transport: self.transport@,
            urls: FlagUrls {
                check: self.check_url@,
                opt_in: self.opt_in_url@,
                opt_out: self.opt_out_url@,
            },
            server_id: self.server_id,
            attributes: held_attributes(self.attributes),
            ttl: self.ttl,
            entries: states_map(self.states@),
        }
    }
}

/// The value that was fetched for a flag, as long as it is valid.
pub open spec fn valid_value(service: FeatureFlagsView, id: Seq<char>, now: u128) -> Option<
    FlagView,
> {
    if service.entries.contains_key(id) {
        match service.entries[id].cached {
            Some(cached) if is_fresh(cached.fetched_at, now, service.ttl) => Some(cached.value),
            _ => None,
        }
    } else {
        None
    }
}

/// The error for an id that no flag has.
pub open spec fn unknown_flag(id: Seq<char>) -> ErrorView {
    refused("feature flag id"@, "no flag registered for id: "@ + id)
}

/// The body of a request about a flag.
pub open spec fn flag_request(
    service: FeatureFlagsView,
    id: Seq<char>,
    per_flag: Option<Map<Seq<char>, JsonView>>,
) -> JsonView {
    let base = map![
        "identifier"@ => JsonView::String(hyphenated(service.server_id.0)),
        "key"@ => JsonView::String(id),
    ];
    let merged = merged_attributes(service.attributes, per_flag);
    JsonView::Object(
        if merged != Map::<Seq<char>, JsonView>::empty() {
            base.insert("attributes"@, JsonView::Object(merged))
        } else {
            base
        },
    )
}

/// The attributes of the service and of a flag; those of the flag win.
pub open spec fn merged_attributes(
    service: Option<Map<Seq<char>, JsonView>>,
    per_flag: Option<Map<Seq<char>, JsonView>>,
) -> Map<Seq<char>, JsonView> {
    let first = match service {
        Some(map) => map,
        None => Map::empty(),
    };
    match per_flag {
        Some(map) => first.union_prefer_right(map),
        None => first,
    }
}

/// A service after the entry of a flag has changed.
pub open spec fn with_entry(
    service: FeatureFlagsView,
    id: Seq<char>,
    entry: FlagEntry,
) -> FeatureFlagsView {
    FeatureFlagsView { entries: service.entries.insert(id, entry), ..service }
}

/// What is known of a flag after a fetch: a value that was fetched is kept,
/// with the time; a failed fetch changes nothing.
pub open spec fn stored(
    entry: FlagEntry,
    outcome: Result<FlagView, ErrorView>,
    now: u128,
) -> FlagEntry {
    match outcome {
        Ok(value) => FlagEntry { cached: Some(CachedView { value, fetched_at: now }), ..entry },
        Err(_) => entry,
    }
}

/// What a fetch gave.
pub open spec fn fetched_view(outcome: Result<FlagValue, Error>) -> Result<FlagView, ErrorView> {
    match outcome {
        Ok(value) => Ok(value@),
        Err(e) => Err(e@),
    }
}

/// What the response to a fetch says about a flag with this id and default
/// value.
pub open spec fn response_value(
    id: Seq<char>,
    like: FlagView,
    code: u16,
    body: Option<Seq<char>>,
) -> Result<FlagView, ErrorView> {
    if !(200 <= code < 300) {
        Err(
            refused(
                "feature flag response"@,
                "unexpected response status: "@ + status_text(code) + " ("@ + (match body {
                    Some(s) => s,
                    None => Seq::empty(),
                }) + ")"@,
            ),
        )
    } else {
        match body {
            None => Err(refused("feature flag response"@, "response had no body"@)),
            Some(s) => match json_of_text(s) {
                Err(reason) => Err(
                    refused(
                        "feature flag response"@,
                        "unexpected response body: "@ + s + " ("@ + reason + ")"@,
                    ),
                ),
                Ok(json) => response_json_value(id, like, json),
            },
        }
    }
}

/// What the JSON in the response to a fetch says about a flag.
pub open spec fn response_json_value(id: Seq<char>, like: FlagView, json: JsonView) -> Result<
    FlagView,
    ErrorView,
> {
    match json {
        JsonView::Object(map) if map.contains_key("value"@) => match flag_of_json(
            like,
            map["value"@],
        ) {
            Some(value) => Ok(value),
            None => Err(
                refused(
                    "feature flag response"@,
                    "value did not match expected type for flag "@ + id + ": "@ + json_text(
                        map["value"@],
                    ),
                ),
            ),
        },
        _ => Err(
            refused(
                "feature flag response"@,
                "missing or invalid 'value' in response: "@ + json_text(json),
            ),
        ),
    }
}

/// Whether the results of two fetches are the same.
pub open spec fn same_result(
    a: Result<FlagView, ErrorView>,
    b: Result<FlagView, ErrorView>,
) -> bool {
    match (a, b) {
        (Ok(x), Ok(y)) => same_flag(x, y),
        _ => a == b,
    }
}

fn unknown_flag_error(id: &Id) -> (e: Error)
    ensures
        e@ == unknown_flag(id@),
{
    let mut reason = "no flag registered for id: ".to_owned();
    reason.append(id.as_str());
    Error::Validation { kind: "feature flag id", reason }
}

/// Reads the value of `flag` out of the response to a fetch. A status other
/// than success, a missing body, one that is no JSON object with a `value`,
/// or a value of another type than the flag's is an error.
pub fn read_response(flag: &FeatureFlag, outcome: &SubmissionOutcome) -> (r: Result<
    FlagValue,
    Error,
>)
    ensures
        same_result(
            fetched_view(r),
            response_value(
                flag@.id,
                flag@.default,
                outcome.status@,
                match outcome.body {
                    Some(s) => Some(s@),
                    None => None,
                },
            ),
        ),
{
    if !outcome.is_successful() {
        let mut reason = "unexpected response status: ".to_owned();
        reason.append(outcome.status.text().as_str());
        reason.append(" (");
        reason.append(outcome.body_or_empty());
        reason.append(")");
        return Err(Error::Validation { kind: "feature flag response", reason });
    }
    let body = match &outcome.body {
        Some(body) => body,
        None => {
            return Err(Error::validation("feature flag response", "response had no body"));
        },
    };
    let parsed = match read_tree(body.as_str()) {
        Ok(tree) => tree,
        Err(e) => {
            let mut reason = "unexpected response body: ".to_owned();
            reason.append(body.as_str());
            reason.append(" (");
            reason.append(e.as_str());
            reason.append(")");
            return Err(Error::Validation { kind: "feature flag response", reason });
        },
    };
    let raw_value = match tree_get(&parsed, "value") {
        Some(value) => value,
        None => {
            let mut reason = "missing or invalid 'value' in response: ".to_owned();
            reason.append(tree_text(&parsed).as_str());
            return Err(Error::Validation { kind: "feature flag response", reason });
        },
    };
    match flag.default().parse_matching(&plain(raw_value)) {
        Some(value) => Ok(value),
        None => {
            let mut reason = "value did not match expected type for flag ".to_owned();
            reason.append(flag.id().as_str());
            reason.append(": ");
            reason.append(tree_text(raw_value).as_str());
            Err(Error::Validation { kind: "feature flag response", reason })
        },
    }
}

/// Copies the outcome of a fetch for those who share it. An error becomes a
/// validation error with the same text.
pub fn clone_result(result: &Result<FlagValue, Error>) -> (r: Result<FlagValue, Error>)
    ensures
        fetched_view(r) == (match fetched_view(*result) {
            Ok(value) => Ok::<FlagView, ErrorView>(value),
            Err(e) => Err::<FlagView, ErrorView>(
                refused("feature flag fetch"@, error_text(e)),
            ),
        }),
{
    match result {
        Ok(value) => Ok(value.clone()),
        Err(e) => Err(Error::Validation { kind: "feature flag fetch", reason: e.message() }),
    }
}

/// Checks the response to opting in or out. Only if it is one of success
/// does a fetch follow.
pub fn check_targeting(outcome: &SubmissionOutcome) -> (r: Result<(), Error>)
    ensures
        match r {
            Ok(_) => 200 <= outcome.status@ < 300,
            Err(e) => !(200 <= outcome.status@ < 300) && e@ == refused(
                "feature flag opt request"@,
                "opt request failed with status "@ + status_text(outcome.status@) + " ("@
                    + body_text(outcome.body) + ")"@,
            ),
        },
{
    if outcome.is_successful() {
        return Ok(());
    }
    let mut reason = "opt request failed with status ".to_owned();
    reason.append(outcome.status.text().as_str());
    reason.append(" (");
    reason.append(outcome.body_or_empty());
    reason.append(")");
    Err(Error::Validation { kind: "feature flag opt request", reason })
}

/// What a caller who wants the current value of a flag has to do.
#[derive(Debug)]
pub enum Readiness {
    /// Take this value, which is still valid.
    Ready(FlagValue),
    /// Fetch the flag.
    Fetch,
}

/// What a caller who fetches a flag has to do.
#[derive(Debug)]
pub enum Role {
    /// Send a request with this body to [`Endpoint::Check`], and hand the
    /// outcome to [`FeatureFlags::complete_fetch`].
    Leader(JsonValue),
    /// Wait for the outcome of the fetch that is in progress.
    Follower,
}

/// What a request about a flag is for.
#[derive(Clone, Copy, Debug, PartialEq, Eq, Structural)]
pub enum Endpoint {
    Check,
    OptIn,
    OptOut,
}

/// The address of an endpoint.
pub open spec fn endpoint_url(urls: FlagUrls, endpoint: Endpoint) -> Seq<char> {
    match endpoint {
        Endpoint::Check => urls.check,
        Endpoint::OptIn => urls.opt_in,
        Endpoint::OptOut => urls.opt_out,
    }
}

impl FeatureFlags {
    #[verifier::type_invariant]
    spec fn well_formed(self) -> bool {
        distinct_states(self.states@)
    }

    /// For how long fetched values are valid, in nanoseconds.
    pub fn ttl(&self) -> (r: u128)
        ensures
            r == self@.ttl,
    {
        self.ttl
    }

    fn find(&self, id: &Id) -> (r: Option<usize>)
        ensures
            match r {
                Some(i) => i < self.states@.len() && self.states@[i as int].flag@.id == id@
                    && self@.entries.contains_key(id@) && self@.entries[id@]
                    == self.states@[i as int].entry(),
                None => !self@.entries.contains_key(id@),
            },
    {
        proof {
            use_type_invariant(self);
            lemma_states_map(self.states@);
        }
        let mut i: usize = 0;
        while i < self.states.len()
            invariant
                i <= self.states@.len(),
                forall|j: int| 0 <= j < i ==> (#[trigger] self.states@[j]).flag@.id != id@,
            decreases self.states@.len() - i,
        {
            if *self.states[i].flag.id() == *id {
                proof {
                    use_type_invariant(self);
                    lemma_states_map(self.states@);
                }
                return Some(i);
            }
            i += 1;
        }
        None
    }

    /// The value that was fetched for the flag `id`, if it is still valid.
    /// Nothing for an unknown id, and nothing while a fetch of the flag is in
    /// progress.
    pub fn cached(&self, id: &Id, now: u128) -> (r: Option<FlagValue>)
        ensures
            match r {
                Some(value) => valid_value(self@, id@, now) == Some(value@)
                    && !self@.entries[id@].in_progress,
                None => valid_value(self@, id@, now) is None || self@.entries[id@].in_progress,
            },
    {
        match self.find(id) {
            Some(i) => if self.states[i].in_progress {
                None
            } else {
                self.valid_at(i, now)
            },
            None => None,
        }
    }

    fn valid_at(&self, i: usize, now: u128) -> (r: Option<FlagValue>)
        requires
            i < self.states@.len(),
        ensures
            match r {
                Some(value) => self.states@[i as int].cached is Some && is_fresh(
                    self.states@[i as int].cached->0@.fetched_at,
                    now,
                    self@.ttl,
                ) && value@ == self.states@[i as int].cached->0@.value,
                None => self.states@[i as int].cached is Some ==> !is_fresh(
                    self.states@[i as int].cached->0@.fetched_at,
                    now,
                    self@.ttl,
                ),
            },
    {
        match &self.states[i].cached {
            Some(cached) => if cached.is_valid(now, self.ttl) {
                Some(cached.get())
            } else {
                None
            },
            None => None,
        }
    }

    /// Decides how the current value of the flag `id` is had: from the
    /// cache as long as it is valid, else by a fetch.
    pub fn when_ready(&self, id: &Id, now: u128) -> (r: Result<Readiness, Error>)
        ensures
            match r {
                Ok(Readiness::Ready(value)) => valid_value(self@, id@, now) == Some(value@),
                Ok(Readiness::Fetch) => self@.entries.contains_key(id@) && valid_value(
                    self@,
                    id@,
                    now,
                ) is None,
                Err(e) => !self@.entries.contains_key(id@) && e@ == unknown_flag(id@),
            },
    {
        match self.find(id) {
            Some(i) => match self.valid_at(i, now) {
                Some(value) => Ok(Readiness::Ready(value)),
                None => Ok(Readiness::Fetch),
            },
            None => Err(unknown_flag_error(id)),
        }
    }

    /// Begins a fetch of the flag `id`. The first caller leads, and others
    /// follow until the fetch is completed or abandoned.
    pub fn fetch(&mut self, id: &Id) -> (r: Result<Role, Error>)
        ensures
            match r {
                Ok(Role::Leader(body)) => old(self)@.entries.contains_key(id@) && !old(
                    self,
                )@.entries[id@].in_progress && body@ == flag_request(
                    old(self)@,
                    id@,
                    old(self)@.entries[id@].flag.attributes,
                ) && final(self)@ == with_entry(
                    old(self)@,
                    id@,
                    FlagEntry { in_progress: true, ..old(self)@.entries[id@] },
                ),
                Ok(Role::Follower) => old(self)@.entries.contains_key(id@) && old(
                    self,
                )@.entries[id@].in_progress && final(self)@ == old(self)@,
                Err(e) => !old(self)@.entries.contains_key(id@) && e@ == unknown_flag(id@)
                    && final(self)@ == old(self)@,
            },
    {
        match self.find(id) {
            Some(i) => {
                if self.states[i].in_progress {
                    return Ok(Role::Follower);
                }
                let body = self.build_request(id, self.states[i].flag.attributes_ref());
                self.set_in_progress(i, true);
                Ok(Role::Leader(body))
            },
            None => Err(unknown_flag_error(id)),
        }
    }

    fn set_in_progress(&mut self, i: usize, in_progress: bool)
        requires
            i < old(self).states@.len(),
        ensures
            final(self)@ == with_entry(
                old(self)@,
                old(self).states@[i as int].flag@.id,
                FlagEntry { in_progress, ..old(self).states@[i as int].entry() },
            ),
    {
        proof {
            use_type_invariant(&*self);
        }
        let mut states: Vec<FlagState> = Vec::new();
        std::mem::swap(&mut states, &mut self.states);
        let ghost before = states@;
        let mut state = states.remove(i);
        state.in_progress = in_progress;
        states.insert(i, state);
        proof {
            lemma_states_map_update(before, i as int, state);
            assert(states@ =~= before.update(i as int, state));
        }
        self.states = states;
    }

    fn set_cached(&mut self, i: usize, cached: CachedValue)
        requires
            i < old(self).states@.len(),
        ensures
            final(self)@ == with_entry(
                old(self)@,
                old(self).states@[i as int].flag@.id,
                FlagEntry { cached: Some(cached@), ..old(self).states@[i as int].entry() },
            ),
    {
        proof {
            use_type_invariant(&*self);
        }
        let mut states: Vec<FlagState> = Vec::new();
        std::mem::swap(&mut states, &mut self.states);
        let ghost before = states@;
        let mut state = states.remove(i);
        state.cached = Some(cached);
        states.insert(i, state);
        proof {
            lemma_states_map_update(before, i as int, state);
            assert(states@ =~= before.update(i as int, state));
        }
        self.states = states;
    }

    /// Keeps the value that a fetch of the flag `id` gave at the time `now`.
    /// A failed fetch leaves what was kept before.
    pub fn store(&mut self, id: &Id, outcome: &Result<FlagValue, Error>, now: u128)
        ensures
            final(self)@ == (if old(self)@.entries.contains_key(id@) {
                with_entry(
                    old(self)@,
                    id@,
                    stored(old(self)@.entries[id@], fetched_view(*outcome), now),
                )
            } else {
                old(self)@
            }),
    {
        match self.find(id) {
            Some(i) => match outcome {
                Ok(value) => self.set_cached(i, CachedValue::new(value.clone(), now)),
                Err(_) => {
                    assert(self@.entries.insert(id@, self@.entries[id@]) =~= self@.entries);
                },
            },
            None => {},
        }
    }

    /// Completes the fetch that this caller leads: keeps the value, if there
    /// is one, and lets the next caller lead. Returns the outcome for those
    /// who follow.
    pub fn complete_fetch(&mut self, id: &Id, outcome: &Result<FlagValue, Error>, now: u128) -> (r:
        Result<FlagValue, Error>)
        ensures
            final(self)@ == (if old(self)@.entries.contains_key(id@) {
                with_entry(
                    old(self)@,
                    id@,
                    FlagEntry {
                        in_progress: false,
                        ..stored(old(self)@.entries[id@], fetched_view(*outcome), now)
                    },
                )
            } else {
                old(self)@
            }),
            fetched_view(r) == (match fetched_view(*outcome) {
                Ok(value) => Ok::<FlagView, ErrorView>(value),
                Err(e) => Err::<FlagView, ErrorView>(
                    refused("feature flag fetch"@, error_text(e)),
                ),
            }),
    {
        self.store(id, outcome, now);
        self.abandon_fetch(id);
        assert(old(self)@.entries.contains_key(id@) ==> self@.entries
            =~= old(self)@.entries.insert(
            id@,
            FlagEntry {
                in_progress: false,
                ..stored(old(self)@.entries[id@], fetched_view(*outcome), now)
            },
        ));
        clone_result(outcome)
    }

    /// Gives up the fetch that this caller leads, without an outcome. Those
    /// who follow have to fetch for themselves.
    pub fn abandon_fetch(&mut self, id: &Id)
        ensures
            final(self)@ == (if old(self)@.entries.contains_key(id@) {
                with_entry(
                    old(self)@,
                    id@,
                    FlagEntry { in_progress: false, ..old(self)@.entries[id@] },
                )
            } else {
                old(self)@
            }),
    {
        match self.find(id) {
            Some(i) => self.set_in_progress(i, false),
            None => {},
        }
    }

    /// What the outcome of a request to [`Endpoint::Check`] says about the
    /// flag `id`. That the server was not reached is an error, too.
    pub fn read_check(&self, id: &Id, outcome: Result<SubmissionOutcome, Error>) -> (r: Result<
        FlagValue,
        Error,
    >)
        ensures
            !self@.entries.contains_key(id@) ==> fetched_view(r) == Err::<FlagView, ErrorView>(
                unknown_flag(id@),
            ),
            self@.entries.contains_key(id@) ==> match outcome {
                Ok(response) => same_result(
                    fetched_view(r),
                    response_value(
                        self@.entries[id@].flag.id,
                        self@.entries[id@].flag.default,
                        response.status@,
                        match response.body {
                            Some(s) => Some(s@),
                            None => None,
                        },
                    ),
                ),
                Err(e) => fetched_view(r) == Err::<FlagView, ErrorView>(e@),
            },
    {
        match self.find(id) {
            Some(i) => match outcome {
                Ok(response) => read_response(&self.states[i].flag, &response),
                Err(e) => Err(e),
            },
            None => Err(unknown_flag_error(id)),
        }
    }

    /// The request that opts in to the flag `id`: where it goes, and its
    /// body. If [`check_targeting`] accepts the response, a fetch follows.
    pub fn opt_in(&self, id: &Id) -> (r: Result<(Endpoint, JsonValue), Error>)
        ensures
            match r {
                Ok((endpoint, body)) => endpoint == Endpoint::OptIn && self@.entries.contains_key(
                    id@,
                ) && body@ == flag_request(self@, id@, self@.entries[id@].flag.attributes),
                Err(e) => !self@.entries.contains_key(id@) && e@ == unknown_flag(id@),
            },
    {
        match self.current_request(id) {
            Ok(body) => Ok((Endpoint::OptIn, body)),
            Err(e) => Err(e),
        }
    }

    /// The request that opts out of the flag `id`: where it goes, and its
    /// body. If [`check_targeting`] accepts the response, a fetch follows.
    pub fn opt_out(&self, id: &Id) -> (r: Result<(Endpoint, JsonValue), Error>)
        ensures
            match r {
                Ok((endpoint, body)) => endpoint == Endpoint::OptOut && self@.entries.contains_key(
                    id@,
                ) && body@ == flag_request(self@, id@, self@.entries[id@].flag.attributes),
                Err(e) => !self@.entries.contains_key(id@) && e@ == unknown_flag(id@),
            },
    {
        match self.current_request(id) {
            Ok(body) => Ok((Endpoint::OptOut, body)),
            Err(e) => Err(e),
        }
    }

    /// The body of a request about the flag `id`.
    pub fn current_request(&self, id: &Id) -> (r: Result<JsonValue, Error>)
        ensures
            match r {
                Ok(body) => self@.entries.contains_key(id@) && body@ == flag_request(
                    self@,
                    id@,
                    self@.entries[id@].flag.attributes,
                ),
                Err(e) => !self@.entries.contains_key(id@) && e@ == unknown_flag(id@),
            },
    {
        match self.find(id) {
            Some(i) => Ok(self.build_request(id, self.states[i].flag.attributes_ref())),
            None => Err(unknown_flag_error(id)),
        }
    }

    /// Builds the body that all requests about a flag have: `identifier`,
    /// `key` and, if there are any, `attributes`.
    pub fn build_request(&self, id: &Id, per_flag: Option<&Attributes>) -> (r: JsonValue)
        ensures
            r@ == flag_request(
                self@,
                id@,
                match per_flag {
                    Some(a) => Some(a@),
                    None => None,
                },
            ),
    {
        let mut body = JsonMap::new();
        body.insert("identifier", JsonValue::String(self.server_id.text()));
        body.insert("key", JsonValue::string(id.as_str()));
        let own = match &self.attributes {
            Some(attributes) => Some(attributes),
            None => None,
        };
        let merged = Attributes::join(own, per_flag);
        assert(merged@ =~= merged_attributes(
            self@.attributes,
            match per_flag {
                Some(a) => Some(a@),
                None => None,
            },
        ));
        if !merged.is_empty() {
            body.insert("attributes", JsonValue::Object(merged.into_json_map()));
        }
        JsonValue::Object(body)
    }

    /// The request with `data`, a body that [`FeatureFlags::build_request`]
    /// built, to an endpoint. `tree` is the body as `serde_json` holds it; if
    /// it holds anything else, that is an error.
    pub fn request(&self, endpoint: Endpoint, data: &JsonValue, tree: &serde_json::Value) -> (r:
        Result<Request, Error>)
        ensures
            match r {
                Ok(request) => request.url@ == endpoint_url(self@.urls, endpoint) && header_texts(
                    request.headers@,
                ) == json_headers(self@.transport.token) && plain_body(data@, json_tree(*tree))
                    == Ok::<Seq<u8>, ErrorView>(request.body@),
                Err(e) => plain_body(data@, json_tree(*tree)) == Err::<Seq<u8>, ErrorView>(e@),
            },
    {
        match endpoint {
            Endpoint::Check => self.transport.submit_json(&self.check_url, data, tree),
            Endpoint::OptIn => self.transport.submit_json(&self.opt_in_url, data, tree),
            Endpoint::OptOut => self.transport.submit_json(&self.opt_out_url, data, tree),
        }
    }
}

/// A failed fetch never changes what is kept.
pub proof fn law_failed_fetch_keeps_value(entry: FlagEntry, error: ErrorView, now: u128)
    ensures
        stored(entry, Err(error), now) == entry,
{
}

/// A value that was fetched is valid until its time is over, and then it has
/// to be fetched again.
pub proof fn law_fetched_value_is_valid_for_ttl(
    service: FeatureFlagsView,
    id: Seq<char>,
    value: FlagView,
    fetched_at: u128,
    now: u128,
)
    requires
        service.entries.contains_key(id),
        fetched_at <= now,
    ensures
        valid_value(
            with_entry(service, id, stored(service.entries[id], Ok(value), fetched_at)),
            id,
            now,
        ) == (if now - fetched_at < service.ttl {
            Some(value)
        } else {
            None
        }),
{
}

/// While a fetch of a flag is in progress no other one of that flag begins,
/// and fetches of other flags are not held up.
pub proof fn law_one_fetch_at_a_time(service: FeatureFlagsView, id: Seq<char>, other: Seq<char>)
    requires
        service.entries.contains_key(id),
        service.entries.contains_key(other),
        other != id,
    ensures
        with_entry(
            service,
            id,
            FlagEntry { in_progress: true, ..service.entries[id] },
        ).entries[id].in_progress,
        with_entry(
            service,
            id,
            FlagEntry { in_progress: true, ..service.entries[id] },
        ).entries[other] == service.entries[other],
{
}

/// What is read for a flag has the type of its default value, and a response
/// other than one of success gives no value.
pub proof fn law_response_value_has_flag_type(
    id: Seq<char>,
    like: FlagView,
    code: u16,
    body: Option<Seq<char>>,
)
    requires
        response_value(id, like, code, body) is Ok,
    ensures
        200 <= code < 300,
        like is String <==> response_value(id, like, code, body)->Ok_0 is String,
        like is Number <==> response_value(id, like, code, body)->Ok_0 is Number,
        like is Boolean <==> response_value(id, like, code, body)->Ok_0 is Boolean,
{
}

/// Of an attribute that both the service and a flag set, the flag's is sent.
pub proof fn law_flag_attributes_win(
    service: Map<Seq<char>, JsonView>,
    per_flag: Map<Seq<char>, JsonView>,
    key: Seq<char>,
)
    ensures
        per_flag.contains_key(key) ==> merged_attributes(Some(service), Some(per_flag))[key]
            == per_flag[key],
        service.contains_key(key) && !per_flag.contains_key(key) ==> merged_attributes(
            Some(service),
            Some(per_flag),
        )[key] == service[key],
{
}

/// Before anything was fetched, every flag that was added is known, no value
/// is kept, and no fetch is in progress.
pub proof fn law_service_starts_empty(flags: Seq<FeatureFlagView>, id: Seq<char>)
    ensures
        fresh_entries(flags).contains_key(id) <==> has_flag(flags, id),
        fresh_entries(flags).contains_key(id) ==> fresh_entries(flags)[id].cached is None
            && !fresh_entries(flags)[id].in_progress && fresh_entries(flags)[id].flag.id == id,
    decreases flags.len(),
{
    if flags.len() > 0 {
        let front = flags.drop_last();
        law_service_starts_empty(front, id);
        if has_flag(front, id) {
            let i = choose|i: int| 0 <= i < front.len() && (#[trigger] front[i]).id == id;
            assert(flags[i].id == id);
        }
        if has_flag(flags, id) && flags.last().id != id {
            let i = choose|i: int| 0 <= i < flags.len() && (#[trigger] flags[i]).id == id;
            assert(front[i].id == id);
        }
        if flags.last().id == id {
            assert(flags[flags.len() - 1].id == id);
        }
    }
}

} // verus!
