//! Laws of feature flags: their values, what is kept of them, and the
//! requests and responses about them.

use std::sync::Arc;

use vstd::prelude::*;

use crate::domain::attributes::Attributes;
use crate::domain::server_id::{hyphenated, ServerId};
use crate::error::{error_text, Error, ErrorView};
use crate::feature_flags::cache::CachedValue;
use crate::feature_flags::flag::FeatureFlag;
use crate::feature_flags::service::{
    check_targeting, clone_result, flag_request, law_service_starts_empty, read_response,
    valid_value, Endpoint, Factory, FeatureFlags, FeatureFlagsView, Readiness, Role,
};
use crate::feature_flags::value::{
    flag_of_json, float_of_integer, float_of_text, same_flag, same_float, FlagValue, FlagView,
};
use crate::json::{json_of_text, json_text};
use crate::text::trimmed;
use crate::transport::{status_text, SubmissionOutcome, Transport};
use crate::validated::id::Id;
use crate::value::{JsonValue, JsonView, Number};

verus! {

/// A string or a boolean becomes the JSON that it is; a number does if it is
/// finite, and null otherwise.
pub proof fn law_flag_to_json(value: &FlagValue, r: JsonValue)
    requires
        call_ensures(FlagValue::to_json, (value,), r),
    ensures
        match *value {
            FlagValue::String(s) => r@ == JsonView::String(s@),
            FlagValue::Boolean(b) => r@ == JsonView::Bool(b),
            FlagValue::Number(bits) => if bits % 0x8000_0000_0000_0000 < 0x7ff0_0000_0000_0000 {
                r@ == JsonView::Number(Number::Float(bits))
            } else {
                r@ == JsonView::Null
            },
        },
{
    match *value {
        FlagValue::Number(bits) => {
            assert(((bits / 0x10_0000_0000_0000) % 0x800 != 0x7ff) == (bits
                % 0x8000_0000_0000_0000 < 0x7ff0_0000_0000_0000)) by (bit_vector);
        },
        _ => {},
    }
}

/// A string flag takes exactly JSON strings, as they are.
pub proof fn law_string_flag(like: &FlagValue, json: &JsonValue, r: Option<FlagValue>)
    requires
        call_ensures(FlagValue::parse_matching, (like, json), r),
        like is String,
    ensures
        r is Some <==> json@ is String,
        r is Some ==> r->0@ == FlagView::String(json@->String_0),
{
}

/// A boolean flag takes exactly JSON booleans, and the strings `true` and
/// `false`.
pub proof fn law_boolean_flag(like: &FlagValue, json: &JsonValue, r: Option<FlagValue>)
    requires
        call_ensures(FlagValue::parse_matching, (like, json), r),
        like is Boolean,
    ensures
        json@ is Bool ==> r is Some && r->0@ == FlagView::Boolean(json@->Bool_0),
        json@ == JsonView::String("true"@) ==> r is Some && r->0@ == FlagView::Boolean(true),
        json@ == JsonView::String("false"@) ==> r is Some && r->0@ == FlagView::Boolean(false),
        r is Some ==> json@ is Bool || json@ == JsonView::String("true"@) || json@
            == JsonView::String("false"@),
{
    reveal_strlit("true");
    reveal_strlit("false");
    assert("true"@.len() == 4 && "false"@.len() == 5);
}

/// A number flag takes every JSON number, integers as the nearest float, and
/// exactly those strings that stand for a number, with white space around
/// them or not.
pub proof fn law_number_flag(like: &FlagValue, json: &JsonValue, r: Option<FlagValue>)
    requires
        call_ensures(FlagValue::parse_matching, (like, json), r),
        like is Number,
    ensures
        match json@ {
            JsonView::Number(Number::PosInt(n)) => r is Some && r->0 is Number && same_float(
                r->0->Number_0,
                float_of_integer(n as i128),
            ),
            JsonView::Number(Number::NegInt(n)) => r is Some && r->0 is Number && same_float(
                r->0->Number_0,
                float_of_integer(n as i128),
            ),
            JsonView::Number(Number::Float(bits)) => r is Some && r->0 is Number && same_float(
                r->0->Number_0,
                bits,
            ),
            JsonView::String(s) => {
                &&& r is Some <==> float_of_text(trimmed(s)) is Some
                &&& r is Some ==> r->0 is Number && same_float(
                    r->0->Number_0,
                    float_of_text(trimmed(s))->0,
                )
            },
            _ => r is None,
        },
{
}

/// The bits of a value that is a number stand for that value alone; only
/// those of values that are not a number are not told apart.
pub proof fn law_same_float(a: u64, b: u64)
    ensures
        a % 0x8000_0000_0000_0000 <= 0x7ff0_0000_0000_0000 ==> (same_float(a, b) <==> a == b),
        same_float(a, a),
{
    assert((((a / 0x10_0000_0000_0000) % 0x800 == 0x7ff) && a % 0x10_0000_0000_0000 != 0) == (a
        % 0x8000_0000_0000_0000 > 0x7ff0_0000_0000_0000)) by (bit_vector);
}

/// Each accessor gives the value of its own type, and nothing for another.
pub proof fn law_accessors(
    value: &FlagValue,
    s: Option<&str>,
    bits: Option<u64>,
    b: Option<bool>,
)
    requires
        call_ensures(FlagValue::as_str, (value,), s),
        call_ensures(FlagValue::as_number_bits, (value,), bits),
        call_ensures(FlagValue::as_bool, (value,), b),
    ensures
        match *value {
            FlagValue::String(held) => s is Some && s->0@ == held@ && bits is None && b is None,
            FlagValue::Number(held) => s is None && bits == Some(held) && b is None,
            FlagValue::Boolean(held) => s is None && bits is None && b == Some(held),
        },
{
}

/// A value that was kept at one time is valid at another exactly as long as
/// less than the time to live has passed, and is the value that was kept.
pub proof fn law_cached_value(
    value: FlagValue,
    fetched_at: u128,
    now: u128,
    ttl: u128,
    cached: CachedValue,
    valid: bool,
    got: FlagValue,
)
    requires
        call_ensures(CachedValue::new, (value, fetched_at), cached),
        call_ensures(CachedValue::is_valid, (&cached, now, ttl), valid),
        call_ensures(CachedValue::get, (&cached,), got),
    ensures
        got@ == value@,
        now >= fetched_at ==> (valid <==> now < fetched_at + ttl),
        now < fetched_at ==> (valid <==> ttl > 0),
{
}

/// A flag has the id, default and attributes that it was made with.
pub proof fn law_flag(
    id: Id,
    default: FlagValue,
    attributes: Attributes,
    flag: FeatureFlag,
    with: FeatureFlag,
    its_id: &Id,
    its_default: &FlagValue,
    none: Option<&Attributes>,
    some: Option<&Attributes>,
)
    requires
        call_ensures(FeatureFlag::new, (id, default), flag),
        call_ensures(FeatureFlag::attributes, (flag, attributes), with),
        call_ensures(FeatureFlag::id, (&with,), its_id),
        call_ensures(FeatureFlag::default, (&with,), its_default),
        call_ensures(FeatureFlag::attributes_ref, (&flag,), none),
        call_ensures(FeatureFlag::attributes_ref, (&with,), some),
    ensures
        its_id@ == id@,
        its_default@ == default@,
        none is None,
        some is Some && some->0@ == attributes@,
{
}

/// A flag is refused exactly if one with its id was added, and is the last
/// one otherwise.
pub proof fn law_add_flag(factory: Factory, flag: FeatureFlag, r: Result<Factory, Error>)
    requires
        call_ensures(Factory::add_flag, (factory, flag), r),
    ensures
        r is Err <==> exists|i: int|
            0 <= i < factory@.flags.len() && (#[trigger] factory@.flags[i]).id == flag@.id,
        r is Err ==> r->Err_0@ == (ErrorView::Validation {
            kind: "feature flag id"@,
            reason: "flag already added: "@ + flag@.id,
        }),
        r is Ok ==> r->Ok_0@.flags == factory@.flags.push(flag@) && r->Ok_0@.ttl == factory@.ttl
            && r->Ok_0@.attributes == factory@.attributes,
{
}

/// Attributes and the time to live are set, and nothing else changes; a new
/// factory has no flags, no attributes and five minutes.
pub proof fn law_flags_factory(
    factory: Factory,
    attributes: Attributes,
    ttl: u128,
    fresh: Factory,
    with_attributes: Factory,
    with_ttl: Factory,
)
    requires
        call_ensures(Factory::new, (), fresh),
        call_ensures(Factory::attributes, (factory, attributes), with_attributes),
        call_ensures(Factory::ttl, (factory, ttl), with_ttl),
    ensures
        fresh@.flags.len() == 0 && fresh@.attributes is None && fresh@.ttl == 300_000_000_000,
        with_attributes@.attributes == Some(attributes@) && with_attributes@.flags
            == factory@.flags && with_attributes@.ttl == factory@.ttl,
        with_ttl@.ttl == ttl && with_ttl@.flags == factory@.flags && with_ttl@.attributes
            == factory@.attributes,
{
}

/// A built service knows exactly the flags that were added, with nothing
/// kept and no fetch in progress.
pub proof fn law_flags_build(
    factory: Factory,
    transport: Arc<Transport>,
    server_id: ServerId,
    server: Option<&str>,
    r: Result<FeatureFlags, Error>,
    id: Seq<char>,
)
    requires
        call_ensures(Factory::build, (factory, transport, server_id, server), r),
        r is Ok,
    ensures
        ({
            let service = r->Ok_0@;
            &&& service.transport == transport@
            &&& service.server_id == server_id
            &&& service.attributes == factory@.attributes
            &&& service.ttl == factory@.ttl
            &&& service.entries.contains_key(id) <==> exists|i: int|
                0 <= i < factory@.flags.len() && (#[trigger] factory@.flags[i]).id == id
            &&& service.entries.contains_key(id) ==> service.entries[id].cached is None
                && !service.entries[id].in_progress && service.entries[id].flag.id == id
                && factory@.flags.contains(service.entries[id].flag)
        }),
{
    law_service_starts_empty(factory@.flags, id);
    lemma_entry_is_added(factory@.flags, id);
}

proof fn lemma_entry_is_added(
    flags: Seq<crate::feature_flags::flag::FeatureFlagView>,
    id: Seq<char>,
)
    ensures
        crate::feature_flags::service::fresh_entries(flags).contains_key(id) ==> flags.contains(
            crate::feature_flags::service::fresh_entries(flags)[id].flag,
        ),
    decreases flags.len(),
{
    if flags.len() > 0 {
        let front = flags.drop_last();
        lemma_entry_is_added(front, id);
        let entries = crate::feature_flags::service::fresh_entries(flags);
        if entries.contains_key(id) {
            if flags.last().id == id {
                assert(flags[flags.len() - 1] == entries[id].flag);
            } else {
                let i = choose|i: int| 0 <= i < front.len() && front[i] == entries[id].flag;
                assert(flags[i] == entries[id].flag);
            }
        }
    }
}

/// Every attribute of the flag is in the request, with the flag's value, and
/// every attribute of the service that the flag does not set; each of them
/// whether or not there are the others, and no attribute else. There are no
/// attributes in it exactly if there are none at all.
pub proof fn law_request_body(
    flags: &FeatureFlags,
    id: &Id,
    per_flag: Option<&Attributes>,
    key: Seq<char>,
    r: JsonValue,
)
    requires
        call_ensures(FeatureFlags::build_request, (flags, id, per_flag), r),
    ensures
        r@ is Object,
        ({
            let body = r@->Object_0;
            let own = flags@.attributes is Some && flags@.attributes->0.contains_key(key);
            let flags_own = per_flag is Some && per_flag->0@.contains_key(key);
            &&& body.contains_key("identifier"@) && body["identifier"@] == JsonView::String(
                hyphenated(flags@.server_id.0),
            )
            &&& body.contains_key("key"@) && body["key"@] == JsonView::String(id@)
            &&& own || flags_own ==> body.contains_key("attributes"@) && body["attributes"@]
                is Object && body["attributes"@]->Object_0.contains_key(key)
            &&& flags_own ==> body["attributes"@]->Object_0[key] == per_flag->0@[key]
            &&& own && !flags_own ==> body["attributes"@]->Object_0[key]
                == flags@.attributes->0[key]
            &&& body.contains_key("attributes"@) && body["attributes"@]->Object_0.contains_key(key)
                ==> own || flags_own
            &&& (flags@.attributes is None || flags@.attributes->0 == Map::<
                Seq<char>,
                JsonView,
            >::empty()) && (per_flag is None || per_flag->0@ == Map::<
                Seq<char>,
                JsonView,
            >::empty()) ==> !body.contains_key("attributes"@)
            &&& forall|k: Seq<char>| #[trigger]
                body.contains_key(k) ==> k == "identifier"@ || k == "key"@ || k == "attributes"@
        }),
{
    reveal_strlit("identifier");
    reveal_strlit("key");
    reveal_strlit("attributes");
    assert("identifier"@.len() == 10 && "key"@.len() == 3 && "attributes"@.len() == 10);
    assert("identifier"@[0] == 'i' && "attributes"@[0] == 'a');
    let flag_map = match per_flag {
        Some(a) => Some(a@),
        None => None,
    };
    let merged = crate::feature_flags::service::merged_attributes(flags@.attributes, flag_map);
    if (flags@.attributes is Some && flags@.attributes->0.contains_key(key)) || (per_flag is Some
        && per_flag->0@.contains_key(key)) {
        assert(merged.contains_key(key));
    }
    if (flags@.attributes is None || flags@.attributes->0 == Map::<Seq<char>, JsonView>::empty())
        && (per_flag is None || per_flag->0@ == Map::<Seq<char>, JsonView>::empty()) {
        assert(merged =~= Map::<Seq<char>, JsonView>::empty());
    }
}

/// Fetching a flag, and opting in or out, send the same body: the one with
/// the attributes of that flag. An unknown flag is an error.
pub proof fn law_requests_share_body(
    flags: &FeatureFlags,
    fetching: &mut FeatureFlags,
    id: &Id,
    opted_in: Result<(Endpoint, JsonValue), Error>,
    opted_out: Result<(Endpoint, JsonValue), Error>,
    current: Result<JsonValue, Error>,
    role: Result<Role, Error>,
)
    requires
        *flags == *fetching,
        call_ensures(FeatureFlags::opt_in, (flags, id), opted_in),
        call_ensures(FeatureFlags::opt_out, (flags, id), opted_out),
        call_ensures(FeatureFlags::current_request, (flags, id), current),
        call_ensures(FeatureFlags::fetch, (fetching, id), role),
    ensures
        current is Ok <==> flags@.entries.contains_key(id@),
        opted_in is Ok <==> current is Ok,
        opted_out is Ok <==> current is Ok,
        role is Ok <==> current is Ok,
        current is Ok ==> current->Ok_0@ == flag_request(
            flags@,
            id@,
            flags@.entries[id@].flag.attributes,
        ),
        match (opted_in, opted_out, role, current) {
            (Ok((into, a)), Ok((out, b)), Ok(Role::Leader(c)), Ok(d)) => into == Endpoint::OptIn
                && out == Endpoint::OptOut && a@ == d@ && b@ == d@ && c@ == d@,
            (Ok((into, a)), Ok((out, b)), Ok(Role::Follower), Ok(d)) => into == Endpoint::OptIn
                && out == Endpoint::OptOut && a@ == d@ && b@ == d@,
            (Err(a), Err(b), Err(c), Err(d)) => a@ == d@ && b@ == d@ && c@ == d@ && d@ == (
            ErrorView::Validation {
                kind: "feature flag id"@,
                reason: "no flag registered for id: "@ + id@,
            }),
            _ => false,
        },
{
}

/// The first caller that fetches a flag leads; whoever comes after it
/// follows, and changes nothing. The other flags, and what is kept, stay as
/// they were.
pub proof fn law_first_caller_leads(
    flags: &mut FeatureFlags,
    after: &mut FeatureFlags,
    id: &Id,
    other: Seq<char>,
    first: Result<Role, Error>,
    second: Result<Role, Error>,
)
    requires
        old(flags)@.entries.contains_key(id@),
        call_ensures(FeatureFlags::fetch, (flags, id), first),
        *after == *final(flags),
        call_ensures(FeatureFlags::fetch, (after, id), second),
        other != id@,
    ensures
        first is Ok && second is Ok,
        first->Ok_0 is Leader <==> !old(flags)@.entries[id@].in_progress,
        second->Ok_0 is Follower,
        final(after)@ == final(flags)@,
        final(flags)@.entries[id@].in_progress,
        final(flags)@.entries[id@].cached == old(flags)@.entries[id@].cached,
        final(flags)@.entries[id@].flag == old(flags)@.entries[id@].flag,
        final(flags)@.entries.contains_key(other) <==> old(flags)@.entries.contains_key(other),
        final(flags)@.entries.contains_key(other) ==> final(flags)@.entries[other] == old(
            flags)@.entries[other],
        final(flags)@.entries.contains_key(id@),
        final(flags)@ == (FeatureFlagsView { entries: final(flags)@.entries, ..old(flags)@ }),
{
}

/// A completed fetch lets the next caller lead. A value that was fetched is
/// kept with the time; after a failure what was kept before is kept. Other
/// flags stay as they were, and those who follow get the same value.
pub proof fn law_completed_fetch(
    flags: &mut FeatureFlags,
    id: &Id,
    outcome: &Result<FlagValue, Error>,
    now: u128,
    other: Seq<char>,
    shared: Result<FlagValue, Error>,
)
    requires
        old(flags)@.entries.contains_key(id@),
        call_ensures(FeatureFlags::complete_fetch, (flags, id, outcome, now), shared),
        other != id@,
    ensures
        !final(flags)@.entries[id@].in_progress,
        final(flags)@.entries[id@].flag == old(flags)@.entries[id@].flag,
        outcome is Err ==> final(flags)@.entries[id@].cached == old(flags)@.entries[id@].cached,
        outcome is Ok ==> final(flags)@.entries[id@].cached is Some && final(
            flags)@.entries[id@].cached->0.value == outcome->Ok_0@ && final(
            flags)@.entries[id@].cached->0.fetched_at == now,
        final(flags)@.entries.contains_key(other) <==> old(flags)@.entries.contains_key(other),
        final(flags)@.entries.contains_key(other) ==> final(flags)@.entries[other] == old(
            flags)@.entries[other],
        final(flags)@.entries.contains_key(id@),
        final(flags)@ == (FeatureFlagsView { entries: final(flags)@.entries, ..old(flags)@ }),
        shared is Ok <==> outcome is Ok,
        shared is Ok ==> shared->Ok_0@ == outcome->Ok_0@,
        shared is Err ==> shared->Err_0@ == (ErrorView::Validation {
            kind: "feature flag fetch"@,
            reason: error_text(outcome->Err_0@),
        }),
{
}

/// Keeping a value touches neither other flags nor a fetch in progress;
/// giving up a fetch touches nothing but that.
pub proof fn law_store_and_abandon(
    storing: &mut FeatureFlags,
    giving_up: &mut FeatureFlags,
    id: &Id,
    outcome: &Result<FlagValue, Error>,
    now: u128,
)
    requires
        old(storing)@.entries.contains_key(id@),
        old(giving_up)@.entries.contains_key(id@),
        call_ensures(FeatureFlags::store, (storing, id, outcome, now), ()),
        call_ensures(FeatureFlags::abandon_fetch, (giving_up, id), ()),
    ensures
        final(storing)@.entries[id@].in_progress == old(storing)@.entries[id@].in_progress,
        outcome is Err ==> final(storing)@.entries[id@] == old(storing)@.entries[id@],
        outcome is Ok ==> final(storing)@.entries[id@].cached is Some && final(
            storing)@.entries[id@].cached->0.value == outcome->Ok_0@ && final(
            storing)@.entries[id@].cached->0.fetched_at == now,
        final(storing)@.entries.remove(id@) == old(storing)@.entries.remove(id@),
        !final(giving_up)@.entries[id@].in_progress,
        final(giving_up)@.entries[id@].cached == old(giving_up)@.entries[id@].cached,
        final(giving_up)@.entries.remove(id@) == old(giving_up)@.entries.remove(id@),
        final(storing)@.entries[id@].flag == old(storing)@.entries[id@].flag,
        final(giving_up)@.entries[id@].flag == old(giving_up)@.entries[id@].flag,
        final(storing)@.entries.contains_key(id@) && final(giving_up)@.entries.contains_key(id@),
        final(storing)@ == (FeatureFlagsView { entries: final(storing)@.entries, ..old(storing)@ }),
        final(giving_up)@ == (FeatureFlagsView {
            entries: final(giving_up)@.entries,
            ..old(giving_up)@
        }),
{
    assert(final(storing)@.entries.remove(id@) =~= storing@.entries.remove(id@));
    assert(final(giving_up)@.entries.remove(id@) =~= giving_up@.entries.remove(id@));
}

/// A flag that is not registered has nothing to fetch, to store or to give
/// up: nothing changes.
pub proof fn law_unknown_flag_changes_nothing(
    fetching: &mut FeatureFlags,
    completing: &mut FeatureFlags,
    storing: &mut FeatureFlags,
    giving_up: &mut FeatureFlags,
    id: &Id,
    outcome: &Result<FlagValue, Error>,
    now: u128,
    role: Result<Role, Error>,
    shared: Result<FlagValue, Error>,
)
    requires
        !old(fetching)@.entries.contains_key(id@),
        !old(completing)@.entries.contains_key(id@),
        !old(storing)@.entries.contains_key(id@),
        !old(giving_up)@.entries.contains_key(id@),
        call_ensures(FeatureFlags::fetch, (fetching, id), role),
        call_ensures(FeatureFlags::complete_fetch, (completing, id, outcome, now), shared),
        call_ensures(FeatureFlags::store, (storing, id, outcome, now), ()),
        call_ensures(FeatureFlags::abandon_fetch, (giving_up, id), ()),
    ensures
        role is Err,
        final(fetching)@ == old(fetching)@,
        final(completing)@ == old(completing)@,
        final(storing)@ == old(storing)@,
        final(giving_up)@ == old(giving_up)@,
{
}

/// A value is valid exactly if one was fetched for the flag, and less than
/// the service's time to live has passed since.
pub proof fn law_valid_value(service: FeatureFlagsView, id: Seq<char>, now: u128)
    ensures
        valid_value(service, id, now) is Some ==> service.entries.contains_key(id)
            && service.entries[id].cached is Some && valid_value(service, id, now)->0
            == service.entries[id].cached->0.value,
        service.entries.contains_key(id) && service.entries[id].cached is Some && now
            >= service.entries[id].cached->0.fetched_at ==> (valid_value(service, id, now) is Some
            <==> now < service.entries[id].cached->0.fetched_at + service.ttl),
        service.entries.contains_key(id) && service.entries[id].cached is Some && now
            < service.entries[id].cached->0.fetched_at ==> (valid_value(service, id, now) is Some
            <==> service.ttl > 0),
{
}

/// What is cached is the valid value, unless a fetch is in progress; what is
/// ready is the valid value, and a fetch is needed exactly without one.
pub proof fn law_cached_and_ready(
    flags: &FeatureFlags,
    id: &Id,
    now: u128,
    cached: Option<FlagValue>,
    ready: Result<Readiness, Error>,
)
    requires
        call_ensures(FeatureFlags::cached, (flags, id, now), cached),
        call_ensures(FeatureFlags::when_ready, (flags, id, now), ready),
    ensures
        ({
            let valid = valid_value(flags@, id@, now);
            &&& cached is Some <==> valid is Some && !flags@.entries[id@].in_progress
            &&& cached is Some ==> cached->0@ == valid->0
            &&& ready is Ok <==> flags@.entries.contains_key(id@)
            &&& match ready {
                Ok(Readiness::Ready(value)) => valid == Some(value@),
                Ok(Readiness::Fetch) => valid is None,
                Err(e) => e@ == (ErrorView::Validation {
                    kind: "feature flag id"@,
                    reason: "no flag registered for id: "@ + id@,
                }),
            }
        }),
{
}

/// A response gives a value exactly if its status is in the two hundreds and
/// its body is a JSON object whose `value` is one of the flag's type. Each
/// other response is an error that says what is wrong.
pub proof fn law_response(
    flag: &FeatureFlag,
    outcome: &SubmissionOutcome,
    r: Result<FlagValue, Error>,
)
    requires
        call_ensures(read_response, (flag, outcome), r),
    ensures
        ({
            let body = outcome.body->0@;
            let json = json_of_text(body);
            let held = json->Ok_0->Object_0["value"@];
            let has_value = json is Ok && json->Ok_0 is Object
                && json->Ok_0->Object_0.contains_key("value"@);
            let value = flag_of_json(flag@.default, held);
            if outcome.status@ / 100 != 2 {
                r is Err && r->Err_0@ == response_error(
                    "unexpected response status: "@ + status_text(outcome.status@) + " ("@ + (
                    if outcome.body is Some {
                        body
                    } else {
                        Seq::empty()
                    }) + ")"@,
                )
            } else if outcome.body is None {
                r is Err && r->Err_0@ == response_error("response had no body"@)
            } else if json is Err {
                r is Err && r->Err_0@ == response_error(
                    "unexpected response body: "@ + body + " ("@ + json->Err_0 + ")"@,
                )
            } else if !has_value {
                r is Err && r->Err_0@ == response_error(
                    "missing or invalid 'value' in response: "@ + json_text(json->Ok_0),
                )
            } else if value is None {
                r is Err && r->Err_0@ == response_error(
                    "value did not match expected type for flag "@ + flag@.id + ": "@ + json_text(
                        held,
                    ),
                )
            } else {
                r is Ok && same_flag(r->Ok_0@, value->0)
            }
        }),
{
}

/// The error about a response, with this reason.
pub open spec fn response_error(reason: Seq<char>) -> ErrorView {
    ErrorView::Validation { kind: "feature flag response"@, reason }
}

/// Values are the same if they are equal, but for the bits of a number that
/// is not one.
pub proof fn law_same_flag(a: FlagView, b: FlagView)
    ensures
        a == b ==> same_flag(a, b),
        same_flag(a, b) && !(a is Number) ==> a == b,
        same_flag(a, b) && a is Number ==> b is Number && same_float(a->Number_0, b->Number_0),
{
}

/// What was read for a flag of some type and what a flag value of that type
/// reads are the same thing, whatever the default of the flag is.
pub proof fn law_only_the_type_matters(a: FlagView, b: FlagView, json: JsonView)
    requires
        a is String && b is String || a is Number && b is Number || a is Boolean && b is Boolean,
    ensures
        flag_of_json(a, json) == flag_of_json(b, json),
{
}

/// That a server was not reached is the error of the fetch; a response that
/// came is read.
pub proof fn law_read_check(
    flags: &FeatureFlags,
    id: &Id,
    error: Error,
    r: Result<FlagValue, Error>,
)
    requires
        flags@.entries.contains_key(id@),
        call_ensures(FeatureFlags::read_check, (flags, id, Err(error)), r),
    ensures
        r is Err,
        r->Err_0@ == error@,
{
}

/// A request to opt in or out succeeded exactly if the status is in the two
/// hundreds.
pub proof fn law_check_targeting(outcome: &SubmissionOutcome, r: Result<(), Error>)
    requires
        call_ensures(check_targeting, (outcome,), r),
    ensures
        r is Ok <==> outcome.status@ / 100 == 2,
{
}

/// Those who share an outcome get the same value, or an error with the text
/// of the first.
pub proof fn law_clone_result(result: &Result<FlagValue, Error>, r: Result<FlagValue, Error>)
    requires
        call_ensures(clone_result, (result,), r),
    ensures
        r is Ok <==> result is Ok,
        r is Ok ==> r->Ok_0@ == result->Ok_0@,
        r is Err ==> r->Err_0@ == (ErrorView::Validation {
            kind: "feature flag fetch"@,
            reason: error_text(result->Err_0@),
        }),
{
}

} // verus!
