//! Laws of copies, comparisons and conversions: what a copy says, what is
//! told apart, and that there are several ways to say the same.

use vstd::prelude::*;

use crate::domain::attributes::Attributes;
use crate::domain::sdk_info::SdkInfo;
use crate::domain::server_id::ServerId;
use crate::error::Error;
use crate::error_tracking::tracker::{CauseFrame, TrackedError};
use crate::feature_flags::cache::CachedValue;
use crate::feature_flags::flag::FeatureFlag;
use crate::feature_flags::value::FlagValue;
use crate::json::{json_text, json_tree, payload_text};
use crate::metrics::service::MetricsEvent;
use crate::text::{bytes_of, chars_of, equal_strings, string_of, texts};
use crate::transport::{compress_gzip, gzip, SubmissionOutcome, Transport, Url};
use crate::validated::id::Id;
use crate::validated::token::Token;
use crate::value::{float_eq, items_view, json_eq, push_strings, JsonMap, JsonValue, JsonView};

verus! {

/// A copy says what the value says.
pub proof fn law_copied_values(
    value: &JsonValue,
    value_copy: JsonValue,
    map: &JsonMap,
    map_copy: JsonMap,
    attributes: &Attributes,
    attributes_copy: Attributes,
    other_copy: Attributes,
    borrowed: JsonMap,
)
    requires
        call_ensures(<JsonValue as Clone>::clone, (value,), value_copy),
        call_ensures(<JsonMap as Clone>::clone, (map,), map_copy),
        call_ensures(<Attributes as Clone>::clone, (attributes,), attributes_copy),
        call_ensures(Attributes::copy_of, (attributes,), other_copy),
        call_ensures(Attributes::to_json_map, (attributes,), borrowed),
    ensures
        value_copy@ == value@,
        map_copy@ == map@,
        attributes_copy@ == attributes@,
        other_copy@ == attributes@,
        borrowed@ == attributes@,
{
}

/// Attributes say the same as the map that they turn into.
pub proof fn law_attributes_become_a_map(attributes: Attributes, map: JsonMap)
    requires
        call_ensures(Attributes::into_json_map, (attributes,), map),
    ensures
        map@ == attributes@,
{
}

/// A copy of what names and addresses something says the same.
pub proof fn law_copied_names(
    id: &Id,
    id_copy: Id,
    token: &Token,
    token_copy: Token,
    sdk_info: &SdkInfo,
    sdk_info_copy: SdkInfo,
    url: &Url,
    url_copy: Url,
    transport: &Transport,
    transport_copy: Transport,
)
    requires
        call_ensures(<Id as Clone>::clone, (id,), id_copy),
        call_ensures(<Token as Clone>::clone, (token,), token_copy),
        call_ensures(<SdkInfo as Clone>::clone, (sdk_info,), sdk_info_copy),
        call_ensures(<Url as Clone>::clone, (url,), url_copy),
        call_ensures(<Transport as Clone>::clone, (transport,), transport_copy),
    ensures
        id_copy@ == id@,
        token_copy@ == token@,
        sdk_info_copy@ == sdk_info@,
        url_copy@ == url@,
        transport_copy@ == transport@,
{
}

/// A copy of what was reported, or what came of it, says the same.
pub proof fn law_copied_reports(
    cause: &CauseFrame,
    cause_copy: CauseFrame,
    error: &TrackedError,
    error_copy: TrackedError,
    event: &MetricsEvent,
    event_copy: MetricsEvent,
    outcome: &SubmissionOutcome,
    outcome_copy: SubmissionOutcome,
)
    requires
        call_ensures(<CauseFrame as Clone>::clone, (cause,), cause_copy),
        call_ensures(<TrackedError as Clone>::clone, (error,), error_copy),
        call_ensures(<MetricsEvent as Clone>::clone, (event,), event_copy),
        call_ensures(<SubmissionOutcome as Clone>::clone, (outcome,), outcome_copy),
    ensures
        cause_copy@ == cause@,
        error_copy@ == error@,
        event_copy == *event,
        outcome_copy == *outcome,
{
}

/// A copy of a flag, its value, or what is kept of it, says the same.
pub proof fn law_copied_flags(
    flag: &FeatureFlag,
    flag_copy: FeatureFlag,
    value: &FlagValue,
    value_copy: FlagValue,
    cached: &CachedValue,
    cached_copy: CachedValue,
)
    requires
        call_ensures(<FeatureFlag as Clone>::clone, (flag,), flag_copy),
        call_ensures(<FlagValue as Clone>::clone, (value,), value_copy),
        call_ensures(<CachedValue as Clone>::clone, (cached,), cached_copy),
    ensures
        flag_copy@ == flag@,
        value_copy@ == value@,
        cached_copy@ == cached@,
{
}

/// Names are the same exactly if they are written the same.
pub proof fn law_equal_names(
    id: &Id,
    other_id: &Id,
    ids: bool,
    token: &Token,
    other_token: &Token,
    tokens: bool,
    sdk_info: &SdkInfo,
    other_info: &SdkInfo,
    infos: bool,
    cause: &CauseFrame,
    other_cause: &CauseFrame,
    causes: bool,
)
    requires
        call_ensures(<Id as PartialEq>::eq, (id, other_id), ids),
        call_ensures(<Token as PartialEq>::eq, (token, other_token), tokens),
        call_ensures(<SdkInfo as PartialEq>::eq, (sdk_info, other_info), infos),
        call_ensures(<CauseFrame as PartialEq>::eq, (cause, other_cause), causes),
    ensures
        ids <==> id@ == other_id@,
        tokens <==> token@ == other_token@,
        infos <==> sdk_info@ == other_info@,
        causes <==> cause@ == other_cause@,
{
}

/// Maps and attributes are compared as the JSON objects that they are.
pub proof fn law_equal_maps(
    a: &JsonMap,
    b: &JsonMap,
    maps: bool,
    c: &Attributes,
    d: &Attributes,
    attributes: bool,
    v: &JsonValue,
    w: &JsonValue,
    values: bool,
)
    requires
        call_ensures(<JsonMap as PartialEq>::eq, (a, b), maps),
        call_ensures(<Attributes as PartialEq>::eq, (c, d), attributes),
        call_ensures(<JsonValue as PartialEq>::eq, (v, w), values),
    ensures
        maps == json_eq(JsonView::Object(a@), JsonView::Object(b@)),
        attributes == json_eq(JsonView::Object(c@), JsonView::Object(d@)),
        values == json_eq(v@, w@),
{
}

/// Flag values of different kinds are never the same; texts and booleans are
/// exactly if they say the same.
pub proof fn law_equal_flag_values(a: &FlagValue, b: &FlagValue, r: bool)
    requires
        call_ensures(<FlagValue as PartialEq>::eq, (a, b), r),
    ensures
        match (*a, *b) {
            (FlagValue::String(x), FlagValue::String(y)) => r <==> x@ == y@,
            (FlagValue::Boolean(x), FlagValue::Boolean(y)) => r <==> x == y,
            (FlagValue::Number(x), FlagValue::Number(y)) => r == float_eq(x, y),
            _ => !r,
        },
{
}

/// An id or a token can be made of a text in three ways, which agree.
pub proof fn law_ways_to_name(
    owned: String,
    text: &str,
    id: Result<Id, Error>,
    id_of_owned: Result<Id, Error>,
    id_of_text: Result<Id, Error>,
    token: Result<Token, Error>,
    token_of_owned: Result<Token, Error>,
    token_of_text: Result<Token, Error>,
)
    requires
        owned@ == text@,
        call_ensures(Id::new, (text,), id),
        call_ensures(<Id as TryFrom<String>>::try_from, (owned,), id_of_owned),
        call_ensures(<Id as TryFrom<&str>>::try_from, (text,), id_of_text),
        call_ensures(Token::new, (text,), token),
        call_ensures(<Token as TryFrom<String>>::try_from, (owned,), token_of_owned),
        call_ensures(<Token as TryFrom<&str>>::try_from, (text,), token_of_text),
    ensures
        id is Ok <==> id_of_owned is Ok,
        id is Ok <==> id_of_text is Ok,
        id is Ok ==> id_of_owned->Ok_0@ == id->Ok_0@ && id_of_text->Ok_0@ == id->Ok_0@,
        id is Err ==> id_of_owned->Err_0@ == id->Err_0@ && id_of_text->Err_0@ == id->Err_0@,
        token is Ok <==> token_of_owned is Ok,
        token is Ok <==> token_of_text is Ok,
        token is Ok ==> token_of_owned->Ok_0@ == token->Ok_0@ && token_of_text->Ok_0@
            == token->Ok_0@,
        token is Err ==> token_of_owned->Err_0@ == token->Err_0@ && token_of_text->Err_0@
            == token->Err_0@,
{
}

/// A text that may be missing becomes a JSON string, or null.
pub proof fn law_optional_string(s: &Option<String>, r: JsonValue)
    requires
        call_ensures(JsonValue::optional_string, (s,), r),
    ensures
        s is Some ==> r@ == JsonView::String(s->0@),
        s is None ==> r@ == JsonView::Null,
{
}

/// Texts are appended in their order, each as a JSON string, and what was
/// there stays.
pub proof fn law_push_strings(items: &mut Vec<JsonValue>, strings: &Vec<String>, i: int)
    requires
        call_ensures(push_strings, (items, strings), ()),
    ensures
        ({
            let before = items_view(old(items)@);
            let after = items_view(final(items)@);
            &&& after.len() == before.len() + strings@.len()
            &&& 0 <= i < before.len() ==> after[i] == before[i]
            &&& 0 <= i < strings@.len() ==> after[before.len() + i] == JsonView::String(
                strings@[i]@,
            )
        }),
{
    if 0 <= i < strings@.len() {
        assert(texts(strings@)[i] == strings@[i]@);
    }
}

/// Lists of texts are the same exactly if they have the same number of
/// texts, and those are the same one by one.
pub proof fn law_equal_strings(a: &Vec<String>, b: &Vec<String>, r: bool)
    requires
        call_ensures(equal_strings, (a, b), r),
    ensures
        r <==> a@.len() == b@.len() && forall|i: int|
            0 <= i < a@.len() ==> (#[trigger] a@[i])@ == b@[i]@,
{
    let x = texts(a@);
    let y = texts(b@);
    assert(x.len() == a@.len() && y.len() == b@.len());
    if x == y {
        assert forall|i: int| 0 <= i < a@.len() implies (#[trigger] a@[i])@ == b@[i]@ by {
            assert(x[i] == y[i]);
        }
    }
    if a@.len() == b@.len() && (forall|i: int|
        0 <= i < a@.len() ==> (#[trigger] a@[i])@ == b@[i]@) {
        assert(x =~= y) by {
            assert forall|i: int| 0 <= i < x.len() implies x[i] == y[i] by {
                assert(a@[i]@ == b@[i]@);
            }
        }
    }
}

/// A text taken apart and put together again is the text.
pub proof fn law_chars_and_back(s: &str, chars: Vec<char>, whole: String, part: String, end: usize)
    requires
        call_ensures(chars_of, (s,), chars),
        call_ensures(string_of, (&chars, 0, chars@.len() as usize), whole),
        chars@.len() <= usize::MAX,
        end <= chars@.len(),
        call_ensures(string_of, (&chars, end, chars@.len() as usize), part),
    ensures
        whole@ == s@,
        part@ == s@.skip(end as int),
{
}

/// The bytes of a text tell it apart from every other.
pub proof fn law_bytes_tell_texts_apart(a: &str, b: &str, x: Vec<u8>, y: Vec<u8>)
    requires
        call_ensures(bytes_of, (a,), x),
        call_ensures(bytes_of, (b,), y),
    ensures
        x@ == y@ <==> a@ == b@,
{
    vstd::utf8::encode_utf8_decode_utf8(a@);
    vstd::utf8::encode_utf8_decode_utf8(b@);
}

/// The server id that stands for none, and how to tell a new one from it.
pub proof fn law_new_server_id(nil: ServerId, new: ServerId)
    requires
        call_ensures(ServerId::nil, (), nil),
        call_ensures(ServerId::random, (), new),
    ensures
        nil.0 == 0,
        new != nil,
        (new.0 / 0x1000_0000_0000_0000_0000) % 16 == 4,
        (new.0 / 0x4000_0000_0000_0000) % 4 == 2,
{
}

/// A payload is sent as the text of what it says, or not at all.
pub proof fn law_payload_text(payload: &JsonValue, tree: &serde_json::Value, r: Option<String>)
    requires
        call_ensures(payload_text, (payload, tree), r),
    ensures
        r is Some <==> json_tree(*tree) == payload@,
        r is Some ==> r->0@ == json_text(payload@),
{
}

/// What is compressed starts as every gzip file does; where it cannot be
/// compressed, the reason is told.
pub proof fn law_compressed(bytes: &[u8], r: Result<Vec<u8>, Error>)
    requires
        call_ensures(compress_gzip, (bytes,), r),
    ensures
        r is Ok <==> gzip(bytes@) is Ok,
        r is Ok ==> r->Ok_0@ == gzip(bytes@)->Ok_0,
        r is Ok ==> r->Ok_0@[0] == 0x1f && r->Ok_0@[1] == 0x8b,
        r is Err ==> r->Err_0@ == crate::error::ErrorView::Compression(gzip(bytes@)->Err_0),
{
}

} // verus!
