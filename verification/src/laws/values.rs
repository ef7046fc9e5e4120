//! Laws of JSON values and of errors.

use vstd::prelude::*;

use crate::domain::attributes::Attributes;
use crate::error::{error_text, Error, ErrorView};
use crate::value::{
    all_finite, equal_floats, float_is_finite, is_finite_float, items_view, json_eq, JsonMap,
    JsonValue, JsonView, Number,
};

verus! {

/// A float is finite exactly if its bits, without the sign, are below those
/// of infinity.
pub proof fn law_finite_floats(bits: u64, r: bool)
    requires
        call_ensures(is_finite_float, (bits,), r),
    ensures
        r <==> bits % 0x8000_0000_0000_0000 < 0x7ff0_0000_0000_0000,
        r == float_is_finite(bits),
{
    assert(((bits / 0x10_0000_0000_0000) % 0x800 != 0x7ff) == (bits % 0x8000_0000_0000_0000
        < 0x7ff0_0000_0000_0000)) by (bit_vector);
}

/// Two floats are equal exactly if neither is NaN, and they have the same
/// bits or are both zero.
pub proof fn law_equal_floats(a: u64, b: u64, r: bool)
    requires
        call_ensures(equal_floats, (a, b), r),
    ensures
        ({
            let magnitude_a = a % 0x8000_0000_0000_0000;
            let magnitude_b = b % 0x8000_0000_0000_0000;
            r <==> magnitude_a <= 0x7ff0_0000_0000_0000 && magnitude_b <= 0x7ff0_0000_0000_0000
                && (a == b || magnitude_a == 0 && magnitude_b == 0)
        }),
{
    lemma_nan(a);
    lemma_nan(b);
}

proof fn lemma_nan(bits: u64)
    ensures
        (bits / 0x10_0000_0000_0000) % 0x800 == 0x7ff && bits % 0x10_0000_0000_0000 != 0 <==> bits
            % 0x8000_0000_0000_0000 > 0x7ff0_0000_0000_0000,
{
    assert((((bits / 0x10_0000_0000_0000) % 0x800 == 0x7ff) && bits % 0x10_0000_0000_0000 != 0)
        == (bits % 0x8000_0000_0000_0000 > 0x7ff0_0000_0000_0000)) by (bit_vector);
}

/// A value is finite exactly if it is no float that is not, and everything
/// in it is finite.
pub proof fn law_finite_values(
    value: JsonView,
    items: Seq<JsonView>,
    map: Map<Seq<char>, JsonView>,
    bits: u64,
)
    ensures
        value is Null || value is Bool || value is String ==> all_finite(value),
        value == JsonView::Number(Number::Float(bits)) ==> (all_finite(value) <==> bits
            % 0x8000_0000_0000_0000 < 0x7ff0_0000_0000_0000),
        value is Number && !(value->Number_0 is Float) ==> all_finite(value),
        value == JsonView::Array(items) ==> (all_finite(value) <==> forall|i: int|
            0 <= i < items.len() ==> all_finite(#[trigger] items[i])),
        value == JsonView::Object(map) ==> (all_finite(value) <==> forall|key: Seq<char>|
            map.contains_key(key) ==> all_finite(#[trigger] map[key])),
{
    assert(((bits / 0x10_0000_0000_0000) % 0x800 != 0x7ff) == (bits % 0x8000_0000_0000_0000
        < 0x7ff0_0000_0000_0000)) by (bit_vector);
    match value {
        JsonView::Array(held) => {
            if all_finite(value) {
                assert forall|i: int| 0 <= i < held.len() implies all_finite(
                    #[trigger] held[i],
                ) by {}
            }
        },
        JsonView::Object(held) => {
            if all_finite(value) {
                assert forall|key: Seq<char>| held.contains_key(key) implies all_finite(
                    #[trigger] held[key],
                ) by {}
            }
        },
        _ => {},
    }
}

/// What a value says of itself is what holds of it.
pub proof fn law_is_finite(value: &JsonValue, r: bool)
    requires
        call_ensures(JsonValue::is_finite, (value,), r),
    ensures
        r == all_finite(value@),
{
}

/// Equality goes by kind: two arrays are equal item by item, two objects
/// entry by entry, floats by value, and everything else if it is the same.
pub proof fn law_equal_values(a: JsonView, b: JsonView)
    ensures
        json_eq(a, b) ==> {
            ||| a is Null && b is Null
            ||| a is Bool && b is Bool
            ||| a is Number && b is Number
            ||| a is String && b is String
            ||| a is Array && b is Array
            ||| a is Object && b is Object
        },
        a is Null && b is Null ==> json_eq(a, b),
        a is Bool && b is Bool ==> (json_eq(a, b) <==> a->Bool_0 == b->Bool_0),
        a is String && b is String ==> (json_eq(a, b) <==> a->String_0 == b->String_0),
        a is Number && b is Number && (a->Number_0 is Float) && (b->Number_0 is Float) ==> (
        json_eq(a, b) <==> crate::value::float_eq(a->Number_0->Float_0, b->Number_0->Float_0)),
        a is Number && b is Number && !(a->Number_0 is Float && b->Number_0 is Float) ==> (json_eq(
            a,
            b,
        ) <==> a == b),
        a is Array && b is Array ==> (json_eq(a, b) <==> equal_item_by_item(
            a->Array_0,
            b->Array_0,
        )),
        a is Object && b is Object ==> (json_eq(a, b) <==> equal_entry_by_entry(
            a->Object_0,
            b->Object_0,
        )),
{
    match a {
        JsonView::Array(x) => match b {
            JsonView::Array(y) => {
                if json_eq(a, b) {
                    assert forall|i: int| 0 <= i < x.len() implies json_eq(
                        #[trigger] x[i],
                        y[i],
                    ) by {}
                }
            },
            _ => {},
        },
        JsonView::Object(x) => match b {
            JsonView::Object(y) => {
                if json_eq(a, b) {
                    assert forall|key: Seq<char>| x.contains_key(key) implies json_eq(
                        #[trigger] x[key],
                        y[key],
                    ) by {}
                }
                if equal_entry_by_entry(x, y) {
                    assert(x.dom() =~= y.dom());
                }
            },
            _ => {},
        },
        _ => {},
    }
}

/// Whether two sequences of values are equal item by item.
pub open spec fn equal_item_by_item(x: Seq<JsonView>, y: Seq<JsonView>) -> bool {
    x.len() == y.len() && forall|i: int| 0 <= i < x.len() ==> json_eq(#[trigger] x[i], y[i])
}

/// Whether two maps have the same keys, with equal values.
pub open spec fn equal_entry_by_entry(
    x: Map<Seq<char>, JsonView>,
    y: Map<Seq<char>, JsonView>,
) -> bool {
    &&& forall|key: Seq<char>| #[trigger] x.dom().contains(key) <==> y.dom().contains(key)
    &&& forall|key: Seq<char>| x.contains_key(key) ==> json_eq(#[trigger] x[key], y[key])
}

/// Equality does not depend on which value comes first.
pub proof fn law_equality_is_symmetric(a: JsonView, b: JsonView)
    ensures
        json_eq(a, b) == json_eq(b, a),
    decreases a,
{
    law_equal_values(a, b);
    law_equal_values(b, a);
    match a {
        JsonView::Array(x) => match b {
            JsonView::Array(y) => {
                if x.len() == y.len() {
                    assert forall|i: int| 0 <= i < x.len() implies json_eq(x[i], y[i]) == json_eq(
                        #[trigger] y[i],
                        x[i],
                    ) by {
                        law_equality_is_symmetric(x[i], y[i]);
                    }
                    if equal_item_by_item(x, y) {
                        assert forall|i: int| 0 <= i < y.len() implies json_eq(
                            #[trigger] y[i],
                            x[i],
                        ) by {
                            assert(json_eq(x[i], y[i]));
                        }
                    }
                    if equal_item_by_item(y, x) {
                        assert forall|i: int| 0 <= i < x.len() implies json_eq(
                            #[trigger] x[i],
                            y[i],
                        ) by {
                            assert(json_eq(y[i], x[i]));
                        }
                    }
                }
            },
            _ => {},
        },
        JsonView::Object(x) => match b {
            JsonView::Object(y) => {
                assert forall|key: Seq<char>| x.contains_key(key) implies json_eq(x[key], y[key])
                    == json_eq(#[trigger] y[key], x[key]) by {
                    law_equality_is_symmetric(x[key], y[key]);
                }
                if equal_entry_by_entry(x, y) {
                    assert forall|key: Seq<char>| y.contains_key(key) implies json_eq(
                        #[trigger] y[key],
                        x[key],
                    ) by {
                        assert(x.dom().contains(key));
                        assert(json_eq(x[key], y[key]));
                    }
                }
                if equal_entry_by_entry(y, x) {
                    assert forall|key: Seq<char>| x.contains_key(key) implies json_eq(
                        #[trigger] x[key],
                        y[key],
                    ) by {
                        assert(y.dom().contains(key));
                        assert(json_eq(y[key], x[key]));
                    }
                }
            },
            _ => {},
        },
        _ => {},
    }
}

/// What was inserted for a key is found there, once, and every other entry
/// is found as before.
pub proof fn law_insert_then_get(
    map: &mut JsonMap,
    key: &str,
    value: JsonValue,
    other: &str,
    found: Option<&JsonValue>,
    before: Option<&JsonValue>,
    now: Option<&JsonValue>,
)
    requires
        call_ensures(JsonMap::insert, (map, key, value), ()),
        call_ensures(JsonMap::get, (&*final(map), key), found),
        call_ensures(JsonMap::get, (&*map, other), before),
        call_ensures(JsonMap::get, (&*final(map), other), now),
        other@ != key@,
    ensures
        found is Some && found->0@ == value@,
        now is Some <==> before is Some,
        now is Some ==> now->0@ == before->0@,
{
}

/// What was taken out is found no more, and every other entry is found as
/// before.
pub proof fn law_remove_then_get(
    map: &mut JsonMap,
    key: &str,
    other: &str,
    taken: Option<JsonValue>,
    held: Option<&JsonValue>,
    found: Option<&JsonValue>,
    before: Option<&JsonValue>,
    now: Option<&JsonValue>,
)
    requires
        call_ensures(JsonMap::get, (&*map, key), held),
        call_ensures(JsonMap::get, (&*map, other), before),
        call_ensures(JsonMap::remove, (map, key), taken),
        call_ensures(JsonMap::get, (&*final(map), key), found),
        call_ensures(JsonMap::get, (&*final(map), other), now),
        other@ != key@,
    ensures
        found is None,
        taken is Some <==> held is Some,
        taken is Some ==> taken->0@ == held->0@,
        now is Some <==> before is Some,
        now is Some ==> now->0@ == before->0@,
{
}

/// Every entry of the other object is taken over; an own one stays where the
/// other has none with its key.
pub proof fn law_extend(
    map: &mut JsonMap,
    other: &JsonMap,
    key: &str,
    own: Option<&JsonValue>,
    theirs: Option<&JsonValue>,
    now: Option<&JsonValue>,
)
    requires
        call_ensures(JsonMap::get, (&*map, key), own),
        call_ensures(JsonMap::get, (other, key), theirs),
        call_ensures(JsonMap::extend, (map, other), ()),
        call_ensures(JsonMap::get, (&*final(map), key), now),
    ensures
        theirs is Some ==> now is Some && now->0@ == theirs->0@,
        theirs is None && own is Some ==> now is Some && now->0@ == own->0@,
        theirs is None && own is None ==> now is None,
{
}

/// Only entries whose keys are missing are taken over; an own one stays.
pub proof fn law_fill_missing(
    map: &mut JsonMap,
    other: &JsonMap,
    key: &str,
    own: Option<&JsonValue>,
    theirs: Option<&JsonValue>,
    now: Option<&JsonValue>,
)
    requires
        call_ensures(JsonMap::get, (&*map, key), own),
        call_ensures(JsonMap::get, (other, key), theirs),
        call_ensures(JsonMap::fill_missing, (map, other), ()),
        call_ensures(JsonMap::get, (&*final(map), key), now),
    ensures
        own is Some ==> now is Some && now->0@ == own->0@,
        own is None && theirs is Some ==> now is Some && now->0@ == theirs->0@,
        own is None && theirs is None ==> now is None,
{
}

/// A key is there exactly if its value is found, and an object is empty
/// exactly if it has no entries.
pub proof fn law_contains_key(
    map: &JsonMap,
    key: &str,
    contains: bool,
    found: Option<&JsonValue>,
    empty: bool,
    len: usize,
)
    requires
        call_ensures(JsonMap::contains_key, (map, key), contains),
        call_ensures(JsonMap::get, (map, key), found),
        call_ensures(JsonMap::is_empty, (map,), empty),
        call_ensures(JsonMap::len, (map,), len),
    ensures
        contains <==> found is Some,
        empty ==> !contains && len == 0,
        len == 0 ==> empty,
{
    if len == 0 {
        assert(map@ =~= Map::empty());
    }
    if empty {
        assert(map@.dom() =~= Set::empty());
    }
}

/// Integers, strings and lists of strings become the JSON that stands for
/// them.
pub proof fn law_constructors(
    n: u64,
    i: i64,
    s: &str,
    strings: &Vec<String>,
    unsigned: JsonValue,
    signed: JsonValue,
    string: JsonValue,
    list: JsonValue,
)
    requires
        call_ensures(JsonValue::unsigned, (n,), unsigned),
        call_ensures(JsonValue::signed, (i,), signed),
        call_ensures(JsonValue::string, (s,), string),
        call_ensures(JsonValue::strings, (strings,), list),
    ensures
        unsigned@ == JsonView::Number(Number::PosInt(n)),
        i < 0 ==> signed@ == JsonView::Number(Number::NegInt(i)),
        i >= 0 ==> signed@ == JsonView::Number(Number::PosInt(i as u64)),
        string@ == JsonView::String(s@),
        list@ is Array && list@->Array_0.len() == strings@.len(),
        forall|k: int|
            0 <= k < strings@.len() ==> list@->Array_0[k] == JsonView::String(
                (#[trigger] strings@[k])@,
            ),
{
}

/// An attribute is refused exactly if it is not finite, and then nothing
/// changes. One that is accepted is found, unless it is null; every other
/// attribute stays.
pub proof fn law_put_then_get(
    attributes: &mut Attributes,
    key: &str,
    value: JsonValue,
    r: Result<&mut Attributes, Error>,
    other: &str,
)
    requires
        call_ensures(Attributes::put, (attributes, key, value), r),
    ensures
        r is Ok <==> all_finite(value@),
        r is Err ==> final(attributes)@ == old(attributes)@ && r->Err_0@ == (
        ErrorView::Validation {
            kind: "attribute value"@,
            reason: "float is NaN or infinite"@,
        }),
        r is Ok && value@ != JsonView::Null ==> r->Ok_0@.contains_key(key@) && r->Ok_0@[key@]
            == value@,
        r is Ok && value@ == JsonView::Null ==> !r->Ok_0@.contains_key(key@),
        r is Ok && other@ != key@ ==> r->Ok_0@.contains_key(other@) == old(
            attributes)@.contains_key(other@),
        r is Ok && other@ != key@ && old(attributes)@.contains_key(other@) ==> r->Ok_0@[other@]
            == old(attributes)@[other@],
{
}

/// Joined attributes are those of both; where both have one, the second's.
/// Missing attributes are no attributes.
pub proof fn law_join(
    first: Option<&Attributes>,
    second: Option<&Attributes>,
    key: Seq<char>,
    r: Attributes,
)
    requires
        call_ensures(Attributes::join, (first, second), r),
    ensures
        second is Some && second->0@.contains_key(key) ==> r@.contains_key(key) && r@[key]
            == second->0@[key],
        first is Some && first->0@.contains_key(key) && !(second is Some && second->0@.contains_key(
            key,
        )) ==> r@.contains_key(key) && r@[key] == first->0@[key],
        r@.contains_key(key) ==> first is Some && first->0@.contains_key(key) || second is Some
            && second->0@.contains_key(key),
{
}

/// An error is described by what it is and its reason.
pub proof fn law_error_message(error: &Error, r: String)
    requires
        call_ensures(Error::message, (error,), r),
    ensures
        match *error {
            Error::Initialization(reason) => r@ == "error in initialization: "@ + reason@,
            Error::Validation { kind, reason } => r@ == "invalid "@ + kind@ + ": "@ + reason@,
            Error::Serialization(reason) => r@ == "serialization error: "@ + reason@,
            Error::Transport(reason) => r@ == "transport error: "@ + reason@,
            Error::Compression(reason) => r@ == "compression error: "@ + reason@,
            Error::InvalidServerUrl { env_var, reason } => r@ == "invalid server url in "@
                + env_var@ + ": "@ + reason@,
        },
        r@ == error_text(error@),
{
}

/// An array says what its items say, one by one.
pub proof fn law_items(items: Seq<JsonValue>)
    ensures
        items_view(items).len() == items.len(),
        forall|i: int|
            0 <= i < items.len() ==> #[trigger] items_view(items)[i] == items[i]@,
    decreases items.len(),
{
    if items.len() > 0 {
        law_items(items.drop_last());
    }
}

/// An array or an object of JSON is what its items or its entries are.
pub proof fn law_nested_values(items: Vec<JsonValue>, map: JsonMap, s: String, b: bool, n: Number)
    ensures
        JsonValue::Array(items)@ == JsonView::Array(items_view(items@)),
        JsonValue::Object(map)@ == JsonView::Object(map@),
        JsonValue::String(s)@ == JsonView::String(s@),
        JsonValue::Bool(b)@ == JsonView::Bool(b),
        JsonValue::Number(n)@ == JsonView::Number(n),
        JsonValue::Null@ == JsonView::Null,
{
}

} // verus!
