//! JSON values: the data that attributes, metrics and request bodies are
//! made of. Objects are unordered, as JSON objects are; a number keeps
//! apart unsigned integers, negative integers and floating-point values.

use vstd::prelude::*;

use crate::text::{equal, opt_text, texts};

verus! {

/// A JSON number.
#[derive(Clone, Copy, Debug)]
pub enum Number {
    /// An integer that is not negative.
    PosInt(u64),
    /// A negative integer.
    NegInt(i64),
    /// A floating-point value, as the bits of its IEEE 754 binary64 form.
    Float(u64),
}

/// What a [`JsonValue`] stands for.
pub enum JsonView {
    Null,
    Bool(bool),
    Number(Number),
    String(Seq<char>),
    Array(Seq<JsonView>),
    Object(Map<Seq<char>, JsonView>),
}

/// A JSON value.
#[derive(Debug)]
pub enum JsonValue {
    Null,
    Bool(bool),
    Number(Number),
    String(String),
    Array(Vec<JsonValue>),
    Object(JsonMap),
}

/// A JSON object: a finite map from strings to values.
#[derive(Debug)]
pub struct JsonMap {
    entries: Vec<(String, JsonValue)>,
}

/// Whether no two entries have the same key.
pub open spec fn unique_keys(entries: Seq<(String, JsonValue)>) -> bool {
    forall|i: int, j: int|
        0 <= i < j < entries.len() ==> #[trigger] entries[i].0@ != #[trigger] entries[j].0@
}

/// The views of a sequence of values, one by one.
pub open spec fn items_view(items: Seq<JsonValue>) -> Seq<JsonView>
    decreases items,
{
    if items.len() == 0 {
        Seq::empty()
    } else {
        items_view(items.drop_last()).push(items.last().view())
    }
}

/// The map that a sequence of entries describes; of two entries with the
/// same key, the later one counts.
pub open spec fn entries_view(entries: Seq<(String, JsonValue)>) -> Map<Seq<char>, JsonView>
    decreases entries,
{
    if entries.len() == 0 {
        Map::empty()
    } else {
        entries_view(entries.drop_last()).insert(entries.last().0@, entries.last().1.view())
    }
}

/// The exponent field of a binary64 value.
pub open spec fn float_exponent(bits: u64) -> u64 {
    (bits / 0x10_0000_0000_0000) % 0x800
}

/// Whether the binary64 value is neither infinite nor NaN.
pub open spec fn float_is_finite(bits: u64) -> bool {
    float_exponent(bits) != 0x7ff
}

/// Whether the binary64 value with these bits is not a number.
pub open spec fn float_is_nan(bits: u64) -> bool {
    !float_is_finite(bits) && bits % 0x10_0000_0000_0000 != 0
}

/// Whether the binary64 value with these bits is zero.
pub open spec fn float_is_zero(bits: u64) -> bool {
    bits % 0x8000_0000_0000_0000 == 0
}

/// Whether two binary64 values compare as equal: a value that is not a
/// number equals nothing, and the two zeros are equal.
pub open spec fn float_eq(a: u64, b: u64) -> bool {
    !float_is_nan(a) && !float_is_nan(b) && (a == b || float_is_zero(a) && float_is_zero(b))
}

/// Whether two JSON numbers are equal: of the same kind, with equal values.
pub open spec fn number_eq(a: Number, b: Number) -> bool {
    match (a, b) {
        (Number::Float(x), Number::Float(y)) => float_eq(x, y),
        _ => a == b,
    }
}

/// Whether two JSON values are equal. Floats compare by value, so that the
/// two zeros are equal.
pub open spec fn json_eq(a: JsonView, b: JsonView) -> bool
    decreases a,
{
    match a {
        JsonView::Number(x) => match b {
            JsonView::Number(y) => number_eq(x, y),
            _ => false,
        },
        JsonView::Array(x) => match b {
            JsonView::Array(y) => x.len() == y.len() && forall|i: int|
                0 <= i < x.len() ==> json_eq(#[trigger] x[i], y[i]),
            _ => false,
        },
        JsonView::Object(x) => match b {
            JsonView::Object(y) => x.dom() == y.dom() && forall|key: Seq<char>|
                x.contains_key(key) ==> json_eq(#[trigger] x[key], y[key]),
            _ => false,
        },
        _ => a == b,
    }
}

/// Whether every number anywhere inside the value is finite.
pub open spec fn all_finite(value: JsonView) -> bool
    decreases value,
{
    match value {
        JsonView::Number(Number::Float(bits)) => float_is_finite(bits),
        JsonView::Array(items) => forall|i: int|
            0 <= i < items.len() ==> all_finite(#[trigger] items[i]),
        JsonView::Object(map) => forall|key: Seq<char>|
            map.contains_key(key) ==> all_finite(#[trigger] map[key]),
        _ => true,
    }
}

impl JsonValue {
    /// The JSON value that this stands for.
    pub open spec fn view(&self) -> JsonView
        decreases self,
    {
        match self {
            JsonValue::Null => JsonView::Null,
            JsonValue::Bool(b) => JsonView::Bool(*b),
            JsonValue::Number(n) => JsonView::Number(*n),
            JsonValue::String(s) => JsonView::String(s@),
            JsonValue::Array(items) => JsonView::Array(items_view(items@)),
            JsonValue::Object(map) => JsonView::Object(map.view()),
        }
    }
}

impl JsonMap {
    #[verifier::type_invariant]
    spec fn well_formed(self) -> bool {
        unique_keys(self.entries@)
    }

    /// The map that this object stands for.
    pub closed spec fn view(&self) -> Map<Seq<char>, JsonView>
        decreases self,
    {
        entries_view(self.entries@)
    }
}

/// The items of a finite array are finite.
proof fn lemma_finite_item(value: JsonView, items: Seq<JsonView>, i: int)
    requires
        value == JsonView::Array(items),
        0 <= i < items.len(),
        all_finite(value),
    ensures
        all_finite(items[i]),
{
    match value {
        JsonView::Array(held) => assert(all_finite(held[i])),
        _ => {},
    }
}

/// The entries of a finite object are finite.
proof fn lemma_finite_entry(value: JsonView, map: Map<Seq<char>, JsonView>, key: Seq<char>)
    requires
        value == JsonView::Object(map),
        map.contains_key(key),
        all_finite(value),
    ensures
        all_finite(map[key]),
{
    match value {
        JsonView::Object(held) => assert(all_finite(held[key])),
        _ => {},
    }
}

/// The items of equal arrays are equal.
proof fn lemma_equal_item(
    a: JsonView,
    b: JsonView,
    x: Seq<JsonView>,
    y: Seq<JsonView>,
    i: int,
)
    requires
        a == JsonView::Array(x),
        b == JsonView::Array(y),
        0 <= i < x.len(),
        json_eq(a, b),
    ensures
        x.len() == y.len(),
        json_eq(x[i], y[i]),
{
    match a {
        JsonView::Array(held) => assert(json_eq(held[i], y[i])),
        _ => {},
    }
}

/// The entries of equal objects are equal.
proof fn lemma_equal_entry(
    a: JsonView,
    b: JsonView,
    x: Map<Seq<char>, JsonView>,
    y: Map<Seq<char>, JsonView>,
    key: Seq<char>,
)
    requires
        a == JsonView::Object(x),
        b == JsonView::Object(y),
        x.contains_key(key),
        json_eq(a, b),
    ensures
        y.contains_key(key),
        json_eq(x[key], y[key]),
{
    match a {
        JsonView::Object(held) => {
            assert(held.dom().contains(key));
            assert(json_eq(held[key], y[key]));
        },
        _ => {},
    }
}

/// A finite value equals itself, and so every copy of it.
pub proof fn law_finite_values_equal_themselves(value: JsonView)
    requires
        all_finite(value),
    ensures
        json_eq(value, value),
    decreases value,
{
    match value {
        JsonView::Array(items) => {
            assert forall|i: int| 0 <= i < items.len() implies json_eq(
                #[trigger] items[i],
                items[i],
            ) by {
                lemma_finite_item(value, items, i);
                law_finite_values_equal_themselves(items[i]);
            }
        },
        JsonView::Object(map) => {
            assert forall|key: Seq<char>| map.contains_key(key) implies json_eq(
                #[trigger] map[key],
                map[key],
            ) by {
                lemma_finite_entry(value, map, key);
                law_finite_values_equal_themselves(map[key]);
            }
        },
        _ => {},
    }
}

/// The views of a sequence of values are as many as the values, and stand
/// in the same order.
pub proof fn lemma_items_view(items: Seq<JsonValue>)
    ensures
        items_view(items).len() == items.len(),
        forall|i: int| 0 <= i < items.len() ==> #[trigger] items_view(items)[i] == items[i]@,
    decreases items.len(),
{
    if items.len() > 0 {
        lemma_items_view(items.drop_last());
    }
}

/// Appending a value appends its view.
pub proof fn lemma_items_view_push(items: Seq<JsonValue>, value: JsonValue)
    ensures
        items_view(items.push(value)) == items_view(items).push(value@),
{
    assert(items.push(value).drop_last() =~= items);
}

/// The map of entries with distinct keys has those keys, each with its own
/// value.
pub proof fn lemma_entries_view(entries: Seq<(String, JsonValue)>)
    requires
        unique_keys(entries),
    ensures
        entries_view(entries).dom().finite(),
        entries_view(entries).dom().len() == entries.len(),
        forall|i: int|
            0 <= i < entries.len() ==> entries_view(entries).contains_key(
                (#[trigger] entries[i]).0@,
            ) && entries_view(entries)[entries[i].0@] == entries[i].1@,
        forall|key: Seq<char>| #[trigger]
            entries_view(entries).contains_key(key) ==> exists|i: int|
                0 <= i < entries.len() && (#[trigger] entries[i]).0@ == key,
    decreases entries.len(),
{
    if entries.len() > 0 {
        let front = entries.drop_last();
        assert(unique_keys(front)) by {
            assert forall|i: int, j: int| 0 <= i < j < front.len() implies #[trigger] front[i].0@
                != #[trigger] front[j].0@ by {
                assert(front[i] == entries[i] && front[j] == entries[j]);
            }
        }
        lemma_entries_view(front);
        let last = entries.last();
        assert(!entries_view(front).contains_key(last.0@)) by {
            if entries_view(front).contains_key(last.0@) {
                let i = choose|i: int| 0 <= i < front.len() && (#[trigger] front[i]).0@ == last.0@;
                assert(entries[i].0@ != entries[entries.len() - 1].0@);
            }
        }
        assert forall|i: int| 0 <= i < entries.len() implies entries_view(entries).contains_key(
            (#[trigger] entries[i]).0@,
        ) && entries_view(entries)[entries[i].0@] == entries[i].1@ by {
            if i < front.len() {
                assert(front[i] == entries[i]);
            }
        }
        assert forall|key: Seq<char>| #[trigger]
            entries_view(entries).contains_key(key) implies exists|i: int|
            0 <= i < entries.len() && (#[trigger] entries[i]).0@ == key by {
            if key == last.0@ {
                assert(entries[entries.len() - 1].0@ == key);
            } else {
                let i = choose|i: int| 0 <= i < front.len() && (#[trigger] front[i]).0@ == key;
                assert(entries[i].0@ == key);
            }
        }
    }
}

/// The map of entries with distinct keys, after the value of one of them
/// has changed.
proof fn lemma_entries_view_update(
    entries: Seq<(String, JsonValue)>,
    i: int,
    entry: (String, JsonValue),
)
    requires
        unique_keys(entries),
        0 <= i < entries.len(),
        entry.0@ == entries[i].0@,
    ensures
        unique_keys(entries.update(i, entry)),
        entries_view(entries.update(i, entry)) == entries_view(entries).insert(
            entry.0@,
            entry.1@,
        ),
{
    let changed = entries.update(i, entry);
    assert forall|a: int, b: int| 0 <= a < b < changed.len() implies #[trigger] changed[a].0@
        != #[trigger] changed[b].0@ by {
        assert(entries[a].0@ != entries[b].0@);
    }
    lemma_entries_view(entries);
    lemma_entries_view(changed);
    let old_map = entries_view(entries);
    let new_map = entries_view(changed);
    let expected = old_map.insert(entry.0@, entry.1@);
    assert forall|key: Seq<char>| new_map.contains_key(key) <==> #[trigger] expected.contains_key(
        key,
    ) by {
        if new_map.contains_key(key) {
            let j = choose|j: int| 0 <= j < changed.len() && (#[trigger] changed[j]).0@ == key;
            assert(entries[j].0@ == key);
        }
        if old_map.contains_key(key) {
            let j = choose|j: int| 0 <= j < entries.len() && (#[trigger] entries[j]).0@ == key;
            assert(changed[j].0@ == key);
        }
        assert(changed[i].0@ == entry.0@);
    }
    assert forall|key: Seq<char>| new_map.contains_key(key) implies #[trigger] new_map[key]
        == expected[key] by {
        let j = choose|j: int| 0 <= j < changed.len() && (#[trigger] changed[j]).0@ == key;
        if j != i {
            assert(changed[j] == entries[j]);
            assert(entries[i].0@ != entries[j].0@);
        }
    }
    assert(new_map =~= expected);
}

/// The map of entries with distinct keys, after one of them is gone.
proof fn lemma_entries_view_remove(entries: Seq<(String, JsonValue)>, i: int)
    requires
        unique_keys(entries),
        0 <= i < entries.len(),
    ensures
        unique_keys(entries.remove(i)),
        entries_view(entries.remove(i)) == entries_view(entries).remove(entries[i].0@),
{
    let rest = entries.remove(i);
    assert forall|a: int, b: int| 0 <= a < b < rest.len() implies #[trigger] rest[a].0@
        != #[trigger] rest[b].0@ by {
        let x = if a < i { a } else { a + 1 };
        let y = if b < i { b } else { b + 1 };
        assert(entries[x].0@ != entries[y].0@);
    }
    lemma_entries_view(entries);
    lemma_entries_view(rest);
    let old_map = entries_view(entries);
    let new_map = entries_view(rest);
    let expected = old_map.remove(entries[i].0@);
    assert forall|key: Seq<char>| new_map.contains_key(key) <==> #[trigger] expected.contains_key(
        key,
    ) by {
        if new_map.contains_key(key) {
            let j = choose|j: int| 0 <= j < rest.len() && (#[trigger] rest[j]).0@ == key;
            let x = if j < i { j } else { j + 1 };
            assert(entries[x].0@ == key);
            assert(entries[x].0@ != entries[i].0@);
        }
        if expected.contains_key(key) {
            let j = choose|j: int| 0 <= j < entries.len() && (#[trigger] entries[j]).0@ == key;
            let x = if j < i { j } else { j - 1 };
            assert(rest[x].0@ == key);
        }
    }
    assert forall|key: Seq<char>| new_map.contains_key(key) implies #[trigger] new_map[key]
        == expected[key] by {
        let j = choose|j: int| 0 <= j < rest.len() && (#[trigger] rest[j]).0@ == key;
        let x = if j < i { j } else { j + 1 };
        assert(rest[j] == entries[x]);
    }
    assert(new_map =~= expected);
}

/// The texts as JSON strings.
pub open spec fn string_items(strings: Seq<Seq<char>>) -> Seq<JsonView> {
    strings.map_values(|s: Seq<char>| JsonView::String(s))
}

/// A JSON string, or null for none.
pub open spec fn string_or_null(s: Option<Seq<char>>) -> JsonView {
    match s {
        Some(s) => JsonView::String(s),
        None => JsonView::Null,
    }
}

impl JsonValue {
    /// A JSON string, or null for none.
    pub fn optional_string(s: &Option<String>) -> (r: JsonValue)
        ensures
            r@ == string_or_null(opt_text(*s)),
    {
        match s {
            Some(s) => JsonValue::string(s.as_str()),
            None => JsonValue::Null,
        }
    }

    /// A JSON array of strings.
    pub fn strings(strings: &Vec<String>) -> (r: JsonValue)
        ensures
            r@ == JsonView::Array(string_items(texts(strings@))),
    {
        let mut items: Vec<JsonValue> = Vec::new();
        push_strings(&mut items, strings);
        assert(items_view(items@) =~= string_items(texts(strings@)));
        JsonValue::Array(items)
    }

    /// A JSON string.
    pub fn string(s: &str) -> (r: JsonValue)
        ensures
            r@ == JsonView::String(s@),
    {
        JsonValue::String(s.to_owned())
    }

    /// A JSON number that is an integer and not negative.
    pub fn unsigned(n: u64) -> (r: JsonValue)
        ensures
            r@ == JsonView::Number(Number::PosInt(n)),
    {
        JsonValue::Number(Number::PosInt(n))
    }

    /// A JSON number that is an integer.
    pub fn signed(n: i64) -> (r: JsonValue)
        ensures
            r@ == JsonView::Number(
                if n >= 0 {
                    Number::PosInt(n as u64)
                } else {
                    Number::NegInt(n)
                },
            ),
    {
        if n >= 0 {
            JsonValue::Number(Number::PosInt(n as u64))
        } else {
            JsonValue::Number(Number::NegInt(n))
        }
    }
}

/// Appends a JSON string for each of the strings.
pub fn push_strings(items: &mut Vec<JsonValue>, strings: &Vec<String>)
    ensures
        items_view(final(items)@) == items_view(old(items)@) + string_items(texts(strings@)),
{
    let ghost all = string_items(texts(strings@));
    let mut i: usize = 0;
    assert(items_view(items@) + all.take(0) =~= items_view(items@));
    while i < strings.len()
        invariant
            i <= strings@.len(),
            all == string_items(texts(strings@)),
            items_view(items@) == items_view(old(items)@) + all.take(i as int),
        decreases strings@.len() - i,
    {
        let item = JsonValue::string(strings[i].as_str());
        proof {
            lemma_items_view_push(items@, item);
            assert(all.take(i + 1) =~= all.take(i as int).push(item@));
        }
        items.push(item);
        i += 1;
        assert(items_view(items@) =~= items_view(old(items)@) + all.take(i as int));
    }
    assert(all.take(i as int) =~= all);
}

impl JsonMap {
    /// An object without entries.
    pub fn new() -> (r: Self)
        ensures
            r@ == Map::<Seq<char>, JsonView>::empty(),
    {
        JsonMap { entries: Vec::new() }
    }

    fn find(&self, key: &str) -> (r: Option<usize>)
        ensures
            match r {
                Some(i) => i < self.entries@.len() && self.entries@[i as int].0@ == key@,
                None => forall|i: int|
                    0 <= i < self.entries@.len() ==> (#[trigger] self.entries@[i]).0@ != key@,
            },
    {
        let mut i: usize = 0;
        while i < self.entries.len()
            invariant
                i <= self.entries@.len(),
                forall|j: int| 0 <= j < i ==> (#[trigger] self.entries@[j]).0@ != key@,
            decreases self.entries@.len() - i,
        {
            if equal(self.entries[i].0.as_str(), key) {
                return Some(i);
            }
            i += 1;
        }
        None
    }

    /// The number of entries.
    pub fn len(&self) -> (n: usize)
        ensures
            self@.dom().finite(),
            n == self@.dom().len(),
    {
        proof {
            use_type_invariant(self);
            lemma_entries_view(self.entries@);
        }
        self.entries.len()
    }

    /// Whether there are no entries.
    pub fn is_empty(&self) -> (r: bool)
        ensures
            r == (self@ == Map::<Seq<char>, JsonView>::empty()),
    {
        proof {
            use_type_invariant(self);
            lemma_entries_view(self.entries@);
            if self.entries@.len() > 0 {
                assert(self@.contains_key(self.entries@[0].0@));
            }
        }
        self.entries.len() == 0
    }

    /// Whether there is an entry with this key.
    pub fn contains_key(&self, key: &str) -> (r: bool)
        ensures
            r == self@.contains_key(key@),
    {
        proof {
            use_type_invariant(self);
            lemma_entries_view(self.entries@);
        }
        self.find(key).is_some()
    }

    /// The value of the entry with this key.
    pub fn get(&self, key: &str) -> (r: Option<&JsonValue>)
        ensures
            match r {
                Some(value) => self@.contains_key(key@) && value@ == self@[key@],
                None => !self@.contains_key(key@),
            },
    {
        proof {
            use_type_invariant(self);
            lemma_entries_view(self.entries@);
        }
        match self.find(key) {
            Some(i) => Some(&self.entries[i].1),
            None => None,
        }
    }

    /// Sets the value for a key, in place of the one it had.
    pub fn insert(&mut self, key: &str, value: JsonValue)
        ensures
            final(self)@ == old(self)@.insert(key@, value@),
    {
        proof {
            use_type_invariant(&*self);
            lemma_entries_view(self.entries@);
        }
        let found = self.find(key);
        let mut entries: Vec<(String, JsonValue)> = Vec::new();
        std::mem::swap(&mut entries, &mut self.entries);
        let ghost before = entries@;
        match found {
            Some(i) => {
                let entry = (key.to_owned(), value);
                proof {
                    lemma_entries_view_update(before, i as int, entry);
                }
                entries.set(i, entry);
            },
            None => {
                let entry = (key.to_owned(), value);
                entries.push(entry);
                assert(entries@.drop_last() =~= before);
            },
        }
        self.entries = entries;
    }

    /// Takes out the entry with this key.
    pub fn remove(&mut self, key: &str) -> (r: Option<JsonValue>)
        ensures
            final(self)@ == old(self)@.remove(key@),
            match r {
                Some(value) => old(self)@.contains_key(key@) && value@ == old(self)@[key@],
                None => !old(self)@.contains_key(key@),
            },
    {
        proof {
            use_type_invariant(&*self);
            lemma_entries_view(self.entries@);
        }
        match self.find(key) {
            Some(i) => {
                let mut entries: Vec<(String, JsonValue)> = Vec::new();
                std::mem::swap(&mut entries, &mut self.entries);
                proof {
                    lemma_entries_view_remove(entries@, i as int);
                }
                let entry = entries.remove(i);
                self.entries = entries;
                Some(entry.1)
            },
            None => {
                assert(self@.remove(key@) =~= self@);
                None
            },
        }
    }
}

impl Clone for JsonValue {
    fn clone(&self) -> (r: Self)
        ensures
            r@ == self@,
        decreases self,
    {
        match self {
            JsonValue::Null => JsonValue::Null,
            JsonValue::Bool(b) => JsonValue::Bool(*b),
            JsonValue::Number(n) => JsonValue::Number(*n),
            JsonValue::String(s) => JsonValue::String(s.clone()),
            JsonValue::Array(items) => JsonValue::Array(clone_items(items)),
            JsonValue::Object(map) => JsonValue::Object(map.clone()),
        }
    }
}

fn clone_items(items: &Vec<JsonValue>) -> (copies: Vec<JsonValue>)
    ensures
        items_view(copies@) == items_view(items@),
    decreases items,
{
    let mut copies: Vec<JsonValue> = Vec::new();
    let mut i: usize = 0;
    while i < items.len()
        invariant
            i <= items@.len(),
            items_view(copies@) == items_view(items@).take(i as int),
        decreases items@.len() - i,
    {
        let copy = items[i].clone();
        proof {
            lemma_items_view(items@);
            lemma_items_view_push(copies@, copy);
            assert(items_view(items@).take(i + 1) =~= items_view(items@).take(i as int).push(
                copy@,
            ));
        }
        copies.push(copy);
        i += 1;
    }
    proof {
        lemma_items_view(items@);
        assert(items_view(items@).take(i as int) =~= items_view(items@));
    }
    copies
}

impl Clone for JsonMap {
    fn clone(&self) -> (r: Self)
        ensures
            r@ == self@,
        decreases self,
    {
        let mut entries: Vec<(String, JsonValue)> = Vec::new();
        let mut i: usize = 0;
        assert(self.entries@.take(0) =~= Seq::empty());
        while i < self.entries.len()
            invariant
                i <= self.entries@.len(),
                entries@.len() == i,
                forall|j: int| 0 <= j < i ==> #[trigger] entries@[j].0@ == self.entries@[j].0@,
                entries_view(entries@) == entries_view(self.entries@.take(i as int)),
            decreases self.entries@.len() - i,
        {
            let entry = (self.entries[i].0.clone(), self.entries[i].1.clone());
            proof {
                assert(self.entries@.take(i + 1).drop_last() =~= self.entries@.take(i as int));
                assert(entries@.push(entry).drop_last() =~= entries@);
            }
            entries.push(entry);
            i += 1;
        }
        proof {
            use_type_invariant(self);
            assert(self.entries@.take(i as int) =~= self.entries@);
            assert forall|a: int, b: int| 0 <= a < b < entries@.len() implies #[trigger] entries@[a].0@
                != #[trigger] entries@[b].0@ by {
                assert(self.entries@[a].0@ != self.entries@[b].0@);
            }
        }
        JsonMap { entries }
    }
}

impl JsonValue {
    /// Whether both are the very same JSON value, down to the bits of its
    /// floats; the order of the entries of an object does not matter.
    pub fn same(&self, other: &JsonValue) -> (r: bool)
        ensures
            r == (self@ == other@),
        decreases self,
    {
        match (self, other) {
            (JsonValue::Null, JsonValue::Null) => true,
            (JsonValue::Bool(a), JsonValue::Bool(b)) => *a == *b,
            (JsonValue::Number(a), JsonValue::Number(b)) => same_numbers(*a, *b),
            (JsonValue::String(a), JsonValue::String(b)) => *a == *b,
            (JsonValue::Array(a), JsonValue::Array(b)) => same_items(a, b),
            (JsonValue::Object(a), JsonValue::Object(b)) => a.same(b),
            _ => false,
        }
    }

    /// Whether every number anywhere inside the value is finite.
    pub fn is_finite(&self) -> (r: bool)
        ensures
            r == all_finite(self@),
        decreases self,
    {
        match self {
            JsonValue::Number(Number::Float(bits)) => is_finite_float(*bits),
            JsonValue::Array(items) => finite_items(items),
            JsonValue::Object(map) => map.is_finite(),
            _ => true,
        }
    }
}

/// Whether the binary64 value with these bits is neither infinite nor NaN.
pub fn is_finite_float(bits: u64) -> (r: bool)
    ensures
        r == float_is_finite(bits),
{
    (bits / 0x10_0000_0000_0000) % 0x800 != 0x7ff
}

/// Whether two binary64 values, given by their bits, compare as equal.
pub fn equal_floats(a: u64, b: u64) -> (r: bool)
    ensures
        r == float_eq(a, b),
{
    let nan = !is_finite_float(a) && a % 0x10_0000_0000_0000 != 0 || !is_finite_float(b) && b
        % 0x10_0000_0000_0000 != 0;
    !nan && (a == b || a % 0x8000_0000_0000_0000 == 0 && b % 0x8000_0000_0000_0000 == 0)
}

fn same_numbers(a: Number, b: Number) -> (r: bool)
    ensures
        r == (a == b),
{
    match (a, b) {
        (Number::PosInt(x), Number::PosInt(y)) => x == y,
        (Number::NegInt(x), Number::NegInt(y)) => x == y,
        (Number::Float(x), Number::Float(y)) => x == y,
        _ => false,
    }
}

fn same_items(a: &Vec<JsonValue>, b: &Vec<JsonValue>) -> (r: bool)
    ensures
        r == (items_view(a@) == items_view(b@)),
    decreases a,
{
    proof {
        lemma_items_view(a@);
        lemma_items_view(b@);
    }
    if a.len() != b.len() {
        return false;
    }
    let mut i: usize = 0;
    while i < a.len()
        invariant
            i <= a@.len(),
            a@.len() == b@.len(),
            items_view(a@).len() == a@.len(),
            items_view(b@).len() == b@.len(),
            forall|j: int| 0 <= j < a@.len() ==> #[trigger] items_view(a@)[j] == a@[j]@,
            forall|j: int| 0 <= j < b@.len() ==> #[trigger] items_view(b@)[j] == b@[j]@,
            forall|j: int| 0 <= j < i ==> #[trigger] items_view(a@)[j] == items_view(b@)[j],
        decreases a@.len() - i,
    {
        if !a[i].same(&b[i]) {
            assert(items_view(a@)[i as int] != items_view(b@)[i as int]);
            return false;
        }
        assert(items_view(a@)[i as int] == items_view(b@)[i as int]);
        i += 1;
    }
    assert(items_view(a@) =~= items_view(b@));
    true
}

fn finite_items(items: &Vec<JsonValue>) -> (r: bool)
    ensures
        r == all_finite(JsonView::Array(items_view(items@))),
    decreases items,
{
    proof {
        lemma_items_view(items@);
    }
    let mut i: usize = 0;
    while i < items.len()
        invariant
            i <= items@.len(),
            items_view(items@).len() == items@.len(),
            forall|j: int|
                0 <= j < items@.len() ==> #[trigger] items_view(items@)[j] == items@[j]@,
            forall|j: int| 0 <= j < i ==> all_finite(#[trigger] items_view(items@)[j]),
        decreases items@.len() - i,
    {
        if !items[i].is_finite() {
            proof {
                let whole = JsonView::Array(items_view(items@));
                if all_finite(whole) {
                    lemma_finite_item(whole, items_view(items@), i as int);
                }
            }
            return false;
        }
        assert(all_finite(items_view(items@)[i as int]));
        i += 1;
    }
    true
}

impl JsonMap {
    fn same(&self, other: &JsonMap) -> (r: bool)
        ensures
            r == (self@ == other@),
        decreases self,
    {
        proof {
            use_type_invariant(self);
            use_type_invariant(other);
            lemma_entries_view(self.entries@);
            lemma_entries_view(other.entries@);
        }
        if self.len() != other.len() {
            return false;
        }
        let mut i: usize = 0;
        while i < self.entries.len()
            invariant
                i <= self.entries@.len(),
                forall|j: int|
                    0 <= j < self.entries@.len() ==> self@.contains_key(
                        (#[trigger] self.entries@[j]).0@,
                    ) && self@[self.entries@[j].0@] == self.entries@[j].1@,
                forall|j: int|
                    0 <= j < i ==> other@.contains_key((#[trigger] self.entries@[j]).0@)
                        && other@[self.entries@[j].0@] == self.entries@[j].1@,
            decreases self.entries@.len() - i,
        {
            let key = self.entries[i].0.as_str();
            match other.get(key) {
                Some(value) => if !self.entries[i].1.same(value) {
                    assert(self@[key@] != other@[key@]);
                    return false;
                },
                None => {
                    assert(self@.contains_key(key@));
                    return false;
                },
            }
            i += 1;
        }
        proof {
            assert forall|key: Seq<char>| self@.contains_key(key) implies other@.contains_key(key)
                && #[trigger] self@[key] == other@[key] by {
                let j = choose|j: int|
                    0 <= j < self.entries@.len() && (#[trigger] self.entries@[j]).0@ == key;
            }
            assert forall|key: Seq<char>| self@.dom().contains(key) implies #[trigger] other@.dom().contains(
                key,
            ) by {
                assert(self@[key] == other@[key]);
            }
            vstd::set_lib::lemma_subset_equality(self@.dom(), other@.dom());
            assert(self@ =~= other@);
        }
        true
    }

    fn is_finite(&self) -> (r: bool)
        ensures
            r == all_finite(JsonView::Object(self@)),
        decreases self,
    {
        proof {
            use_type_invariant(self);
            lemma_entries_view(self.entries@);
        }
        let mut i: usize = 0;
        while i < self.entries.len()
            invariant
                i <= self.entries@.len(),
                forall|j: int|
                    0 <= j < self.entries@.len() ==> self@.contains_key(
                        (#[trigger] self.entries@[j]).0@,
                    ) && self@[self.entries@[j].0@] == self.entries@[j].1@,
                forall|j: int| 0 <= j < i ==> all_finite((#[trigger] self.entries@[j]).1@),
            decreases self.entries@.len() - i,
        {
            if !self.entries[i].1.is_finite() {
                proof {
                    let whole = JsonView::Object(self@);
                    if all_finite(whole) {
                        lemma_finite_entry(whole, self@, self.entries@[i as int].0@);
                    }
                }
                return false;
            }
            i += 1;
        }
        assert forall|key: Seq<char>| self@.contains_key(key) implies all_finite(
            #[trigger] self@[key],
        ) by {
            let j = choose|j: int|
                0 <= j < self.entries@.len() && (#[trigger] self.entries@[j]).0@ == key;
        }
        true
    }

    /// The entries, in no particular order.
    pub fn entries(&self) -> (r: &Vec<(String, JsonValue)>)
        ensures
            unique_keys(r@),
            entries_view(r@) == self@,
    {
        proof {
            use_type_invariant(self);
        }
        &self.entries
    }

    /// Takes over every entry of `other`, in place of an own one with the
    /// same key.
    pub fn extend(&mut self, other: &JsonMap)
        ensures
            final(self)@ == old(self)@.union_prefer_right(other@),
    {
        let entries = other.entries();
        let mut i: usize = 0;
        assert(entries@.take(0) =~= Seq::empty());
        assert(self@.union_prefer_right(Map::empty()) =~= self@);
        while i < entries.len()
            invariant
                i <= entries@.len(),
                self@ == old(self)@.union_prefer_right(entries_view(entries@.take(i as int))),
            decreases entries@.len() - i,
        {
            let ghost next = entries@.take(i + 1);
            let ghost before = self@;
            self.insert(entries[i].0.as_str(), entries[i].1.clone());
            proof {
                assert(next.drop_last() =~= entries@.take(i as int));
                assert(self@ =~= old(self)@.union_prefer_right(entries_view(next)));
            }
            i += 1;
        }
        assert(entries@.take(i as int) =~= entries@);
    }

    /// Takes over the entries of `other` whose keys are missing here.
    pub fn fill_missing(&mut self, other: &JsonMap)
        ensures
            final(self)@ == other@.union_prefer_right(old(self)@),
    {
        let entries = other.entries();
        let mut i: usize = 0;
        assert(entries@.take(0) =~= Seq::empty());
        assert(Map::<Seq<char>, JsonView>::empty().union_prefer_right(self@) =~= self@);
        while i < entries.len()
            invariant
                i <= entries@.len(),
                unique_keys(entries@),
                self@ == entries_view(entries@.take(i as int)).union_prefer_right(old(self)@),
            decreases entries@.len() - i,
        {
            let ghost next = entries@.take(i + 1);
            proof {
                let now = entries@.take(i as int);
                assert(next.drop_last() =~= now);
                assert(unique_keys(now));
                lemma_entries_view(now);
                if entries_view(now).contains_key(entries@[i as int].0@) {
                    let j = choose|j: int|
                        0 <= j < now.len() && (#[trigger] now[j]).0@ == entries@[i as int].0@;
                    assert(entries@[j].0@ != entries@[i as int].0@);
                }
            }
            if !self.contains_key(entries[i].0.as_str()) {
                self.insert(entries[i].0.as_str(), entries[i].1.clone());
            }
            assert(self@ =~= entries_view(next).union_prefer_right(old(self)@));
            i += 1;
        }
        assert(entries@.take(i as int) =~= entries@);
    }
}

impl PartialEq for Number {
    fn eq(&self, other: &Self) -> (r: bool) {
        match (self, other) {
            (Number::PosInt(x), Number::PosInt(y)) => *x == *y,
            (Number::NegInt(x), Number::NegInt(y)) => *x == *y,
            (Number::Float(x), Number::Float(y)) => equal_floats(*x, *y),
            _ => false,
        }
    }
}

impl vstd::std_specs::cmp::PartialEqSpecImpl for Number {
    open spec fn obeys_eq_spec() -> bool {
        true
    }

    open spec fn eq_spec(&self, other: &Self) -> bool {
        number_eq(*self, *other)
    }
}

fn equal_items(a: &Vec<JsonValue>, b: &Vec<JsonValue>) -> (r: bool)
    ensures
        r == json_eq(JsonView::Array(items_view(a@)), JsonView::Array(items_view(b@))),
    decreases a,
{
    proof {
        lemma_items_view(a@);
        lemma_items_view(b@);
    }
    if a.len() != b.len() {
        return false;
    }
    let mut i: usize = 0;
    while i < a.len()
        invariant
            i <= a@.len(),
            a@.len() == b@.len(),
            items_view(a@).len() == a@.len(),
            items_view(b@).len() == b@.len(),
            forall|j: int| 0 <= j < a@.len() ==> #[trigger] items_view(a@)[j] == a@[j]@,
            forall|j: int| 0 <= j < b@.len() ==> #[trigger] items_view(b@)[j] == b@[j]@,
            forall|j: int|
                0 <= j < i ==> json_eq(#[trigger] items_view(a@)[j], items_view(b@)[j]),
        decreases a@.len() - i,
    {
        if !a[i].equals(&b[i]) {
            proof {
                let x = JsonView::Array(items_view(a@));
                let y = JsonView::Array(items_view(b@));
                if json_eq(x, y) {
                    lemma_equal_item(x, y, items_view(a@), items_view(b@), i as int);
                }
            }
            return false;
        }
        assert(json_eq(items_view(a@)[i as int], items_view(b@)[i as int]));
        i += 1;
    }
    true
}

impl JsonValue {
    /// Whether both are equal.
    fn equals(&self, other: &JsonValue) -> (r: bool)
        ensures
            r == json_eq(self@, other@),
        decreases self,
    {
        match (self, other) {
            (JsonValue::Null, JsonValue::Null) => true,
            (JsonValue::Bool(a), JsonValue::Bool(b)) => *a == *b,
            (JsonValue::Number(a), JsonValue::Number(b)) => *a == *b,
            (JsonValue::String(a), JsonValue::String(b)) => *a == *b,
            (JsonValue::Array(a), JsonValue::Array(b)) => equal_items(a, b),
            (JsonValue::Object(a), JsonValue::Object(b)) => a.equals(b),
            _ => false,
        }
    }
}

impl JsonMap {
    fn equals(&self, other: &JsonMap) -> (r: bool)
        ensures
            r == json_eq(JsonView::Object(self@), JsonView::Object(other@)),
        decreases self,
    {
        let ghost x = JsonView::Object(self@);
        let ghost y = JsonView::Object(other@);
        proof {
            use_type_invariant(self);
            use_type_invariant(other);
            lemma_entries_view(self.entries@);
            lemma_entries_view(other.entries@);
        }
        if self.len() != other.len() {
            return false;
        }
        let mut i: usize = 0;
        while i < self.entries.len()
            invariant
                i <= self.entries@.len(),
                x == JsonView::Object(self@),
                y == JsonView::Object(other@),
                forall|j: int|
                    0 <= j < self.entries@.len() ==> self@.contains_key(
                        (#[trigger] self.entries@[j]).0@,
                    ) && self@[self.entries@[j].0@] == self.entries@[j].1@,
                forall|j: int|
                    0 <= j < i ==> other@.contains_key((#[trigger] self.entries@[j]).0@) && json_eq(
                        self.entries@[j].1@,
                        other@[self.entries@[j].0@],
                    ),
            decreases self.entries@.len() - i,
        {
            let key = self.entries[i].0.as_str();
            let ghost entry = self.entries@[i as int];
            match other.get(key) {
                Some(value) => if !self.entries[i].1.equals(value) {
                    proof {
                        if json_eq(x, y) {
                            lemma_equal_entry(x, y, self@, other@, entry.0@);
                        }
                    }
                    return false;
                },
                None => {
                    proof {
                        if json_eq(x, y) {
                            lemma_equal_entry(x, y, self@, other@, entry.0@);
                        }
                    }
                    return false;
                },
            }
            i += 1;
        }
        proof {
            assert forall|key: Seq<char>| self@.contains_key(key) implies other@.contains_key(key)
                && json_eq(#[trigger] self@[key], other@[key]) by {
                let j = choose|j: int|
                    0 <= j < self.entries@.len() && (#[trigger] self.entries@[j]).0@ == key;
            }
            assert forall|key: Seq<char>| self@.dom().contains(
                key,
            ) implies #[trigger] other@.dom().contains(key) by {
                assert(json_eq(self@[key], other@[key]));
            }
            vstd::set_lib::lemma_subset_equality(self@.dom(), other@.dom());
            assert(self@.dom() =~= other@.dom());
        }
        true
    }
}

impl PartialEq for JsonValue {
    fn eq(&self, other: &Self) -> (r: bool) {
        self.equals(other)
    }
}

impl vstd::std_specs::cmp::PartialEqSpecImpl for JsonValue {
    open spec fn obeys_eq_spec() -> bool {
        true
    }

    open spec fn eq_spec(&self, other: &Self) -> bool {
        json_eq(self@, other@)
    }
}

impl PartialEq for JsonMap {
    fn eq(&self, other: &Self) -> (r: bool) {
        self.equals(other)
    }
}

impl vstd::std_specs::cmp::PartialEqSpecImpl for JsonMap {
    open spec fn obeys_eq_spec() -> bool {
        true
    }

    open spec fn eq_spec(&self, other: &Self) -> bool {
        json_eq(JsonView::Object(self@), JsonView::Object(other@))
    }
}

} // verus!
