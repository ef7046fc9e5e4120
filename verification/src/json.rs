//! Reading JSON text, with `serde_json`.

use vstd::prelude::*;

use crate::value::{items_view, lemma_items_view_push, JsonMap, JsonValue, JsonView, Number};

verus! {

/// A JSON value as `serde_json` holds it.
#[verifier::external_type_specification]
#[verifier::external_body]
pub struct ExternalTree(serde_json::Value);

/// What a `serde_json::Value` holds.
pub uninterp spec fn json_tree(tree: serde_json::Value) -> JsonView;

/// What `serde_json::from_str` reads out of a text, or the text of its
/// error.
pub uninterp spec fn json_of_text(s: Seq<char>) -> Result<JsonView, Seq<char>>;

/// The text that `serde_json` gives to a value, as `Display` does.
pub uninterp spec fn json_text(value: JsonView) -> Seq<char>;

/// What the items of an array hold.
pub open spec fn tree_items(items: Seq<serde_json::Value>) -> Seq<JsonView> {
    items.map_values(|tree: serde_json::Value| json_tree(tree))
}

/// What the entries of an object hold.
pub open spec fn tree_entries(entries: Seq<(&String, &serde_json::Value)>) -> Map<
    Seq<char>,
    JsonView,
>
    decreases entries.len(),
{
    if entries.len() == 0 {
        Map::empty()
    } else {
        tree_entries(entries.drop_last()).insert(entries.last().0@, json_tree(*entries.last().1))
    }
}

/// The outermost layer of a JSON value.
pub enum Layer<'a> {
    Null,
    Bool(bool),
    Number(Number),
    String(&'a String),
    Array(&'a Vec<serde_json::Value>),
    Object(Vec<(&'a String, &'a serde_json::Value)>),
}

/// `serde_json::from_str`, for a `serde_json::Value`. What it reads, and the
/// error if it fails, depend on the text alone.
#[verifier::external_body]
pub(crate) fn read_tree(s: &str) -> (r: Result<serde_json::Value, String>)
    ensures
        match r {
            Ok(tree) => json_of_text(s@) == Ok::<JsonView, Seq<char>>(json_tree(tree)),
            Err(e) => json_of_text(s@) == Err::<JsonView, Seq<char>>(e@),
        },
{
    match serde_json::from_str(s) {
        Ok(tree) => Ok(tree),
        Err(e) => Err(e.to_string()),
    }
}

/// `serde_json::Value`'s text, as `Display` gives it. It depends on what the
/// value holds alone.
#[verifier::external_body]
pub(crate) fn tree_text(tree: &serde_json::Value) -> (s: String)
    ensures
        s@ == json_text(json_tree(*tree)),
{
    tree.to_string()
}

/// `serde_json::Value::get` with a string: the value of that entry, if the
/// value is an object and has one.
#[verifier::external_body]
pub(crate) fn tree_get<'a>(tree: &'a serde_json::Value, key: &str) -> (r: Option<
    &'a serde_json::Value,
>)
    ensures
        match r {
            Some(found) => json_tree(*tree) is Object && json_tree(*tree)->Object_0.contains_key(
                key@,
            ) && json_tree(*found) == json_tree(*tree)->Object_0[key@],
            None => !(json_tree(*tree) is Object && json_tree(*tree)->Object_0.contains_key(key@)),
        },
{
    tree.get(key)
}

/// The variants of `serde_json::Value`, and those of a number in it: an
/// integer that is not negative, a negative one, or a finite float. No two
/// entries of an object have the same key.
#[verifier::external_body]
fn tree_layer(tree: &serde_json::Value) -> (r: Layer<'_>)
    ensures
        json_tree(*tree) == (match r {
            Layer::Null => JsonView::Null,
            Layer::Bool(b) => JsonView::Bool(b),
            Layer::Number(n) => JsonView::Number(n),
            Layer::String(s) => JsonView::String(s@),
            Layer::Array(items) => JsonView::Array(tree_items(items@)),
            Layer::Object(entries) => JsonView::Object(tree_entries(entries@)),
        }),
        match r {
            Layer::Object(entries) => distinct_keys(entries@),
            _ => true,
        },
{
    match tree {
        serde_json::Value::Null => Layer::Null,
        serde_json::Value::Bool(b) => Layer::Bool(*b),
        serde_json::Value::Number(n) => Layer::Number(match (n.as_u64(), n.as_i64()) {
            (Some(u), _) => Number::PosInt(u),
            (None, Some(i)) => Number::NegInt(i),
            (None, None) => Number::Float(n.as_f64().map_or(0, |x| x.to_bits())),
        }),
        serde_json::Value::String(s) => Layer::String(s),
        serde_json::Value::Array(items) => Layer::Array(items),
        serde_json::Value::Object(map) => Layer::Object(map.iter().collect()),
    }
}

/// Whether no two entries have the same key.
pub open spec fn distinct_keys(entries: Seq<(&String, &serde_json::Value)>) -> bool {
    forall|i: int, j: int|
        0 <= i < j < entries.len() ==> #[trigger] entries[i].0@ != #[trigger] entries[j].0@
}

/// The entries of an object are found in it.
proof fn lemma_tree_entries(entries: Seq<(&String, &serde_json::Value)>)
    requires
        distinct_keys(entries),
    ensures
        tree_entries(entries).dom().finite(),
        forall|i: int|
            0 <= i < entries.len() ==> tree_entries(entries).contains_key(
                (#[trigger] entries[i]).0@,
            ) && tree_entries(entries)[entries[i].0@] == json_tree(*entries[i].1),
    decreases entries.len(),
{
    if entries.len() > 0 {
        let front = entries.drop_last();
        assert forall|i: int, j: int| 0 <= i < j < front.len() implies #[trigger] front[i].0@
            != #[trigger] front[j].0@ by {
            assert(front[i] == entries[i] && front[j] == entries[j]);
        }
        lemma_tree_entries(front);
        assert forall|i: int| 0 <= i < entries.len() implies tree_entries(entries).contains_key(
            (#[trigger] entries[i]).0@,
        ) && tree_entries(entries)[entries[i].0@] == json_tree(*entries[i].1) by {
            if i < front.len() {
                assert(front[i] == entries[i]);
                assert(entries[i].0@ != entries[entries.len() - 1].0@);
            }
        }
    }
}

/// A JSON value out of the form in which `serde_json` holds it.
pub fn plain(tree: &serde_json::Value) -> (r: JsonValue)
    ensures
        r@ == json_tree(*tree),
    decreases json_tree(*tree),
{
    match tree_layer(tree) {
        Layer::Null => JsonValue::Null,
        Layer::Bool(b) => JsonValue::Bool(b),
        Layer::Number(n) => JsonValue::Number(n),
        Layer::String(s) => JsonValue::String(s.clone()),
        Layer::Array(items) => {
            assert(decreases_to!(json_tree(*tree) => json_tree(*tree)->Array_0));
            JsonValue::Array(plain_items(items))
        },
        Layer::Object(entries) => {
            assert(decreases_to!(json_tree(*tree) => json_tree(*tree)->Object_0));
            JsonValue::Object(plain_entries(&entries))
        },
    }
}

/// The JSON text of a payload, out of the form in which `serde_json` holds
/// it. Nothing, if that form holds anything else than the payload.
pub fn payload_text(payload: &JsonValue, tree: &serde_json::Value) -> (r: Option<String>)
    ensures
        match r {
            Some(s) => json_tree(*tree) == payload@ && s@ == json_text(payload@),
            None => json_tree(*tree) != payload@,
        },
{
    if plain(tree).same(payload) {
        Some(tree_text(tree))
    } else {
        None
    }
}

fn plain_items(items: &Vec<serde_json::Value>) -> (copies: Vec<JsonValue>)
    ensures
        items_view(copies@) == tree_items(items@),
    decreases tree_items(items@),
{
    let ghost views = tree_items(items@);
    let mut copies: Vec<JsonValue> = Vec::new();
    let mut i: usize = 0;
    while i < items.len()
        invariant
            i <= items@.len(),
            views == tree_items(items@),
            items_view(copies@) == views.take(i as int),
        decreases items@.len() - i,
    {
        assert(decreases_to!(views => views[i as int]));
        let copy = plain(&items[i]);
        proof {
            lemma_items_view_push(copies@, copy);
            assert(views.take(i + 1) =~= views.take(i as int).push(copy@));
        }
        copies.push(copy);
        i += 1;
    }
    assert(views.take(i as int) =~= views);
    copies
}

fn plain_entries(entries: &Vec<(&String, &serde_json::Value)>) -> (copies: JsonMap)
    requires
        distinct_keys(entries@),
    ensures
        copies@ == tree_entries(entries@),
    decreases tree_entries(entries@),
{
    let ghost map = tree_entries(entries@);
    let mut copies = JsonMap::new();
    let mut i: usize = 0;
    assert(entries@.take(0) =~= Seq::empty());
    while i < entries.len()
        invariant
            i <= entries@.len(),
            distinct_keys(entries@),
            map == tree_entries(entries@),
            copies@ == tree_entries(entries@.take(i as int)),
        decreases entries@.len() - i,
    {
        let (key, value) = entries[i];
        proof {
            lemma_tree_entries(entries@);
            assert(entries@.take(i + 1).drop_last() =~= entries@.take(i as int));
            assert(decreases_to!(map => map[key@]));
        }
        copies.insert(key.as_str(), plain(value));
        i += 1;
    }
    assert(entries@.take(i as int) =~= entries@);
    copies
}

} // verus!
