//! Mutable key-value attributes for feature flag targeting and error
//! context.

use vstd::prelude::*;

use crate::error::{refused, Error};
use crate::value::{all_finite, json_eq, lemma_entries_view, JsonMap, JsonView, JsonValue};

verus! {

/// What an attribute bag may hold: finite values other than null.
pub open spec fn are_attributes(map: Map<Seq<char>, JsonView>) -> bool {
    forall|key: Seq<char>|
        map.contains_key(key) ==> all_finite(#[trigger] map[key]) && map[key] != JsonView::Null
}

/// The attributes after a value is set for a key; null stands for no value.
pub open spec fn with_attribute(
    map: Map<Seq<char>, JsonView>,
    key: Seq<char>,
    value: JsonView,
) -> Map<Seq<char>, JsonView> {
    if value == JsonView::Null {
        map.remove(key)
    } else {
        map.insert(key, value)
    }
}

/// What attributes that may be missing hold.
pub open spec fn opt_attributes(attributes: Option<&Attributes>) -> Map<Seq<char>, JsonView> {
    match attributes {
        Some(a) => a@,
        None => Map::empty(),
    }
}

/// A mutable bag of key-value attributes. A value is any JSON value but
/// null, without a number that is not finite.
#[derive(Debug)]
pub struct Attributes {
    entries: JsonMap,
}

impl View for Attributes {
    type V = Map<Seq<char>, JsonView>;

    closed spec fn view(&self) -> Map<Seq<char>, JsonView> {
        self.entries@
    }
}

impl Attributes {
    #[verifier::type_invariant]
    spec fn well_formed(self) -> bool {
        are_attributes(self.entries@)
    }

    /// Creates new, empty attributes.
    pub fn empty() -> (r: Self)
        ensures
            r@ == Map::<Seq<char>, JsonView>::empty(),
    {
        Attributes { entries: JsonMap::new() }
    }

    /// Creates new attributes by copying entries from `other`.
    pub fn copy_of(other: &Attributes) -> (r: Self)
        ensures
            r@ == other@,
    {
        proof {
            use_type_invariant(other);
        }
        Attributes { entries: other.entries.clone() }
    }

    /// Sets a value for `key`. Rejects a number that is not finite,
    /// anywhere in the value. Null is treated as absent: it is not stored,
    /// and an existing entry for `key` is removed.
    pub fn put(&mut self, key: &str, value: JsonValue) -> (r: Result<&mut Self, Error>)
        ensures
            match r {
                Ok(this) => all_finite(value@) && this@ == with_attribute(
                    old(self)@,
                    key@,
                    value@,
                ) && *final(self) == *final(this),
                Err(e) => !all_finite(value@) && e@ == refused(
                    "attribute value"@,
                    "float is NaN or infinite"@,
                ) && final(self)@ == old(self)@,
            },
    {
        if !value.is_finite() {
            return Err(Error::validation("attribute value", "float is NaN or infinite"));
        }
        proof {
            use_type_invariant(&*self);
        }
        let mut entries = JsonMap::new();
        std::mem::swap(&mut entries, &mut self.entries);
        if matches!(value, JsonValue::Null) {
            entries.remove(key);
        } else {
            entries.insert(key, value);
        }
        self.entries = entries;
        Ok(self)
    }

    /// Removes the value for `key`, if present.
    pub fn remove(&mut self, key: &str) -> (this: &mut Self)
        ensures
            this@ == old(self)@.remove(key@),
            *final(self) == *final(this),
    {
        proof {
            use_type_invariant(&*self);
        }
        let mut entries = JsonMap::new();
        std::mem::swap(&mut entries, &mut self.entries);
        entries.remove(key);
        self.entries = entries;
        self
    }

    /// Returns whether a value is set for `key`.
    pub fn contains_key(&self, key: &str) -> (r: bool)
        ensures
            r == self@.contains_key(key@),
    {
        self.entries.contains_key(key)
    }

    /// Gets the JSON value stored for `key`, if any.
    pub fn get(&self, key: &str) -> (r: Option<&JsonValue>)
        ensures
            match r {
                Some(value) => self@.contains_key(key@) && value@ == self@[key@] && all_finite(
                    value@,
                ) && value@ != JsonView::Null,
                None => !self@.contains_key(key@),
            },
    {
        proof {
            use_type_invariant(self);
        }
        self.entries.get(key)
    }

    /// Visits each stored attribute, in no particular order.
    pub fn for_each<F: FnMut(&str, &JsonValue)>(&self, mut action: F)
        requires
            forall|key: &str, value: &JsonValue|
                self@.contains_key(key@) && value@ == self@[key@] ==> #[trigger] action.requires(
                    (key, value),
                ),
        ensures
            forall|key: Seq<char>| #[trigger]
                self@.contains_key(key) ==> exists|k: &str, v: &JsonValue|
                    k@ == key && v@ == self@[key] && #[trigger] action.ensures((k, v), ()),
    {
        let entries = self.entries.entries();
        let ghost given = action;
        proof {
            lemma_entries_view(entries@);
        }
        let mut i: usize = 0;
        while i < entries.len()
            invariant
                i <= entries@.len(),
                action == given,
                forall|key: &str, value: &JsonValue|
                    self@.contains_key(key@) && value@ == self@[key@]
                        ==> #[trigger] action.requires((key, value)),
                forall|j: int|
                    0 <= j < entries@.len() ==> self@.contains_key((#[trigger] entries@[j]).0@)
                        && self@[entries@[j].0@] == entries@[j].1@,
                forall|j: int|
                    0 <= j < i ==> exists|k: &str, v: &JsonValue|
                        k@ == (#[trigger] entries@[j]).0@ && v@ == entries@[j].1@
                            && #[trigger] action.ensures((k, v), ()),
            decreases entries@.len() - i,
        {
            let key = entries[i].0.as_str();
            let value = &entries[i].1;
            action(key, value);
            assert(action.ensures((key, value), ()));
            i += 1;
        }
        assert forall|key: Seq<char>| #[trigger] self@.contains_key(key) implies exists|
            k: &str,
            v: &JsonValue,
        | k@ == key && v@ == self@[key] && #[trigger] action.ensures((k, v), ()) by {
            let j = choose|j: int| 0 <= j < entries@.len() && (#[trigger] entries@[j]).0@ == key;
        }
    }

    /// The number of stored attributes.
    pub fn len(&self) -> (n: usize)
        ensures
            self@.dom().finite(),
            n == self@.dom().len(),
    {
        self.entries.len()
    }

    /// Whether there are no stored attributes.
    pub fn is_empty(&self) -> (r: bool)
        ensures
            r == (self@ == Map::<Seq<char>, JsonView>::empty()),
    {
        self.entries.is_empty()
    }

    /// Merges two attribute sets; on conflict, `second` wins.
    pub fn join(first: Option<&Attributes>, second: Option<&Attributes>) -> (r: Attributes)
        ensures
            r@ == opt_attributes(first).union_prefer_right(opt_attributes(second)),
    {
        let mut entries = JsonMap::new();
        match first {
            Some(attributes) => {
                proof {
                    use_type_invariant(attributes);
                }
                entries.extend(&attributes.entries);
            },
            None => {},
        }
        assert(entries@ =~= opt_attributes(first));
        match second {
            Some(attributes) => {
                proof {
                    use_type_invariant(attributes);
                }
                entries.extend(&attributes.entries);
            },
            None => {},
        }
        assert(entries@ =~= opt_attributes(first).union_prefer_right(opt_attributes(second)));
        Attributes { entries }
    }

    /// Consumes these attributes, returning the underlying JSON object.
    pub fn into_json_map(self) -> (r: JsonMap)
        ensures
            r@ == self@,
            are_attributes(r@),
    {
        proof {
            use_type_invariant(&self);
        }
        self.entries
    }

    /// Copies the underlying entries into a JSON object.
    pub fn to_json_map(&self) -> (r: JsonMap)
        ensures
            r@ == self@,
            are_attributes(r@),
    {
        proof {
            use_type_invariant(self);
        }
        self.entries.clone()
    }
}

impl Clone for Attributes {
    fn clone(&self) -> (r: Self)
        ensures
            r@ == self@,
    {
        Attributes::copy_of(self)
    }
}

impl Default for Attributes {
    fn default() -> (r: Self)
        ensures
            r@ == Map::<Seq<char>, JsonView>::empty(),
    {
        Attributes::empty()
    }
}

impl PartialEq for Attributes {
    fn eq(&self, other: &Self) -> (r: bool) {
        self.entries == other.entries
    }
}

impl vstd::std_specs::cmp::PartialEqSpecImpl for Attributes {
    open spec fn obeys_eq_spec() -> bool {
        true
    }

    open spec fn eq_spec(&self, other: &Self) -> bool {
        json_eq(JsonView::Object(self@), JsonView::Object(other@))
    }
}

/// What was put for a key is what is found there, and nothing else changes;
/// null leaves nothing there.
pub proof fn law_put_sets_one_key(
    map: Map<Seq<char>, JsonView>,
    key: Seq<char>,
    value: JsonView,
    other: Seq<char>,
)
    ensures
        value != JsonView::Null ==> with_attribute(map, key, value).contains_key(key)
            && with_attribute(map, key, value)[key] == value,
        value == JsonView::Null ==> !with_attribute(map, key, value).contains_key(key),
        other != key ==> with_attribute(map, key, value).contains_key(other) == map.contains_key(
            other,
        ),
        other != key && map.contains_key(other) ==> with_attribute(map, key, value)[other]
            == map[other],
{
}

/// Attributes hold no null and no number that is not finite, whatever is
/// put into them, and joined ones hold none either.
pub proof fn law_attributes_stay_attributes(
    map: Map<Seq<char>, JsonView>,
    key: Seq<char>,
    value: JsonView,
    second: Map<Seq<char>, JsonView>,
)
    requires
        are_attributes(map),
        are_attributes(second),
    ensures
        all_finite(value) ==> are_attributes(with_attribute(map, key, value)),
        are_attributes(map.remove(key)),
        are_attributes(map.union_prefer_right(second)),
{
}

/// Where both sides of a join set a key, the second one counts; where one
/// does, that one.
pub proof fn law_join_second_wins(
    first: Map<Seq<char>, JsonView>,
    second: Map<Seq<char>, JsonView>,
    key: Seq<char>,
)
    ensures
        second.contains_key(key) ==> first.union_prefer_right(second).contains_key(key)
            && first.union_prefer_right(second)[key] == second[key],
        first.contains_key(key) && !second.contains_key(key) ==> first.union_prefer_right(
            second,
        ).contains_key(key) && first.union_prefer_right(second)[key] == first[key],
        !first.contains_key(key) && !second.contains_key(key) ==> !first.union_prefer_right(
            second,
        ).contains_key(key),
{
}

} // verus!
