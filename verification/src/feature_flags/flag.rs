//! [`FeatureFlag`]: a flag's identity, default and attributes.

use vstd::prelude::*;

use super::value::{FlagValue, FlagView};
use crate::domain::attributes::Attributes;
use crate::validated::id::Id;
use crate::value::JsonView;

verus! {

/// A feature flag: its id, its default value, and attributes that the server
/// may decide by. What was fetched for it is kept by the service.
#[derive(Debug)]
pub struct FeatureFlag {
    id: Id,
    default: FlagValue,
    attributes: Option<Attributes>,
}

/// What a [`FeatureFlag`] holds.
pub struct FeatureFlagView {
    pub id: Seq<char>,
    pub default: FlagView,
    pub attributes: Option<Map<Seq<char>, JsonView>>,
}

impl View for FeatureFlag {
    type V = FeatureFlagView;

    closed spec fn view(&self) -> FeatureFlagView {
        FeatureFlagView {
            id: self.id@,
            default: self.default@,
            attributes: match self.attributes {
                Some(attributes) => Some(attributes@),
                None => None,
            },
        }
    }
}

impl FeatureFlag {
    /// Creates a new flag with the given id and default value.
    pub fn new(id: Id, default: FlagValue) -> (r: Self)
        ensures
            r@ == (FeatureFlagView { id: id@, default: default@, attributes: None }),
    {
        FeatureFlag { id, default, attributes: None }
    }

    /// Sets the flag's attributes. They are merged with those of the service
    /// in every request, and win over them.
    pub fn attributes(self, attributes: Attributes) -> (r: Self)
        ensures
            r@ == (FeatureFlagView { attributes: Some(attributes@), ..self@ }),
    {
        FeatureFlag { id: self.id, default: self.default, attributes: Some(attributes) }
    }

    /// The flag's id.
    pub fn id(&self) -> (r: &Id)
        ensures
            r@ == self@.id,
    {
        &self.id
    }

    /// The flag's default value.
    pub fn default(&self) -> (r: &FlagValue)
        ensures
            r@ == self@.default,
    {
        &self.default
    }

    /// The flag's attributes, if any.
    pub fn attributes_ref(&self) -> (r: Option<&Attributes>)
        ensures
            match r {
                Some(attributes) => self@.attributes == Some(attributes@),
                None => self@.attributes is None,
            },
    {
        match &self.attributes {
            Some(attributes) => Some(attributes),
            None => None,
        }
    }
}

impl Clone for FeatureFlag {
    fn clone(&self) -> (r: Self)
        ensures
            r@ == self@,
    {
        FeatureFlag {
            id: self.id.clone(),
            default: self.default.clone(),
            attributes: match &self.attributes {
                Some(attributes) => Some(attributes.clone()),
                None => None,
            },
        }
    }
}

} // verus!
