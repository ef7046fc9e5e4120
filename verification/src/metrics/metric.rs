//! The `Metric` abstraction: a piece of custom metrics data, computed on
//! demand.

use vstd::prelude::*;

use crate::error::{refused, Error, ErrorView};
use crate::validated::id::{is_id, no_id, Id};
use crate::value::{all_finite, JsonValue, JsonView};

verus! {

/// What the computation of a metric gave: a value, nothing to report, or an
/// error.
pub open spec fn computed_view(r: Result<Option<JsonValue>, Error>) -> Result<
    Option<JsonView>,
    ErrorView,
> {
    match r {
        Ok(Some(value)) => Ok(Some(value@)),
        Ok(None) => Ok(None),
        Err(e) => Err(e@),
    }
}

/// What is reported of a computation: a value with a number that is not
/// finite is an error, and null is nothing to report.
pub open spec fn checked(computed: Result<Option<JsonView>, ErrorView>) -> Result<
    Option<JsonView>,
    ErrorView,
> {
    match computed {
        Ok(Some(value)) => if !all_finite(value) {
            Err(refused("metric value"@, "float is NaN or infinite"@))
        } else if value == JsonView::Null {
            Ok(None)
        } else {
            Ok(Some(value))
        },
        Ok(None) => Ok(None),
        Err(e) => Err(e),
    }
}

/// Checks what the computation of a metric gave.
pub fn check_computed(computed: Result<Option<JsonValue>, Error>) -> (r: Result<
    Option<JsonValue>,
    Error,
>)
    ensures
        computed_view(r) == checked(computed_view(computed)),
{
    match computed {
        Ok(Some(value)) => if !value.is_finite() {
            Err(Error::validation("metric value", "float is NaN or infinite"))
        } else if matches!(value, JsonValue::Null) {
            Ok(None)
        } else {
            Ok(Some(value))
        },
        Ok(None) => Ok(None),
        Err(e) => Err(e),
    }
}

/// A custom metric: a validated id and a function that computes its value
/// on demand.
pub struct Metric<F: Fn() -> Result<Option<JsonValue>, Error>> {
    id: Id,
    compute: F,
}

impl<F: Fn() -> Result<Option<JsonValue>, Error>> Metric<F> {
    #[verifier::type_invariant]
    spec fn well_formed(self) -> bool {
        self.compute.requires(())
    }

    /// The id of the metric.
    pub closed spec fn id_view(self) -> Seq<char> {
        self.id@
    }

    /// The function that computes the value.
    pub closed spec fn function(self) -> F {
        self.compute
    }

    /// Whether a computation of the metric can give this.
    pub open spec fn can_give(self, reported: Result<Option<JsonView>, ErrorView>) -> bool {
        exists|computed: Result<Option<JsonValue>, Error>| #[trigger]
            self.function().ensures((), computed) && reported == checked(computed_view(computed))
    }

    /// Creates a metric from a function that gives a value, nothing to
    /// report this round, or an error.
    pub fn try_new(id: &str, compute: F) -> (r: Result<Self, Error>)
        requires
            compute.requires(()),
        ensures
            match r {
                Ok(metric) => is_id(id@) && metric.id_view() == id@ && metric.function() == compute,
                Err(e) => !is_id(id@) && e@ == no_id(),
            },
    {
        match Id::new(id) {
            Ok(id) => Ok(Metric { id, compute }),
            Err(e) => Err(e),
        }
    }

    /// The metric's validated id.
    pub fn id(&self) -> (r: &Id)
        ensures
            r@ == self.id_view(),
    {
        &self.id
    }

    /// Computes the metric's current value, or `Ok(None)` if there is
    /// nothing to report this round.
    pub fn compute(&self) -> (r: Result<Option<JsonValue>, Error>)
        ensures
            self.can_give(computed_view(r)),
    {
        proof {
            use_type_invariant(self);
        }
        let computed = (self.compute)();
        assert(self.function().ensures((), computed));
        let ghost given = computed;
        let r = check_computed(computed);
        assert(self.function().ensures((), given) && computed_view(r) == checked(
            computed_view(given),
        ));
        r
    }
}

} // verus!
