//! Information that identifies the SDK implementation using FastStats.

use vstd::prelude::*;

use crate::error::{refused, Error};
use crate::text::{blank, is_blank};

verus! {

/// What an [`SdkInfo`] holds.
pub struct SdkInfoView {
    pub name: Seq<char>,
    pub version: Seq<char>,
    pub user_agent: Seq<char>,
}

/// Whether none of the three texts is blank.
pub open spec fn is_sdk_info(info: SdkInfoView) -> bool {
    !is_blank(info.name) && !is_blank(info.version) && !is_blank(info.user_agent)
}

/// Information that identifies the SDK implementation using FastStats. None
/// of its texts is blank.
#[derive(Debug, Eq)]
pub struct SdkInfo {
    name: String,
    version: String,
    user_agent: String,
}

impl View for SdkInfo {
    type V = SdkInfoView;

    closed spec fn view(&self) -> SdkInfoView {
        SdkInfoView {
            name: self.name@,
            version: self.version@,
            user_agent: self.user_agent@,
        }
    }
}

impl SdkInfo {
    #[verifier::type_invariant]
    spec fn well_formed(self) -> bool {
        is_sdk_info(self@)
    }

    /// Constructs [`SdkInfo`] from the SDK implementation's own name and
    /// version, and a complete user agent string. Refuses a blank text, the
    /// first one if there are several.
    pub fn new(name: &str, version: &str, user_agent: &str) -> (r: Result<Self, Error>)
        ensures
            match r {
                Ok(info) => is_sdk_info(info@) && info@ == (SdkInfoView {
                    name: name@,
                    version: version@,
                    user_agent: user_agent@,
                }),
                Err(e) => if is_blank(name@) {
                    e@ == refused("sdk_info.name"@, "must not be blank"@)
                } else if is_blank(version@) {
                    e@ == refused("sdk_info.version"@, "must not be blank"@)
                } else {
                    is_blank(user_agent@) && e@ == refused(
                        "sdk_info.user_agent"@,
                        "must not be blank"@,
                    )
                },
            },
    {
        if blank(name) {
            return Err(Error::validation("sdk_info.name", "must not be blank"));
        }
        if blank(version) {
            return Err(Error::validation("sdk_info.version", "must not be blank"));
        }
        if blank(user_agent) {
            return Err(Error::validation("sdk_info.user_agent", "must not be blank"));
        }
        Ok(
            SdkInfo {
                name: name.to_owned(),
                version: version.to_owned(),
                user_agent: user_agent.to_owned(),
            },
        )
    }

    /// Gets the SDK implementation name.
    pub fn name(&self) -> (s: &str)
        ensures
            s@ == self@.name,
            !is_blank(s@),
    {
        proof {
            use_type_invariant(self);
        }
        self.name.as_str()
    }

    /// Gets the SDK implementation version.
    pub fn version(&self) -> (s: &str)
        ensures
            s@ == self@.version,
            !is_blank(s@),
    {
        proof {
            use_type_invariant(self);
        }
        self.version.as_str()
    }

    /// Gets the HTTP user agent sent with FastStats HTTP requests.
    pub fn user_agent(&self) -> (s: &str)
        ensures
            s@ == self@.user_agent,
            !is_blank(s@),
    {
        proof {
            use_type_invariant(self);
        }
        self.user_agent.as_str()
    }
}

impl Clone for SdkInfo {
    fn clone(&self) -> (r: Self)
        ensures
            r@ == self@,
    {
        proof {
            use_type_invariant(self);
        }
        SdkInfo {
            name: self.name.clone(),
            version: self.version.clone(),
            user_agent: self.user_agent.clone(),
        }
    }
}

impl PartialEq for SdkInfo {
    fn eq(&self, other: &Self) -> (r: bool) {
        self.name == other.name && self.version == other.version && self.user_agent
            == other.user_agent
    }
}

impl vstd::std_specs::cmp::PartialEqSpecImpl for SdkInfo {
    open spec fn obeys_eq_spec() -> bool {
        true
    }

    open spec fn eq_spec(&self, other: &Self) -> bool {
        self@ == other@
    }
}

} // verus!
