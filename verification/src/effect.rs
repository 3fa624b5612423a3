//! The verdict a policy statement asserts when it matches a request.

use vstd::prelude::*;

verus! {

/// The decision value of policy evaluation: a statement either allows or
/// denies the requests it matches, and a whole evaluation ends in one of
/// these two values (there is no "not applicable" result; absence of a
/// match is an implicit `Deny`).
#[derive(PartialEq, Eq, Structural, PartialOrd, Ord, Copy, Clone, Debug)]
#[must_use]
pub enum Effect {
    Allow,
    Deny,
}

impl Effect {
    pub fn is_allow(&self) -> (r: bool)
        ensures
            r == (*self == Effect::Allow),
    {
        match self {
            Effect::Allow => true,
            Effect::Deny => false,
        }
    }

    pub fn is_deny(&self) -> (r: bool)
        ensures
            r == (*self == Effect::Deny),
    {
        match self {
            Effect::Allow => false,
            Effect::Deny => true,
        }
    }
}

} // verus!
