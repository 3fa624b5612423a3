//! The policy combination engine: an ordered collection of typed policies
//! evaluated with deny-overrides semantics.
//!
//! The decision for a request is a pure function of the collection and the
//! request: if any policy of any type denies it, the decision is `Deny`;
//! otherwise, if any `Resource`-type policy allows it, the decision is
//! `Allow`; otherwise the decision is the implicit `Deny`. Insertion order
//! is preserved but carries no meaning: both checks are existential.

use vstd::prelude::*;
use crate::effect::Effect;
use crate::policy::{Policy, PolicyType};
use crate::request::Request;

verus! {

/// A set of policies relevant to some evaluations.
pub struct PolicySet {
    policies: Vec<(PolicyType, Policy)>,
}

impl Default for PolicySet {
    fn default() -> (r: Self)
        ensures
            r.spec_policies().len() == 0,
    {
        PolicySet { policies: Vec::new() }
    }
}

impl PolicySet {
    /// The typed policies this set holds, in insertion order.
    pub closed spec fn spec_policies(&self) -> Seq<(PolicyType, Policy)> {
        self.policies@
    }

    /// Some policy in the set, of any type, denies the request.
    pub open spec fn spec_denies(&self, request: &Request) -> bool {
        exists|i: int|
            0 <= i < self.spec_policies().len() && self.spec_policies()[i].1.spec_denies(request)
    }

    /// Some `Resource`-type policy in the set allows the request.
    pub open spec fn spec_resource_allows(&self, request: &Request) -> bool {
        exists|i: int|
            0 <= i < self.spec_policies().len() && self.spec_policies()[i].0
                == PolicyType::Resource && self.spec_policies()[i].1.spec_allows(request)
    }

    /// The deny-overrides combination of the whole set for one request.
    pub open spec fn spec_eval(&self, request: &Request) -> Effect {
        if self.spec_denies(request) {
            Effect::Deny
        } else if self.spec_resource_allows(request) {
            Effect::Allow
        } else {
            Effect::Deny
        }
    }

    /// Make a new, empty policy set.
    pub fn new() -> (r: Self)
        ensures
            r.spec_policies().len() == 0,
    {
        Self::default()
    }

    /// Add a policy to the set.
    pub fn add(&mut self, policy_type: PolicyType, policy: Policy)
        ensures
            final(self).spec_policies() == old(self).spec_policies().push(
                (policy_type, policy),
            ),
    {
        self.policies.push((policy_type, policy));
    }

    /// The typed policies this set holds, in insertion order.
    pub fn iter(&self) -> (r: &Vec<(PolicyType, Policy)>)
        ensures
            r@ == self.spec_policies(),
    {
        &self.policies
    }

    /// Decide one request against the whole set: `Deny` if any policy
    /// denies it; else `Allow` if any `Resource`-type policy allows it;
    /// else the implicit `Deny`.
    pub fn eval(&self, request: &Request) -> (r: Effect)
        ensures
            r == self.spec_eval(request),
    {
        let n = self.policies.len();
        let mut i: usize = 0;
        while i < n
            invariant
                i <= n,
                n == self.spec_policies().len(),
                self.spec_policies() == self.policies@,
                forall|j: int| 0 <= j < i ==> !self.policies@[j].1.spec_denies(request),
            decreases n - i,
        {
            if self.policies[i].1.denies(request) {
                return Effect::Deny;
            }
            i += 1;
        }
        assert(!self.spec_denies(request));
        let mut k: usize = 0;
        while k < n
            invariant
                k <= n,
                n == self.spec_policies().len(),
                self.spec_policies() == self.policies@,
                !self.spec_denies(request),
                forall|j: int|
                    0 <= j < k ==> !(self.policies@[j].0 == PolicyType::Resource
                        && self.policies@[j].1.spec_allows(request)),
            decreases n - k,
        {
            let entry = &self.policies[k];
            if entry.0 == PolicyType::Resource && entry.1.allows(request) {
                return Effect::Allow;
            }
            k += 1;
        }
        Effect::Deny
    }
}

// ---------------------------------------------------------------------------
// Laws of combination
// ---------------------------------------------------------------------------

/// Deny overrides allow: if any policy in the set denies the request —
/// whatever its type, and however many policies allow the same request —
/// the decision is `Deny`.
pub proof fn lemma_deny_overrides(ps: &PolicySet, request: &Request, i: int)
    requires
        0 <= i < ps.spec_policies().len(),
        ps.spec_policies()[i].1.spec_denies(request),
    ensures
        ps.spec_eval(request) == Effect::Deny,
{
    assert(ps.spec_denies(request));
}

/// Implicit deny: an empty policy set decides every request to `Deny`.
pub proof fn lemma_empty_set_implicit_deny(ps: &PolicySet, request: &Request)
    requires
        ps.spec_policies().len() == 0,
    ensures
        ps.spec_eval(request) == Effect::Deny,
{
}

/// With no denying policy, one allowing `Resource`-type policy decides
/// the request to `Allow`.
pub proof fn lemma_resource_allow_grants(ps: &PolicySet, request: &Request)
    requires
        !ps.spec_denies(request),
        ps.spec_resource_allows(request),
    ensures
        ps.spec_eval(request) == Effect::Allow,
{
}

/// Only `Resource`-type policies grant: a set with no `Resource`-type
/// policy and no denying policy decides the request to `Deny`, even when
/// policies of other types (for example `Identity`) allow it. This pins
/// the documented gap that non-resource policy types are inert in the
/// allow branch.
pub proof fn lemma_non_resource_cannot_allow(ps: &PolicySet, request: &Request)
    requires
        forall|i: int|
            0 <= i < ps.spec_policies().len() ==> ps.spec_policies()[i].0
                != PolicyType::Resource,
        !ps.spec_denies(request),
    ensures
        ps.spec_eval(request) == Effect::Deny,
{
}

} // verus!
