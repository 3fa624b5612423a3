//! A scenario: a named bundle of policies (and users) evaluated together
//! against requests.
//!
//! The named policies are resource policies; evaluating a request applies
//! deny-overrides combination over all of them: any denying policy forces
//! `Deny`, else any allowing policy yields `Allow`, else the implicit
//! `Deny`.

use vstd::prelude::*;
use crate::effect::Effect;
use crate::policy::Policy;
use crate::request::Request;
use crate::text::str_eq;
use crate::user::User;

verus! {

/// A scenario holding named resource policies and users.
#[derive(Debug, Clone)]
pub struct Scenario {
    /// User-defined managed (named) policies, indexed by name. The name
    /// can be used to attach them to an identity or resource. Names are
    /// unique; insertion order is preserved but carries no meaning for
    /// evaluation.
    pub named_policies: Vec<(String, Policy)>,
    /// Users.
    pub users: Vec<User>,
}

impl Default for Scenario {
    fn default() -> (r: Self)
        ensures
            r.named_policies@.len() == 0,
            r.users@.len() == 0,
    {
        Scenario { named_policies: Vec::new(), users: Vec::new() }
    }
}

impl Scenario {
    /// A policy with this name is already present.
    pub open spec fn spec_contains_name(&self, name: Seq<char>) -> bool {
        exists|i: int| 0 <= i < self.named_policies@.len() && self.named_policies@[i].0@ == name
    }

    /// Some named policy denies the request.
    pub open spec fn spec_denies(&self, request: &Request) -> bool {
        exists|i: int|
            0 <= i < self.named_policies@.len() && self.named_policies@[i].1.spec_denies(request)
    }

    /// Some named policy allows the request.
    pub open spec fn spec_allows(&self, request: &Request) -> bool {
        exists|i: int|
            0 <= i < self.named_policies@.len() && self.named_policies@[i].1.spec_allows(request)
    }

    /// The deny-overrides combination of the scenario's policies for one
    /// request.
    pub open spec fn spec_eval(&self, request: &Request) -> Effect {
        if self.spec_denies(request) {
            Effect::Deny
        } else if self.spec_allows(request) {
            Effect::Allow
        } else {
            Effect::Deny
        }
    }

    /// Make a new empty scenario.
    pub fn new() -> (r: Scenario)
        ensures
            r.named_policies@.len() == 0,
            r.users@.len() == 0,
    {
        Scenario::default()
    }

    /// Evaluate a request against the policies and configuration of this
    /// scenario. Evaluation itself has no fallible operations; the error
    /// side of the result is kept for callers that surface load-time
    /// failures lazily.
    pub fn eval(&self, request: &Request) -> (r: Result<Effect, String>)
        ensures
            r == Ok::<Effect, String>(self.spec_eval(request)),
    {
        let n = self.named_policies.len();
        let mut i: usize = 0;
        while i < n
            invariant
                i <= n,
                n == self.named_policies@.len(),
                forall|j: int| 0 <= j < i ==> !self.named_policies@[j].1.spec_denies(request),
            decreases n - i,
        {
            if self.named_policies[i].1.denies(request) {
                return Ok(Effect::Deny);
            }
            i += 1;
        }
        assert(!self.spec_denies(request));
        let mut k: usize = 0;
        while k < n
            invariant
                k <= n,
                n == self.named_policies@.len(),
                !self.spec_denies(request),
                forall|j: int| 0 <= j < k ==> !self.named_policies@[j].1.spec_allows(request),
            decreases n - k,
        {
            if self.named_policies[k].1.allows(request) {
                return Ok(Effect::Allow);
            }
            k += 1;
        }
        Ok(Effect::Deny)
    }

    /// Add a named resource policy. The name must not be in use yet;
    /// callers check with `contains_policy` first.
    pub fn add_resource_policy(&mut self, name: &str, policy: Policy)
        requires
            !old(self).spec_contains_name(name@),
        ensures
            final(self).named_policies@.len() == old(self).named_policies@.len() + 1,
            final(self).named_policies@.last().0@ == name@,
            final(self).named_policies@.last().1 == policy,
            final(self).named_policies@.take(old(self).named_policies@.len() as int) == old(
                self,
            ).named_policies@,
            final(self).users@ == old(self).users@,
    {
        self.named_policies.push((name.to_owned(), policy));
        assert(self.named_policies@.take(self.named_policies@.len() - 1) =~= old(
            self,
        ).named_policies@);
    }

    /// Whether a policy with this name is already present.
    pub fn contains_policy(&self, name: &str) -> (r: bool)
        ensures
            r == self.spec_contains_name(name@),
    {
        let n = self.named_policies.len();
        let mut i: usize = 0;
        while i < n
            invariant
                i <= n,
                n == self.named_policies@.len(),
                forall|j: int| 0 <= j < i ==> self.named_policies@[j].0@ != name@,
            decreases n - i,
        {
            if str_eq(self.named_policies[i].0.as_str(), name) {
                return true;
            }
            i += 1;
        }
        false
    }
}

// ---------------------------------------------------------------------------
// Laws of scenario evaluation
// ---------------------------------------------------------------------------

/// A scenario with no policies decides every request to the implicit
/// `Deny`.
pub proof fn lemma_empty_scenario_implicit_deny(s: &Scenario, request: &Request)
    requires
        s.named_policies@.len() == 0,
    ensures
        s.spec_eval(request) == Effect::Deny,
{
}

/// Deny overrides allow within a scenario: one denying named policy
/// forces `Deny` whatever the other policies say.
pub proof fn lemma_scenario_deny_overrides(s: &Scenario, request: &Request, i: int)
    requires
        0 <= i < s.named_policies@.len(),
        s.named_policies@[i].1.spec_denies(request),
    ensures
        s.spec_eval(request) == Effect::Deny,
{
    assert(s.spec_denies(request));
}

} // verus!
