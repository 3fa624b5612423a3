//! Policy documents: statements pairing an effect with match conditions,
//! and the predicates that test them against a request.
//!
//! Matching consults only the action patterns of a statement. A pattern
//! that fails to compile is treated as matching nothing; it never aborts
//! evaluation of the remaining patterns or statements. A policy's
//! allow-verdict and deny-verdict are independent existential scans over
//! its statements: statement order carries no meaning.

use vstd::prelude::*;
use crate::action::{pattern_matches, pattern_ok, ActionGlob};
use crate::effect::Effect;
use crate::request::Request;

pub use crate::principal::{PrincipalMapEntry, PrincipalOrNot};

verus! {

/// One statement in a policy, stating that requests matching some
/// conditions should be either allowed or denied.
#[derive(Debug, Clone)]
pub struct Statement {
    /// Statement id; free text, no semantic effect.
    pub sid: Option<String>,
    /// The principal clause, when present. Represented but not enforced
    /// by matching today.
    pub principal: Option<PrincipalOrNot>,
    /// The effect of this statement: allow or deny.
    pub effect: Effect,
    /// Resource patterns. Represented but not enforced by matching today.
    pub resource: Vec<String>,
    /// Action patterns, compiled on demand when matching.
    pub action: Vec<String>,
}

impl Statement {
    /// Some action pattern of this statement matches the request's action.
    pub open spec fn spec_matches(&self, request: &Request) -> bool {
        exists|i: int|
            0 <= i < self.action@.len() && pattern_matches(self.action@[i]@, request.action@)
    }

    /// The statement allows the request.
    pub open spec fn spec_allows(&self, request: &Request) -> bool {
        self.effect == Effect::Allow && self.spec_matches(request)
    }

    /// The statement denies the request.
    pub open spec fn spec_denies(&self, request: &Request) -> bool {
        self.effect == Effect::Deny && self.spec_matches(request)
    }

    /// Does any of this statement's action patterns match the request's
    /// action? A pattern that fails to compile matches nothing and is
    /// skipped.
    pub fn matches(&self, request: &Request) -> (r: bool)
        ensures
            r == self.spec_matches(request),
    {
        let n = self.action.len();
        let mut i: usize = 0;
        while i < n
            invariant
                i <= n,
                n == self.action@.len(),
                forall|j: int|
                    0 <= j < i ==> !pattern_matches(self.action@[j]@, request.action@),
            decreases n - i,
        {
            match ActionGlob::compile(self.action[i].as_str()) {
                Ok(glob) => {
                    if glob.matches(request.action.as_str()) {
                        assert(pattern_matches(self.action@[i as int]@, request.action@));
                        return true;
                    }
                },
                Err(_) => {
                    assert(!pattern_ok(self.action@[i as int]@));
                    assert(!pattern_matches(self.action@[i as int]@, request.action@));
                },
            }
            i += 1;
        }
        false
    }

    pub fn allows(&self, request: &Request) -> (r: bool)
        ensures
            r == self.spec_allows(request),
    {
        self.effect.is_allow() && self.matches(request)
    }

    pub fn denies(&self, request: &Request) -> (r: bool)
        ensures
            r == self.spec_denies(request),
    {
        self.effect.is_deny() && self.matches(request)
    }
}

/// A policy document, containing some statements.
#[derive(Debug, Clone)]
pub struct Policy {
    /// The version of the policy grammar, "2008-10-17" or "2012-10-17".
    pub version: Option<String>,
    /// A user-supplied id for the policy.
    pub id: Option<String>,
    /// The statements; order is preserved from the document but carries
    /// no meaning for the verdicts.
    pub statement: Vec<Statement>,
}

impl Policy {
    /// Some statement of this policy allows the request.
    pub open spec fn spec_allows(&self, request: &Request) -> bool {
        exists|i: int| 0 <= i < self.statement@.len() && self.statement@[i].spec_allows(request)
    }

    /// Some statement of this policy denies the request.
    pub open spec fn spec_denies(&self, request: &Request) -> bool {
        exists|i: int| 0 <= i < self.statement@.len() && self.statement@[i].spec_denies(request)
    }

    pub fn allows(&self, request: &Request) -> (r: bool)
        ensures
            r == self.spec_allows(request),
    {
        let n = self.statement.len();
        let mut i: usize = 0;
        while i < n
            invariant
                i <= n,
                n == self.statement@.len(),
                forall|j: int| 0 <= j < i ==> !self.statement@[j].spec_allows(request),
            decreases n - i,
        {
            if self.statement[i].allows(request) {
                return true;
            }
            i += 1;
        }
        false
    }

    pub fn denies(&self, request: &Request) -> (r: bool)
        ensures
            r == self.spec_denies(request),
    {
        let n = self.statement.len();
        let mut i: usize = 0;
        while i < n
            invariant
                i <= n,
                n == self.statement@.len(),
                forall|j: int| 0 <= j < i ==> !self.statement@[j].spec_denies(request),
            decreases n - i,
        {
            if self.statement[i].denies(request) {
                return true;
            }
            i += 1;
        }
        false
    }
}

/// The role a policy plays in combination. Only `Resource` policies
/// contribute to the allow branch of combination today; the other types
/// are represented but inert, a documented gap kept deliberately.
#[derive(Debug, Clone, Eq, PartialEq, Structural)]
pub enum PolicyType {
    Resource,
    Identity,
    PermissionsBoundary,
    ServiceControl,
    Session,
}

} // verus!
