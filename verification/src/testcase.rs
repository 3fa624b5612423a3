//! Test cases: a scenario plus a series of assertions (requests and
//! expected effects), and the evaluator that reports one result per
//! assertion.

use vstd::prelude::*;
use crate::effect::Effect;
use crate::request::Request;
use crate::scenario::Scenario;

verus! {

/// The result of evaluating one test assertion.
#[derive(Debug, Clone, PartialEq, Eq)]
pub enum AssertionResult {
    Pass,
    Fail,
    /// Evaluation could not proceed; carries a description. Produced for
    /// operational failures surfaced lazily by a loader, not by the
    /// combination engine itself.
    Error(String),
}

impl AssertionResult {
    /// The expected outcome of the assertion's evaluation.
    pub open spec fn spec_of(actual: Effect, expected: Effect) -> AssertionResult {
        if actual == expected {
            AssertionResult::Pass
        } else {
            AssertionResult::Fail
        }
    }

    pub fn is_pass(&self) -> (r: bool)
        ensures
            r == (*self == AssertionResult::Pass),
    {
        match self {
            AssertionResult::Pass => true,
            AssertionResult::Fail => false,
            AssertionResult::Error(_) => false,
        }
    }
}

/// A single assertion in a test case: a request, the expected effect, and
/// optionally a comment.
#[derive(Debug, Clone)]
pub struct TestCaseAssertion {
    /// An optional comment explaining the assertion.
    pub comment: Option<String>,
    /// The request to evaluate.
    pub request: Request,
    /// The effect the scenario is expected to produce for it.
    pub expected: Effect,
}

/// A test case containing a scenario (policies and resources) and a
/// series of assertions.
#[derive(Debug, Clone)]
pub struct TestCase {
    pub comment: Option<String>,
    pub scenario: Scenario,
    pub assertions: Vec<TestCaseAssertion>,
}

impl TestCase {
    /// Evaluate all the assertions in this test case, returning one
    /// result per assertion, in order: `Pass` where the scenario's
    /// decision equals the expected effect and `Fail` where it differs.
    pub fn eval(&self) -> (r: Vec<AssertionResult>)
        ensures
            r@.len() == self.assertions@.len(),
            forall|i: int|
                0 <= i < r@.len() ==> r@[i] == AssertionResult::spec_of(
                    self.scenario.spec_eval(&self.assertions@[i].request),
                    self.assertions@[i].expected,
                ),
    {
        let n = self.assertions.len();
        let mut results: Vec<AssertionResult> = Vec::new();
        let mut i: usize = 0;
        while i < n
            invariant
                i <= n,
                n == self.assertions@.len(),
                results@.len() == i,
                forall|j: int|
                    0 <= j < i ==> results@[j] == AssertionResult::spec_of(
                        self.scenario.spec_eval(&self.assertions@[j].request),
                        self.assertions@[j].expected,
                    ),
            decreases n - i,
        {
            let assertion = &self.assertions[i];
            let outcome = match self.scenario.eval(&assertion.request) {
                Err(message) => AssertionResult::Error(message),
                Ok(actual) => {
                    if actual == assertion.expected {
                        AssertionResult::Pass
                    } else {
                        AssertionResult::Fail
                    }
                },
            };
            results.push(outcome);
            i += 1;
        }
        results
    }
}

} // verus!
