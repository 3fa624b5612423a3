//! Offline evaluation of access requests against IAM-style policy documents.
//!
//! Policy documents hold statements that allow or deny actions matched by
//! `service:action` patterns. A set of policies is combined with
//! deny-overrides semantics into a single `Allow`/`Deny` decision.

pub mod action;
pub mod effect;
pub mod json;
pub mod policy;
pub mod policyset;
pub mod principal;
pub mod request;
pub mod scenario;
pub mod tag;
pub mod testcase;
pub mod text;
pub mod user;

pub use effect::Effect;
pub use request::Request;
