//! Principals: the identities that issue requests and that statements can
//! name. Present in the data model; not consulted by matching today.

use vstd::prelude::*;

verus! {

/// One principal, for example the caller identity of a request.
#[derive(Debug, Clone)]
pub enum Principal {
    /// A user, account, role, etc, identified by an ARN.
    ARN(String),
}

/// Some principals, all of the same type, e.g. a list of AWS account ids.
#[derive(Debug, Clone)]
pub enum PrincipalMapEntry {
    AWS(Vec<String>),
    Federated(Vec<String>),
    CanonicalUser(Vec<String>),
    Service(Vec<String>),
}

/// A statement's principal clause: either a list of principals the
/// statement applies to, or a list it does not apply to.
#[derive(Debug, Clone)]
pub enum PrincipalOrNot {
    Principal(Vec<PrincipalMapEntry>),
    NotPrincipal(Vec<String>),
}

} // verus!
