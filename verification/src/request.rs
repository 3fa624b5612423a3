//! An access request: the action being attempted and, optionally, the
//! principal attempting it.

use vstd::prelude::*;
use crate::principal::Principal;

verus! {

/// The attributes of a request relevant to policy evaluation. Only the
/// action name is consulted by matching today; the principal is carried
/// along for the richer evaluation model.
#[derive(Debug, Clone)]
pub struct Request {
    /// The action name, e.g. "s3:ListAllMyBuckets".
    pub action: String,
    /// The principal issuing the request, when one is given.
    pub principal: Option<Principal>,
}

} // verus!
