//! Users: identities that a scenario can declare and attach policies to.

use vstd::prelude::*;
use crate::tag::Tag;

verus! {

/// A user declared by a scenario.
#[derive(Debug, Clone)]
pub struct User {
    /// The user's name.
    pub user_name: String,
    /// The user's id.
    pub user_id: Option<String>,
    /// The user's path, e.g. to group them under `/eng/`.
    pub path: String,
    /// The user's tags.
    pub tags: Vec<Tag>,
    /// Named policies attached to this user.
    pub attached_policies: Vec<String>,
}

} // verus!
