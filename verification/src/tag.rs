//! Key-value tags attached to users.

use vstd::prelude::*;

verus! {

/// A key-value tag.
#[derive(Debug, Clone)]
pub struct Tag {
    pub key: String,
    pub value: String,
}

} // verus!
