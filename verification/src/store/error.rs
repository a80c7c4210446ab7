use vstd::prelude::*;

use crate::text::concat;

verus! {

/// Errors of an episode store.
#[derive(Debug)]
pub enum StoreError {
    /// No episode has this id.
    NotFound(String),
    /// The storage backend failed.
    Internal(String),
}

/// The display text of a store error.
pub open spec fn store_error_text(e: StoreError) -> Seq<char> {
    match e {
        StoreError::NotFound(id) => "Episode not found: "@ + id@,
        StoreError::Internal(m) => "Storage error: "@ + m@,
    }
}

impl StoreError {
    /// The text of this error, as it is shown to clients.
    pub fn message(&self) -> (r: String)
        ensures
            r@ == store_error_text(*self),
    {
        match self {
            StoreError::NotFound(id) => concat("Episode not found: ", id.as_str()),
            StoreError::Internal(m) => concat("Storage error: ", m.as_str()),
        }
    }
}

} // verus!
