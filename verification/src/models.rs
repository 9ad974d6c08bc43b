//! Request and response bodies whose fields are plain values.

use std::collections::BTreeMap;
use vstd::prelude::*;

verus! {

/// The body of a successful upsert: how many records were written.
pub struct UpdateResponse {
    pub upserted: usize,
}

/// The body of an error response.
pub struct ErrorResponse {
    pub error: String,
}

/// The body of `PUT /update/meta`: metadata keys and their new values.
pub struct MetaUpdatePayload {
    pub meta: BTreeMap<String, String>,
}

} // verus!
