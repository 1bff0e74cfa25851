//! Declares the JSON value type of serde_json, so that the tracker wire
//! records can carry the response fields the engine does not read as
//! opaque pass-through values.

use vstd::prelude::*;

verus! {

/// Relies on serde_json::Value being an ordinary owned JSON tree; the
/// engine never reads into it, it only carries such values through.
#[verifier::external_type_specification]
#[verifier::external_body]
pub struct ExValue(serde_json::Value);

} // verus!
