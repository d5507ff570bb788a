//! The JSON values that requests carry through to the database unread.

use vstd::prelude::*;

verus! {

/// `serde_json::Value`, held and passed on as it is.
#[verifier::external_type_specification]
#[verifier::external_body]
pub struct ExJsonValue(serde_json::Value);

} // verus!
