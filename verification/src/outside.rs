//! The outside types that run through the library, declared so that they can
//! stand in its signatures and fields. All are opaque: only their own crates
//! read them.

use vstd::prelude::*;

verus! {

/// `serde_json::Value`, a JSON document. Opaque here: only `serde_json` and
/// the schemas read it.
#[verifier::external_type_specification]
#[verifier::external_body]
pub struct ExJsonValue(serde_json::Value);

/// `serde_json::Error`, a failed (de)serialization. Opaque here.
#[verifier::external_type_specification]
#[verifier::external_body]
pub struct ExJsonError(serde_json::Error);

} // verus!
