//! The types of `serde_cbor` that pass through this library unopened.

use vstd::prelude::*;

verus! {

/// `serde_cbor::Value`, a value as `serde_cbor` reads and writes it.
#[verifier::external_type_specification]
#[verifier::external_body]
pub struct ExCborValue(serde_cbor::Value);

/// `serde_cbor::Error`, which tells why reading or writing failed.
#[verifier::external_type_specification]
#[verifier::external_body]
pub struct ExCborError(serde_cbor::Error);

} // verus!
