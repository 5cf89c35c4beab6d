//! Typed shapes of the request and response bodies the service
//! exchanges.  Serialization itself is the transport rim's concern;
//! these types carry the decoded data as plain values.

use vstd::prelude::*;

pub mod copy_object;
pub mod create_bucket;
pub mod delete_object;
pub mod list_bucket;
pub mod list_object;
pub mod location;
pub mod object;

verus! {

/// The decoded body of an error response.
#[derive(Debug)]
pub struct ErrorResponse {
    pub code: String,
    pub message: String,
    pub request_id: String,
    pub host_id: String,
    pub access_key_id: String,
    pub signature_provided: String,
    pub string_to_sign: String,
    pub string_to_sign_bytes: String,
}

} // verus!
