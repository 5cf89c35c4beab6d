//! Object metadata as decoded from a metadata response's headers.

use vstd::prelude::*;

verus! {

/// Where the next append to an object must start, when the service
/// reported one.
pub type NextPosition = Option<u64>;

/// The metadata headers of an object.
#[derive(Debug)]
pub struct ObjectMeta {
    pub server: String,
    pub x_obs_request_id: String,
    pub x_reserved_indicator: String,
    pub accept_ranges: String,
    pub etag: String,
    pub last_modified: String,
    pub content_type: String,
    pub x_obs_tagging_count: String,
    pub x_obs_id_2: String,
    pub date: String,
    pub content_length: String,
}

} // verus!
