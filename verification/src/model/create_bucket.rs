//! Shape of a create-bucket request.

use vstd::prelude::*;

verus! {

/// The body of a create-bucket request.
#[derive(Debug)]
pub struct CreateBucketRequest {
    pub create_bucket_configuration: CreateBucketConfiguration,
}

impl CreateBucketRequest {
    /// A request that places the bucket in `location`.
    pub fn new(location: &str) -> (r: CreateBucketRequest)
        ensures
            r.create_bucket_configuration.location@ == location@,
    {
        let create_bucket_configuration = CreateBucketConfiguration {
            location: location.to_owned(),
        };
        CreateBucketRequest { create_bucket_configuration }
    }
}

/// The placement configuration of a new bucket.
#[derive(Debug)]
pub struct CreateBucketConfiguration {
    pub location: String,
}

} // verus!
