//! Shape of a list-buckets response.

use vstd::prelude::*;

verus! {

/// The decoded body of a list-buckets response.
#[derive(Debug)]
pub struct ListAllMyBucketsResult {
    pub owner: Owner,
    pub buckets: Buckets,
}

/// The buckets of a list-buckets response.
#[derive(Debug)]
pub struct Buckets {
    pub bucket: Vec<Bucket>,
}

/// One bucket of a list-buckets response.
#[derive(Debug)]
pub struct Bucket {
    pub name: String,
    pub creation_date: String,
    pub location: String,
    pub bucket_type: String,
}

/// The owner of the listed buckets.
#[derive(Debug)]
pub struct Owner {
    pub id: String,
}

} // verus!
