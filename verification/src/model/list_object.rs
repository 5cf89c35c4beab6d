//! Shape of a list-objects response.

use vstd::prelude::*;

verus! {

/// The decoded body of a list-objects response.
#[derive(Debug)]
pub struct ListBucketResult {
    pub name: String,
    pub next_marker: Option<String>,
    pub max_keys: String,
    pub is_truncated: String,
    pub contents: Vec<Content>,
}

/// One object of a list-objects response.
#[derive(Debug)]
pub struct Content {
    pub key: String,
    pub last_modified: String,
    pub e_tag: String,
    pub size: String,
    pub owner: Owner,
    pub storage_class: StorageClass,
}

/// The owner of a listed object.
#[derive(Debug)]
pub struct Owner {
    pub id: Id,
}

/// The owner identifiers the decoder recognizes.
#[derive(Debug)]
pub enum Id {
    The0Ac96B898E800F220F36C00D9687B180,
}

/// The storage classes the decoder recognizes.
#[derive(Debug)]
pub enum StorageClass {
    Standard,
}

} // verus!
