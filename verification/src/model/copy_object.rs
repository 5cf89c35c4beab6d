//! Shape of a copy-object response.

use vstd::prelude::*;

verus! {

/// The decoded body of a copy-object response.
#[derive(Debug)]
pub struct CopyObjectResult {
    pub last_modified: String,
    pub etag: String,
}

} // verus!
