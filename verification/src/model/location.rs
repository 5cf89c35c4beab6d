//! Shape of a bucket-location response.

use vstd::prelude::*;

verus! {

/// The decoded body of a bucket-location response.
#[derive(Debug)]
pub struct Location {
    pub location: String,
}

} // verus!
