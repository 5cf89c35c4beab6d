//! Shapes of the bulk-delete request and its response.

use vstd::prelude::*;

verus! {

/// Conversion of a response-mode choice into the boolean the wire
/// format carries.
pub trait Boolean {
    fn to_bool(&self) -> bool;
}

/// Whether the delete response lists every key or only failures.
#[derive(Debug, PartialEq, Eq, Structural)]
pub enum ResponseMode {
    Quiet,
    Verbose,
}

impl Boolean for ResponseMode {
    /// Quiet mode is spelled `true` on the wire.
    fn to_bool(&self) -> (r: bool)
        ensures
            r == (self is Quiet),
    {
        match self {
            ResponseMode::Quiet => true,
            ResponseMode::Verbose => false,
        }
    }
}

/// The body of a bulk-delete request.
#[derive(Debug)]
pub struct Delete {
    pub quiet: bool,
    pub item: Vec<Item>,
}

/// One entry of a bulk-delete request.
#[derive(Debug)]
pub enum Item {
    Object(Object),
}

/// A key to delete, optionally pinned to a version.
#[derive(Debug)]
pub struct Object {
    pub key_name: String,
    pub version_id: Option<String>,
}

/// The decoded body of a bulk-delete response.
#[derive(Debug)]
pub struct DeleteResult {
    pub deleted: Deleted,
    pub error: Error,
}

/// A key the service reports as deleted.
#[derive(Debug)]
pub struct Deleted {
    pub key_name: String,
}

/// A key the service failed to delete, with its error code and message.
#[derive(Debug)]
pub struct Error {
    pub key_name: String,
    pub code: String,
    pub message: String,
}

} // verus!
