//! The error surface of the client: credential absence is the only fatal
//! signing failure; everything else reports a transport or decoding
//! problem with plain data attached.

use vstd::prelude::*;

verus! {

/// What can go wrong while building, sending or decoding a request.
#[derive(Debug)]
pub enum ObsError {
    /// The transport could not be built or the request could not be sent.
    Request { message: String },
    /// No usable access-key / secret-key pair is configured.
    Security,
    /// The service answered with a failing status.
    Response { status: u16, message: String },
    /// A response body could not be parsed or converted.
    ParseOrConvert,
    /// The next append position was missing or unreadable.
    NextPosition,
    /// A request or response body could not be serialized.
    Serialize { message: String },
    /// Anything the other kinds do not cover.
    Unknown,
}

impl ObsError {
    /// A short description of the error kind.
    pub fn describe(&self) -> (r: &'static str)
        ensures
            self is Request ==> r@ == "request client build fail"@,
            self is Security ==> r@ == "ak or sk not provided"@,
            self is Response ==> r@ == "operation is not valid"@,
            self is ParseOrConvert ==> r@ == "parse or convert json error"@,
            self is NextPosition ==> r@ == "next position error"@,
            self is Serialize ==> r@ == "serialize error"@,
            self is Unknown ==> r@ == "unknown data store error"@,
    {
        match self {
            ObsError::Request { .. } => "request client build fail",
            ObsError::Security => "ak or sk not provided",
            ObsError::Response { .. } => "operation is not valid",
            ObsError::ParseOrConvert => "parse or convert json error",
            ObsError::NextPosition => "next position error",
            ObsError::Serialize { .. } => "serialize error",
            ObsError::Unknown => "unknown data store error",
        }
    }
}

} // verus!
