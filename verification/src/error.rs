//! The error taxonomy of the signing core.
//!
//! Transport-level failures stay with the transport layer; the library
//! itself can fail only on a path that cannot be canonicalized or on
//! degenerate authentication input.
use vstd::prelude::*;

verus! {

/// What can go wrong inside the library, and what callers report upward.
#[derive(Debug)]
pub enum CosError {
    /// Authentication failed: degenerate key material.
    Auth { message: String },
    /// The server rejected a request.
    Server { code: String, message: String },
    /// The request was ill-formed on the client side.
    Client { code: String, message: String },
    /// The configuration is unusable.
    Config { message: String },
    /// The request path cannot be canonicalized.
    MalformedUri { message: String },
    /// Anything else.
    Other { message: String },
}

impl CosError {
    pub fn auth(message: String) -> (r: CosError)
        ensures
            r matches CosError::Auth { message: m } && m@ == message@,
    {
        CosError::Auth { message }
    }

    pub fn server(code: String, message: String) -> (r: CosError)
        ensures
            r matches CosError::Server { code: c, message: m } && c@ == code@ && m@ == message@,
    {
        CosError::Server { code, message }
    }

    pub fn client(code: String, message: String) -> (r: CosError)
        ensures
            r matches CosError::Client { code: c, message: m } && c@ == code@ && m@ == message@,
    {
        CosError::Client { code, message }
    }

    pub fn config(message: String) -> (r: CosError)
        ensures
            r matches CosError::Config { message: m } && m@ == message@,
    {
        CosError::Config { message }
    }

    pub fn malformed_uri(message: String) -> (r: CosError)
        ensures
            r matches CosError::MalformedUri { message: m } && m@ == message@,
    {
        CosError::MalformedUri { message }
    }

    pub fn other(message: String) -> (r: CosError)
        ensures
            r matches CosError::Other { message: m } && m@ == message@,
    {
        CosError::Other { message }
    }

    /// True of a server-side rejection; request layers use this to tell
    /// "does not exist" from a genuine failure.
    pub fn is_server_error(&self) -> (r: bool)
        ensures
            r == (self is Server),
    {
        match self {
            CosError::Server { .. } => true,
            _ => false,
        }
    }
}

/// The existence decision shared by the bucket and object probes: a
/// successful probe means the thing exists, a server-side rejection means
/// it does not, and any other failure is passed through.
pub fn exists_outcome<T>(r: Result<T, CosError>) -> (out: Result<bool, CosError>)
    ensures
        r is Ok ==> (out matches Ok(b) && b),
        r matches Err(e) ==> if e is Server {
            out matches Ok(b) && !b
        } else {
            out matches Err(e2) && e2 == e
        },
{
    match r {
        Ok(_) => Ok(true),
        Err(e) => {
            if e.is_server_error() {
                Ok(false)
            } else {
                Err(e)
            }
        },
    }
}

} // verus!
