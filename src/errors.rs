use vstd::prelude::*;

verus! {

/// The domain errors of the URL shortener.
#[derive(Clone, Copy, Debug, PartialEq, Eq, Structural)]
pub enum ShortenerError {
    /// The url to shorten is empty or does not start with the http marker.
    InvalidUrl,
    /// The requested slug already maps to a url.
    SlugAlreadyInUse,
    /// The slug does not map to any short link.
    SlugNotFound,
}

/// Errors of the service boundary around the core.
#[derive(Debug)]
pub enum ServiceError {
    LockError,
    ProcessingError(String),
    NotFound,
    BadRequest,
}

} // verus!
