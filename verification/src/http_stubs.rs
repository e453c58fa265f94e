//! HTTP client surface for the browser host. These types carry the same API
//! shape the rest of the application expects; actual transfers go through the
//! browser's own fetch machinery in the host layer.

use vstd::prelude::*;

verus! {

/// A URL for an HTTP request.
pub type Url = String;

/// An HTTP header value.
#[derive(Debug, Clone)]
pub struct HeaderValue(pub String);

impl HeaderValue {
    /// Create a header value from a string; every string is accepted.
    pub fn from_str(s: &str) -> (r: Result<HeaderValue, ()>)
        ensures
            r is Ok,
            r->Ok_0.0@ == s@,
    {
        Ok(HeaderValue(s.to_owned()))
    }
}

/// A request body.
pub struct AsyncBody;

/// An HTTP request over some body type.
pub struct Request<T> {
    pub body: core::marker::PhantomData<T>,
}

/// An HTTP response over some body type.
pub struct Response<T> {
    pub body: core::marker::PhantomData<T>,
}

} // verus!
