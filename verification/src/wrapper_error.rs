//! An error wrapper that adds context to a controller error while keeping
//! the original cause available for diagnostics.

use vstd::prelude::*;
use crate::helvar_error::{spec_message, HelvarError};

verus! {

/// A controller error wrapped with a context prefix.
#[derive(Debug)]
pub struct WrapperError {
    pub prefix: String,
    pub wrapped: HelvarError,
}

impl WrapperError {
    /// Wraps `err` under the context `prefix`.
    pub fn new(prefix: &str, err: HelvarError) -> (w: WrapperError)
        ensures
            w.prefix@ == prefix@,
            w.wrapped == err,
    {
        WrapperError { prefix: prefix.to_owned(), wrapped: err }
    }

    /// The original cause.
    pub fn source(&self) -> (r: &HelvarError)
        ensures
            *r == self.wrapped,
    {
        &self.wrapped
    }

    /// Human-readable message: the context, a separator, the cause.
    pub fn message(&self) -> (m: String)
        ensures
            m@ == self.prefix@ + ": "@ + spec_message(self.wrapped),
    {
        let mut m = self.prefix.clone();
        m.append(": ");
        let tail = self.wrapped.message();
        m.append(tail.as_str());
        m
    }
}

} // verus!
