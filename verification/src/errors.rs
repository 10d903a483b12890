//! What can go wrong in this crate.

use vstd::prelude::*;

verus! {

/// An outside error: why a plain string did not name a value of the type asked
/// for.
#[verifier::external_type_specification]
#[verifier::external_body]
pub struct ExSerdePlainError(serde_plain::Error);

/// Why no identity could be made of what a bus message or a proxy gave.
#[derive(Clone, Copy, Debug, PartialEq, Eq, Structural)]
pub enum AccessiblePrimitiveConversionError {
    /// The message names no sender.
    NoSender,
    /// Asking the message for its sender failed.
    ErrSender,
    /// There is no object path, or the proxy would not give its id.
    NoPathId,
    /// The object path is malformed.
    PathParse,
}

/// Why a lookup through the cache gave nothing.
#[derive(Clone, Copy, Debug, PartialEq, Eq, Structural)]
pub enum CacheError {
    /// The cache is gone.
    NotAvailable,
    /// The cache holds no item under the identity asked for.
    NoItem,
}

/// Every error of this crate.
#[derive(Debug)]
pub enum OdiliaError {
    PrimitiveConversionError(AccessiblePrimitiveConversionError),
    Cache(CacheError),
    /// The object has no attribute of this name.
    NoAttributeError(String),
    /// A string did not name a value of the type asked for.
    SerdeError(serde_plain::Error),
}

} // verus!
