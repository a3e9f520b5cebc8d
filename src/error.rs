//! Errors of the shortening service.
use vstd::prelude::*;

verus! {

/// Why a caller-supplied short code or a target address was rejected.
#[derive(Debug, Clone, Copy, PartialEq, Eq, Structural)]
pub enum ValidationError {
    /// The custom code is empty.
    EmptyCode,
    /// The custom code is longer than the longest allowed custom code.
    CodeTooLong,
    /// The custom code holds a character outside the code alphabet.
    CodeCharacters,
    /// The address does not start with `http://` or `https://`.
    UrlScheme,
}

/// Failures surfaced by the shortening service.
#[derive(Debug, Clone, Copy, PartialEq, Eq, Structural)]
pub enum AppError {
    /// No link is stored under the code.
    UrlNotFound,
    /// The target address is empty.
    InvalidUrl,
    /// The requested custom code is already assigned.
    CodeAlreadyExists,
    /// The link's expiry time has passed.
    UrlExpired,
    /// Caller input of the wrong shape.
    Validation(ValidationError),
    /// Every candidate of the retry budget was already taken.
    AllocationExhausted { attempts: u32 },
    /// No QR-code image could be made of the address.
    QrEncoding,
}

} // verus!
