//! Time-based one-time passwords (RFC 6238) over the HOTP primitive
//! (RFC 4226), with HMAC-SHA-1 as the keyed digest.
//!
//! The library turns a shared secret and an instant into a fixed-width
//! decimal code: the instant is bucketed into a time counter, the counter is
//! HMAC-signed under the secret, and the digest is truncated and formatted.

use vstd::prelude::*;

pub mod hotp;
pub mod totp;

verus! {

/// Why a code could not be produced.
#[derive(Clone, Copy, Debug, PartialEq, Eq, Structural)]
pub enum TotpError {
    /// The key material is empty or unusable.
    InvalidSecret,
    /// A digit count or time step outside the accepted range.
    InvalidParameters,
    /// The system clock could not be read.
    ClockUnavailable,
    /// Bytes crossing a foreign boundary were not valid text.
    EncodingError,
}

} // verus!
