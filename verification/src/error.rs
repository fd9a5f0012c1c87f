//! The failures that token parsing, token verification and the keystore report.

use vstd::prelude::*;

verus! {

/// Why a token or a keystore was rejected. An attribute is named by its key.
#[derive(Clone, Copy, Debug, PartialEq, Eq, Structural)]
pub enum ZauthError {
    /// The signature is not URL-safe base64.
    Base64,
    /// The token's expiry lies in the past.
    Expired,
    /// The attribute is present but its value cannot be read.
    Invalid(u8),
    /// The source could not be read.
    Io,
    /// The attribute is absent.
    Missing(u8),
    /// The text does not have the expected layout.
    Parse,
    /// The signature does not belong to the signed bytes under the signing key.
    SignatureMismatch,
    /// The keystore holds no key of this id.
    UnknownKey(u32),
    /// The text is not UTF-8.
    Utf8,
}

} // verus!
