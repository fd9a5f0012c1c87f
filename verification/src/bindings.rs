//! The calls this library makes into other crates. Each function here states what
//! the called code is documented to do; these statements are taken on trust, and
//! everything else in the library is proved from them.

use base64::Engine;
use jwt_simple::prelude::EdDSAPublicKeyLike;
use vstd::prelude::*;
use vstd::string::StringSliceAdditionalSpecFns;

use crate::oauth::{JwtClaims, OAuthToken};

verus! {

/// `base64::DecodeError`: why a text is no base64. It is carried along unread.
#[verifier::external_type_specification]
#[verifier::external_body]
pub struct ExBase64DecodeError(base64::DecodeError);

/// `serde_json::Error`: why a text is no JSON. It is carried along unread.
#[verifier::external_type_specification]
#[verifier::external_body]
pub struct ExJsonError(serde_json::Error);

/// `jwt_simple::Error`: why a key or a token was refused. It is carried along
/// unread.
#[verifier::external_type_specification]
#[verifier::external_body]
pub struct ExJwtError(jwt_simple::Error);

/// `std::time::SystemTimeError`: that the clock reads a time before the epoch.
#[verifier::external_type_specification]
#[verifier::external_body]
pub struct ExSystemTimeError(std::time::SystemTimeError);

/// What `base64`'s URL-safe engine without padding decodes `text` to, or `None`
/// where it rejects `text`.
pub uninterp spec fn base64url_decoded(text: Seq<u8>) -> Option<Seq<u8>>;

/// Whether `ed25519_compact` accepts the 64 bytes `signature` as an Ed25519
/// signature of `message` under the public key `key` of 32 bytes.
pub uninterp spec fn ed25519_verifies(key: Seq<u8>, message: Seq<u8>, signature: Seq<u8>) -> bool;

/// What `serde_json` finds under `name` in the JSON text `text`: `None` where
/// `text` is not JSON, `Some(None)` where it is but holds no string member of
/// that name at its top level, else the member's string.
pub uninterp spec fn json_string_member(text: Seq<char>, name: Seq<char>) -> Option<
    Option<Seq<char>>,
>;

/// The claims that `jwt_simple` hands out for the EdDSA-signed `token` under the
/// raw public key `key` of 32 bytes, at the time `now_millis` (milliseconds since
/// the epoch) and with `tolerance_secs` seconds of clock tolerance: the subject,
/// and the string that `serde_json` reads from the claim called `claim`. `None`
/// where the token is rejected, or that claim is no string.
pub uninterp spec fn jwt_verified_claims(
    key: Seq<u8>,
    token: Seq<char>,
    claim: Seq<char>,
    now_millis: u64,
    tolerance_secs: u64,
) -> Option<(Option<Seq<char>>, Seq<char>)>;

/// `core::str::from_utf8`: it succeeds exactly on well-formed UTF-8, and the
/// string that it hands out consists of the given bytes.
#[verifier::external_body]
pub(crate) fn utf8_str(bytes: &[u8]) -> (text: Option<&str>)
    ensures
        match text {
            Some(s) => vstd::utf8::valid_utf8(bytes@) && s.spec_bytes() == bytes@,
            None => !vstd::utf8::valid_utf8(bytes@),
        },
{
    match core::str::from_utf8(bytes) {
        Ok(s) => Some(s),
        Err(_) => None,
    }
}

/// `base64::Engine::decode` of `BASE64_URL_SAFE_NO_PAD`. The result is a function
/// of `text` alone, named `base64url_decoded`.
#[verifier::external_body]
pub(crate) fn base64url_decode(text: &[u8]) -> (res: Result<Vec<u8>, base64::DecodeError>)
    ensures
        match res {
            Ok(bytes) => base64url_decoded(text@) == Some(bytes@),
            Err(_) => base64url_decoded(text@) is None,
        },
{
    base64::prelude::BASE64_URL_SAFE_NO_PAD.decode(text)
}

/// `ed25519_compact::PublicKey::verify`. The key and the signature are handed
/// over as the types that it takes, made with `from_slice`, which takes every
/// key of 32 bytes and every signature of 64. The result is a function of the
/// three byte strings alone, named `ed25519_verifies`.
#[verifier::external_body]
pub(crate) fn ed25519_verify(key: &[u8], message: &[u8], signature: &[u8]) -> (ok: bool)
    requires
        key@.len() == 32,
        signature@.len() == 64,
    ensures
        ok == ed25519_verifies(key@, message@, signature@),
{
    match (
        ed25519_compact::PublicKey::from_slice(key),
        ed25519_compact::Signature::from_slice(signature),
    ) {
        (Ok(public_key), Ok(sig)) => public_key.verify(message, &sig).is_ok(),
        _ => false,
    }
}

/// `serde_json::from_str` into a `serde_json::Value`; `Value::get` then hands
/// the member out of the value as a plain string. The result is a function of
/// the two strings alone, named `json_string_member`.
#[verifier::external_body]
pub(crate) fn json_member(text: &str, name: &str) -> (res: Result<
    Option<String>,
    serde_json::Error,
>)
    ensures
        match res {
            Ok(Some(s)) => json_string_member(text@, name@) == Some(Some(s@)),
            Ok(None) => json_string_member(text@, name@) == Some(None::<Seq<char>>),
            Err(_) => json_string_member(text@, name@) is None,
        },
{
    let value: serde_json::Value = serde_json::from_str(text)?;
    match value.get(name) {
        Some(serde_json::Value::String(s)) => Ok(Some(s.clone())),
        _ => Ok(None),
    }
}

/// `jwt_simple`'s `Ed25519PublicKey::from_bytes`: it takes bytes for a key
/// exactly where they are 32 bytes long, and refuses all others.
#[verifier::external_body]
pub(crate) fn ed25519_key_check(raw: &[u8]) -> (res: Result<(), jwt_simple::Error>)
    ensures
        res is Ok <==> raw@.len() == 32,
{
    match jwt_simple::prelude::Ed25519PublicKey::from_bytes(raw) {
        Ok(_) => Ok(()),
        Err(e) => Err(e),
    }
}

/// `jwt_simple`'s `verify_token` of an `Ed25519PublicKey`, with the current time
/// set through `artificial_time` and the tolerance through `time_tolerance`, all
/// other options at their defaults. The key is handed over as the type that it
/// takes, made with `from_bytes`, which takes every key of 32 bytes. What comes
/// back is handed on as plain values: `serde_json::from_value` reads the claim
/// called `claim` as a string, so that a token without such a claim fails as one
/// that does not decode. With the time given, the result is a function of the
/// arguments alone, named `jwt_verified_claims`. The bound on the time keeps the
/// sum of time and tolerance within the clock's 32 bits of seconds.
#[verifier::external_body]
pub(crate) fn jwt_verify(
    key: &[u8],
    token: &str,
    claim: &str,
    now_millis: u64,
    tolerance_secs: u64,
) -> (res: Result<JwtClaims, jwt_simple::Error>)
    requires
        key@.len() == 32,
        now_millis / 1000 + tolerance_secs < 0xffff_ffff,
    ensures
        match res {
            Ok(claims) => jwt_verified_claims(key@, token@, claim@, now_millis, tolerance_secs)
                == Some(claims@),
            Err(_) => jwt_verified_claims(key@, token@, claim@, now_millis, tolerance_secs)
                is None,
        },
{
    let public_key = jwt_simple::prelude::Ed25519PublicKey::from_bytes(key)?;
    let mut options = jwt_simple::prelude::VerificationOptions::default();
    options.time_tolerance = Some(jwt_simple::prelude::Duration::from_secs(tolerance_secs));
    options.artificial_time = Some(jwt_simple::prelude::UnixTimeStamp::from_millis(now_millis));
    let mut claims = public_key.verify_token::<serde_json::Map<String, serde_json::Value>>(
        token,
        Some(options),
    )?;
    let member = serde_json::Value::from(claims.custom.remove(claim));
    let scope: String = serde_json::from_value(member)?;
    Ok(JwtClaims { subject: claims.subject, custom: OAuthToken { scope } })
}

/// `std::time::SystemTime::elapsed` on `UNIX_EPOCH`: the time that has passed
/// since the epoch by the system clock, or an error where the clock reads a time
/// before the epoch. Nothing is promised of what the clock says.
#[verifier::external_body]
pub(crate) fn time_since_epoch() -> (elapsed: Result<
    core::time::Duration,
    std::time::SystemTimeError,
>) {
    std::time::UNIX_EPOCH.elapsed()
}

/// `core::time::Duration::as_millis`: the whole milliseconds of a duration.
#[verifier::external_body]
pub(crate) fn duration_millis(duration: &core::time::Duration) -> (millis: u128) {
    duration.as_millis()
}

} // verus!
