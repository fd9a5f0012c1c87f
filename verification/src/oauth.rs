//! Verification of OAuth bearer tokens: a JWT signed with Ed25519, checked against
//! a JSON web key, an expiry with a bounded clock tolerance, and a required scope.

use vstd::prelude::*;
use vstd::string::StringSliceAdditionalSpecFns;

use crate::bindings::{
    base64url_decode, base64url_decoded, ed25519_key_check, json_member, json_string_member,
    jwt_verified_claims, jwt_verify,
};
use crate::clock::{time_within_range, unix_time_millis, LATEST_TIME_MILLIS};
use crate::keystore::KEY_LEN;
use crate::text::bytes_eq;

verus! {

/// The claims of an OAuth token beyond the registered ones.
#[derive(Debug)]
pub struct OAuthToken {
    /// The scopes that the token grants, set apart by white space.
    pub scope: String,
}

/// The claims of a verified JWT that this library reads: the subject where the
/// token names one, and the claims beyond the registered ones.
#[derive(Debug)]
pub struct JwtClaims {
    pub subject: Option<String>,
    pub custom: OAuthToken,
}

impl View for JwtClaims {
    type V = (Option<Seq<char>>, Seq<char>);

    open spec fn view(&self) -> Self::V {
        (
            match self.subject {
                Some(s) => Some(s@),
                None => None,
            },
            self.custom.scope@,
        )
    }
}

/// Whether `c` is white space, as Unicode defines it.
pub open spec fn is_space(c: char) -> bool {
    let n = c as u32;
    ||| 0x09 <= n <= 0x0d
    ||| n == 0x20
    ||| n == 0x85
    ||| n == 0xa0
    ||| n == 0x1680
    ||| 0x2000 <= n <= 0x200a
    ||| n == 0x2028
    ||| n == 0x2029
    ||| n == 0x202f
    ||| n == 0x205f
    ||| n == 0x3000
}

/// Tells whether `c` is white space.
pub fn is_whitespace(c: char) -> (yes: bool)
    ensures
        yes == is_space(c),
{
    let n: u32 = c as u32;
    (0x09 <= n && n <= 0x0d) || n == 0x20 || n == 0x85 || n == 0xa0 || n == 0x1680 || (0x2000 <= n
        && n <= 0x200a) || n == 0x2028 || n == 0x2029 || n == 0x202f || n == 0x205f || n == 0x3000
}

/// Compares two strings.
pub fn str_eq(a: &str, b: &str) -> (same: bool)
    ensures
        same == (a@ == b@),
{
    broadcast use vstd::utf8::encode_utf8_decode_utf8;

    let same = bytes_eq(a.as_bytes(), b.as_bytes());
    proof {
        if same {
            assert(vstd::utf8::decode_utf8(a.spec_bytes()) == vstd::utf8::decode_utf8(
                b.spec_bytes(),
            ));
        }
    }
    same
}

/// The characters of a string.
pub fn chars_of(s: &str) -> (chars: Vec<char>)
    ensures
        chars@ == s@,
{
    let mut chars: Vec<char> = Vec::new();
    for c in it: s.chars()
        invariant
            chars@ == it.seq().take(it.index() as int),
            it.seq() == s@,
    {
        chars.push(c);
    }
    chars
}

/// The seconds of clock difference that are tolerated when a token's times are
/// checked.
pub const TIME_TOLERANCE_SECS: u64 = 1;


/// Why an OAuth token was refused.
#[derive(Debug)]
pub enum OauthError {
    /// The key is not JSON.
    JsonError(serde_json::Error),
    /// The key's bytes are no Ed25519 key, or the token is not a JWT, is not
    /// signed by the key, or is used outside its time.
    JwtSimpleError(jwt_simple::Error),
    /// The key's `x` is not URL-safe base64 without padding.
    Base64DecodeError(base64::DecodeError),
    /// The key is not an Ed25519 octet key pair.
    InvalidJwk,
    /// The token names no subject.
    InvalidJwtNoSubject,
    /// The token does not grant the required scope.
    InvalidScope,
}

/// The kinds of `OauthError`, without what they carry.
#[derive(Clone, Copy, Debug, PartialEq, Eq, Structural)]
pub enum OauthErrorKind {
    Json,
    Jwt,
    Base64,
    InvalidJwk,
    NoSubject,
    InvalidScope,
}

impl OauthError {
    /// The kind of the error.
    pub open spec fn kind_of(self) -> OauthErrorKind {
        match self {
            OauthError::JsonError(_) => OauthErrorKind::Json,
            OauthError::JwtSimpleError(_) => OauthErrorKind::Jwt,
            OauthError::Base64DecodeError(_) => OauthErrorKind::Base64,
            OauthError::InvalidJwk => OauthErrorKind::InvalidJwk,
            OauthError::InvalidJwtNoSubject => OauthErrorKind::NoSubject,
            OauthError::InvalidScope => OauthErrorKind::InvalidScope,
        }
    }

    /// The kind of the error.
    pub fn kind(&self) -> (kind: OauthErrorKind)
        ensures
            kind == self.kind_of(),
    {
        match self {
            OauthError::JsonError(_) => OauthErrorKind::Json,
            OauthError::JwtSimpleError(_) => OauthErrorKind::Jwt,
            OauthError::Base64DecodeError(_) => OauthErrorKind::Base64,
            OauthError::InvalidJwk => OauthErrorKind::InvalidJwk,
            OauthError::InvalidJwtNoSubject => OauthErrorKind::NoSubject,
            OauthError::InvalidScope => OauthErrorKind::InvalidScope,
        }
    }
}

/// A result with a string in it, as specifications speak of it: the string's
/// characters, or the kind of the error.
pub open spec fn string_outcome(res: Result<String, OauthError>) -> Result<
    Seq<char>,
    OauthErrorKind,
> {
    match res {
        Ok(s) => Ok(s@),
        Err(e) => Err(e.kind_of()),
    }
}

/// A result with bytes in it, as specifications speak of it.
pub open spec fn bytes_outcome(res: Result<Vec<u8>, OauthError>) -> Result<
    Seq<u8>,
    OauthErrorKind,
> {
    match res {
        Ok(bytes) => Ok(bytes@),
        Err(e) => Err(e.kind_of()),
    }
}

/// The characters that an optional string holds.
pub open spec fn optional_chars(text: Option<String>) -> Option<Seq<char>> {
    match text {
        Some(s) => Some(s@),
        None => None,
    }
}

/// Whether `required` stands in `scope` at `i` as a whole word: bounded on each
/// side by white space or by an end of `scope`.
pub open spec fn is_scope_at(scope: Seq<char>, i: int, required: Seq<char>) -> bool {
    &&& 0 <= i
    &&& i + required.len() <= scope.len()
    &&& scope.subrange(i, i + required.len()) == required
    &&& (i == 0 || is_space(scope[i - 1]))
    &&& (i + required.len() == scope.len() || is_space(scope[i + required.len()]))
}

/// Whether `required` is a scope: not empty, and free of white space.
pub open spec fn is_scope_name(required: Seq<char>) -> bool {
    &&& required.len() > 0
    &&& forall|k: int| 0 <= k < required.len() ==> !is_space(#[trigger] required[k])
}

/// Whether `required` is one of the scopes that `scope` lists, set apart by
/// white space.
pub open spec fn names_scope(scope: Seq<char>, required: Seq<char>) -> bool {
    is_scope_name(required) && exists|i: int| is_scope_at(scope, i, required)
}

/// Tells whether `required` is one of the scopes that `scope` lists.
pub fn has_scope(scope: &str, required: &str) -> (yes: bool)
    ensures
        yes == names_scope(scope@, required@),
{
    let s = chars_of(scope);
    let r = chars_of(required);
    let n: usize = s.len();
    let m: usize = r.len();
    if m == 0 {
        return false;
    }
    let mut k: usize = 0;
    while k < m
        invariant
            k <= m,
            m == r.len(),
            r@ == required@,
            forall|j: int| 0 <= j < k ==> !is_space(#[trigger] r@[j]),
        decreases m - k,
    {
        if is_whitespace(r[k]) {
            return false;
        }
        k += 1;
    }
    if m > n {
        return false;
    }
    let mut i: usize = 0;
    while i <= n - m
        invariant
            i <= n - m + 1,
            m <= n,
            n == s.len(),
            m == r.len(),
            s@ == scope@,
            r@ == required@,
            is_scope_name(r@),
            forall|j: int| 0 <= j < i ==> !is_scope_at(s@, j, r@),
        decreases n - m + 1 - i,
    {
        let left = i == 0 || is_whitespace(s[i - 1]);
        let right = i + m == n || is_whitespace(s[i + m]);
        if left && right {
            let mut j: usize = 0;
            while j < m && s[i + j] == r[j]
                invariant
                    j <= m,
                    i + m <= n,
                    n == s.len(),
                    m == r.len(),
                    forall|q: int| 0 <= q < j ==> s@[i + q] == r@[q],
                decreases m - j,
            {
                j += 1;
            }
            if j == m {
                assert(s@.subrange(i as int, i + m) =~= r@);
                assert(is_scope_at(s@, i as int, r@));
                return true;
            }
            assert(s@.subrange(i as int, i + m)[j as int] != r@[j as int]);
        }
        i += 1;
    }
    false
}

/// Checks that the scopes of a token include the required one.
pub fn verify_scope(scope: &str, required_scope: &str) -> (res: Result<(), OauthError>)
    ensures
        match res {
            Ok(_) => names_scope(scope@, required_scope@),
            Err(e) => !names_scope(scope@, required_scope@) && e is InvalidScope,
        },
{
    if !has_scope(scope, required_scope) {
        return Err(OauthError::InvalidScope);
    }
    Ok(())
}

/// A JSON web key, as far as this library reads it: the string members `kty`,
/// `crv` and `x`, each where the key holds it.
#[derive(Debug)]
pub struct Jwk {
    pub key_type: Option<String>,
    pub curve: Option<String>,
    pub x: Option<String>,
}

/// What a JSON web key is, apart from how it is stored.
pub struct JwkView {
    pub key_type: Option<Seq<char>>,
    pub curve: Option<Seq<char>>,
    pub x: Option<Seq<char>>,
}

impl View for Jwk {
    type V = JwkView;

    open spec fn view(&self) -> JwkView {
        JwkView {
            key_type: optional_chars(self.key_type),
            curve: optional_chars(self.curve),
            x: optional_chars(self.x),
        }
    }
}

/// The key that a JSON text holds, where it is JSON. Any JSON text gives a key
/// record, with those of the three members that it holds as strings at its top
/// level: a text that is JSON but no key record (`{}`, `[]`, `17`) is a record
/// without members, and is refused as an invalid key, not as bad JSON.
pub open spec fn jwk_of(text: Seq<char>) -> Option<JwkView> {
    match (
        json_string_member(text, "kty"@),
        json_string_member(text, "crv"@),
        json_string_member(text, "x"@),
    ) {
        (Some(key_type), Some(curve), Some(x)) => Some(JwkView { key_type, curve, x }),
        _ => None,
    }
}

/// The text of the public key in a JSON web key, where the key is an octet key
/// pair on the curve Ed25519 and holds one. A record of another key type or
/// curve, or one that lacks a member, holds none: it is an invalid key.
pub open spec fn public_key_text(jwk: JwkView) -> Option<Seq<char>> {
    if jwk.key_type == Some("OKP"@) && jwk.curve == Some("Ed25519"@) {
        jwk.x
    } else {
        None
    }
}

/// The raw public key of a JSON web key, given what the key's text decodes to
/// (`None` where it is no base64). Bytes that are not of the length of an
/// Ed25519 public key are no key, and are refused as the JWT library refuses
/// them.
pub open spec fn public_key_given(jwk: JwkView, decoded: Option<Seq<u8>>) -> Result<
    Seq<u8>,
    OauthErrorKind,
> {
    if public_key_text(jwk) is None {
        Err(OauthErrorKind::InvalidJwk)
    } else {
        match decoded {
            None => Err(OauthErrorKind::Base64),
            Some(key) => if key.len() == KEY_LEN {
                Ok(key)
            } else {
                Err(OauthErrorKind::Jwt)
            },
        }
    }
}

/// The raw public key of a JSON web key.
pub open spec fn public_key_of(jwk: JwkView) -> Result<Seq<u8>, OauthErrorKind> {
    public_key_given(
        jwk,
        match public_key_text(jwk) {
            Some(text) => base64url_decoded(vstd::utf8::encode_utf8(text)),
            None => None,
        },
    )
}

/// The subject that verified claims yield for a required scope: the claims must
/// name a subject, and list the scope.
pub open spec fn subject_of(
    claims: (Option<Seq<char>>, Seq<char>),
    required: Seq<char>,
) -> Result<Seq<char>, OauthErrorKind> {
    match claims.0 {
        None => Err(OauthErrorKind::NoSubject),
        Some(subject) => if subject.len() == 0 {
            Err(OauthErrorKind::NoSubject)
        } else if names_scope(claims.1, required) {
            Ok(subject)
        } else {
            Err(OauthErrorKind::InvalidScope)
        },
    }
}

/// The subject that a token yields, given the claims that its verification
/// handed out (`None` where the token was refused).
pub open spec fn subject_given(
    verified: Option<(Option<Seq<char>>, Seq<char>)>,
    required: Seq<char>,
) -> Result<Seq<char>, OauthErrorKind> {
    match verified {
        None => Err(OauthErrorKind::Jwt),
        Some(claims) => subject_of(claims, required),
    }
}

/// The claims that a token yields under the raw public key `raw` at the time
/// `now_millis`, or `None` where the key or the token is refused. Bytes that are
/// not of the length of an Ed25519 public key are no key, and are refused
/// whatever the token.
pub open spec fn claims_under(raw: Seq<u8>, token: Seq<char>, now_millis: u64) -> Option<
    (Option<Seq<char>>, Seq<char>),
> {
    if raw.len() != KEY_LEN {
        None
    } else {
        jwt_verified_claims(raw, token, "scope"@, now_millis, TIME_TOLERANCE_SECS)
    }
}

/// The outcome of verifying `token` against the key text `jwk` for the scope
/// `scope` at the time `now_millis`: the token's subject, or why it is refused.
pub open spec fn oauth_verdict(
    jwk: Seq<char>,
    token: Seq<char>,
    scope: Seq<char>,
    now_millis: u64,
) -> Result<Seq<char>, OauthErrorKind> {
    match jwk_of(jwk) {
        None => Err(OauthErrorKind::Json),
        Some(key) => match public_key_of(key) {
            Err(e) => Err(e),
            Ok(raw) => subject_given(claims_under(raw, token, now_millis), scope),
        },
    }
}

impl Jwk {
    /// Reads a JSON web key.
    pub fn parse(text: &str) -> (res: Result<Jwk, OauthError>)
        ensures
            match res {
                Ok(jwk) => jwk_of(text@) == Some(jwk@),
                Err(e) => jwk_of(text@) is None && e is JsonError,
            },
    {
        let key_type = match json_member(text, "kty") {
            Ok(member) => member,
            Err(e) => {
                return Err(OauthError::JsonError(e));
            },
        };
        let curve = match json_member(text, "crv") {
            Ok(member) => member,
            Err(e) => {
                return Err(OauthError::JsonError(e));
            },
        };
        let x = match json_member(text, "x") {
            Ok(member) => member,
            Err(e) => {
                return Err(OauthError::JsonError(e));
            },
        };
        Ok(Jwk { key_type, curve, x })
    }

    /// The text of the public key, where the key is an octet key pair on the
    /// curve Ed25519 and holds one.
    pub fn key_text(&self) -> (text: Option<&str>)
        ensures
            match text {
                Some(t) => public_key_text(self@) == Some(t@),
                None => public_key_text(self@) is None,
            },
    {
        let is_okp = match &self.key_type {
            Some(key_type) => str_eq(key_type.as_str(), "OKP"),
            None => false,
        };
        let is_ed25519 = match &self.curve {
            Some(curve) => str_eq(curve.as_str(), "Ed25519"),
            None => false,
        };
        if !is_okp || !is_ed25519 {
            return None;
        }
        match &self.x {
            Some(x) => Some(x.as_str()),
            None => None,
        }
    }

    /// The raw public key, given what the key's text decoded to.
    pub fn key_from_decoded(&self, decoded: Result<Vec<u8>, base64::DecodeError>) -> (res: Result<
        Vec<u8>,
        OauthError,
    >)
        ensures
            bytes_outcome(res) == public_key_given(
                self@,
                match decoded {
                    Ok(bytes) => Some(bytes@),
                    Err(_) => None,
                },
            ),
    {
        if self.key_text().is_none() {
            return Err(OauthError::InvalidJwk);
        }
        let bytes = match decoded {
            Ok(bytes) => bytes,
            Err(e) => {
                return Err(OauthError::Base64DecodeError(e));
            },
        };
        match ed25519_key_check(bytes.as_slice()) {
            Ok(_) => Ok(bytes),
            Err(e) => Err(OauthError::JwtSimpleError(e)),
        }
    }
}

/// The raw Ed25519 public key of a JSON web key: the 32 bytes that the key's
/// `x` decodes to. A key of another kind is an invalid key, an `x` that is no
/// base64 a base64 failure, and bytes of another length a failure of the JWT
/// library.
pub fn try_from_jwk(jwk: &Jwk) -> (res: Result<Vec<u8>, OauthError>)
    ensures
        bytes_outcome(res) == public_key_of(jwk@),
        res is Ok ==> res->Ok_0@.len() == KEY_LEN,
{
    match jwk.key_text() {
        None => Err(OauthError::InvalidJwk),
        Some(text) => jwk.key_from_decoded(base64url_decode(text.as_bytes())),
    }
}

/// The subject of verified claims, for a required scope.
pub fn subject_with_scope(claims: JwtClaims, required_scope: &str) -> (res: Result<
    String,
    OauthError,
>)
    ensures
        string_outcome(res) == subject_of(claims@, required_scope@),
{
    let subject = match claims.subject {
        Some(subject) => subject,
        None => {
            return Err(OauthError::InvalidJwtNoSubject);
        },
    };
    if subject.as_str().is_empty() {
        return Err(OauthError::InvalidJwtNoSubject);
    }
    match verify_scope(claims.custom.scope.as_str(), required_scope) {
        Ok(_) => Ok(subject),
        Err(e) => Err(e),
    }
}

/// The subject that a token yields, given what its verification handed out.
pub fn subject_from_verified(
    verified: Result<JwtClaims, jwt_simple::Error>,
    required_scope: &str,
) -> (res: Result<String, OauthError>)
    ensures
        string_outcome(res) == subject_given(
            match verified {
                Ok(claims) => Some(claims@),
                Err(_) => None,
            },
            required_scope@,
        ),
{
    match verified {
        Ok(claims) => subject_with_scope(claims, required_scope),
        Err(e) => Err(OauthError::JwtSimpleError(e)),
    }
}

/// Verifies `token` under a raw public key of full length.
fn verify_with_checked_key(raw: &[u8], token: &str, scope: &str, now_millis: u64) -> (res: Result<
    String,
    OauthError,
>)
    requires
        raw@.len() == KEY_LEN,
    ensures
        string_outcome(res) == subject_given(
            claims_under(raw@, token@, time_within_range(now_millis)),
            scope@,
        ),
{
    let now: u64 = if now_millis > LATEST_TIME_MILLIS {
        LATEST_TIME_MILLIS
    } else {
        now_millis
    };
    let verified = jwt_verify(raw, token, "scope", now, TIME_TOLERANCE_SECS);
    subject_from_verified(verified, scope)
}

/// Verifies `token` under the raw public key `raw` at a given time, and returns
/// the token's subject if the token grants `scope`. Bytes that are no key are
/// refused as the token would be. A time beyond `LATEST_TIME_MILLIS` counts as
/// that time.
pub fn verify_with_key(raw: &[u8], token: &str, scope: &str, now_millis: u64) -> (res: Result<
    String,
    OauthError,
>)
    ensures
        string_outcome(res) == subject_given(
            claims_under(raw@, token@, time_within_range(now_millis)),
            scope@,
        ),
        raw@.len() != KEY_LEN ==> res is Err && res->Err_0 is JwtSimpleError,
{
    match ed25519_key_check(raw) {
        Ok(_) => verify_with_checked_key(raw, token, scope, now_millis),
        Err(e) => Err(OauthError::JwtSimpleError(e)),
    }
}

/// Verifies an OAuth token at a given time, in milliseconds since the epoch:
/// reads the key, checks the token's signature and times with it, and returns
/// the token's subject if the token grants `scope`. A time beyond
/// `LATEST_TIME_MILLIS` counts as that time.
pub fn verify_oauth_token_at(jwk: &str, token: &str, scope: &str, now_millis: u64) -> (res: Result<
    String,
    OauthError,
>)
    ensures
        string_outcome(res) == oauth_verdict(jwk@, token@, scope@, time_within_range(now_millis)),
{
    let key = match Jwk::parse(jwk) {
        Ok(key) => key,
        Err(e) => {
            return Err(e);
        },
    };
    let raw = match try_from_jwk(&key) {
        Ok(raw) => raw,
        Err(e) => {
            return Err(e);
        },
    };
    verify_with_checked_key(raw.as_slice(), token, scope, now_millis)
}

/// Verifies an OAuth token at the current time. Whatever the clock says, the
/// outcome is that of `verify_oauth_token_at` at some time.
pub fn verify_oauth_token(jwk: &str, token: &str, scope: &str) -> (res: Result<String, OauthError>)
    ensures
        exists|now_millis: u64|
            string_outcome(res) == oauth_verdict(
                jwk@,
                token@,
                scope@,
                #[trigger] time_within_range(now_millis),
            ),
{
    verify_oauth_token_at(jwk, token, scope, unix_time_millis())
}

} // verus!
