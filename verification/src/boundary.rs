//! The operations of the library as a host process calls them: every input that
//! may be absent is an `Option`, every outcome is a result code, and nothing
//! here fails in any other way.
//!
//! An absent argument stands for a null pointer. Reading a file is left to the
//! caller, who hands over the path and what was read from the file, or `None`
//! where reading failed; the order in which path and contents are judged is
//! fixed here.

use vstd::prelude::*;
use vstd::string::StringSliceAdditionalSpecFns;

use crate::acl::{acl_of, Acl, AclError, RuleView};
use crate::bindings::{base64url_decoded, utf8_str};
use crate::clock::{time_within_range, unix_time_millis};
use crate::error::ZauthError;
use crate::keystore::{keystore_from, Keystore};
use crate::text::optional_slice;
use crate::oauth::{oauth_verdict, verify_oauth_token_at, OauthError, OauthErrorKind};
use crate::token::{
    access_of, expiry_of, signature_holds, signature_text, signer_of, state_after, token_of,
    verdict, Token, TokenType, TokenVerification, TokenView,
};

verus! {

/// The type of a token, as the host sees it.
#[derive(Clone, Copy, Debug, PartialEq, Eq, Structural)]
pub enum ZauthTokenType {
    User,
    Bot,
    Access,
    Provider,
    LegalHoldUser,
    LegalHoldAccess,
    Unknown,
}

impl ZauthTokenType {
    /// The number that stands for the type.
    pub open spec fn code_of(self) -> u8 {
        match self {
            ZauthTokenType::User => 0,
            ZauthTokenType::Bot => 1,
            ZauthTokenType::Access => 2,
            ZauthTokenType::Unknown => 3,
            ZauthTokenType::Provider => 4,
            ZauthTokenType::LegalHoldUser => 5,
            ZauthTokenType::LegalHoldAccess => 6,
        }
    }

    /// The number that stands for the type.
    pub fn code(&self) -> (code: u8)
        ensures
            code == self.code_of(),
    {
        match self {
            ZauthTokenType::User => 0,
            ZauthTokenType::Bot => 1,
            ZauthTokenType::Access => 2,
            ZauthTokenType::Unknown => 3,
            ZauthTokenType::Provider => 4,
            ZauthTokenType::LegalHoldUser => 5,
            ZauthTokenType::LegalHoldAccess => 6,
        }
    }
}

impl ZauthTokenType {
    /// The host's name for a token type.
    pub open spec fn of_type(t: TokenType) -> ZauthTokenType {
        match t {
            TokenType::User => ZauthTokenType::User,
            TokenType::Access => ZauthTokenType::Access,
            TokenType::Bot => ZauthTokenType::Bot,
            TokenType::Provider => ZauthTokenType::Provider,
            TokenType::LegalHoldUser => ZauthTokenType::LegalHoldUser,
            TokenType::LegalHoldAccess => ZauthTokenType::LegalHoldAccess,
            TokenType::Unknown => ZauthTokenType::Unknown,
        }
    }
}

impl From<TokenType> for ZauthTokenType {
    fn from(t: TokenType) -> (host: ZauthTokenType) {
        match t {
            TokenType::User => ZauthTokenType::User,
            TokenType::Access => ZauthTokenType::Access,
            TokenType::Bot => ZauthTokenType::Bot,
            TokenType::Provider => ZauthTokenType::Provider,
            TokenType::LegalHoldUser => ZauthTokenType::LegalHoldUser,
            TokenType::LegalHoldAccess => ZauthTokenType::LegalHoldAccess,
            TokenType::Unknown => ZauthTokenType::Unknown,
        }
    }
}

impl vstd::std_specs::convert::FromSpecImpl<TokenType> for ZauthTokenType {
    open spec fn obeys_from_spec() -> bool {
        true
    }

    open spec fn from_spec(t: TokenType) -> ZauthTokenType {
        ZauthTokenType::of_type(t)
    }
}

/// The verification state of a token, as the host sees it.
#[derive(Clone, Copy, Debug, PartialEq, Eq, Structural)]
pub enum ZauthTokenVerification {
    Verified,
    Invalid,
    Pending,
}

impl ZauthTokenVerification {
    /// The number that stands for the state.
    pub open spec fn code_of(self) -> u8 {
        match self {
            ZauthTokenVerification::Verified => 0,
            ZauthTokenVerification::Invalid => 1,
            ZauthTokenVerification::Pending => 2,
        }
    }

    /// The number that stands for the state.
    pub fn code(&self) -> (code: u8)
        ensures
            code == self.code_of(),
    {
        match self {
            ZauthTokenVerification::Verified => 0,
            ZauthTokenVerification::Invalid => 1,
            ZauthTokenVerification::Pending => 2,
        }
    }
}

impl ZauthTokenVerification {
    /// The host's name for a verification state.
    pub open spec fn of_state(t: TokenVerification) -> ZauthTokenVerification {
        match t {
            TokenVerification::Verified => ZauthTokenVerification::Verified,
            TokenVerification::Invalid => ZauthTokenVerification::Invalid,
            TokenVerification::Pending => ZauthTokenVerification::Pending,
        }
    }
}

impl From<TokenVerification> for ZauthTokenVerification {
    fn from(t: TokenVerification) -> (host: ZauthTokenVerification) {
        match t {
            TokenVerification::Verified => ZauthTokenVerification::Verified,
            TokenVerification::Invalid => ZauthTokenVerification::Invalid,
            TokenVerification::Pending => ZauthTokenVerification::Pending,
        }
    }
}

impl vstd::std_specs::convert::FromSpecImpl<TokenVerification> for ZauthTokenVerification {
    open spec fn obeys_from_spec() -> bool {
        true
    }

    open spec fn from_spec(t: TokenVerification) -> ZauthTokenVerification {
        ZauthTokenVerification::of_state(t)
    }
}

/// The outcome of an operation, as the host sees it.
#[derive(Clone, Copy, Debug, PartialEq, Eq, Structural)]
pub enum ZauthResult {
    Success,
    Base64Error,
    Expired,
    InvalidAttr,
    IoError,
    MissingAttr,
    NullArg,
    ParseError,
    SignatureMismatch,
    UnknownKey,
    Utf8Error,
    AclError,
    JsonError,
    JwtError,
    JwkError,
    /// A fault inside the library that is none of the failures above.
    Panic,
}

impl ZauthResult {
    /// The number that stands for the outcome.
    pub open spec fn code_of(self) -> u8 {
        match self {
            ZauthResult::Success => 0,
            ZauthResult::Base64Error => 1,
            ZauthResult::Expired => 2,
            ZauthResult::InvalidAttr => 3,
            ZauthResult::IoError => 4,
            ZauthResult::MissingAttr => 5,
            ZauthResult::NullArg => 6,
            ZauthResult::ParseError => 7,
            ZauthResult::SignatureMismatch => 8,
            ZauthResult::UnknownKey => 9,
            ZauthResult::Utf8Error => 10,
            ZauthResult::AclError => 11,
            ZauthResult::JsonError => 12,
            ZauthResult::JwtError => 13,
            ZauthResult::JwkError => 14,
            ZauthResult::Panic => 99,
        }
    }

    /// The number that stands for the outcome.
    pub fn code(&self) -> (code: u8)
        ensures
            code == self.code_of(),
    {
        match self {
            ZauthResult::Success => 0,
            ZauthResult::Base64Error => 1,
            ZauthResult::Expired => 2,
            ZauthResult::InvalidAttr => 3,
            ZauthResult::IoError => 4,
            ZauthResult::MissingAttr => 5,
            ZauthResult::NullArg => 6,
            ZauthResult::ParseError => 7,
            ZauthResult::SignatureMismatch => 8,
            ZauthResult::UnknownKey => 9,
            ZauthResult::Utf8Error => 10,
            ZauthResult::AclError => 11,
            ZauthResult::JsonError => 12,
            ZauthResult::JwtError => 13,
            ZauthResult::JwkError => 14,
            ZauthResult::Panic => 99,
        }
    }

    /// The code of a failure of parsing or verifying.
    pub open spec fn of_error(e: ZauthError) -> ZauthResult {
        match e {
            ZauthError::Base64 => ZauthResult::Base64Error,
            ZauthError::Expired => ZauthResult::Expired,
            ZauthError::Invalid(_) => ZauthResult::InvalidAttr,
            ZauthError::Io => ZauthResult::IoError,
            ZauthError::Missing(_) => ZauthResult::MissingAttr,
            ZauthError::Parse => ZauthResult::ParseError,
            ZauthError::SignatureMismatch => ZauthResult::SignatureMismatch,
            ZauthError::UnknownKey(_) => ZauthResult::UnknownKey,
            ZauthError::Utf8 => ZauthResult::Utf8Error,
        }
    }

    /// The code of the outcome of a verification.
    pub open spec fn of_outcome(outcome: Result<(), ZauthError>) -> ZauthResult {
        match outcome {
            Ok(_) => ZauthResult::Success,
            Err(e) => ZauthResult::of_error(e),
        }
    }

    /// The code of a kind of OAuth failure.
    pub open spec fn of_kind(kind: OauthErrorKind) -> ZauthResult {
        match kind {
            OauthErrorKind::Json => ZauthResult::JsonError,
            OauthErrorKind::NoSubject | OauthErrorKind::InvalidScope | OauthErrorKind::Jwt =>
                ZauthResult::JwtError,
            OauthErrorKind::Base64 => ZauthResult::Base64Error,
            OauthErrorKind::InvalidJwk => ZauthResult::JwkError,
        }
    }
}

impl From<ZauthError> for ZauthResult {
    fn from(e: ZauthError) -> (code: ZauthResult) {
        match e {
            ZauthError::Base64 => ZauthResult::Base64Error,
            ZauthError::Expired => ZauthResult::Expired,
            ZauthError::Invalid(_) => ZauthResult::InvalidAttr,
            ZauthError::Io => ZauthResult::IoError,
            ZauthError::Missing(_) => ZauthResult::MissingAttr,
            ZauthError::Parse => ZauthResult::ParseError,
            ZauthError::SignatureMismatch => ZauthResult::SignatureMismatch,
            ZauthError::UnknownKey(_) => ZauthResult::UnknownKey,
            ZauthError::Utf8 => ZauthResult::Utf8Error,
        }
    }
}

impl vstd::std_specs::convert::FromSpecImpl<ZauthError> for ZauthResult {
    open spec fn obeys_from_spec() -> bool {
        true
    }

    open spec fn from_spec(e: ZauthError) -> ZauthResult {
        ZauthResult::of_error(e)
    }
}

impl From<OauthError> for ZauthResult {
    fn from(e: OauthError) -> (code: ZauthResult) {
        match e {
            OauthError::JsonError(_) => ZauthResult::JsonError,
            OauthError::InvalidJwtNoSubject
            | OauthError::InvalidScope
            | OauthError::JwtSimpleError(_) => ZauthResult::JwtError,
            OauthError::Base64DecodeError(_) => ZauthResult::Base64Error,
            OauthError::InvalidJwk => ZauthResult::JwkError,
        }
    }
}

impl vstd::std_specs::convert::FromSpecImpl<OauthError> for ZauthResult {
    open spec fn obeys_from_spec() -> bool {
        true
    }

    open spec fn from_spec(e: OauthError) -> ZauthResult {
        ZauthResult::of_kind(e.kind_of())
    }
}

impl From<AclError> for ZauthResult {
    fn from(e: AclError) -> (code: ZauthResult) {
        ZauthResult::AclError
    }
}

impl vstd::std_specs::convert::FromSpecImpl<AclError> for ZauthResult {
    open spec fn obeys_from_spec() -> bool {
        true
    }

    open spec fn from_spec(e: AclError) -> ZauthResult {
        ZauthResult::AclError
    }
}

/// Only success has the code 0, and the code of a fault is that of no failure
/// that an operation reports.
pub proof fn lemma_codes_apart(a: ZauthResult, b: ZauthResult)
    ensures
        a.code_of() == b.code_of() <==> a == b,
        a.code_of() == 0 <==> a == ZauthResult::Success,
        a.code_of() == 99 <==> a == ZauthResult::Panic,
{
}

/// No failure of the library is reported as success or as a fault.
pub proof fn lemma_failures_are_failures(e: ZauthError, kind: OauthErrorKind)
    ensures
        ZauthResult::of_error(e) != ZauthResult::Success,
        ZauthResult::of_error(e) != ZauthResult::Panic,
        ZauthResult::of_kind(kind) != ZauthResult::Success,
        ZauthResult::of_kind(kind) != ZauthResult::Panic,
{
}

/// An access control list in the host's hands.
#[derive(Debug)]
pub struct ZauthAcl(pub Acl);

/// A keystore in the host's hands.
#[derive(Debug)]
pub struct ZauthKeystore(pub Keystore);

/// A token in the host's hands.
#[derive(Debug)]
pub struct ZauthToken(pub Token);

/// The text of a JSON web key in the host's hands.
#[derive(Debug)]
pub struct OAuthJwk(pub String);

/// The outcome of verifying an OAuth token: the subject where the status is
/// `Success`, and only there.
#[derive(Debug)]
pub struct OAuthResult {
    pub uid: Option<String>,
    pub status: ZauthResult,
}

/// The text that an argument holds: the argument must be present and UTF-8.
pub open spec fn text_of(bytes: Option<Seq<u8>>) -> Result<Seq<char>, ZauthResult> {
    match bytes {
        None => Err(ZauthResult::NullArg),
        Some(b) => if vstd::utf8::valid_utf8(b) {
            Ok(vstd::utf8::decode_utf8(b))
        } else {
            Err(ZauthResult::Utf8Error)
        },
    }
}

/// Reads an argument as text, such as the path of a file to open.
pub fn text_from_bytes<'a>(bytes: Option<&'a [u8]>) -> (res: Result<&'a str, ZauthResult>)
    ensures
        match res {
            Ok(text) => text_of(optional_slice(bytes)) == Ok::<Seq<char>, ZauthResult>(text@),
            Err(code) => text_of(optional_slice(bytes)) == Err::<Seq<char>, ZauthResult>(code),
        },
{
    broadcast use vstd::utf8::encode_utf8_decode_utf8;

    match bytes {
        None => Err(ZauthResult::NullArg),
        Some(b) => match utf8_str(b) {
            Some(text) => {
                assert(vstd::utf8::decode_utf8(text.spec_bytes()) == text@);
                Ok(text)
            },
            None => Err(ZauthResult::Utf8Error),
        },
    }
}

/// What opening a file yields: the path that names the file must be present and
/// UTF-8, which is settled before the contents are looked at; then `loaded` is
/// the outcome of reading the contents.
pub open spec fn opened<T>(path: Option<Seq<u8>>, loaded: Result<T, ZauthResult>) -> Result<
    T,
    ZauthResult,
> {
    match text_of(path) {
        Err(code) => Err(code),
        Ok(_) => loaded,
    }
}

/// The keys that the contents of a keystore file hold; contents that could not
/// be read are an I/O failure.
pub open spec fn keystore_open_of(contents: Option<Seq<u8>>) -> Result<
    Map<u32, Seq<u8>>,
    ZauthResult,
> {
    match keystore_from(contents) {
        Ok(keys) => Ok(keys),
        Err(e) => Err(ZauthResult::of_error(e)),
    }
}

/// Opens the keystore in the file that `path` names, from the contents of that
/// file, `None` where the file could not be read. A path that is absent or no
/// UTF-8 is refused whatever the contents.
pub fn zauth_keystore_open(path: Option<&[u8]>, contents: Option<&[u8]>) -> (res: Result<
    ZauthKeystore,
    ZauthResult,
>)
    ensures
        match res {
            Ok(store) => opened(optional_slice(path), keystore_open_of(optional_slice(contents)))
                == Ok::<Map<u32, Seq<u8>>, ZauthResult>(store.0@),
            Err(code) => opened(optional_slice(path), keystore_open_of(optional_slice(contents)))
                == Err::<Map<u32, Seq<u8>>, ZauthResult>(code),
        },
{
    match text_from_bytes(path) {
        Ok(_) => {},
        Err(code) => {
            return Err(code);
        },
    }
    match Keystore::open(contents) {
        Ok(store) => Ok(ZauthKeystore(store)),
        Err(e) => Err(ZauthResult::from(e)),
    }
}

/// The rules that the contents of an ACL file hold; contents that could not be
/// read, or that are not UTF-8, are an I/O failure.
pub open spec fn acl_open_of(contents: Option<Seq<u8>>) -> Result<Seq<RuleView>, ZauthResult> {
    match contents {
        None => Err(ZauthResult::IoError),
        Some(bytes) => if !vstd::utf8::valid_utf8(bytes) {
            Err(ZauthResult::IoError)
        } else {
            match acl_of(bytes) {
                Ok(rules) => Ok(rules),
                Err(_) => Err(ZauthResult::AclError),
            }
        },
    }
}

/// Opens the access control list in the file that `path` names, from the
/// contents of that file, `None` where the file could not be read. A path that
/// is absent or no UTF-8 is refused whatever the contents.
pub fn zauth_acl_open(path: Option<&[u8]>, contents: Option<&[u8]>) -> (res: Result<
    ZauthAcl,
    ZauthResult,
>)
    ensures
        match res {
            Ok(acl) => opened(optional_slice(path), acl_open_of(optional_slice(contents))) == Ok::<
                Seq<RuleView>,
                ZauthResult,
            >(acl.0@),
            Err(code) => opened(optional_slice(path), acl_open_of(optional_slice(contents)))
                == Err::<Seq<RuleView>, ZauthResult>(code),
        },
{
    match text_from_bytes(path) {
        Ok(_) => {},
        Err(code) => {
            return Err(code);
        },
    }
    match contents {
        None => Err(ZauthResult::IoError),
        Some(bytes) => {
            if utf8_str(bytes).is_none() {
                return Err(ZauthResult::IoError);
            }
            match Acl::parse(bytes) {
                Ok(acl) => Ok(ZauthAcl(acl)),
                Err(e) => Err(ZauthResult::from(e)),
            }
        },
    }
}

/// The key text that the contents of a key file hold; contents that could not
/// be read, or that are not UTF-8, are an I/O failure. The text is kept as it
/// is: it is read as a key when a token is verified with it.
pub open spec fn key_open_of(contents: Option<Seq<u8>>) -> Result<Seq<char>, ZauthResult> {
    match contents {
        None => Err(ZauthResult::IoError),
        Some(bytes) => if vstd::utf8::valid_utf8(bytes) {
            Ok(vstd::utf8::decode_utf8(bytes))
        } else {
            Err(ZauthResult::IoError)
        },
    }
}

/// Opens the JSON web key in the file that `path` names, from the contents of
/// that file, `None` where the file could not be read. A path that is absent
/// or no UTF-8 is refused whatever the contents.
pub fn oauth_key_open(path: Option<&[u8]>, contents: Option<&[u8]>) -> (res: Result<
    OAuthJwk,
    ZauthResult,
>)
    ensures
        match res {
            Ok(key) => opened(optional_slice(path), key_open_of(optional_slice(contents))) == Ok::<
                Seq<char>,
                ZauthResult,
            >(key.0@),
            Err(code) => opened(optional_slice(path), key_open_of(optional_slice(contents)))
                == Err::<Seq<char>, ZauthResult>(code),
        },
{
    match text_from_bytes(path) {
        Ok(_) => {},
        Err(code) => {
            return Err(code);
        },
    }
    match text_from_bytes(contents) {
        Ok(text) => Ok(OAuthJwk(String::from_str(text))),
        Err(_) => Err(ZauthResult::IoError),
    }
}

/// The token that an argument spells out, or the code of why it spells none.
pub open spec fn token_parse_of(text: Option<Seq<u8>>) -> Result<TokenView, ZauthResult> {
    match text {
        None => Err(ZauthResult::NullArg),
        Some(bytes) => match token_of(bytes, base64url_decoded(signature_text(bytes))) {
            Ok(token) => Ok(token),
            Err(e) => Err(ZauthResult::of_error(e)),
        },
    }
}

/// Parses a token.
pub fn zauth_token_parse(cs: Option<&[u8]>) -> (res: Result<ZauthToken, ZauthResult>)
    ensures
        match res {
            Ok(token) => token_parse_of(optional_slice(cs)) == Ok::<TokenView, ZauthResult>(
                token.0@,
            ),
            Err(code) => token_parse_of(optional_slice(cs)) == Err::<TokenView, ZauthResult>(code),
        },
{
    match cs {
        None => Err(ZauthResult::NullArg),
        Some(bytes) => match Token::parse(bytes) {
            Ok(token) => Ok(ZauthToken(token)),
            Err(e) => Err(ZauthResult::from(e)),
        },
    }
}

/// Verifies a token against a keystore at the time `now`, in seconds since the
/// epoch (`clock::unix_time_secs` reads it from the machine), and records the
/// outcome in the token: `Verified` after success, `Invalid` after any failure.
/// A token may be verified again; the state then follows the last outcome.
///
/// A token whose signature holds under its signing key in the keystore verifies
/// if its expiry has not passed, and is expired if it has; a token whose signing
/// key the keystore does not hold is refused for that, whatever else holds.
pub fn zauth_token_verify(t: &mut ZauthToken, s: &ZauthKeystore, now: u64) -> (code: ZauthResult)
    ensures
        code == ZauthResult::of_outcome(
            verdict(old(t).0@, s.0@, signature_holds(old(t).0@, s.0@), now),
        ),
        final(t).0@ == (TokenView {
            verification: state_after(
                verdict(old(t).0@, s.0@, signature_holds(old(t).0@, s.0@), now),
            ),
            ..old(t).0@
        }),
        code == ZauthResult::Success <==> final(t).0@.verification == TokenVerification::Verified,
        code != ZauthResult::Success <==> final(t).0@.verification == TokenVerification::Invalid,
        signature_holds(old(t).0@, s.0@) && expiry_of(old(t).0@) is Ok && expiry_of(
            old(t).0@,
        )->Ok_0 >= now ==> code == ZauthResult::Success,
        signature_holds(old(t).0@, s.0@) && expiry_of(old(t).0@) is Ok && expiry_of(
            old(t).0@,
        )->Ok_0 < now ==> code == ZauthResult::Expired,
        signer_of(old(t).0@) is Ok && !s.0@.contains_key(signer_of(old(t).0@)->Ok_0) ==> code
            == ZauthResult::UnknownKey,
        signer_of(old(t).0@) is Ok && s.0@.contains_key(signer_of(old(t).0@)->Ok_0)
            && !signature_holds(old(t).0@, s.0@) ==> code == ZauthResult::SignatureMismatch,
{
    let outcome = t.0.verify_at(&s.0, now);
    t.0.record(&outcome);
    match outcome {
        Ok(_) => ZauthResult::Success,
        Err(e) => ZauthResult::from(e),
    }
}

/// Records in a token that its verification ended in a fault: the token is
/// `Invalid` from then on, as after any failure, and the code is that of a
/// fault. Nothing else of the token changes.
pub fn zauth_token_fault(t: &mut ZauthToken) -> (code: ZauthResult)
    ensures
        code == ZauthResult::Panic,
        final(t).0@ == (TokenView { verification: TokenVerification::Invalid, ..old(t).0@ }),
{
    t.0.mark(TokenVerification::Invalid);
    ZauthResult::Panic
}

/// Whether the rules grant the token's type the operation, or the code of why
/// the question cannot be put.
pub open spec fn allowed_of(
    token: TokenView,
    rules: Seq<RuleView>,
    operation: Option<Seq<u8>>,
) -> Result<bool, ZauthResult> {
    match operation {
        None => Err(ZauthResult::NullArg),
        Some(bytes) => if vstd::utf8::valid_utf8(bytes) {
            Ok(access_of(rules, token.token_type, bytes))
        } else {
            Err(ZauthResult::Utf8Error)
        },
    }
}

/// Tells whether the access control list grants the token's type the operation
/// `<method> <path>`.
pub fn zauth_token_allowed(t: &ZauthToken, acl: &ZauthAcl, operation: Option<&[u8]>) -> (res:
    Result<bool, ZauthResult>)
    ensures
        res == allowed_of(t.0@, acl.0@, optional_slice(operation)),
{
    match operation {
        None => Err(ZauthResult::NullArg),
        Some(bytes) => {
            if utf8_str(bytes).is_none() {
                return Err(ZauthResult::Utf8Error);
            }
            Ok(t.0.has_access(&acl.0, bytes))
        },
    }
}

/// The token's type.
pub fn zauth_token_type(t: &ZauthToken) -> (token_type: ZauthTokenType)
    ensures
        token_type == ZauthTokenType::of_type(t.0@.token_type),
{
    ZauthTokenType::from(t.0.token_type())
}

/// The token's verification state.
pub fn zauth_token_verification(t: &ZauthToken) -> (state: ZauthTokenVerification)
    ensures
        state == ZauthTokenVerification::of_state(t.0@.verification),
{
    ZauthTokenVerification::from(t.0.verification())
}

/// The token's layout version.
pub fn zauth_token_version(t: &ZauthToken) -> (version: u8)
    ensures
        version == t.0@.version,
{
    t.0.version()
}

/// The value of the token's attribute `c`, as a slice of the token's text that
/// is UTF-8, or `None` where the token has no such attribute.
pub fn zauth_token_lookup(t: &ZauthToken, c: u8) -> (value: Option<&[u8]>)
    ensures
        match value {
            Some(v) => {
                &&& t.0@.attributes.contains_key(c)
                &&& t.0@.attributes[c] == v@
                &&& vstd::utf8::valid_utf8(v@)
            },
            None => !t.0@.attributes.contains_key(c),
        },
{
    t.0.lookup_bytes(c)
}

/// The outcome of verifying an OAuth token that the host hands over: the
/// subject with the status of success, or no subject with the code of the
/// failure. All three arguments must be present and UTF-8; the method is not
/// looked at beyond that.
pub open spec fn oauth_result_of(
    jwk: Seq<char>,
    token: Option<Seq<u8>>,
    scope: Option<Seq<u8>>,
    method: Option<Seq<u8>>,
    now_millis: u64,
) -> (Option<Seq<char>>, ZauthResult) {
    match (text_of(token), text_of(scope), text_of(method)) {
        (Ok(token_text), Ok(scope_text), Ok(_)) => match oauth_verdict(
            jwk,
            token_text,
            scope_text,
            now_millis,
        ) {
            Ok(subject) => (Some(subject), ZauthResult::Success),
            Err(kind) => (None, ZauthResult::of_kind(kind)),
        },
        (Err(code), _, _) => (None, code),
        (_, Err(code), _) => (None, code),
        (_, _, Err(code)) => (None, code),
    }
}

/// A subject is handed out with the status of success, and only with it.
pub proof fn lemma_subject_only_on_success(
    jwk: Seq<char>,
    token: Option<Seq<u8>>,
    scope: Option<Seq<u8>>,
    method: Option<Seq<u8>>,
    now_millis: u64,
)
    ensures
        oauth_result_of(jwk, token, scope, method, now_millis).0 is Some <==> oauth_result_of(
            jwk,
            token,
            scope,
            method,
            now_millis,
        ).1 == ZauthResult::Success,
{
}

impl OAuthResult {
    /// The subject and the status.
    pub open spec fn view(self) -> (Option<Seq<char>>, ZauthResult) {
        (
            match self.uid {
                Some(uid) => Some(uid@),
                None => None,
            },
            self.status,
        )
    }

    /// The outcome that a verification's result stands for.
    pub fn from_verified(verified: Result<String, OauthError>) -> (res: OAuthResult)
        ensures
            res.view() == match verified {
                Ok(subject) => (Some(subject@), ZauthResult::Success),
                Err(e) => (None::<Seq<char>>, ZauthResult::of_kind(e.kind_of())),
            },
    {
        match verified {
            Ok(subject) => OAuthResult { uid: Some(subject), status: ZauthResult::Success },
            Err(e) => OAuthResult { uid: None, status: ZauthResult::from(e) },
        }
    }
}

/// Verifies an OAuth token for a scope at the time `now_millis`, in
/// milliseconds since the epoch. A time beyond `LATEST_TIME_MILLIS` counts as
/// that time.
pub fn oauth_verify_token_at(
    jwk: &OAuthJwk,
    token: Option<&[u8]>,
    scope: Option<&[u8]>,
    method: Option<&[u8]>,
    now_millis: u64,
) -> (res: OAuthResult)
    ensures
        res.view() == oauth_result_of(
            jwk.0@,
            optional_slice(token),
            optional_slice(scope),
            optional_slice(method),
            time_within_range(now_millis),
        ),
{
    let token_text = match text_from_bytes(token) {
        Ok(text) => text,
        Err(code) => {
            return OAuthResult { uid: None, status: code };
        },
    };
    let scope_text = match text_from_bytes(scope) {
        Ok(text) => text,
        Err(code) => {
            return OAuthResult { uid: None, status: code };
        },
    };
    match text_from_bytes(method) {
        Ok(_) => {},
        Err(code) => {
            return OAuthResult { uid: None, status: code };
        },
    }
    OAuthResult::from_verified(
        verify_oauth_token_at(jwk.0.as_str(), token_text, scope_text, now_millis),
    )
}

/// Verifies an OAuth token for a scope at the current time. Whatever the clock
/// says, this is `oauth_verify_token_at` at some time.
pub fn oauth_verify_token(
    jwk: &OAuthJwk,
    token: Option<&[u8]>,
    scope: Option<&[u8]>,
    method: Option<&[u8]>,
) -> (res: OAuthResult)
    ensures
        exists|now_millis: u64|
            res.view() == oauth_result_of(
                jwk.0@,
                optional_slice(token),
                optional_slice(scope),
                optional_slice(method),
                #[trigger] time_within_range(now_millis),
            ),
{
    let res = oauth_verify_token_at(jwk, token, scope, method, unix_time_millis());
    res
}

} // verus!
