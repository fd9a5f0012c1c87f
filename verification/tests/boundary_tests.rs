use base64::Engine;
use jwt_simple::prelude::{Claims, Duration, Ed25519KeyPair, EdDSAKeyPairLike};
use zauth::acl::AclError;
use zauth::boundary::{
    oauth_key_open, oauth_verify_token, oauth_verify_token_at, text_from_bytes, zauth_acl_open,
    zauth_keystore_open, zauth_token_allowed, zauth_token_fault, zauth_token_lookup,
    zauth_token_parse, zauth_token_type, zauth_token_verification, zauth_token_verify,
    zauth_token_version, OAuthJwk, OAuthResult, ZauthResult, ZauthTokenType,
    ZauthTokenVerification,
};
use zauth::clock::unix_time_secs;
use zauth::error::ZauthError;
use zauth::oauth::OauthError;
use zauth::token::{TokenType, TokenVerification};

fn key_pair(seed: u8) -> ed25519_compact::KeyPair {
    ed25519_compact::KeyPair::from_seed(ed25519_compact::Seed::new([seed; 32]))
}

fn b64(bytes: &[u8]) -> String {
    base64::prelude::BASE64_URL_SAFE_NO_PAD.encode(bytes)
}

fn sign(seed: u8, payload: &str) -> String {
    let signature = key_pair(seed).sk.sign(payload.as_bytes(), None);
    format!("{}.{}", payload, b64(&signature[..]))
}

fn keystore_text() -> String {
    format!("1 ed25519 {}\n", b64(&key_pair(1).pk[..]))
}

#[test]
fn result_codes_are_the_documented_numbers() {
    let codes = [
        (ZauthResult::Success, 0u8),
        (ZauthResult::Base64Error, 1),
        (ZauthResult::Expired, 2),
        (ZauthResult::InvalidAttr, 3),
        (ZauthResult::IoError, 4),
        (ZauthResult::MissingAttr, 5),
        (ZauthResult::NullArg, 6),
        (ZauthResult::ParseError, 7),
        (ZauthResult::SignatureMismatch, 8),
        (ZauthResult::UnknownKey, 9),
        (ZauthResult::Utf8Error, 10),
        (ZauthResult::AclError, 11),
        (ZauthResult::JsonError, 12),
        (ZauthResult::JwtError, 13),
        (ZauthResult::JwkError, 14),
        (ZauthResult::Panic, 99),
    ];
    for (result, code) in codes {
        assert_eq!(result.code(), code);
    }
}

#[test]
fn type_and_state_codes_are_the_documented_numbers() {
    assert_eq!(ZauthTokenType::User.code(), 0);
    assert_eq!(ZauthTokenType::Bot.code(), 1);
    assert_eq!(ZauthTokenType::Access.code(), 2);
    assert_eq!(ZauthTokenType::Unknown.code(), 3);
    assert_eq!(ZauthTokenType::Provider.code(), 4);
    assert_eq!(ZauthTokenType::LegalHoldUser.code(), 5);
    assert_eq!(ZauthTokenType::LegalHoldAccess.code(), 6);
    assert_eq!(ZauthTokenVerification::Verified.code(), 0);
    assert_eq!(ZauthTokenVerification::Invalid.code(), 1);
    assert_eq!(ZauthTokenVerification::Pending.code(), 2);
}

#[test]
fn library_values_map_to_host_values() {
    assert_eq!(ZauthTokenType::from(TokenType::User), ZauthTokenType::User);
    assert_eq!(ZauthTokenType::from(TokenType::Bot), ZauthTokenType::Bot);
    assert_eq!(ZauthTokenType::from(TokenType::Access), ZauthTokenType::Access);
    assert_eq!(ZauthTokenType::from(TokenType::Provider), ZauthTokenType::Provider);
    assert_eq!(ZauthTokenType::from(TokenType::LegalHoldUser), ZauthTokenType::LegalHoldUser);
    assert_eq!(ZauthTokenType::from(TokenType::LegalHoldAccess), ZauthTokenType::LegalHoldAccess);
    assert_eq!(ZauthTokenType::from(TokenType::Unknown), ZauthTokenType::Unknown);
    assert_eq!(
        ZauthTokenVerification::from(TokenVerification::Verified),
        ZauthTokenVerification::Verified
    );
    assert_eq!(
        ZauthTokenVerification::from(TokenVerification::Invalid),
        ZauthTokenVerification::Invalid
    );
    assert_eq!(
        ZauthTokenVerification::from(TokenVerification::Pending),
        ZauthTokenVerification::Pending
    );
}

#[test]
fn every_failure_has_its_code() {
    assert_eq!(ZauthResult::from(ZauthError::Base64), ZauthResult::Base64Error);
    assert_eq!(ZauthResult::from(ZauthError::Expired), ZauthResult::Expired);
    assert_eq!(ZauthResult::from(ZauthError::Invalid(b'd')), ZauthResult::InvalidAttr);
    assert_eq!(ZauthResult::from(ZauthError::Io), ZauthResult::IoError);
    assert_eq!(ZauthResult::from(ZauthError::Missing(b'k')), ZauthResult::MissingAttr);
    assert_eq!(ZauthResult::from(ZauthError::Parse), ZauthResult::ParseError);
    assert_eq!(ZauthResult::from(ZauthError::SignatureMismatch), ZauthResult::SignatureMismatch);
    assert_eq!(ZauthResult::from(ZauthError::UnknownKey(3)), ZauthResult::UnknownKey);
    assert_eq!(ZauthResult::from(ZauthError::Utf8), ZauthResult::Utf8Error);
    assert_eq!(ZauthResult::from(AclError::Parse), ZauthResult::AclError);
    assert_eq!(ZauthResult::from(OauthError::InvalidJwk), ZauthResult::JwkError);
    assert_eq!(ZauthResult::from(OauthError::InvalidJwtNoSubject), ZauthResult::JwtError);
    assert_eq!(ZauthResult::from(OauthError::InvalidScope), ZauthResult::JwtError);
    let json = serde_json::from_str::<serde_json::Value>("{").unwrap_err();
    assert_eq!(ZauthResult::from(OauthError::JsonError(json)), ZauthResult::JsonError);
    let b64e = base64::prelude::BASE64_URL_SAFE_NO_PAD.decode("?").unwrap_err();
    assert_eq!(ZauthResult::from(OauthError::Base64DecodeError(b64e)), ZauthResult::Base64Error);
    let jwt = Ed25519KeyPair::from_bytes(&[0u8; 3]).unwrap_err();
    assert_eq!(ZauthResult::from(OauthError::JwtSimpleError(jwt)), ZauthResult::JwtError);
}

#[test]
fn an_absent_argument_is_a_null_argument() {
    assert_eq!(text_from_bytes(None), Err(ZauthResult::NullArg));
    assert_eq!(text_from_bytes(Some(b"/etc/keys")), Ok("/etc/keys"));
    assert_eq!(text_from_bytes(Some(b"")), Ok(""));
    assert_eq!(text_from_bytes(Some(b"\xc3\xa9t\xc3\xa9")), Ok("\u{e9}t\u{e9}"));
    assert_eq!(text_from_bytes(Some(b"\xc3")), Err(ZauthResult::Utf8Error));
    assert_eq!(text_from_bytes(Some(b"a\xffb")), Err(ZauthResult::Utf8Error));
    assert!(matches!(zauth_token_parse(None), Err(ZauthResult::NullArg)));
}

#[test]
fn opening_a_keystore_reports_what_went_wrong() {
    let path: Option<&[u8]> = Some(b"/etc/zauth/keys");
    assert!(matches!(zauth_keystore_open(path, None), Err(ZauthResult::IoError)));
    assert!(matches!(zauth_keystore_open(path, Some(b"1 ed25519")), Err(ZauthResult::ParseError)));
    let store = zauth_keystore_open(path, Some(keystore_text().as_bytes())).unwrap();
    assert_eq!(store.0.lookup(1).unwrap().as_bytes(), &key_pair(1).pk[..]);
}

#[test]
fn opening_an_acl_reports_what_went_wrong() {
    let path: Option<&[u8]> = Some(b"acl.txt");
    assert!(matches!(zauth_acl_open(path, None), Err(ZauthResult::IoError)));
    assert!(matches!(zauth_acl_open(path, Some(b"u GET /\xff")), Err(ZauthResult::IoError)));
    assert!(matches!(zauth_acl_open(path, Some(b"u GET")), Err(ZauthResult::AclError)));
    let acl = zauth_acl_open(path, Some(b"u GET /a\n")).unwrap();
    assert_eq!(acl.0.len(), 1);
}

#[test]
fn opening_a_key_keeps_its_text() {
    let path: Option<&[u8]> = Some(b"key.json");
    assert!(matches!(oauth_key_open(path, None), Err(ZauthResult::IoError)));
    assert!(matches!(oauth_key_open(path, Some(b"\xff")), Err(ZauthResult::IoError)));
    assert_eq!(
        oauth_key_open(path, Some(b"{\"kty\":\"OKP\"}")).unwrap().0,
        "{\"kty\":\"OKP\"}"
    );
    assert_eq!(oauth_key_open(path, Some(b"not json")).unwrap().0, "not json");
}

#[test]
fn the_path_is_judged_before_the_contents() {
    let good = keystore_text();
    let contents: Option<&[u8]> = Some(good.as_bytes());
    assert!(matches!(zauth_keystore_open(None, contents), Err(ZauthResult::NullArg)));
    assert!(matches!(zauth_keystore_open(None, None), Err(ZauthResult::NullArg)));
    assert!(matches!(zauth_keystore_open(Some(b"\xff"), contents), Err(ZauthResult::Utf8Error)));
    assert!(matches!(zauth_keystore_open(Some(b"\xff"), None), Err(ZauthResult::Utf8Error)));
    assert!(matches!(zauth_acl_open(None, Some(b"u GET /a")), Err(ZauthResult::NullArg)));
    assert!(matches!(zauth_acl_open(Some(b"a\xc3"), Some(b"u GET")), Err(ZauthResult::Utf8Error)));
    assert!(matches!(oauth_key_open(None, Some(b"{}")), Err(ZauthResult::NullArg)));
    assert!(matches!(oauth_key_open(Some(b"\xff"), None), Err(ZauthResult::Utf8Error)));
    assert!(zauth_keystore_open(Some(b""), contents).is_ok());
}

#[test]
fn parsing_a_token_reports_what_went_wrong() {
    assert!(matches!(zauth_token_parse(Some(b"\xff")), Err(ZauthResult::Utf8Error)));
    assert!(matches!(zauth_token_parse(Some(b"v=1")), Err(ZauthResult::ParseError)));
    assert!(matches!(zauth_token_parse(Some(b"v=1.t=u.??")), Err(ZauthResult::Base64Error)));
    let token = zauth_token_parse(Some(sign(1, "v=1.k=1.d=5.t=la.u=abc").as_bytes())).unwrap();
    assert_eq!(zauth_token_type(&token), ZauthTokenType::LegalHoldAccess);
    assert_eq!(zauth_token_verification(&token), ZauthTokenVerification::Pending);
    assert_eq!(zauth_token_version(&token), 1);
    assert_eq!(zauth_token_lookup(&token, b'u'), Some(&b"abc"[..]));
    assert_eq!(zauth_token_lookup(&token, b'z'), None);
    assert_eq!(zauth_token_lookup(&token, 0), None);
}

#[test]
fn verifying_a_token_sets_its_state() {
    let store = zauth_keystore_open(Some(b"keys"), Some(keystore_text().as_bytes())).unwrap();
    let mut token =
        zauth_token_parse(Some(sign(1, "v=1.k=1.d=2000000000.t=u.u=abc").as_bytes())).unwrap();
    assert_eq!(zauth_token_verification(&token), ZauthTokenVerification::Pending);
    assert_eq!(zauth_token_verify(&mut token, &store, 1_700_000_000), ZauthResult::Success);
    assert_eq!(zauth_token_verification(&token), ZauthTokenVerification::Verified);
    assert_eq!(zauth_token_verify(&mut token, &store, 2_000_000_001), ZauthResult::Expired);
    assert_eq!(zauth_token_verification(&token), ZauthTokenVerification::Invalid);
    assert_eq!(zauth_token_verify(&mut token, &store, 1_700_000_000), ZauthResult::Success);
    assert_eq!(zauth_token_verification(&token), ZauthTokenVerification::Verified);
    assert_eq!(zauth_token_lookup(&token, b'u'), Some(&b"abc"[..]));
    assert_eq!(zauth_token_verify(&mut token, &store, unix_time_secs()), ZauthResult::Success);
    assert_eq!(zauth_token_verification(&token), ZauthTokenVerification::Verified);

    let mut forged =
        zauth_token_parse(Some(sign(2, "v=1.k=1.d=2000000000.t=u").as_bytes())).unwrap();
    assert_eq!(
        zauth_token_verify(&mut forged, &store, unix_time_secs()),
        ZauthResult::SignatureMismatch
    );
    assert_eq!(zauth_token_verification(&forged), ZauthTokenVerification::Invalid);

    let mut stale = zauth_token_parse(Some(sign(1, "v=1.k=1.d=1000.t=u").as_bytes())).unwrap();
    assert_eq!(zauth_token_verify(&mut stale, &store, unix_time_secs()), ZauthResult::Expired);
    assert_eq!(zauth_token_verification(&stale), ZauthTokenVerification::Invalid);

    let mut unknown =
        zauth_token_parse(Some(sign(1, "v=1.k=9.d=2000000000.t=u").as_bytes())).unwrap();
    assert_eq!(zauth_token_verify(&mut unknown, &store, unix_time_secs()), ZauthResult::UnknownKey);
    assert_eq!(zauth_token_verification(&unknown), ZauthTokenVerification::Invalid);

    let mut bare = zauth_token_parse(Some(sign(1, "v=1.t=u").as_bytes())).unwrap();
    assert_eq!(zauth_token_verify(&mut bare, &store, unix_time_secs()), ZauthResult::MissingAttr);
    let mut odd = zauth_token_parse(Some(sign(1, "v=1.t=u.k=x").as_bytes())).unwrap();
    assert_eq!(zauth_token_verify(&mut odd, &store, unix_time_secs()), ZauthResult::InvalidAttr);
}

#[test]
fn a_fault_leaves_the_token_invalid() {
    let store = zauth_keystore_open(Some(b"keys"), Some(keystore_text().as_bytes())).unwrap();
    let mut token =
        zauth_token_parse(Some(sign(1, "v=1.k=1.d=2000000000.t=u.u=abc").as_bytes())).unwrap();
    assert_eq!(zauth_token_verify(&mut token, &store, 1_700_000_000), ZauthResult::Success);
    assert_eq!(zauth_token_verification(&token), ZauthTokenVerification::Verified);
    assert_eq!(zauth_token_fault(&mut token), ZauthResult::Panic);
    assert_eq!(zauth_token_verification(&token), ZauthTokenVerification::Invalid);
    assert_eq!(zauth_token_lookup(&token, b'u'), Some(&b"abc"[..]));
    assert_eq!(zauth_token_type(&token), ZauthTokenType::User);
    assert_eq!(zauth_token_verify(&mut token, &store, 1_700_000_000), ZauthResult::Success);
    assert_eq!(zauth_token_verification(&token), ZauthTokenVerification::Verified);
}

#[test]
fn asking_for_access_reports_what_went_wrong() {
    let acl = zauth_acl_open(Some(b"acl"), Some(b"u GET /a/*\n")).unwrap();
    let token = zauth_token_parse(Some(sign(1, "v=1.t=u").as_bytes())).unwrap();
    assert_eq!(zauth_token_allowed(&token, &acl, Some(b"GET /a/b")), Ok(true));
    assert_eq!(zauth_token_allowed(&token, &acl, Some(b"GET /b")), Ok(false));
    assert_eq!(zauth_token_allowed(&token, &acl, Some(b"")), Ok(false));
    assert_eq!(
        zauth_token_allowed(&token, &acl, Some(b"GET /a/\xff")),
        Err(ZauthResult::Utf8Error)
    );
    assert_eq!(zauth_token_allowed(&token, &acl, None), Err(ZauthResult::NullArg));
}

fn issue(subject: &str, scope: &str) -> (OAuthJwk, String, u64) {
    let key = Ed25519KeyPair::generate();
    let mut custom = serde_json::Map::new();
    custom.insert("scope".to_string(), serde_json::Value::String(scope.to_string()));
    let claims =
        Claims::with_custom_claims(custom, Duration::from_secs(3600)).with_subject(subject);
    let issued = claims.issued_at.unwrap().as_millis();
    let jwt = key.sign(claims).unwrap();
    let x = b64(&key.public_key().to_bytes());
    let jwk = format!("{{\"kty\":\"OKP\",\"crv\":\"Ed25519\",\"x\":\"{}\"}}", x);
    (oauth_key_open(Some(b"key"), Some(jwk.as_bytes())).unwrap(), jwt, issued)
}

fn parts(res: OAuthResult) -> (Option<String>, ZauthResult) {
    (res.uid, res.status)
}

#[test]
fn verifying_an_oauth_token_gives_the_subject_or_a_code() {
    let (jwk, jwt, issued) = issue("alice", "read write");
    let token = Some(jwt.as_bytes());
    assert_eq!(
        parts(oauth_verify_token(&jwk, token, Some(b"write"), Some(b"GET"))),
        (Some("alice".to_string()), ZauthResult::Success)
    );
    assert_eq!(
        parts(oauth_verify_token_at(&jwk, token, Some(b"read"), Some(b""), issued)),
        (Some("alice".to_string()), ZauthResult::Success)
    );
    assert_eq!(
        parts(oauth_verify_token(&jwk, token, Some(b"admin"), Some(b"GET"))),
        (None, ZauthResult::JwtError)
    );
    assert_eq!(
        parts(oauth_verify_token_at(&jwk, token, Some(b"read"), Some(b"GET"), issued + 3_700_000)),
        (None, ZauthResult::JwtError)
    );
    assert_eq!(
        parts(oauth_verify_token(&jwk, None, Some(b"read"), Some(b"GET"))),
        (None, ZauthResult::NullArg)
    );
    assert_eq!(
        parts(oauth_verify_token(&jwk, token, None, Some(b"GET"))),
        (None, ZauthResult::NullArg)
    );
    assert_eq!(
        parts(oauth_verify_token(&jwk, token, Some(b"read"), None)),
        (None, ZauthResult::NullArg)
    );
    assert_eq!(
        parts(oauth_verify_token(&jwk, Some(b"\xff"), Some(b"read"), Some(b"GET"))),
        (None, ZauthResult::Utf8Error)
    );
    assert_eq!(
        parts(oauth_verify_token(&jwk, token, Some(b"\xff"), Some(b"GET"))),
        (None, ZauthResult::Utf8Error)
    );
    assert_eq!(
        parts(oauth_verify_token(&jwk, token, Some(b"read"), Some(b"\xff"))),
        (None, ZauthResult::Utf8Error)
    );
    assert_eq!(
        parts(oauth_verify_token(&jwk, None, Some(b"\xff"), Some(b"GET"))),
        (None, ZauthResult::NullArg)
    );
    let no_json = oauth_key_open(Some(b"key"), Some(b"{")).unwrap();
    assert_eq!(
        parts(oauth_verify_token(&no_json, token, Some(b"read"), Some(b"GET"))),
        (None, ZauthResult::JsonError)
    );
    let no_okp = oauth_key_open(Some(b"key"), Some(b"{\"kty\":\"EC\"}")).unwrap();
    assert_eq!(
        parts(oauth_verify_token(&no_okp, token, Some(b"read"), Some(b"GET"))),
        (None, ZauthResult::JwkError)
    );
    let no_b64 = oauth_key_open(
        Some(b"key"),
        Some(b"{\"kty\":\"OKP\",\"crv\":\"Ed25519\",\"x\":\"?\"}"),
    )
    .unwrap();
    assert_eq!(
        parts(oauth_verify_token(&no_b64, token, Some(b"read"), Some(b"GET"))),
        (None, ZauthResult::Base64Error)
    );
}
