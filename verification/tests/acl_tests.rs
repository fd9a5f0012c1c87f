use base64::Engine;
use zauth::acl::{Acl, AclError, TypeSet};
use zauth::token::{Token, TokenType};

const RULES: &str = "\
# who may do what
a GET /self
u,a GET /users/*
- DELETE /users/admin
u,a,b DELETE /users/*

p,lu,la POST /legal/*/hold
u GET /
";

fn acl() -> Acl {
    Acl::parse(RULES.as_bytes()).unwrap()
}

#[test]
fn reads_the_rules_in_order() {
    assert_eq!(acl().len(), 6);
    assert_eq!(Acl::parse(b"").unwrap().len(), 0);
    assert_eq!(Acl::parse(b"\n# nothing\n   \n").unwrap().len(), 0);
}

#[test]
fn grants_what_the_first_matching_rule_names() {
    let acl = acl();
    assert!(acl.evaluate(TokenType::Access, b"GET", b"/self"));
    assert!(!acl.evaluate(TokenType::User, b"GET", b"/self"));
    assert!(acl.evaluate(TokenType::User, b"GET", b"/users/17"));
    assert!(acl.evaluate(TokenType::Access, b"GET", b"/users/17"));
    assert!(!acl.evaluate(TokenType::Bot, b"GET", b"/users/17"));
    assert!(acl.evaluate(TokenType::Provider, b"POST", b"/legal/team1/hold"));
    assert!(acl.evaluate(TokenType::LegalHoldUser, b"POST", b"/legal/team1/hold"));
    assert!(acl.evaluate(TokenType::LegalHoldAccess, b"POST", b"/legal/team1/hold"));
    assert!(!acl.evaluate(TokenType::User, b"POST", b"/legal/team1/hold"));
    assert!(acl.evaluate(TokenType::User, b"GET", b"/"));
}

#[test]
fn an_earlier_rule_wins_over_a_later_one() {
    let acl = acl();
    assert!(!acl.evaluate(TokenType::User, b"DELETE", b"/users/admin"));
    assert!(!acl.evaluate(TokenType::Bot, b"DELETE", b"/users/admin"));
    assert!(acl.evaluate(TokenType::User, b"DELETE", b"/users/17"));
    let swapped = Acl::parse(b"u DELETE /users/*\n- DELETE /users/admin\n").unwrap();
    assert!(swapped.evaluate(TokenType::User, b"DELETE", b"/users/admin"));
}

#[test]
fn denies_where_no_rule_matches() {
    let acl = acl();
    for t in [
        TokenType::User,
        TokenType::Bot,
        TokenType::Access,
        TokenType::Provider,
        TokenType::LegalHoldUser,
        TokenType::LegalHoldAccess,
        TokenType::Unknown,
    ] {
        assert!(!acl.evaluate(t, b"PUT", b"/self"));
        assert!(!acl.evaluate(t, b"get", b"/self"));
        assert!(!acl.evaluate(t, b"GET", b"/self/"));
        assert!(!acl.evaluate(t, b"GET", b"self"));
        assert!(!acl.evaluate(t, b"GET", b"/users"));
        assert!(!acl.evaluate(t, b"GET", b"/users/17/keys"));
        assert!(!acl.evaluate(t, b"GET", b""));
        assert!(!acl.evaluate(t, b"", b"/self"));
        assert!(!Acl::parse(b"").unwrap().evaluate(t, b"GET", b"/self"));
    }
}

#[test]
fn the_unknown_type_is_granted_nothing() {
    let acl = acl();
    assert!(!acl.evaluate(TokenType::Unknown, b"GET", b"/self"));
    assert!(!acl.evaluate(TokenType::Unknown, b"GET", b"/users/17"));
    assert!(!acl.evaluate(TokenType::Unknown, b"GET", b"/"));
}

#[test]
fn a_wildcard_matches_one_segment_of_any_content() {
    let acl = Acl::parse(b"u GET /a/*/c\nb GET /*\n").unwrap();
    assert!(acl.evaluate(TokenType::User, b"GET", b"/a/b/c"));
    assert!(acl.evaluate(TokenType::User, b"GET", b"/a//c"));
    assert!(acl.evaluate(TokenType::User, b"GET", b"/a/*/c"));
    assert!(!acl.evaluate(TokenType::User, b"GET", b"/a/b/b/c"));
    assert!(!acl.evaluate(TokenType::User, b"GET", b"/a/c"));
    assert!(acl.evaluate(TokenType::Bot, b"GET", b"/x"));
    assert!(acl.evaluate(TokenType::Bot, b"GET", b"/"));
    assert!(!acl.evaluate(TokenType::Bot, b"GET", b"/x/y"));
}

#[test]
fn a_star_inside_a_segment_is_literal() {
    let acl = Acl::parse(b"u GET /a*\n").unwrap();
    assert!(acl.evaluate(TokenType::User, b"GET", b"/a*"));
    assert!(!acl.evaluate(TokenType::User, b"GET", b"/ab"));
}

#[test]
fn repeated_evaluation_gives_the_same_answer() {
    let acl = acl();
    for _ in 0..5 {
        assert!(acl.evaluate(TokenType::User, b"GET", b"/users/17"));
        assert!(!acl.evaluate(TokenType::Bot, b"GET", b"/users/17"));
    }
    let again = Acl::parse(RULES.as_bytes()).unwrap();
    assert_eq!(
        acl.evaluate(TokenType::User, b"DELETE", b"/users/admin"),
        again.evaluate(TokenType::User, b"DELETE", b"/users/admin")
    );
}

#[test]
fn one_malformed_line_rejects_the_whole_text() {
    for bad in [
        "u GET",
        "u GET /a extra",
        "x GET /a",
        "u, GET /a",
        ",u GET /a",
        "u,,a GET /a",
        "user GET /a",
        "-,u GET /a",
        "u GET a",
        "u GET *",
        "GET /a",
        "u\tGET\t/a",
    ] {
        let text = format!("a GET /self\n{}\nu GET /\n", bad);
        assert!(
            matches!(Acl::parse(text.as_bytes()), Err(AclError::Parse)),
            "line {:?}",
            bad
        );
    }
}

#[test]
fn a_set_of_types_never_holds_the_unknown_type() {
    let set = TypeSet::empty();
    assert!(!set.has(TokenType::User));
    let mut set = set;
    set.insert(TokenType::Bot);
    set.insert(TokenType::Unknown);
    assert!(set.has(TokenType::Bot));
    assert!(!set.has(TokenType::Unknown));
    assert!(!set.has(TokenType::User));
}

#[test]
fn a_token_has_the_access_of_its_type() {
    let signature = base64::prelude::BASE64_URL_SAFE_NO_PAD.encode([0u8; 64]);
    let user = Token::parse(format!("v=1.t=u.{}", signature).as_bytes()).unwrap();
    let bot = Token::parse(format!("v=1.t=b.{}", signature).as_bytes()).unwrap();
    let odd = Token::parse(format!("v=1.t=zz.{}", signature).as_bytes()).unwrap();
    let acl = acl();
    assert!(user.has_access(&acl, b"GET /users/17"));
    assert!(!bot.has_access(&acl, b"GET /users/17"));
    assert!(bot.has_access(&acl, b"DELETE /users/17"));
    assert!(!odd.has_access(&acl, b"GET /users/17"));
    assert!(!user.has_access(&acl, b"GET/users/17"));
    assert!(!user.has_access(&acl, b"GET  /users/17"));
    assert!(!user.has_access(&acl, b"GET /users/17 "));
    assert!(!user.has_access(&acl, b""));
    assert!(!user.has_access(&acl, b"/users/17"));
}
