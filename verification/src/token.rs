//! Access tokens: their text layout, parsing, attribute lookup and verification.
//!
//! A token is a list of fields separated by `.`. Every field but the last is an
//! attribute `<key>=<value>`, whose key is a single ASCII letter and occurs once.
//! The first attribute is the layout version, `v=1`; the type `t` is required;
//! the signing key's id `k` and the expiry `d` are read when the token is
//! verified. The last field is the Ed25519 signature, in URL-safe base64 without
//! padding, of all the bytes before the `.` that precedes it.

use vstd::prelude::*;
use vstd::slice::{slice_subrange, slice_to_vec};
use vstd::string::StringSliceAdditionalSpecFns;

use crate::acl::{decision, Acl, RuleView};
use crate::bindings::{
    base64url_decode, base64url_decoded, ed25519_verifies, ed25519_verify, utf8_str,
};
use crate::clock::unix_time_secs;
use crate::error::ZauthError;
use crate::keystore::Keystore;
use crate::text::{
    decimal_u64, lemma_split_last, lemma_split_nonempty, optional_bytes, parse_decimal, split,
    split_spans, Span, SPACE,
};

verus! {

/// The byte that separates the fields of a token.
pub const DOT: u8 = 0x2e;

/// The byte between an attribute's key and its value.
pub const EQUALS: u8 = 0x3d;

/// Key of the layout version, `v`.
pub const KEY_VERSION: u8 = 0x76;

/// Key of the token type, `t`.
pub const KEY_TYPE: u8 = 0x74;

/// Key of the signing key's id, `k`.
pub const KEY_SIGNER: u8 = 0x6b;

/// Key of the expiry, `d`, in seconds since the epoch.
pub const KEY_EXPIRY: u8 = 0x64;

/// The one layout version that this library reads.
pub const LAYOUT_VERSION: u8 = 1;

/// Length of an Ed25519 signature.
pub const SIGNATURE_LEN: usize = 64;

/// Who a token was issued to.
#[derive(Clone, Copy, Debug, PartialEq, Eq, Structural)]
pub enum TokenType {
    User,
    Bot,
    Access,
    Unknown,
    Provider,
    LegalHoldUser,
    LegalHoldAccess,
}

/// Whether a token has been verified, and how that went.
#[derive(Clone, Copy, Debug, PartialEq, Eq, Structural)]
pub enum TokenVerification {
    Verified,
    Invalid,
    Pending,
}

/// The token type that a type code stands for: `u`, `b`, `a`, `p`, `lu`, `la`.
/// Any other code is an unknown type.
pub open spec fn token_type_of(code: Seq<u8>) -> TokenType {
    if code == seq![0x75u8] {
        TokenType::User
    } else if code == seq![0x62u8] {
        TokenType::Bot
    } else if code == seq![0x61u8] {
        TokenType::Access
    } else if code == seq![0x70u8] {
        TokenType::Provider
    } else if code == seq![0x6cu8, 0x75u8] {
        TokenType::LegalHoldUser
    } else if code == seq![0x6cu8, 0x61u8] {
        TokenType::LegalHoldAccess
    } else {
        TokenType::Unknown
    }
}

/// Reads a type code.
pub fn token_type_from(code: &[u8]) -> (token_type: TokenType)
    ensures
        token_type == token_type_of(code@),
{
    if code.len() == 1 {
        let c: u8 = code[0];
        assert(code@ =~= seq![c]);
        if c == 0x75 {
            TokenType::User
        } else if c == 0x62 {
            TokenType::Bot
        } else if c == 0x61 {
            TokenType::Access
        } else if c == 0x70 {
            TokenType::Provider
        } else {
            assert(seq![c][0] == c);
            TokenType::Unknown
        }
    } else if code.len() == 2 {
        let c: u8 = code[0];
        let d: u8 = code[1];
        assert(code@ =~= seq![c, d]);
        if c == 0x6c && d == 0x75 {
            TokenType::LegalHoldUser
        } else if c == 0x6c && d == 0x61 {
            TokenType::LegalHoldAccess
        } else {
            assert(seq![c, d][0] == c && seq![c, d][1] == d);
            TokenType::Unknown
        }
    } else {
        TokenType::Unknown
    }
}

/// Whether `b` can be an attribute's key: an ASCII letter.
pub open spec fn is_key(b: u8) -> bool {
    (0x41 <= b <= 0x5a) || (0x61 <= b <= 0x7a)
}

/// Whether `field` has the form `<key>=<value>`.
pub open spec fn is_attribute(field: Seq<u8>) -> bool {
    field.len() >= 2 && is_key(field[0]) && field[1] == EQUALS
}

/// Whether no two of the attribute fields share a key.
pub open spec fn distinct_keys(fields: Seq<Seq<u8>>) -> bool {
    forall|i: int, j: int|
        0 <= i < j < fields.len() ==> (#[trigger] fields[i])[0] != (#[trigger] fields[j])[0]
}

/// The attributes that the fields spell out, by key.
pub open spec fn attribute_map(fields: Seq<Seq<u8>>) -> Map<u8, Seq<u8>>
    decreases fields.len(),
{
    if fields.len() == 0 {
        Map::empty()
    } else {
        attribute_map(fields.drop_last()).insert(fields.last()[0], fields.last().skip(2))
    }
}

/// Whether the fields before the signature are laid out as a token's must be:
/// attributes with distinct keys, the supported layout version first, the type
/// among them.
pub open spec fn well_formed_fields(fields: Seq<Seq<u8>>) -> bool {
    &&& fields.len() >= 2
    &&& forall|i: int| 0 <= i < fields.len() ==> is_attribute(#[trigger] fields[i])
    &&& distinct_keys(fields)
    &&& fields[0][0] == KEY_VERSION
    &&& decimal_u64(fields[0].skip(2)) == Some(LAYOUT_VERSION as u64)
    &&& exists|i: int| 0 <= i < fields.len() && (#[trigger] fields[i])[0] == KEY_TYPE
}

/// What a token is, apart from how it is stored.
pub struct TokenView {
    /// The attributes, by key.
    pub attributes: Map<u8, Seq<u8>>,
    /// The bytes that the signature covers.
    pub signed: Seq<u8>,
    /// The raw signature.
    pub signature: Seq<u8>,
    pub version: u8,
    pub token_type: TokenType,
    pub verification: TokenVerification,
}

/// The signature field of a token text: what follows its last `.`.
pub open spec fn signature_text(text: Seq<u8>) -> Seq<u8> {
    split(text, DOT).last()
}

/// The token that `text` spells out, given what its signature field decodes to
/// (`None` where that field is not base64), or the reason why it spells none.
pub open spec fn token_of(text: Seq<u8>, decoded: Option<Seq<u8>>) -> Result<
    TokenView,
    ZauthError,
> {
    let fields = split(text, DOT);
    let body = fields.drop_last();
    if !vstd::utf8::valid_utf8(text) {
        Err(ZauthError::Utf8)
    } else if !well_formed_fields(body) {
        Err(ZauthError::Parse)
    } else {
        match decoded {
            None => Err(ZauthError::Base64),
            Some(signature) => if signature.len() != SIGNATURE_LEN {
                Err(ZauthError::Parse)
            } else {
                Ok(
                    TokenView {
                        attributes: attribute_map(body),
                        signed: text.take(text.len() - signature_text(text).len() - 1),
                        signature,
                        version: LAYOUT_VERSION,
                        token_type: token_type_of(attribute_map(body)[KEY_TYPE]),
                        verification: TokenVerification::Pending,
                    },
                )
            },
        }
    }
}

/// A token that parses is yet to be verified, has the supported layout and a
/// signature of full length, and its text is the signed bytes, a `.` and the
/// signature field: the signature covers all that precedes it.
pub proof fn lemma_parsed_token(text: Seq<u8>, decoded: Option<Seq<u8>>)
    requires
        token_of(text, decoded) is Ok,
    ensures
        token_of(text, decoded)->Ok_0.verification == TokenVerification::Pending,
        token_of(text, decoded)->Ok_0.version == LAYOUT_VERSION,
        token_of(text, decoded)->Ok_0.signature.len() == SIGNATURE_LEN,
        decoded == Some(token_of(text, decoded)->Ok_0.signature),
        text == token_of(text, decoded)->Ok_0.signed + seq![DOT] + signature_text(text),
        well_formed_fields(split(token_of(text, decoded)->Ok_0.signed, DOT)),
{
    let signed = token_of(text, decoded)->Ok_0.signed;
    lemma_split_nonempty(text, DOT);
    lemma_split_last(text, DOT);
    assert(text =~= signed + seq![DOT] + signature_text(text));
}

/// The number that the attribute `key` holds, where it holds a decimal numeral
/// of at most 64 bits; else whether it is missing or unreadable.
pub open spec fn number_of(t: TokenView, key: u8) -> Result<u64, ZauthError> {
    if !t.attributes.contains_key(key) {
        Err(ZauthError::Missing(key))
    } else {
        match decimal_u64(t.attributes[key]) {
            Some(n) => Ok(n),
            None => Err(ZauthError::Invalid(key)),
        }
    }
}

/// The id of the key that signed the token: the attribute `k`, a number of at
/// most 32 bits.
pub open spec fn signer_of(t: TokenView) -> Result<u32, ZauthError> {
    match number_of(t, KEY_SIGNER) {
        Ok(n) => if n <= u32::MAX {
            Ok(n as u32)
        } else {
            Err(ZauthError::Invalid(KEY_SIGNER))
        },
        Err(e) => Err(e),
    }
}

/// The time after which the token is no longer valid: the attribute `d`, in
/// seconds since the epoch.
pub open spec fn expiry_of(t: TokenView) -> Result<u64, ZauthError> {
    number_of(t, KEY_EXPIRY)
}

/// The outcome of verifying a token against the keys `keys` at the time `now`
/// (seconds since the epoch), given whether its signature holds under its signing
/// key. The signing key is looked up first; then the signature counts; the expiry
/// is looked at last, so that a bad signature is reported also where the token
/// has expired.
pub open spec fn verdict(
    t: TokenView,
    keys: Map<u32, Seq<u8>>,
    signature_ok: bool,
    now: u64,
) -> Result<(), ZauthError> {
    match signer_of(t) {
        Err(e) => Err(e),
        Ok(id) => if !keys.contains_key(id) {
            Err(ZauthError::UnknownKey(id))
        } else if !signature_ok {
            Err(ZauthError::SignatureMismatch)
        } else {
            match expiry_of(t) {
                Err(e) => Err(e),
                Ok(expiry) => if expiry < now {
                    Err(ZauthError::Expired)
                } else {
                    Ok(())
                },
            }
        },
    }
}

/// Whether the token's signature holds: its signing key is among `keys`, and the
/// signature is one of the signed bytes under that key.
pub open spec fn signature_holds(t: TokenView, keys: Map<u32, Seq<u8>>) -> bool {
    match signer_of(t) {
        Ok(id) => keys.contains_key(id) && ed25519_verifies(keys[id], t.signed, t.signature),
        Err(_) => false,
    }
}

/// Whether the rules grant a token of the given type the operation that
/// `operation` describes as `<method> <path>`, the two set apart by one space. A
/// text of another form describes no operation, and nothing is granted.
pub open spec fn access_of(
    rules: Seq<RuleView>,
    token_type: TokenType,
    operation: Seq<u8>,
) -> bool {
    let parts = split(operation, SPACE);
    parts.len() == 2 && decision(rules, token_type, parts[0], parts[1])
}

/// The verification state that an outcome of `verify` leaves a token in.
pub open spec fn state_after(outcome: Result<(), ZauthError>) -> TokenVerification {
    if outcome is Ok {
        TokenVerification::Verified
    } else {
        TokenVerification::Invalid
    }
}

/// A token whose signing key is known, whose signature holds and whose expiry
/// has not passed verifies; with the same key and expiry but a signature that
/// does not hold, the outcome is a signature mismatch.
pub proof fn lemma_valid_token_verifies(t: TokenView, keys: Map<u32, Seq<u8>>, now: u64)
    requires
        signer_of(t) is Ok,
        keys.contains_key(signer_of(t)->Ok_0),
        expiry_of(t) is Ok,
        expiry_of(t)->Ok_0 >= now,
    ensures
        verdict(t, keys, true, now) is Ok,
        state_after(verdict(t, keys, true, now)) == TokenVerification::Verified,
        verdict(t, keys, false, now) == Err::<(), ZauthError>(ZauthError::SignatureMismatch),
        state_after(verdict(t, keys, false, now)) == TokenVerification::Invalid,
{
}

/// Parsing and then verifying: a token text that parses, whose signing key is
/// in the keystore and whose expiry has not passed, verifies if its signature is
/// one of its signed bytes under that key, and is a signature mismatch if not.
pub proof fn lemma_round_trip(
    text: Seq<u8>,
    decoded: Option<Seq<u8>>,
    keys: Map<u32, Seq<u8>>,
    now: u64,
)
    requires
        token_of(text, decoded) is Ok,
        signer_of(token_of(text, decoded)->Ok_0) is Ok,
        keys.contains_key(signer_of(token_of(text, decoded)->Ok_0)->Ok_0),
        expiry_of(token_of(text, decoded)->Ok_0) is Ok,
        expiry_of(token_of(text, decoded)->Ok_0)->Ok_0 >= now,
    ensures
        ({
            let t = token_of(text, decoded)->Ok_0;
            let key = keys[signer_of(t)->Ok_0];
            let outcome = verdict(t, keys, signature_holds(t, keys), now);
            &&& t.verification == TokenVerification::Pending
            &&& ed25519_verifies(key, t.signed, t.signature) ==> outcome is Ok && state_after(
                outcome,
            ) == TokenVerification::Verified
            &&& !ed25519_verifies(key, t.signed, t.signature) ==> outcome == Err::<(), ZauthError>(
                ZauthError::SignatureMismatch,
            ) && state_after(outcome) == TokenVerification::Invalid
        }),
{
}

/// A token that has expired is refused as expired although its signature
/// holds; where the signature does not hold either, the mismatch is reported.
pub proof fn lemma_expiry_after_signature(t: TokenView, keys: Map<u32, Seq<u8>>, now: u64)
    requires
        signer_of(t) is Ok,
        keys.contains_key(signer_of(t)->Ok_0),
        expiry_of(t) is Ok,
        expiry_of(t)->Ok_0 < now,
    ensures
        verdict(t, keys, true, now) == Err::<(), ZauthError>(ZauthError::Expired),
        verdict(t, keys, false, now) == Err::<(), ZauthError>(ZauthError::SignatureMismatch),
{
}

/// A token signed by a key that the keystore does not hold is refused for that
/// reason, whatever its signature and its expiry.
pub proof fn lemma_unknown_key(
    t: TokenView,
    keys: Map<u32, Seq<u8>>,
    signature_ok: bool,
    now: u64,
)
    requires
        signer_of(t) is Ok,
        !keys.contains_key(signer_of(t)->Ok_0),
    ensures
        verdict(t, keys, signature_ok, now) == Err::<(), ZauthError>(
            ZauthError::UnknownKey(signer_of(t)->Ok_0),
        ),
{
}

/// Verifying twice gives the same outcome, and the state that it leaves does
/// not depend on the state before.
pub proof fn lemma_verdict_ignores_state(
    t: TokenView,
    state: TokenVerification,
    keys: Map<u32, Seq<u8>>,
    signature_ok: bool,
    now: u64,
)
    ensures
        verdict(TokenView { verification: state, ..t }, keys, signature_ok, now) == verdict(
            t,
            keys,
            signature_ok,
            now,
        ),
        signature_holds(TokenView { verification: state, ..t }, keys) == signature_holds(t, keys),
{
}

/// An attribute as a token stores it: the key, and where the value lies in the
/// token's text.
#[derive(Clone, Copy, Debug)]
struct Attr {
    key: u8,
    value: Span,
}

spec fn attr_value(attr: Attr, data: Seq<u8>) -> Seq<u8> {
    data.subrange(attr.value.start as int, attr.value.end as int)
}

spec fn attrs_map(attrs: Seq<Attr>, data: Seq<u8>) -> Map<u8, Seq<u8>>
    decreases attrs.len(),
{
    if attrs.len() == 0 {
        Map::empty()
    } else {
        attrs_map(attrs.drop_last(), data).insert(attrs.last().key, attr_value(attrs.last(), data))
    }
}

spec fn attrs_distinct(attrs: Seq<Attr>) -> bool {
    forall|i: int, j: int|
        0 <= i < j < attrs.len() ==> (#[trigger] attrs[i]).key != (#[trigger] attrs[j]).key
}

proof fn lemma_attrs_map(attrs: Seq<Attr>, data: Seq<u8>)
    requires
        attrs_distinct(attrs),
    ensures
        forall|k: u8| #[trigger]
            attrs_map(attrs, data).contains_key(k) ==> exists|i: int|
                0 <= i < attrs.len() && (#[trigger] attrs[i]).key == k,
        forall|i: int|
            0 <= i < attrs.len() ==> {
                &&& attrs_map(attrs, data).contains_key((#[trigger] attrs[i]).key)
                &&& attrs_map(attrs, data)[attrs[i].key] == attr_value(attrs[i], data)
            },
    decreases attrs.len(),
{
    if attrs.len() > 0 {
        let front = attrs.drop_last();
        let last = attrs.last();
        lemma_attrs_map(front, data);
        assert(attrs_map(attrs, data) == attrs_map(front, data).insert(
            last.key,
            attr_value(last, data),
        ));
        assert forall|k: u8| #[trigger] attrs_map(attrs, data).contains_key(k) implies exists|
            i: int,
        |
            0 <= i < attrs.len() && (#[trigger] attrs[i]).key == k by {
            if k == last.key {
                assert(attrs[attrs.len() - 1].key == k);
            } else {
                assert(attrs_map(front, data).contains_key(k));
                let i = choose|i: int| 0 <= i < front.len() && (#[trigger] front[i]).key == k;
                assert(front[i] == attrs[i]);
            }
        }
        assert forall|i: int| 0 <= i < attrs.len() implies {
            &&& attrs_map(attrs, data).contains_key((#[trigger] attrs[i]).key)
            &&& attrs_map(attrs, data)[attrs[i].key] == attr_value(attrs[i], data)
        } by {
            if i < front.len() {
                assert(front[i] == attrs[i]);
                assert(attrs[i].key != attrs[attrs.len() - 1].key);
            }
        }
    }
}

fn find_attr(attrs: &Vec<Attr>, key: u8) -> (found: Option<usize>)
    ensures
        match found {
            Some(i) => i < attrs.len() && attrs[i as int].key == key,
            None => forall|i: int| 0 <= i < attrs.len() ==> (#[trigger] attrs[i]).key != key,
        },
{
    let mut i: usize = 0;
    while i < attrs.len()
        invariant
            i <= attrs.len(),
            forall|k: int| 0 <= k < i ==> (#[trigger] attrs[k]).key != key,
        decreases attrs.len() - i,
    {
        if attrs[i].key == key {
            return Some(i);
        }
        i += 1;
    }
    None
}

/// In a UTF-8 text, what lies between an ASCII byte and either another ASCII
/// byte or the end of the text is UTF-8 too.
proof fn lemma_between_ascii_is_utf8(text: Seq<u8>, from: int, to: int)
    requires
        vstd::utf8::valid_utf8(text),
        1 <= from <= to <= text.len(),
        text[from - 1] <= 0x7f,
        to == text.len() || text[to] <= 0x7f,
    ensures
        vstd::utf8::valid_utf8(text.subrange(from, to)),
{
    if to < text.len() {
        vstd::utf8::is_char_boundary_iff_not_is_continuation_byte(text, to);
    } else {
        vstd::utf8::is_char_boundary_start_end_of_seq(text);
    }
    vstd::utf8::valid_utf8_split(text, to);
    let prefix = text.subrange(0, to);
    vstd::utf8::is_char_boundary_iff_not_is_continuation_byte(prefix, from - 1);
    vstd::utf8::valid_utf8_split(prefix, from - 1);
    let tail = prefix.subrange(from - 1, prefix.len() as int);
    assert(vstd::utf8::valid_utf8(tail));
    assert(tail[0] == text[from - 1]);
    assert(vstd::utf8::pop_first_scalar(tail) =~= text.subrange(from, to));
}

fn read_attribute(text: &[u8], span: Span) -> (attr: Option<Attr>)
    requires
        span.start <= span.end <= text.len(),
        vstd::utf8::valid_utf8(text@),
        span.end == text.len() || text@[span.end as int] <= 0x7f,
    ensures
        match attr {
            Some(a) => {
                &&& is_attribute(text@.subrange(span.start as int, span.end as int))
                &&& a.key == text@.subrange(span.start as int, span.end as int)[0]
                &&& a.value.start <= a.value.end <= text.len()
                &&& attr_value(a, text@) == text@.subrange(span.start as int, span.end as int).skip(
                    2,
                )
                &&& vstd::utf8::valid_utf8(attr_value(a, text@))
            },
            None => !is_attribute(text@.subrange(span.start as int, span.end as int)),
        },
{
    if span.end - span.start < 2 {
        return None;
    }
    let key: u8 = text[span.start];
    let eq: u8 = text[span.start + 1];
    let is_letter = (0x41 <= key && key <= 0x5a) || (0x61 <= key && key <= 0x7a);
    if !is_letter || eq != EQUALS {
        return None;
    }
    let attr = Attr { key, value: Span { start: span.start + 2, end: span.end } };
    proof {
        assert(attr_value(attr, text@) =~= text@.subrange(
            span.start as int,
            span.end as int,
        ).skip(2));
        lemma_between_ascii_is_utf8(text@, span.start + 2, span.end as int);
    }
    Some(attr)
}

/// A parsed token. It owns its text, which is UTF-8; attribute values are handed
/// out as slices of it.
#[derive(Debug)]
pub struct Token {
    data: Vec<u8>,
    attrs: Vec<Attr>,
    signed_len: usize,
    signature: Vec<u8>,
    version: u8,
    token_type: TokenType,
    verification: TokenVerification,
}

impl View for Token {
    type V = TokenView;

    closed spec fn view(&self) -> TokenView {
        TokenView {
            attributes: attrs_map(self.attrs@, self.data@),
            signed: self.data@.take(self.signed_len as int),
            signature: self.signature@,
            version: self.version,
            token_type: self.token_type,
            verification: self.verification,
        }
    }
}

impl Token {
    #[verifier::type_invariant]
    spec fn well_formed(self) -> bool {
        &&& self.signed_len <= self.data.len()
        &&& self.signature.len() == SIGNATURE_LEN
        &&& attrs_distinct(self.attrs@)
        &&& forall|i: int|
            0 <= i < self.attrs.len() ==> (#[trigger] self.attrs[i]).value.start
                <= self.attrs[i].value.end <= self.data.len()
        &&& forall|i: int|
            0 <= i < self.attrs.len() ==> vstd::utf8::valid_utf8(
                attr_value(#[trigger] self.attrs[i], self.data@),
            )
    }

    /// The signature field of a token text: what follows its last `.`, or the
    /// whole text where it holds none.
    pub fn signature_field(text: &[u8]) -> (field: &[u8])
        ensures
            field@ == signature_text(text@),
    {
        let spans = split_spans(text, DOT);
        let last = spans[spans.len() - 1];
        slice_subrange(text, last.start, last.end)
    }

    /// Builds the token that `text` spells out, taking from `decoded` what its
    /// signature field decodes to.
    pub fn with_signature(text: &[u8], decoded: Option<Vec<u8>>) -> (res: Result<Token, ZauthError>)
        ensures
            match res {
                Ok(token) => token_of(text@, optional_bytes(decoded)) == Ok::<
                    TokenView,
                    ZauthError,
                >(token@),
                Err(e) => token_of(text@, optional_bytes(decoded)) == Err::<
                    TokenView,
                    ZauthError,
                >(e),
            },
    {
        if utf8_str(text).is_none() {
            return Err(ZauthError::Utf8);
        }
        let spans = split_spans(text, DOT);
        let n: usize = spans.len();
        let ghost fields = split(text@, DOT);
        let ghost body = fields.drop_last();
        if n < 3 {
            return Err(ZauthError::Parse);
        }
        assert forall|k: int| 0 <= k < n - 1 implies (#[trigger] spans[k]).start <= spans[k].end
            < text.len() && text@[spans[k].end as int] == DOT && text@.subrange(
            spans[k].start as int,
            spans[k].end as int,
        ) == body[k] by {
            assert(body[k] == fields[k]);
        }
        let mut attrs: Vec<Attr> = Vec::new();
        let mut i: usize = 0;
        while i < n - 1
            invariant
                n == spans.len(),
                i <= n - 1,
                body.len() == n - 1,
                body == split(text@, DOT).drop_last(),
                vstd::utf8::valid_utf8(text@),
                forall|k: int|
                    0 <= k < n - 1 ==> (#[trigger] spans[k]).start <= spans[k].end < text.len()
                        && text@[spans[k].end as int] == DOT && text@.subrange(
                        spans[k].start as int,
                        spans[k].end as int,
                    ) == body[k],
                attrs.len() == i,
                attrs_distinct(attrs@),
                attrs_map(attrs@, text@) == attribute_map(body.take(i as int)),
                forall|k: int|
                    0 <= k < i ==> is_attribute(#[trigger] body[k]) && attrs[k].key == body[k][0]
                        && attr_value(attrs[k], text@) == body[k].skip(2),
                forall|k: int|
                    0 <= k < i ==> (#[trigger] attrs[k]).value.start <= attrs[k].value.end
                        <= text.len(),
                forall|k: int|
                    0 <= k < i ==> vstd::utf8::valid_utf8(
                        attr_value(#[trigger] attrs[k], text@),
                    ),
            ensures
                i == n - 1,
            decreases n - 1 - i,
        {
            let span = spans[i];
            let attr = match read_attribute(text, span) {
                Some(attr) => attr,
                None => {
                    assert(!is_attribute(body[i as int]));
                    assert(!well_formed_fields(body));
                    return Err(ZauthError::Parse);
                },
            };
            match find_attr(&attrs, attr.key) {
                Some(j) => {
                    assert(body[j as int][0] == body[i as int][0]);
                    assert(!distinct_keys(body));
                    return Err(ZauthError::Parse);
                },
                None => {},
            }
            proof {
                assert(attrs@.push(attr).drop_last() =~= attrs@);
                assert(body.take(i + 1).drop_last() =~= body.take(i as int));
                assert(body.take(i + 1).last() == body[i as int]);
            }
            attrs.push(attr);
            i += 1;
        }
        proof {
            assert(body.take((n - 1) as int) =~= body);
            lemma_attrs_map(attrs@, text@);
        }
        let first = attrs[0];
        if first.key != KEY_VERSION {
            return Err(ZauthError::Parse);
        }
        assert(is_attribute(body[0]));
        match parse_decimal(slice_subrange(text, first.value.start, first.value.end)) {
            Some(version) => {
                if version != 1 {
                    return Err(ZauthError::Parse);
                }
            },
            None => {
                return Err(ZauthError::Parse);
            },
        }
        let type_at: usize = match find_attr(&attrs, KEY_TYPE) {
            Some(j) => j,
            None => {
                return Err(ZauthError::Parse);
            },
        };
        assert(body[type_at as int][0] == KEY_TYPE);
        assert(distinct_keys(body)) by {
            assert forall|a: int, b: int| 0 <= a < b < body.len() implies (#[trigger] body[a])[0]
                != (#[trigger] body[b])[0] by {
                assert(attrs[a].key != attrs[b].key);
            }
        }
        assert(well_formed_fields(body));
        let type_attr = attrs[type_at];
        let token_type = token_type_from(
            slice_subrange(text, type_attr.value.start, type_attr.value.end),
        );
        let signature = match decoded {
            Some(signature) => signature,
            None => {
                return Err(ZauthError::Base64);
            },
        };
        if signature.len() != SIGNATURE_LEN {
            return Err(ZauthError::Parse);
        }
        let last = spans[n - 1];
        assert(spans[n - 2].end + 1 == spans[n - 1].start);
        let signed_len: usize = last.start - 1;
        let data = slice_to_vec(text);
        let token = Token {
            data,
            attrs,
            signed_len,
            signature,
            version: LAYOUT_VERSION,
            token_type,
            verification: TokenVerification::Pending,
        };
        proof {
            assert(token@.signed =~= text@.take(text@.len() - signature_text(text@).len() - 1));
        }
        Ok(token)
    }

    /// Parses a token. The signature is decoded but not checked: that is for
    /// `verify`, so a token that parses is still to be verified.
    pub fn parse(text: &[u8]) -> (res: Result<Token, ZauthError>)
        ensures
            match res {
                Ok(token) => token_of(text@, base64url_decoded(signature_text(text@))) == Ok::<
                    TokenView,
                    ZauthError,
                >(token@),
                Err(e) => token_of(text@, base64url_decoded(signature_text(text@))) == Err::<
                    TokenView,
                    ZauthError,
                >(e),
            },
    {
        let decoded = match base64url_decode(Token::signature_field(text)) {
            Ok(bytes) => Some(bytes),
            Err(_) => None,
        };
        Token::with_signature(text, decoded)
    }

    /// The bytes of the value of the attribute `key`, where the token has one:
    /// a slice of the token's own text, and UTF-8.
    pub fn lookup_bytes(&self, key: u8) -> (value: Option<&[u8]>)
        ensures
            match value {
                Some(v) => {
                    &&& self@.attributes.contains_key(key)
                    &&& self@.attributes[key] == v@
                    &&& vstd::utf8::valid_utf8(v@)
                },
                None => !self@.attributes.contains_key(key),
            },
    {
        proof {
            use_type_invariant(self);
            lemma_attrs_map(self.attrs@, self.data@);
        }
        match find_attr(&self.attrs, key) {
            Some(i) => {
                let attr = self.attrs[i];
                Some(slice_subrange(self.data.as_slice(), attr.value.start, attr.value.end))
            },
            None => None,
        }
    }

    /// The value of the attribute `key`, where the token has one: a string
    /// slice of the token's own text.
    pub fn lookup(&self, key: u8) -> (value: Option<&str>)
        ensures
            match value {
                Some(v) => self@.attributes.contains_key(key) && self@.attributes[key]
                    == v.spec_bytes(),
                None => !self@.attributes.contains_key(key),
            },
    {
        match self.lookup_bytes(key) {
            Some(bytes) => utf8_str(bytes),
            None => None,
        }
    }

    /// Whether `acl` grants tokens of this token's type the operation
    /// `<method> <path>`. This asks what the type may do; whether the token
    /// itself is to be trusted is for `verify`.
    pub fn has_access(&self, acl: &Acl, operation: &[u8]) -> (granted: bool)
        ensures
            granted == access_of(acl@, self@.token_type, operation@),
    {
        let parts = split_spans(operation, SPACE);
        if parts.len() != 2 {
            return false;
        }
        let method = slice_subrange(operation, parts[0].start, parts[0].end);
        let path = slice_subrange(operation, parts[1].start, parts[1].end);
        acl.evaluate(self.token_type, method, path)
    }

    /// The raw signature.
    pub fn signature(&self) -> (signature: &[u8])
        ensures
            signature@ == self@.signature,
            signature@.len() == SIGNATURE_LEN,
    {
        proof {
            use_type_invariant(self);
        }
        self.signature.as_slice()
    }

    /// The bytes that the signature covers.
    pub fn signed_bytes(&self) -> (signed: &[u8])
        ensures
            signed@ == self@.signed,
    {
        proof {
            use_type_invariant(self);
        }
        slice_subrange(self.data.as_slice(), 0, self.signed_len)
    }

    /// The token's type.
    pub fn token_type(&self) -> (t: TokenType)
        ensures
            t == self@.token_type,
    {
        self.token_type
    }

    /// The token's layout version.
    pub fn version(&self) -> (v: u8)
        ensures
            v == self@.version,
    {
        self.version
    }

    /// Whether the token has been verified, and how that went.
    pub fn verification(&self) -> (v: TokenVerification)
        ensures
            v == self@.verification,
    {
        self.verification
    }
    /// The number that the attribute `key` holds.
    pub fn number(&self, key: u8) -> (res: Result<u64, ZauthError>)
        ensures
            res == number_of(self@, key),
    {
        match self.lookup_bytes(key) {
            None => Err(ZauthError::Missing(key)),
            Some(value) => match parse_decimal(value) {
                Some(n) => Ok(n),
                None => Err(ZauthError::Invalid(key)),
            },
        }
    }

    /// The id of the key that signed the token.
    pub fn signer(&self) -> (res: Result<u32, ZauthError>)
        ensures
            res == signer_of(self@),
    {
        match self.number(KEY_SIGNER) {
            Ok(n) => if n <= 0xffff_ffff {
                Ok(n as u32)
            } else {
                Err(ZauthError::Invalid(KEY_SIGNER))
            },
            Err(e) => Err(e),
        }
    }

    /// The time after which the token is no longer valid, in seconds since the
    /// epoch.
    pub fn expiry(&self) -> (res: Result<u64, ZauthError>)
        ensures
            res == expiry_of(self@),
    {
        self.number(KEY_EXPIRY)
    }

    /// The outcome of verifying the token against `store` at the time `now`,
    /// given whether its signature holds under its signing key.
    pub fn decide(&self, store: &Keystore, signature_ok: bool, now: u64) -> (res: Result<
        (),
        ZauthError,
    >)
        ensures
            res == verdict(self@, store@, signature_ok, now),
    {
        let id = match self.signer() {
            Ok(id) => id,
            Err(e) => {
                return Err(e);
            },
        };
        match store.lookup(id) {
            Ok(_) => {},
            Err(e) => {
                return Err(e);
            },
        }
        if !signature_ok {
            return Err(ZauthError::SignatureMismatch);
        }
        match self.expiry() {
            Err(e) => Err(e),
            Ok(expiry) => if expiry < now {
                Err(ZauthError::Expired)
            } else {
                Ok(())
            },
        }
    }

    /// Whether the token's signature holds under its signing key in `store`.
    pub fn check_signature(&self, store: &Keystore) -> (ok: bool)
        ensures
            ok == signature_holds(self@, store@),
    {
        proof {
            use_type_invariant(self);
        }
        match self.signer() {
            Ok(id) => match store.lookup(id) {
                Ok(key) => ed25519_verify(key.as_bytes(), self.signed_bytes(), self.signature()),
                Err(_) => false,
            },
            Err(_) => false,
        }
    }

    /// Verifies the token against `store` at the time `now`, in seconds since
    /// the epoch.
    pub fn verify_at(&self, store: &Keystore, now: u64) -> (res: Result<(), ZauthError>)
        ensures
            res == verdict(self@, store@, signature_holds(self@, store@), now),
    {
        let signature_ok = self.check_signature(store);
        self.decide(store, signature_ok, now)
    }

    /// Verifies the token against `store` at the current time. Whatever the
    /// clock says, the outcome is that of `verify_at` at some time.
    pub fn verify(&self, store: &Keystore) -> (res: Result<(), ZauthError>)
        ensures
            exists|now: u64| res == verdict(self@, store@, signature_holds(self@, store@), now),
    {
        self.verify_at(store, unix_time_secs())
    }

    /// Sets the verification state. Nothing else of the token changes.
    pub(crate) fn mark(&mut self, state: TokenVerification)
        ensures
            final(self)@ == (TokenView { verification: state, ..old(self)@ }),
    {
        proof {
            use_type_invariant(&*self);
        }
        self.verification = state;
    }

    /// Records the outcome of a verification: `Verified` after success,
    /// `Invalid` after any failure. Nothing else of the token changes.
    pub fn record(&mut self, outcome: &Result<(), ZauthError>)
        ensures
            final(self)@ == (TokenView { verification: state_after(*outcome), ..old(self)@ }),
    {
        if outcome.is_ok() {
            self.mark(TokenVerification::Verified);
        } else {
            self.mark(TokenVerification::Invalid);
        }
    }
}

} // verus!
