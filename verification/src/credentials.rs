//! Bearer credentials: from the `Authorization` header to the caller's claims.
//!
//! A token is three parts separated by dots. The signature over the first
//! two is checked by `jsonwebtoken`; everything else is decided here: how
//! the header is read, which payloads make claims, and when a token has
//! expired.

use crate::text::{chars_of, parts, split, text_from};
use jsonwebtoken::{decode, Algorithm, DecodingKey, Validation};
use serde_json::Value;
use vstd::prelude::*;

verus! {

/// Why no claims were had from a request.
#[derive(Debug, Clone, Copy, PartialEq, Eq)]
pub enum AuthError {
    /// There is no `Authorization` header, or it carries no bearer token.
    MissingCredential,
    /// The token is malformed, its signature does not verify, or its
    /// payload lacks a claim or holds one that does not fit.
    InvalidToken,
    /// The token was valid once; its expiry has passed.
    Expired,
}

/// The verified payload of a token: who the caller is, and until when.
#[derive(Debug, Clone, PartialEq, Eq)]
pub struct Claims {
    /// The subject: the user's name.
    pub sub: String,
    /// The user's id, which names the user's directory.
    pub id: u32,
    /// The user's role.
    pub role: u8,
    /// The expiry, in seconds since the epoch, UTC.
    pub exp: u64,
}

/// Claims as a value.
pub struct ClaimsView {
    pub sub: Seq<char>,
    pub id: u32,
    pub role: u8,
    pub exp: u64,
}

impl View for Claims {
    type V = ClaimsView;

    open spec fn view(&self) -> ClaimsView {
        ClaimsView { sub: self.sub@, id: self.id, role: self.role, exp: self.exp }
    }
}

/// A value in the payload of a token, as far as claims are made of it.
#[derive(Debug, Clone, PartialEq, Eq)]
pub enum ClaimValue {
    /// A text.
    Text(String),
    /// A whole number that is not negative and fits 64 bits.
    Whole(u64),
    /// Anything else: a fraction, a negative number, a list, an object.
    Other,
}

/// A member of the payload of a token: a name and what stands under it.
#[derive(Debug, Clone, PartialEq, Eq)]
pub struct PayloadField {
    pub name: String,
    pub value: ClaimValue,
}

/// A value of a payload as a value.
pub enum ClaimValueView {
    Text(Seq<char>),
    Whole(u64),
    Other,
}

/// A member of a payload as a value.
pub struct FieldView {
    pub name: Seq<char>,
    pub value: ClaimValueView,
}

impl View for ClaimValue {
    type V = ClaimValueView;

    open spec fn view(&self) -> ClaimValueView {
        match self {
            ClaimValue::Text(text) => ClaimValueView::Text(text@),
            ClaimValue::Whole(number) => ClaimValueView::Whole(*number),
            ClaimValue::Other => ClaimValueView::Other,
        }
    }
}

impl View for PayloadField {
    type V = FieldView;

    open spec fn view(&self) -> FieldView {
        FieldView { name: self.name@, value: self.value@ }
    }
}

/// The members of a payload as values, in order.
pub open spec fn field_views(fields: Seq<PayloadField>) -> Seq<FieldView> {
    Seq::new(fields.len(), |i: int| fields[i]@)
}

/// What stands under `name` in a payload: the value of the first member of
/// that name, if there is one.
pub open spec fn claim(fields: Seq<FieldView>, name: Seq<char>) -> Option<ClaimValueView>
    decreases fields.len(),
{
    if fields.len() == 0 {
        None
    } else if fields[0].name == name {
        Some(fields[0].value)
    } else {
        claim(fields.drop_first(), name)
    }
}

/// The scheme that an `Authorization` header names before a bearer token.
pub open spec fn bearer_scheme() -> Seq<char> {
    seq!['B', 'e', 'a', 'r', 'e', 'r']
}

/// `text` without the spaces that it begins with.
pub open spec fn without_leading_spaces(text: Seq<char>) -> Seq<char>
    decreases text.len(),
{
    if text.len() > 0 && text[0] == ' ' {
        without_leading_spaces(text.drop_first())
    } else {
        text
    }
}

/// The token that an `Authorization` header carries: what follows the
/// scheme `Bearer` and any spaces after it, unless nothing follows.
pub open spec fn bearer_token_of(header: Seq<char>) -> Option<Seq<char>> {
    if bearer_scheme().is_prefix_of(header) {
        let token = without_leading_spaces(header.skip(6));
        if token.len() > 0 {
            Some(token)
        } else {
            None
        }
    } else {
        None
    }
}

/// Whether a token has the frame of a signed token: three parts, separated
/// by two dots.
pub open spec fn is_framed(token: Seq<char>) -> bool {
    parts(token, '.').len() == 3
}

/// The claims that a payload makes at the time `now`. Under `sub` must
/// stand a text, under `id`, `role` and `exp` whole numbers; the id and the
/// role must fit their types, and the expiry must not lie before `now`.
/// What else the payload holds does not matter.
pub open spec fn claims_of(fields: Seq<FieldView>, now: u64) -> Result<ClaimsView, AuthError> {
    match (
        claim(fields, "sub"@),
        claim(fields, "id"@),
        claim(fields, "role"@),
        claim(fields, "exp"@),
    ) {
        (
            Some(ClaimValueView::Text(sub)),
            Some(ClaimValueView::Whole(id)),
            Some(ClaimValueView::Whole(role)),
            Some(ClaimValueView::Whole(exp)),
        ) => {
            if id > u32::MAX || role > u8::MAX {
                Err(AuthError::InvalidToken)
            } else if exp < now {
                Err(AuthError::Expired)
            } else {
                Ok(ClaimsView { sub, id: id as u32, role: role as u8, exp })
            }
        },
        _ => Err(AuthError::InvalidToken),
    }
}

/// What `jsonwebtoken::decode` finds in `token` under the key `secret`,
/// with HS256 as the one algorithm it admits and with no check of any time:
/// the members of the payload, where the signature verifies and the payload
/// is a JSON object that the crate accepts, and `None` otherwise.
pub uninterp spec fn signed_payload(token: Seq<char>, secret: Seq<u8>) -> Option<Seq<FieldView>>;

/// The claims that `token` proves under `secret` at the time `now`.
pub open spec fn claims_in(token: Seq<char>, secret: Seq<u8>, now: u64) -> Result<
    ClaimsView,
    AuthError,
> {
    if !is_framed(token) {
        Err(AuthError::InvalidToken)
    } else {
        match signed_payload(token, secret) {
            Some(fields) => claims_of(fields, now),
            None => Err(AuthError::InvalidToken),
        }
    }
}

/// The claims of a request with the given `Authorization` header, if any.
pub open spec fn authenticated(
    authorization: Option<Seq<char>>,
    secret: Seq<u8>,
    now: u64,
) -> Result<ClaimsView, AuthError> {
    match authorization {
        None => Err(AuthError::MissingCredential),
        Some(header) => match bearer_token_of(header) {
            None => Err(AuthError::MissingCredential),
            Some(token) => claims_in(token, secret, now),
        },
    }
}

/// The outcome of a verification as a value.
pub open spec fn outcome_view(outcome: Result<Claims, AuthError>) -> Result<ClaimsView, AuthError> {
    match outcome {
        Ok(claims) => Ok(claims@),
        Err(e) => Err(e),
    }
}

/// A payload, if any, as a value.
pub open spec fn payload_view(payload: Option<Vec<PayloadField>>) -> Option<Seq<FieldView>> {
    match payload {
        Some(fields) => Some(field_views(fields@)),
        None => None,
    }
}

/// A token, if any, as a value.
pub open spec fn token_view(token: Option<String>) -> Option<Seq<char>> {
    match token {
        Some(text) => Some(text@),
        None => None,
    }
}

/// No claims without a valid credential: a request without the header, a
/// header without a bearer token, a token that is malformed or whose
/// signature does not verify, and a token whose expiry has passed all end in
/// a failure.
pub proof fn lemma_no_claims_without_credential(
    authorization: Option<Seq<char>>,
    secret: Seq<u8>,
    now: u64,
)
    ensures
        authorization is None ==> authenticated(authorization, secret, now) is Err,
        authorization matches Some(header) && bearer_token_of(header) is None ==> authenticated(
            authorization,
            secret,
            now,
        ) is Err,
        authorization matches Some(header) && bearer_token_of(header) matches Some(token) && (
        !is_framed(token) || signed_payload(token, secret) is None) ==> authenticated(
            authorization,
            secret,
            now,
        ) is Err,
        authorization matches Some(header) && bearer_token_of(header) matches Some(token)
            && signed_payload(token, secret) matches Some(fields) && claim(fields, "exp"@)
            matches Some(ClaimValueView::Whole(expiry)) && expiry < now ==> authenticated(
            authorization,
            secret,
            now,
        ) is Err,
{
}

/// Reads the bearer token from the value of an `Authorization` header.
pub fn bearer_token(header: &str) -> (token: Option<String>)
    ensures
        token_view(token) == bearer_token_of(header@),
{
    let chars = chars_of(header);
    let scheme: [char; 6] = ['B', 'e', 'a', 'r', 'e', 'r'];
    assert(scheme@ == bearer_scheme());
    if chars.len() < 6 {
        return None;
    }
    let mut i: usize = 0;
    while i < 6
        invariant
            i <= 6 <= chars.len(),
            chars@ == header@,
            scheme@ == bearer_scheme(),
            forall|j: int| 0 <= j < i ==> chars@[j] == bearer_scheme()[j],
        decreases 6 - i,
    {
        if chars[i] != scheme[i] {
            assert(chars@.subrange(0, 6)[i as int] != bearer_scheme()[i as int]);
            return None;
        }
        i += 1;
    }
    assert(bearer_scheme().is_prefix_of(chars@));
    while i < chars.len() && chars[i] == ' '
        invariant
            6 <= i <= chars.len(),
            without_leading_spaces(chars@.skip(6)) == without_leading_spaces(chars@.skip(i as int)),
        decreases chars.len() - i,
    {
        assert(chars@.skip(i as int).drop_first() == chars@.skip(i + 1));
        i += 1;
    }
    if i == chars.len() {
        None
    } else {
        Some(text_from(&chars, i))
    }
}

/// Says whether a token has three parts.
pub fn has_frame(token: &str) -> (framed: bool)
    ensures
        framed == is_framed(token@),
{
    split(token, '.').len() == 3
}

/// Calls `jsonwebtoken::decode` on the token, with a key made from the
/// secret and with rules that admit HS256 alone, require no claim and check
/// no time. The contract gives the result its name, [`signed_payload`]: the
/// call depends on the token and the secret alone. The members of the
/// payload are handed on one for one, in the order in which `serde_json`
/// keeps them.
#[verifier::external_body]
fn decode_payload(token: &str, secret: &[u8]) -> (payload: Option<Vec<PayloadField>>)
    ensures
        payload_view(payload) == signed_payload(token@, secret@),
{
    let mut rules = Validation::new(Algorithm::HS256);
    rules.validate_exp = false;
    rules.required_spec_claims.clear();
    let key = DecodingKey::from_secret(secret);
    let data = decode::<serde_json::Map<String, Value>>(token, &key, &rules).ok()?;
    Some(data.claims.into_iter().map(|(name, value)| PayloadField {
        name,
        value: match value {
            Value::String(text) => ClaimValue::Text(text),
            Value::Number(number) => number.as_u64().map_or(ClaimValue::Other, ClaimValue::Whole),
            _ => ClaimValue::Other,
        },
    }).collect())
}

/// Looks up what stands under `name` in a payload.
pub fn find_claim<'a>(fields: &'a Vec<PayloadField>, name: &str) -> (found: Option<&'a ClaimValue>)
    ensures
        match found {
            Some(value) => claim(field_views(fields@), name@) == Some(value@),
            None => claim(field_views(fields@), name@) is None,
        },
{
    let wanted = name.to_owned();
    let mut i: usize = 0;
    assert(field_views(fields@).skip(0) == field_views(fields@));
    while i < fields.len()
        invariant
            i <= fields.len(),
            wanted@ == name@,
            claim(field_views(fields@), name@) == claim(
                field_views(fields@).skip(i as int),
                name@,
            ),
        decreases fields.len() - i,
    {
        proof {
            let rest = field_views(fields@).skip(i as int);
            assert(rest[0] == fields[i as int]@);
            assert(rest.drop_first() == field_views(fields@).skip(i + 1));
        }
        if fields[i].name == wanted {
            return Some(&fields[i].value);
        }
        i += 1;
    }
    None
}

/// Makes claims of the payload of a token whose signature has been verified.
pub fn claims_from_payload(fields: &Vec<PayloadField>, now: u64) -> (outcome: Result<
    Claims,
    AuthError,
>)
    ensures
        outcome_view(outcome) == claims_of(field_views(fields@), now),
{
    let sub = match find_claim(fields, "sub") {
        Some(ClaimValue::Text(text)) => text.clone(),
        _ => return Err(AuthError::InvalidToken),
    };
    let id = match find_claim(fields, "id") {
        Some(ClaimValue::Whole(number)) => *number,
        _ => return Err(AuthError::InvalidToken),
    };
    let role = match find_claim(fields, "role") {
        Some(ClaimValue::Whole(number)) => *number,
        _ => return Err(AuthError::InvalidToken),
    };
    let exp = match find_claim(fields, "exp") {
        Some(ClaimValue::Whole(number)) => *number,
        _ => return Err(AuthError::InvalidToken),
    };
    if id > 0xffff_ffff || role > 0xff {
        Err(AuthError::InvalidToken)
    } else if exp < now {
        Err(AuthError::Expired)
    } else {
        Ok(Claims { sub, id: id as u32, role: role as u8, exp })
    }
}

/// Verifies a bearer token under the server's secret at the time `now`, in
/// seconds since the epoch, and yields the claims that it proves.
pub fn extract_claims(token: &str, secret: &[u8], now: u64) -> (outcome: Result<Claims, AuthError>)
    ensures
        outcome_view(outcome) == claims_in(token@, secret@, now),
{
    if !has_frame(token) {
        return Err(AuthError::InvalidToken);
    }
    match decode_payload(token, secret) {
        Some(fields) => claims_from_payload(&fields, now),
        None => Err(AuthError::InvalidToken),
    }
}

/// Verifies the credential of a request, given the value of its
/// `Authorization` header where it has one.
pub fn authenticate(authorization: Option<&str>, secret: &[u8], now: u64) -> (outcome: Result<
    Claims,
    AuthError,
>)
    ensures
        outcome_view(outcome) == authenticated(
            match authorization {
                Some(header) => Some(header@),
                None => None,
            },
            secret@,
            now,
        ),
{
    match authorization {
        None => Err(AuthError::MissingCredential),
        Some(header) => match bearer_token(header) {
            None => Err(AuthError::MissingCredential),
            Some(token) => extract_claims(token.as_str(), secret, now),
        },
    }
}

} // verus!
