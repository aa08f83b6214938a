//! The identity verifier: checks a signed credential and reads the claims
//! that it carries.

use vstd::prelude::*;

verus! {

/// The claims of a verified credential.
#[derive(Debug)]
pub struct Claims {
    pub user_id: String,
    pub username: String,
    pub session_id: String,
    pub permanent: bool,
    pub exp: usize,
    pub iat: usize,
}

pub struct ClaimsView {
    pub user_id: Seq<char>,
    pub username: Seq<char>,
    pub session_id: Seq<char>,
    pub permanent: bool,
    pub exp: usize,
    pub iat: usize,
}

impl View for Claims {
    type V = ClaimsView;

    open spec fn view(&self) -> ClaimsView {
        ClaimsView {
            user_id: self.user_id@,
            username: self.username@,
            session_id: self.session_id@,
            permanent: self.permanent,
            exp: self.exp,
            iat: self.iat,
        }
    }
}

/// The one way in which verification fails: the credential is not accepted.
#[derive(Debug, Clone, Copy, PartialEq, Eq, Structural)]
pub struct InvalidCredential;

/// A member of a credential's payload, as far as claims are read from it.
#[derive(Debug)]
pub enum ClaimValue {
    /// A JSON string.
    Text(String),
    /// A JSON boolean.
    Flag(bool),
    /// A JSON number that is a non-negative integer below 2^64.
    Count(u64),
    /// Any other JSON value.
    Other,
}

pub enum ClaimValueView {
    Text(Seq<char>),
    Flag(bool),
    Count(u64),
    Other,
}

impl View for ClaimValue {
    type V = ClaimValueView;

    open spec fn view(&self) -> ClaimValueView {
        match self {
            ClaimValue::Text(s) => ClaimValueView::Text(s@),
            ClaimValue::Flag(b) => ClaimValueView::Flag(*b),
            ClaimValue::Count(n) => ClaimValueView::Count(*n),
            ClaimValue::Other => ClaimValueView::Other,
        }
    }
}

/// Trusted: the type `serde_json::Value`, of which nothing is known but
/// what `json_members` names.
#[verifier::external_type_specification]
#[verifier::external_body]
pub struct ExJsonValue(serde_json::Value);

/// Trusted: the type `jsonwebtoken::errors::Error`, of which nothing is
/// known.
#[verifier::external_type_specification]
#[verifier::external_body]
pub struct ExJwtError(jsonwebtoken::errors::Error);

/// The members of a JSON value: for an object, what each of its keys
/// holds, as a `ClaimValue`; for any other value, nothing.
pub uninterp spec fn json_members(value: serde_json::Value) -> Map<Seq<char>, ClaimValueView>;

/// Whether a text holds two dots, and so has the three parts of a signed
/// credential: header, payload and signature.
pub open spec fn has_three_parts(token: Seq<char>) -> bool {
    exists|i: int, j: int|
        0 <= i < j < token.len() && #[trigger] token[i] == '.' && #[trigger] token[j] == '.'
}

/// Trusted: `jsonwebtoken::decode` with `serde_json::Value` as the type of
/// the claims, a key made by `DecodingKey::from_secret`, and a
/// `Validation::new(Algorithm::HS256)` with the given leeway and audience
/// setting. What is handed to the decoder is fixed: the secret of the
/// validator, its clock skew as the leeway, from which the decoder's
/// subtraction from the clock is safe, and no check of the audience. The
/// outcome depends on the clock, so all that is claimed of it is what the
/// decoder does before it looks at anything else: it refuses a text that
/// two dots do not split into three parts.
#[verifier::external_body]
fn decode_hs256(
    validator: &JwtValidator,
    token: &str,
    secret: &str,
    leeway: u64,
    validate_aud: bool,
) -> (r: Result<serde_json::Value, jsonwebtoken::errors::Error>)
    requires
        secret@ == validator.secret(),
        leeway == CLOCK_SKEW_SECONDS,
        !validate_aud,
    ensures
        r is Ok ==> has_three_parts(token@),
{
    let mut validation = jsonwebtoken::Validation::new(jsonwebtoken::Algorithm::HS256);
    validation.leeway = leeway;
    validation.validate_aud = validate_aud;
    let key = jsonwebtoken::DecodingKey::from_secret(secret.as_bytes());
    match jsonwebtoken::decode::<serde_json::Value>(token, &key, &validation) {
        Ok(data) => Ok(data.claims),
        Err(e) => Err(e),
    }
}

/// Trusted: `serde_json::Value::get` with a string key, and `Number::as_u64`
/// on a number found. Hands out the member under `key`, if there is one.
#[verifier::external_body]
fn json_member(value: &serde_json::Value, key: &str) -> (r: Option<ClaimValue>)
    ensures
        crate::types::view_opt(r) == if json_members(*value).contains_key(key@) {
            Some(json_members(*value)[key@])
        } else {
            None
        },
{
    match value.get(key) {
        None => None,
        Some(serde_json::Value::String(s)) => Some(ClaimValue::Text(s.clone())),
        Some(serde_json::Value::Bool(b)) => Some(ClaimValue::Flag(*b)),
        Some(serde_json::Value::Number(n)) => match n.as_u64() {
            Some(count) => Some(ClaimValue::Count(count)),
            None => Some(ClaimValue::Other),
        },
        Some(_) => Some(ClaimValue::Other),
    }
}

/// A claim that must be a string. `None` stands for a payload that is not
/// accepted: the member is missing though required, or is no string.
pub open spec fn text_claim(member: Option<ClaimValueView>, required: bool) -> Option<Seq<char>> {
    match member {
        Some(ClaimValueView::Text(s)) => Some(s),
        Some(_) => None,
        None => if required {
            None
        } else {
            Some(Seq::empty())
        },
    }
}

/// A claim that must be a boolean where it is present; absent, it is false.
pub open spec fn flag_claim(member: Option<ClaimValueView>) -> Option<bool> {
    match member {
        Some(ClaimValueView::Flag(b)) => Some(b),
        Some(_) => None,
        None => Some(false),
    }
}

/// A claim that must be present and a non-negative integer that fits the
/// machine's word.
pub open spec fn count_claim(member: Option<ClaimValueView>) -> Option<usize> {
    match member {
        Some(ClaimValueView::Count(n)) => if n <= usize::MAX {
            Some(n as usize)
        } else {
            None
        },
        _ => None,
    }
}

/// The six members from which claims are read.
pub struct PayloadView {
    pub user_id: Option<ClaimValueView>,
    pub username: Option<ClaimValueView>,
    pub session_id: Option<ClaimValueView>,
    pub permanent: Option<ClaimValueView>,
    pub exp: Option<ClaimValueView>,
    pub iat: Option<ClaimValueView>,
}

/// The claims that a payload carries. The subject identifier and the two
/// times are required; the display name and the session identifier default
/// to the empty string, and the permanence flag to false. A member of the
/// wrong kind makes the payload unacceptable, whether required or not.
pub open spec fn claims_of(payload: PayloadView) -> Option<ClaimsView> {
    match (
        text_claim(payload.user_id, true),
        text_claim(payload.username, false),
        text_claim(payload.session_id, false),
        flag_claim(payload.permanent),
        count_claim(payload.exp),
        count_claim(payload.iat),
    ) {
        (Some(user_id), Some(username), Some(session_id), Some(permanent), Some(exp), Some(iat)) => {
            Some(ClaimsView { user_id, username, session_id, permanent, exp, iat })
        },
        _ => None,
    }
}

/// The member of a JSON value under a key.
pub open spec fn member_of(value: serde_json::Value, key: Seq<char>) -> Option<ClaimValueView> {
    if json_members(value).contains_key(key) {
        Some(json_members(value)[key])
    } else {
        None
    }
}

/// The six members of a JSON value from which claims are read.
pub open spec fn payload_of(value: serde_json::Value) -> PayloadView {
    PayloadView {
        user_id: member_of(value, "user_id"@),
        username: member_of(value, "username"@),
        session_id: member_of(value, "session_id"@),
        permanent: member_of(value, "permanent"@),
        exp: member_of(value, "exp"@),
        iat: member_of(value, "iat"@),
    }
}

fn read_text(member: Option<ClaimValue>, required: bool) -> (r: Option<String>)
    ensures
        crate::types::view_opt(r) == text_claim(crate::types::view_opt(member), required),
{
    match member {
        Some(ClaimValue::Text(s)) => Some(s),
        Some(_) => None,
        None => if required {
            None
        } else {
            Some(String::new())
        },
    }
}

fn read_flag(member: Option<ClaimValue>) -> (r: Option<bool>)
    ensures
        r == flag_claim(crate::types::view_opt(member)),
{
    match member {
        Some(ClaimValue::Flag(b)) => Some(b),
        Some(_) => None,
        None => Some(false),
    }
}

fn read_count(member: Option<ClaimValue>) -> (r: Option<usize>)
    ensures
        r == count_claim(crate::types::view_opt(member)),
{
    match member {
        Some(ClaimValue::Count(n)) => if n <= usize::MAX as u64 {
            Some(n as usize)
        } else {
            None
        },
        _ => None,
    }
}

/// Reads the claims from six members of a payload.
pub fn claims_from_members(
    user_id: Option<ClaimValue>,
    username: Option<ClaimValue>,
    session_id: Option<ClaimValue>,
    permanent: Option<ClaimValue>,
    exp: Option<ClaimValue>,
    iat: Option<ClaimValue>,
) -> (r: Result<Claims, InvalidCredential>)
    ensures
        match r {
            Ok(claims) => Some(claims@),
            Err(_) => None,
        } == claims_of(
            PayloadView {
                user_id: crate::types::view_opt(user_id),
                username: crate::types::view_opt(username),
                session_id: crate::types::view_opt(session_id),
                permanent: crate::types::view_opt(permanent),
                exp: crate::types::view_opt(exp),
                iat: crate::types::view_opt(iat),
            },
        ),
{
    let user_id = match read_text(user_id, true) {
        Some(s) => s,
        None => { return Err(InvalidCredential); },
    };
    let username = match read_text(username, false) {
        Some(s) => s,
        None => { return Err(InvalidCredential); },
    };
    let session_id = match read_text(session_id, false) {
        Some(s) => s,
        None => { return Err(InvalidCredential); },
    };
    let permanent = match read_flag(permanent) {
        Some(b) => b,
        None => { return Err(InvalidCredential); },
    };
    let exp = match read_count(exp) {
        Some(n) => n,
        None => { return Err(InvalidCredential); },
    };
    let iat = match read_count(iat) {
        Some(n) => n,
        None => { return Err(InvalidCredential); },
    };
    Ok(Claims { user_id, username, session_id, permanent, exp, iat })
}

/// Reads the claims from the payload of a credential.
pub fn claims_from_payload(payload: &serde_json::Value) -> (r: Result<Claims, InvalidCredential>)
    ensures
        match r {
            Ok(claims) => Some(claims@),
            Err(_) => None,
        } == claims_of(payload_of(*payload)),
{
    claims_from_members(
        json_member(payload, "user_id"),
        json_member(payload, "username"),
        json_member(payload, "session_id"),
        json_member(payload, "permanent"),
        json_member(payload, "exp"),
        json_member(payload, "iat"),
    )
}

/// How many seconds of clock skew are tolerated when a credential's expiry
/// is checked.
pub const CLOCK_SKEW_SECONDS: u64 = 300;

/// Verifies credentials signed with a shared secret.
pub struct JwtValidator {
    secret: String,
}

impl JwtValidator {
    /// The secret with which credentials must be signed.
    pub closed spec fn secret(&self) -> Seq<char> {
        self.secret@
    }

    /// A verifier for credentials signed with `secret`.
    pub fn new(secret: String) -> (r: Self)
        ensures
            r.secret() == secret@,
    {
        JwtValidator { secret }
    }

    /// Verifies a credential: its signature under the secret, its expiry
    /// with the tolerated clock skew, and the shape of its claims. The
    /// audience is not checked. A text that two dots do not split into
    /// three parts is never accepted, nor is a credential whose payload
    /// carries no acceptable claims.
    pub fn validate_token(&self, token: &str) -> (r: Result<Claims, InvalidCredential>)
        ensures
            !has_three_parts(token@) ==> r is Err,
            r matches Ok(claims) ==> exists|payload: serde_json::Value|
                claims_of(payload_of(payload)) == Some(claims@),
    {
        match decode_hs256(self, token, self.secret.as_str(), CLOCK_SKEW_SECONDS, false) {
            Ok(payload) => claims_from_payload(&payload),
            Err(_) => Err(InvalidCredential),
        }
    }
}

} // verus!
