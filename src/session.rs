//! Session tokens: the claim set, its expiry and its HS256 signature.
use vstd::prelude::*;
use vstd::string::StringExecFns;

verus! {

/// How long a session token stays valid, in seconds (one day).
pub const SESSION_VALIDITY_SECS: i64 = 86400;

/// The role an identity holds.
#[derive(Debug, Clone, Copy, PartialEq, Eq, Structural)]
pub enum Role {
    Investor,
    EnterpriseAdmin,
    PlatformAdmin,
}

/// The name a role carries in a token.
pub open spec fn role_name_of(role: Role) -> Seq<char> {
    match role {
        Role::Investor => seq!['i', 'n', 'v', 'e', 's', 't', 'o', 'r'],
        Role::EnterpriseAdmin => seq!['c', 'r', 'e', 'd', 'i', 't', 'o', 'r'],
        Role::PlatformAdmin => seq!['a', 'd', 'm', 'i', 'n'],
    }
}

/// The name of `role` as it is written into a token.
pub fn role_name(role: Role) -> (r: String)
    ensures
        r@ == role_name_of(role),
{
    match role {
        Role::Investor => {
            proof {
                reveal_strlit("investor");
            }
            String::from_str("investor")
        },
        Role::EnterpriseAdmin => {
            proof {
                reveal_strlit("creditor");
            }
            String::from_str("creditor")
        },
        Role::PlatformAdmin => {
            proof {
                reveal_strlit("admin");
            }
            String::from_str("admin")
        },
    }
}

/// The claims a session token carries.
pub struct Claims {
    /// The normalised wallet address of the holder.
    pub sub: String,
    /// Expiry, in seconds since the Unix epoch.
    pub exp: i64,
    /// The identity record's id.
    pub user_id: String,
    /// The holder's role name.
    pub role: String,
}

/// The claims for a holder, issued at `now`.
pub fn claims_for(address: &String, user_id: &String, role: Role, now: i64) -> (r: Claims)
    requires
        now <= i64::MAX - SESSION_VALIDITY_SECS,
    ensures
        r.sub@ == address@,
        r.exp == now + SESSION_VALIDITY_SECS,
        r.user_id@ == user_id@,
        r.role@ == role_name_of(role),
{
    Claims { sub: address.clone(), exp: now + SESSION_VALIDITY_SECS, user_id: user_id.clone(), role: role_name(role) }
}

#[verifier::external_type_specification]
#[verifier::external_body]
pub struct ExJwtError(jsonwebtoken::errors::Error);

/// The HS256 token that signs the JSON object of the four claims with `secret`.
pub uninterp spec fn hs256_token(sub: Seq<char>, exp: int, user_id: Seq<char>, role: Seq<char>, secret: Seq<u8>) -> Seq<char>;

/// Relies on jsonwebtoken's `encode` with an HS256 header and
/// `EncodingKey::from_secret`: the token depends on the claims and the secret
/// alone, and this combination has no failing path (the key family matches
/// the algorithm, a JSON map always serialises, HMAC signing cannot fail).
#[verifier::external_body]
fn sign_hs256(c: &Claims, secret: &[u8]) -> (r: Result<String, jsonwebtoken::errors::Error>)
    ensures
        r is Ok,
        r is Ok ==> r->Ok_0@ == hs256_token(c.sub@, c.exp as int, c.user_id@, c.role@, secret@),
{
    let payload: serde_json::Map<String, serde_json::Value> = [
        ("sub".to_string(), c.sub.clone().into()),
        ("exp".to_string(), c.exp.into()),
        ("user_id".to_string(), c.user_id.clone().into()),
        ("role".to_string(), c.role.clone().into()),
    ].into_iter().collect();
    let key = jsonwebtoken::EncodingKey::from_secret(secret);
    jsonwebtoken::encode(&jsonwebtoken::Header::new(jsonwebtoken::Algorithm::HS256), &payload, &key)
}

/// Relies on chrono's `Utc::now().timestamp()`: the current time in seconds
/// since the Unix epoch; nothing is assumed of its value.
#[verifier::external_body]
fn now_timestamp() -> (r: i64) {
    chrono::Utc::now().timestamp()
}

/// Why no token could be minted.
#[derive(Debug, Clone, Copy, PartialEq, Eq, Structural)]
pub enum TokenError {
    /// The clock reads a time whose expiry does not fit.
    ClockOutOfRange,
}

/// A signed token for a holder, issued at `now`.
pub fn issue_token_at(address: &String, user_id: &String, role: Role, now: i64, secret: &[u8]) -> (r: String)
    requires
        now <= i64::MAX - SESSION_VALIDITY_SECS,
    ensures
        r@ == hs256_token(address@, now + SESSION_VALIDITY_SECS, user_id@, role_name_of(role), secret@),
{
    let claims = claims_for(address, user_id, role, now);
    match sign_hs256(&claims, secret) {
        Ok(t) => t,
        Err(_) => {
            proof {
                assert(false);
            }
            String::new()
        },
    }
}

/// A signed token for a holder, expiring one day after the current time.
pub fn issue_token(address: &String, user_id: &String, role: Role, secret: &[u8]) -> (r: Result<String, TokenError>)
    ensures
        r is Err ==> r == Err::<String, TokenError>(TokenError::ClockOutOfRange),
        r is Ok ==> exists|now: int| r->Ok_0@ == #[trigger] hs256_token(address@, now + SESSION_VALIDITY_SECS, user_id@, role_name_of(role), secret@),
{
    let now = now_timestamp();
    if now > i64::MAX - SESSION_VALIDITY_SECS {
        return Err(TokenError::ClockOutOfRange);
    }
    Ok(issue_token_at(address, user_id, role, now, secret))
}

} // verus!
