//! Caller authentication at the transport boundary.

use vstd::prelude::*;
use vstd::string::StrSliceExecFns;
use vstd::string::StringExecFns;

verus! {

/// Why a request could not be authenticated.
#[derive(Clone, Copy, Debug, PartialEq, Eq)]
pub enum AuthError {
    InvalidToken,
    TokenExpired,
    MissingHeader,
}

/// The text of each authentication error.
pub open spec fn auth_error_text(e: AuthError) -> Seq<char> {
    match e {
        AuthError::InvalidToken => "Invalid token"@,
        AuthError::TokenExpired => "Token expired"@,
        AuthError::MissingHeader => "Missing authorization header"@,
    }
}

impl AuthError {
    /// The text of this error.
    pub fn to_string(&self) -> (r: String)
        ensures
            r@ == auth_error_text(*self),
    {
        match self {
            AuthError::InvalidToken => String::from_str("Invalid token"),
            AuthError::TokenExpired => String::from_str("Token expired"),
            AuthError::MissingHeader => String::from_str("Missing authorization header"),
        }
    }
}

/// Claims of an authenticated caller; times are seconds since the Unix epoch.
#[derive(Clone, Debug)]
pub struct Claims {
    pub sub: String,
    pub exp: i64,
    pub iat: i64,
}

/// Lifetime of issued claims, in seconds.
pub const CLAIMS_LIFETIME_SECS: i64 = 3600;

/// The token in an `Authorization` header value of the form `Bearer {token}`.
pub open spec fn bearer_token_spec(header: Seq<char>) -> Option<Seq<char>> {
    if header.len() >= 7 && header.subrange(0, 7) == "Bearer "@ {
        Some(header.subrange(7, header.len() as int))
    } else {
        None
    }
}

/// Takes the token out of an `Authorization` header value.
pub fn bearer_token(header: &str) -> (r: Option<String>)
    ensures
        match r {
            Some(t) => bearer_token_spec(header@) == Some(t@),
            None => bearer_token_spec(header@) is None,
        },
{
    let prefix = "Bearer ";
    proof {
        reveal_strlit("Bearer ");
    }
    let n = header.unicode_len();
    if n < 7 {
        return None;
    }
    let head = header.substring_char(0, 7);
    if head.to_owned() == prefix.to_owned() {
        Some(header.substring_char(7, n).to_owned())
    } else {
        None
    }
}

/// Checks a token presented at `now` (seconds since the Unix epoch); only
/// the service's fixed development token is accepted.
pub fn validate_token(token: &str, now: i64) -> (r: Result<Claims, AuthError>)
    requires
        now <= i64::MAX - CLAIMS_LIFETIME_SECS,
    ensures
        token@ == "valid_token"@ ==> (r matches Ok(c) && c.sub@ == "user123"@ && c.iat == now
            && c.exp == now + CLAIMS_LIFETIME_SECS),
        token@ != "valid_token"@ ==> r == Err::<Claims, AuthError>(AuthError::InvalidToken),
{
    if token.to_owned() == "valid_token".to_owned() {
        Ok(Claims { sub: String::from_str("user123"), exp: now + CLAIMS_LIFETIME_SECS, iat: now })
    } else {
        Err(AuthError::InvalidToken)
    }
}

} // verus!
