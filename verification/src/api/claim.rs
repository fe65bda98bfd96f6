use vstd::prelude::*;

use crate::time;

verus! {

/// How long an issued claim stays valid, in milliseconds: seven days.
pub const CLAIM_LIFETIME_MILLIS: i64 = 604_800_000;

/// The bearer claim carried by an authorized request: the subject it was
/// issued to, the moment it was issued and the moment it expires, both in
/// milliseconds since the epoch.
pub struct Claim {
    sub: String,
    iat: i64,
    exp: i64,
}

/// The mathematical value of a `Claim`.
pub struct ClaimView {
    pub sub: Seq<char>,
    pub iat: i64,
    pub exp: i64,
}

impl View for Claim {
    type V = ClaimView;

    closed spec fn view(&self) -> ClaimView {
        ClaimView { sub: self.sub@, iat: self.iat, exp: self.exp }
    }
}

impl Claim {
    /// A claim with the given parts, exactly as handed in.
    pub fn with_parts(sub: String, iat: i64, exp: i64) -> (r: Self)
        ensures
            r@.sub == sub@,
            r@.iat == iat,
            r@.exp == exp,
    {
        Self { sub, iat, exp }
    }

    /// A claim issued at `now` to `identifier`, expiring one lifetime later.
    pub fn with_identifier_at(identifier: String, now: i64) -> (r: Self)
        requires
            now <= i64::MAX - CLAIM_LIFETIME_MILLIS,
        ensures
            r@.sub == identifier@,
            r@.iat == now,
            r@.exp == now + CLAIM_LIFETIME_MILLIS,
    {
        Self { sub: identifier, iat: now, exp: now + CLAIM_LIFETIME_MILLIS }
    }

    /// A claim issued to `identifier` at the current wall clock.
    pub fn with_identifier(identifier: String) -> (r: Self)
        ensures
            r@.sub == identifier@,
            r@.exp == r@.iat + CLAIM_LIFETIME_MILLIS,
            -time::TIMESTAMP_MILLIS_BOUND < r@.iat < time::TIMESTAMP_MILLIS_BOUND,
    {
        let now = time::timestamp_millis();
        Self::with_identifier_at(identifier, now)
    }

    /// The subject the claim was issued to.
    pub fn subject(&self) -> (r: &String)
        ensures
            r@ == self@.sub,
    {
        &self.sub
    }

    /// The moment the claim was issued, in milliseconds since the epoch.
    pub fn issued_at(&self) -> (r: i64)
        ensures
            r == self@.iat,
    {
        self.iat
    }

    /// The moment the claim expires, in milliseconds since the epoch.
    pub fn expires_at(&self) -> (r: i64)
        ensures
            r == self@.exp,
    {
        self.exp
    }

    /// Whether the claim is expired when judged at the moment `now`.
    pub fn is_expired_at(&self, now: i64) -> (r: bool)
        ensures
            r == (self@.exp < now),
    {
        time::is_expired_at(self.exp, now)
    }

    /// Whether the claim is expired at the current wall clock.
    pub fn is_expired(&self) -> (r: bool)
        ensures
            self@.exp >= time::TIMESTAMP_MILLIS_BOUND ==> !r,
    {
        time::is_timestamp_millis_expired(self.exp)
    }
}

/// What can go wrong while issuing or accepting a claim.
#[derive(Clone, Copy, Debug, PartialEq, Eq, Structural)]
pub enum ClaimError {
    TokenCreation,
    InvalidToken,
    ExpiredToken,
}

impl ClaimError {
    /// The human-readable message for each failure.
    pub fn message(&self) -> (r: String)
        ensures
            *self is TokenCreation ==> r@ == "Token creation error"@,
            *self is InvalidToken ==> r@ == "Invalid token"@,
            *self is ExpiredToken ==> r@ == "Expired token"@,
    {
        match self {
            Self::TokenCreation => String::from_str("Token creation error"),
            Self::InvalidToken => String::from_str("Invalid token"),
            Self::ExpiredToken => String::from_str("Expired token"),
        }
    }
}

} // verus!
