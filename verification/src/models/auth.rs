//! The claim set of the backend's bearer tokens. Signing and verifying the
//! token itself is a collaborator's work; this module fixes what the claims
//! say.

use vstd::prelude::*;

verus! {

/// How long a token stays valid, in seconds (thirty days).
pub const ONE_MONTH_SECONDS: i64 = 60 * 60 * 24 * 30;

/// The claims carried by one token: the subject, the validity window, and
/// the identity of the user the token was issued to.
pub struct Claims {
    pub sub: String,
    pub exp: i64,
    pub iat: i64,
    pub nbf: i64,
    pub user_id: String,
    pub user_lastname: String,
    pub user_firstname: String,
    pub user_email: String,
}

/// Namespace of the token operations.
pub struct JWT {}

impl Claims {
    /// The claim set of a token issued at `now` to the given user: the
    /// subject is the user's id, the token is valid from `now` on and
    /// expires one month later.
    pub fn build(
        user_id: String,
        user_lastname: String,
        user_firstname: String,
        user_email: String,
        now: i64,
    ) -> (c: Claims)
        requires
            now <= i64::MAX - ONE_MONTH_SECONDS,
        ensures
            c.sub == user_id,
            c.exp == now + ONE_MONTH_SECONDS,
            c.iat == now,
            c.nbf == now,
            c.user_id == user_id,
            c.user_lastname == user_lastname,
            c.user_firstname == user_firstname,
            c.user_email == user_email,
    {
        let sub = user_id.clone();
        Claims {
            sub,
            exp: now + ONE_MONTH_SECONDS,
            iat: now,
            nbf: now,
            user_id,
            user_lastname,
            user_firstname,
            user_email,
        }
    }
}

} // verus!
