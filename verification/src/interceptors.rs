//! Authenticating requests to the node's services by their token alone.
//!
//! Reading the token from the request and checking its signature happen
//! outside; what they found is handed in as a [`TokenCheck`].
use crate::auth::interceptors::{AuthFailure, TokenCheck};
use vstd::prelude::*;

verus! {

/// Checks the tokens of requests with the node's public key.
#[derive(Debug, Clone)]
pub struct Interceptor {
    pub public_key: String,
}

/// Lets a request through when its token verified. A token that did not
/// verify is answered as a missing one ("No auth token provided").
pub fn interceptor_auth(check: &TokenCheck) -> (r: Result<(), AuthFailure>)
    ensures
        match check {
            TokenCheck::Valid(_) => r is Ok,
            TokenCheck::Unparsable => r == Err::<(), AuthFailure>(AuthFailure::TokenUnparsable),
            TokenCheck::Missing | TokenCheck::Invalid => r == Err::<(), AuthFailure>(AuthFailure::NoToken),
        },
{
    match check {
        TokenCheck::Missing => Err(AuthFailure::NoToken),
        TokenCheck::Unparsable => Err(AuthFailure::TokenUnparsable),
        TokenCheck::Invalid => Err(AuthFailure::NoToken),
        TokenCheck::Valid(_) => Ok(()),
    }
}

} // verus!
