//! Authenticating a request by its token against the configured users.
//!
//! Reading the token from the request and checking its signature happen
//! outside; what they found is handed in as a [`TokenCheck`].
use crate::config::UserAccount;
use vstd::prelude::*;

verus! {

/// Checks the tokens of requests with the node's public key.
#[derive(Debug, Clone)]
pub struct Interceptor {
    pub public_key: String,
}

/// What an authenticated request carries about its user.
#[derive(Debug, Clone)]
pub struct UserMetadata {
    pub permissions: Vec<String>,
}

/// What was found of a request's token.
#[derive(Debug, Clone)]
pub enum TokenCheck {
    /// the request carries no token
    Missing,
    /// the token is not readable text
    Unparsable,
    /// the token's signature or claims did not verify
    Invalid,
    /// the token verified; it names this user id as its subject
    Valid(String),
}

/// Why a request was not authenticated.
#[derive(Debug, Clone, Copy, PartialEq, Eq)]
pub enum AuthFailure {
    /// "No auth token provided"
    NoToken,
    /// "token could not be parsed"
    TokenUnparsable,
    /// "Invalid auth token provided"
    InvalidToken,
    /// "user not found"
    UserNotFound,
}

/// The texts of a list of strings.
pub open spec fn texts(v: Seq<String>) -> Seq<Seq<char>> {
    v.map_values(|s: String| s@)
}

/// The first user, in the order given, whose id is `subject`.
pub open spec fn first_user_with_id(users: Seq<UserAccount>, subject: Seq<char>, i: int) -> bool {
    &&& 0 <= i < users.len()
    &&& users[i].user_id@ == subject
    &&& forall|j: int| 0 <= j < i ==> (#[trigger] users[j]).user_id@ != subject
}

/// `permissions` are those of the first user, in the order given, whose id
/// is `subject`.
pub open spec fn permissions_of_user(users: Seq<UserAccount>, subject: Seq<char>, permissions: Seq<Seq<char>>) -> bool {
    exists|i: int| first_user_with_id(users, subject, i) && permissions == texts((#[trigger] users[i]).permissions@)
}

/// Authenticates a request: a verified token whose subject is the id of a
/// configured user gives that user's permissions; the first such user, in
/// the order of `users` (the configuration's order), counts.
#[verifier::loop_isolation(false)]
pub fn interceptor_auth(check: &TokenCheck, users: &Vec<UserAccount>) -> (r: Result<UserMetadata, AuthFailure>)
    ensures
        match check {
            TokenCheck::Missing => r == Err::<UserMetadata, AuthFailure>(AuthFailure::NoToken),
            TokenCheck::Unparsable => r == Err::<UserMetadata, AuthFailure>(AuthFailure::TokenUnparsable),
            TokenCheck::Invalid => r == Err::<UserMetadata, AuthFailure>(AuthFailure::InvalidToken),
            TokenCheck::Valid(subject) => match r {
                Ok(meta) => permissions_of_user(users@, subject@, texts(meta.permissions@)),
                Err(e) => {
                    &&& e == AuthFailure::UserNotFound
                    &&& forall|i: int| 0 <= i < users@.len() ==> (#[trigger] users@[i]).user_id@ != subject@
                },
            },
        },
{
    match check {
        TokenCheck::Missing => Err(AuthFailure::NoToken),
        TokenCheck::Unparsable => Err(AuthFailure::TokenUnparsable),
        TokenCheck::Invalid => Err(AuthFailure::InvalidToken),
        TokenCheck::Valid(subject) => {
            let mut i: usize = 0;
            while i < users.len()
                invariant
                    i <= users@.len(),
                    forall|j: int| 0 <= j < i ==> (#[trigger] users@[j]).user_id@ != subject@,
                decreases users@.len() - i,
            {
                if users[i].user_id == *subject {
                    let permissions = copy_strings(&users[i].permissions);
                    assert(first_user_with_id(users@, subject@, i as int));
                    return Ok(UserMetadata { permissions });
                }
                i = i + 1;
            }
            Err(AuthFailure::UserNotFound)
        },
    }
}

/// A copy of a list of strings.
pub fn copy_strings(v: &Vec<String>) -> (r: Vec<String>)
    ensures
        texts(r@) == texts(v@),
{
    let mut r: Vec<String> = Vec::new();
    let mut i: usize = 0;
    while i < v.len()
        invariant
            i <= v@.len(),
            r@.len() == i,
            forall|j: int| 0 <= j < i ==> (#[trigger] r@[j])@ == v@[j]@,
        decreases v@.len() - i,
    {
        r.push(v[i].clone());
        i = i + 1;
    }
    assert(texts(r@) =~= texts(v@));
    r
}

} // verus!
