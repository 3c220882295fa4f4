//! The user service: logging a user of the node's API in. Checking the
//! password against its hash and signing the token happen outside; what
//! they gave is handed in.
use crate::config::UserAccount;
use crate::rpc::account::{fails_with, RpcStatus};
use vstd::prelude::*;

verus! {

broadcast use vstd::string::group_string_axioms;

/// `s` in lower case, as `str::to_lowercase` gives it (Unicode lower case,
/// a function of the text alone).
pub uninterp spec fn lowercased(s: Seq<char>) -> Seq<char>;

/// `s` in lower case, through `str::to_lowercase`.
#[verifier::external_body]
fn to_lowercase(s: &str) -> (r: String)
    ensures
        r@ == lowercased(s@),
{
    s.to_lowercase()
}

/// The user `username` (in lower case) is the entry at `i`, the first with
/// that name.
pub open spec fn user_entry_at(users: Seq<(String, UserAccount)>, username: Seq<char>, i: int) -> bool {
    &&& 0 <= i < users.len()
    &&& users[i].0@ == username
    &&& forall|j: int| 0 <= j < i ==> (#[trigger] users[j]).0@ != username
}

/// Logs users in.
#[derive(Debug)]
pub struct NodeUserService {}

impl NodeUserService {
    /// The user service.
    pub fn new() -> (r: Self) {
        NodeUserService {  }
    }

    /// The configured user named `name` (already in lower case): the first
    /// entry of `users` with that name.
    pub fn find_user_named<'a>(&self, users: &'a Vec<(String, UserAccount)>, name: &String) -> (r: Result<
        &'a UserAccount,
        RpcStatus,
    >)
        ensures
            match r {
                Ok(account) => exists|i: int| user_entry_at(users@, name@, i) && *account == (#[trigger] users@[i]).1,
                Err(s) => s.message@ == "invalid username"@ && forall|i: int|
                    0 <= i < users@.len() ==> (#[trigger] users@[i]).0@ != name@,
            },
    {
        let mut i: usize = 0;
        while i < users.len()
            invariant
                i <= users@.len(),
                forall|j: int| 0 <= j < i ==> (#[trigger] users@[j]).0@ != name@,
            decreases users@.len() - i,
        {
            if users[i].0 == *name {
                assert(user_entry_at(users@, name@, i as int));
                return Ok(&users[i].1);
            }
            i = i + 1;
        }
        proof {
            reveal_strlit("invalid username");
        }
        Err(RpcStatus { message: "invalid username".to_string() })
    }

    /// The account a login names: user names are compared in lower case
    /// with the names of the configured users (`users`, the configuration's
    /// entries); the name that was looked up comes back with the account.
    pub fn find_user<'a>(&self, users: &'a Vec<(String, UserAccount)>, username: &str) -> (r: Result<
        (String, &'a UserAccount),
        RpcStatus,
    >)
        ensures
            match r {
                Ok((name, account)) => name@ == lowercased(username@) && exists|i: int|
                    user_entry_at(users@, lowercased(username@), i) && *account == (#[trigger] users@[i]).1,
                Err(s) => s.message@ == "invalid username"@ && forall|i: int|
                    0 <= i < users@.len() ==> (#[trigger] users@[i]).0@ != lowercased(username@),
            },
    {
        let name = to_lowercase(username);
        match self.find_user_named(users, &name) {
            Ok(account) => Ok((name, account)),
            Err(e) => Err(e),
        }
    }

    /// The answer to a login once the password was checked and, if it
    /// matched, a token was signed: the token, "invalid password", or "could
    /// not create token".
    pub fn login_answer(&self, password_ok: bool, token: Option<String>) -> (r: Result<String, RpcStatus>)
        ensures
            !password_ok ==> fails_with(r, "invalid password"@),
            password_ok ==> match token {
                Some(t) => r matches Ok(s) && s@ == t@,
                None => fails_with(r, "could not create token"@),
            },
    {
        proof {
            reveal_strlit("invalid password");
            reveal_strlit("could not create token");
        }
        if !password_ok {
            return Err(RpcStatus { message: "invalid password".to_string() });
        }
        match token {
            Some(t) => Ok(t),
            None => Err(RpcStatus { message: "could not create token".to_string() }),
        }
    }
}

} // verus!
