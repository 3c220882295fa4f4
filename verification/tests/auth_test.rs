use champ_node::auth::interceptors::{interceptor_auth, AuthFailure, TokenCheck};
use champ_node::auth::permissions::{verify_perms, PermissionError};
use champ_node::config::UserAccount;
use champ_node::interceptors::interceptor_auth as plain_auth;

fn mock() -> (UserAccount, Vec<UserAccount>) {
    let user = UserAccount {
        permissions: vec![],
        user_id: "5f3c6e1a-user".to_string(),
        password_hash: "hash-of-test".to_string(),
    };
    (user.clone(), vec![user])
}

#[test]
fn unauthenticated() {
    let (_, users) = mock();
    interceptor_auth(&TokenCheck::Missing, &users).expect_err("should not allow missing token");
}

#[test]
fn jwt_tokens() {
    let (user, users) = mock();
    // a token for the user that verified with the node's public key
    let check = TokenCheck::Valid(user.user_id.clone());
    let meta = interceptor_auth(&check, &users).expect("should allow valid token");
    assert_eq!(meta.permissions, user.permissions);
}

#[test]
fn should_err_on_invalid_token() {
    let (_, users) = mock();
    // the token "test" does not verify
    interceptor_auth(&TokenCheck::Invalid, &users).expect_err("should disallow invalid token");
}

#[test]
fn should_err_on_invalid_user() {
    let (_, users) = mock();
    let check = TokenCheck::Valid("invalid_user_id".to_string());
    let r = interceptor_auth(&check, &users);
    assert!(matches!(r, Err(AuthFailure::UserNotFound)), "should disallow nonexisting user");
}

#[test]
fn each_failure_has_its_reason() {
    let (_, users) = mock();
    assert!(matches!(interceptor_auth(&TokenCheck::Missing, &users), Err(AuthFailure::NoToken)));
    assert!(matches!(interceptor_auth(&TokenCheck::Unparsable, &users), Err(AuthFailure::TokenUnparsable)));
    assert!(matches!(interceptor_auth(&TokenCheck::Invalid, &users), Err(AuthFailure::InvalidToken)));
}

#[test]
fn first_matching_user_counts() {
    let a = UserAccount { permissions: vec!["admin.read".to_string()], user_id: "u".to_string(), password_hash: String::new() };
    let b = UserAccount { permissions: vec!["admin.write".to_string()], user_id: "u".to_string(), password_hash: String::new() };
    let meta = interceptor_auth(&TokenCheck::Valid("u".to_string()), &vec![a, b]).expect("user exists");
    assert_eq!(meta.permissions, vec!["admin.read".to_string()]);
}

#[test]
fn root_interceptor_only_checks_the_token() {
    assert!(plain_auth(&TokenCheck::Valid("anyone".to_string())).is_ok());
    assert!(matches!(plain_auth(&TokenCheck::Invalid), Err(AuthFailure::NoToken)));
    assert!(matches!(plain_auth(&TokenCheck::Missing), Err(AuthFailure::NoToken)));
    assert!(matches!(plain_auth(&TokenCheck::Unparsable), Err(AuthFailure::TokenUnparsable)));
}

#[test]
fn superadmin_may_do_everything() {
    let perms = vec!["superadmin".to_string()];
    assert!(verify_perms(Some(&perms), "wallet.create").is_ok());
    assert!(verify_perms(Some(&perms), "admin.write").is_ok());
}

#[test]
fn permission_must_be_held() {
    let perms = vec!["admin.read".to_string()];
    assert!(verify_perms(Some(&perms), "admin.read").is_ok());
    assert!(matches!(verify_perms(Some(&perms), "admin.write"), Err(PermissionError::NoPermissions)));
    assert!(matches!(verify_perms(None, "admin.read"), Err(PermissionError::MetadataMissing)));
    assert!(matches!(verify_perms(Some(&vec![]), "admin.read"), Err(PermissionError::NoPermissions)));
}
