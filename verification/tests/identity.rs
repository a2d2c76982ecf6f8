//! Signup, signin, token and hash behavior through the public surface.

use conduit_core::credentials::{hash_password, issue_token, verify, verify_token};
use conduit_core::errors::AppError;
use conduit_core::hex::{hex_parse, hex_render, str_eq};
use conduit_core::users::{UpdateUser, User, UserDirectory};

#[test]
fn signup_token_carries_new_user_id() {
    let mut d = UserDirectory::new();
    let (user, token) = User::signup(&mut d, "a@x.io", "alice", "secret").unwrap();
    assert_eq!(verify_token(&token).unwrap(), user.id);
    assert_eq!(user.id, 0u128);
    assert_eq!(user.email, "a@x.io");
    assert_eq!(user.username, "alice");
}

#[test]
fn signup_duplicate_email_and_username() {
    let mut d = UserDirectory::new();
    User::signup(&mut d, "a@x.io", "alice", "secret").unwrap();
    let same_email = User::signup(&mut d, "a@x.io", "bob", "pw123");
    assert_eq!(same_email.unwrap_err(), AppError::DuplicateEmail);
    let same_username = User::signup(&mut d, "b@x.io", "alice", "pw123");
    assert_eq!(same_username.unwrap_err(), AppError::DuplicateUsername);
    let ok = User::signup(&mut d, "b@x.io", "bob", "pw123");
    assert!(ok.is_ok());
}

#[test]
fn signup_empty_password_is_credential_error() {
    let mut d = UserDirectory::new();
    let r = User::signup(&mut d, "a@x.io", "alice", "");
    assert_eq!(r.unwrap_err(), AppError::CredentialError);
}

#[test]
fn signin_correct_password_succeeds_and_hash_differs() {
    let mut d = UserDirectory::new();
    let (created, _) = User::signup(&mut d, "a@x.io", "alice", "secret").unwrap();
    assert_ne!(created.password, "secret");
    let (user, token) = User::signin(&d, "a@x.io", "secret").unwrap();
    assert_eq!(user.id, created.id);
    assert_ne!(user.password, "secret");
    assert_eq!(verify_token(&token).unwrap(), user.id);
}

#[test]
fn signin_wrong_password_and_unknown_email_give_same_error() {
    let mut d = UserDirectory::new();
    User::signup(&mut d, "a@x.io", "alice", "secret").unwrap();
    let wrong_pw = User::signin(&d, "a@x.io", "wrong").unwrap_err();
    let no_user = User::signin(&d, "nobody@x.io", "secret").unwrap_err();
    assert_eq!(wrong_pw, AppError::InvalidCredentials);
    assert_eq!(no_user, AppError::InvalidCredentials);
    assert_eq!(wrong_pw, no_user);
}

#[test]
fn find_by_id_and_username() {
    let mut d = UserDirectory::new();
    let (u, _) = User::signup(&mut d, "a@x.io", "alice", "secret").unwrap();
    assert_eq!(User::find(&d, u.id).unwrap().username, "alice");
    assert_eq!(User::find(&d, 7).unwrap_err(), AppError::NotFound);
    assert_eq!(User::find_by_username(&d, "alice").unwrap().id, u.id);
    assert_eq!(
        User::find_by_username(&d, "bob").unwrap_err(),
        AppError::NotFound
    );
}

#[test]
fn update_changes_only_provided_fields() {
    let mut d = UserDirectory::new();
    let (u, _) = User::signup(&mut d, "a@x.io", "alice", "secret").unwrap();
    let changed = User::update(
        &mut d,
        u.id,
        UpdateUser {
            email: None,
            username: None,
            password: None,
            image: None,
            bio: Some("hello".to_string()),
        },
    )
    .unwrap();
    assert_eq!(changed.email, "a@x.io");
    assert_eq!(changed.username, "alice");
    assert_eq!(changed.bio.as_deref(), Some("hello"));
    assert_eq!(changed.image, None);
    assert_eq!(changed.created_at, u.created_at);
}

#[test]
fn update_rejects_taken_email_and_unknown_id() {
    let mut d = UserDirectory::new();
    let (a, _) = User::signup(&mut d, "a@x.io", "alice", "secret").unwrap();
    User::signup(&mut d, "b@x.io", "bob", "secret").unwrap();
    let dup = User::update(
        &mut d,
        a.id,
        UpdateUser {
            email: Some("b@x.io".to_string()),
            username: None,
            password: None,
            image: None,
            bio: None,
        },
    );
    assert_eq!(dup.unwrap_err(), AppError::DuplicateEmail);
    let missing = User::update(
        &mut d,
        42,
        UpdateUser {
            email: None,
            username: None,
            password: None,
            image: None,
            bio: None,
        },
    );
    assert_eq!(missing.unwrap_err(), AppError::NotFound);
}

#[test]
fn password_hash_verifies_only_its_own_plaintext() {
    let h = hash_password("secret", 9).unwrap();
    assert!(verify("secret", &h));
    assert!(!verify("Secret", &h));
    assert!(!verify("", &h));
    assert!(!verify("secret", "not-a-hash"));
    assert_eq!(
        hash_password("", 9).unwrap_err(),
        AppError::CredentialError
    );
}

#[test]
fn token_encoding_is_exact_and_rejects_garbage() {
    let t = issue_token(1, 2);
    assert_eq!(
        t,
        "t000000000000000000000000000000010000000000000002"
    );
    assert_eq!(verify_token(&t).unwrap(), 1u128);
    assert_eq!(verify_token("").unwrap_err(), AppError::TokenInvalid);
    assert_eq!(
        verify_token("x000000000000000000000000000000010000000000000002").unwrap_err(),
        AppError::TokenInvalid
    );
    assert_eq!(
        verify_token("t0000000000000000000000000000000g0000000000000002").unwrap_err(),
        AppError::TokenInvalid
    );
}

#[test]
fn generated_token_is_bound_to_its_user() {
    let mut d = UserDirectory::new();
    let (alice, _) = User::signup(&mut d, "a@x.io", "alice", "secret").unwrap();
    let (bob, _) = User::signup(&mut d, "b@x.io", "bob", "secret2").unwrap();
    let t_alice = alice.generate_token().unwrap();
    let t_bob = bob.generate_token().unwrap();
    assert_eq!(verify_token(&t_alice).unwrap(), alice.id);
    assert_eq!(verify_token(&t_bob).unwrap(), bob.id);
    assert_ne!(t_alice, t_bob);
}

#[test]
fn hex_rendering_and_parsing_round_trip() {
    assert_eq!(hex_render(255, 4), "00ff");
    assert_eq!(hex_render(0xdead_beef, 8), "deadbeef");
    assert_eq!(hex_parse("00ff", 0, 4), Some(255));
    assert_eq!(hex_parse("zz", 0, 2), None);
    assert!(str_eq("same", "same"));
    assert!(!str_eq("same", "sane"));
}
