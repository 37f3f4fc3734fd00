//! Account handling: registration validation and conflicts, login form
//! validation and lookup, and session checks.

use wordforge::account::{login, register, validate};
use wordforge::errors::{FormAuthError, LoginError, RegistrationError, UserValidateError};
use wordforge::store::{Storage, User};

const DOMAIN: &str = "example.org";

fn ok_register(store: &mut Storage, name: &str, email: &str) {
    let r = register(
        store, name, name, email, "password123", "hash-of-password", "pub", "priv", "https",
        DOMAIN, 1_000,
    );
    assert!(r.is_ok());
}

#[test]
fn registration_mints_the_canonical_identifier() {
    let mut store = Storage::new();
    ok_register(&mut store, "Walter", "walter@mail.example");
    let u = &store.users[0];
    assert_eq!(u.apub_id, "https://example.org/user/walter");
    assert_eq!(u.preferred_username, "Walter");
    assert_eq!(u.inbox, "https://example.org/user/walter/inbox");
    assert_eq!(u.outbox, "https://example.org/user/walter/outbox");
    assert_eq!(u.password, "hash-of-password");
    assert!(u.private_key.is_some());
}

#[test]
fn registration_rejects_bad_forms() {
    let mut store = Storage::new();
    let bad_name = register(
        &mut store, ".dot", ".dot", "a@mail.example", "password123", "h", "p", "k",
        "https", DOMAIN, 1,
    );
    assert!(matches!(bad_name, Err(RegistrationError::BadRequest(_))));
    let bad_email = register(
        &mut store, "bob", "bob", "not an email", "password123", "h", "p", "k",
        "https", DOMAIN, 1,
    );
    assert!(matches!(bad_email, Err(RegistrationError::BadRequest(_))));
    let short = register(
        &mut store, "bob", "bob", "bob@mail.example", "short", "h", "p", "k", "https",
        DOMAIN, 1,
    );
    assert!(matches!(short, Err(RegistrationError::BadRequest(_))));
    assert_eq!(store.users.len(), 0);
}

#[test]
fn registration_conflicts_ignore_case() {
    let mut store = Storage::new();
    ok_register(&mut store, "alice", "alice@mail.example");
    let email_taken = register(
        &mut store, "other", "other", "ALICE@mail.example", "password123", "h", "p", "k", "https",
        DOMAIN, 2,
    );
    assert!(matches!(
        email_taken,
        Err(RegistrationError::Conflict(FormAuthError::Email))
    ));
    let name_taken = register(
        &mut store, "Alice", "Alice", "fresh@mail.example", "password123", "h", "p", "k", "https",
        DOMAIN, 2,
    );
    assert!(matches!(
        name_taken,
        Err(RegistrationError::Conflict(FormAuthError::Username))
    ));
    assert_eq!(store.users.len(), 1);
}

#[test]
fn login_finds_the_account_by_address() {
    let mut store = Storage::new();
    ok_register(&mut store, "alice", "alice@mail.example");
    let r = login(&store, "ALICE@mail.example", "whatever8", None);
    match r {
        Ok((id, hash)) => {
            assert_eq!(id, "https://example.org/user/alice");
            assert_eq!(hash, "hash-of-password");
        }
        _ => panic!("expected the stored credentials"),
    }
}

#[test]
fn login_rejects_bad_forms_and_unknown_addresses() {
    let store = Storage::new();
    assert!(matches!(
        login(&store, "not an email", "password123", None),
        Err(LoginError::BadRequest(_))
    ));
    assert!(matches!(
        login(&store, "a@mail.example", "short", None),
        Err(LoginError::BadRequest(_))
    ));
    assert!(matches!(
        login(&store, "a@mail.example", "password123", Some("not a url")),
        Err(LoginError::BadRequest(_))
    ));
    assert!(matches!(
        login(
            &store,
            "a@mail.example",
            "password123",
            Some("https://client.example")
        ),
        Err(LoginError::Unauthorized(FormAuthError::Email))
    ));
}

#[test]
fn sessions_are_checked_against_the_store() {
    let mut store = Storage::new();
    ok_register(&mut store, "alice", "alice@mail.example");
    match validate(&store, Some("https://example.org/user/alice")) {
        Ok((id, name)) => {
            assert_eq!(id, "https://example.org/user/alice");
            assert_eq!(name, "alice");
        }
        _ => panic!("expected the signed-in account"),
    }
    assert!(matches!(
        validate(&store, None),
        Err(UserValidateError::Unauthorized(_))
    ));
    assert!(matches!(
        validate(&store, Some("https://example.org/user/ghost")),
        Err(UserValidateError::Unauthorized(_))
    ));
}

#[test]
fn a_taken_identifier_is_an_internal_error() {
    let mut store = Storage::new();
    // an account that already occupies the identifier the new username
    // would mint, under a different short name
    store.users.push(User {
        apub_id: String::from("https://example.org/user/bob"),
        preferred_username: String::from("squatter"),
        name: String::from("Squatter"),
        email: String::from("squat@mail.example"),
        password: String::from("h"),
        inbox: String::from("https://example.org/user/bob/inbox"),
        outbox: String::from("https://example.org/user/bob/outbox"),
        public_key: String::new(),
        private_key: None,
        published: 1,
        last_refresh: 1,
    });
    let r = register(
        &mut store, "Bob", "bob", "bob@mail.example", "password123", "h", "p", "k", "https",
        DOMAIN, 2,
    );
    assert!(matches!(r, Err(RegistrationError::InternalServerError(_))));
    assert_eq!(store.users.len(), 1);
}
