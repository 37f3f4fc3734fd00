//! Account handling at this server's edge: checking a session against the
//! local account store, validating login and registration forms, and
//! minting a new local actor.  Password hashing and key generation are
//! collaborators' work; their results come in as arguments.

use vstd::prelude::*;

verus! {

use crate::errors::{FormAuthError, LoginError, RegistrationError, UserValidateError};
use crate::outside::{email_format_ok, email_ok, url_format_ok, url_ok};
use crate::store::{key_find, lemma_key_find_props, User, Storage};
use crate::text::{ascii_lower, check_username, lower, valid_username};
use vstd::string::StringExecFns;

/// Checks a session: the session's actor identifier must name an account
/// of this server.  Returns the account's canonical identifier and display
/// name.
pub fn validate(store: &Storage, session_id: Option<&str>) -> (r: Result<
    (String, String),
    UserValidateError,
>)
    ensures
        match r {
            Ok(p) => session_id matches Some(sid) && key_find(
                store.user_id_keys(),
                lower(sid@),
            ) matches Some(i) && p.0@ == store.users@[i].apub_id@ && p.1@ == store.users@[i].name@,
            Err(UserValidateError::Unauthorized(_)) => match session_id {
                None => true,
                Some(sid) => key_find(store.user_id_keys(), lower(sid@)) is None,
            },
            Err(_) => false,
        },
{
    let sid = match session_id {
        Some(s) => s,
        None => {
            return Err(UserValidateError::Unauthorized(String::from_str("Not signed in")));
        },
    };
    match store.find_user_by_id(sid) {
        Some(i) => {
            proof {
                lemma_key_find_props(store.user_id_keys(), lower(sid@));
            }
            Ok((store.users[i].apub_id.clone(), store.users[i].name.clone()))
        },
        None => Err(UserValidateError::Unauthorized(String::from_str("Expired session"))),
    }
}

/// Validates a login form and looks the account up by its contact address.
/// Returns the account's canonical identifier and its stored password
/// hash; the caller's password-verification collaborator decides whether
/// the login stands, so no success is promised of the password itself.
pub fn login(store: &Storage, email: &str, password: &str, client_website: Option<&str>) -> (r:
    Result<(String, String), LoginError>)
    ensures
        match r {
            Ok(p) => {
                &&& email_ok(email@)
                &&& password@.len() >= 8
                &&& match client_website {
                    Some(w) => url_ok(w@),
                    None => true,
                }
                &&& key_find(store.user_email_keys(), lower(email@)) matches Some(i) && p.0@
                    == store.users@[i].apub_id@ && p.1@ == store.users@[i].password@
            },
            Err(LoginError::BadRequest(_)) => !email_ok(email@) || password@.len() < 8 || (
            client_website matches Some(w) && !url_ok(w@)),
            Err(LoginError::Unauthorized(FormAuthError::Email)) => {
                &&& email_ok(email@)
                &&& password@.len() >= 8
                &&& match client_website {
                    Some(w) => url_ok(w@),
                    None => true,
                }
                &&& key_find(store.user_email_keys(), lower(email@)) is None
            },
            Err(_) => false,
        },
{
    if !email_format_ok(email) {
        return Err(LoginError::BadRequest(String::from_str("invalid email")));
    }
    if password.unicode_len() < 8 {
        return Err(LoginError::BadRequest(String::from_str("password too short")));
    }
    match client_website {
        Some(w) => {
            if !url_format_ok(w) {
                return Err(LoginError::BadRequest(String::from_str("invalid website")));
            }
        },
        None => {},
    }
    match store.find_user_by_email(email) {
        Some(i) => {
            proof {
                lemma_key_find_props(store.user_email_keys(), lower(email@));
            }
            Ok((store.users[i].apub_id.clone(), store.users[i].password.clone()))
        },
        None => Err(LoginError::Unauthorized(FormAuthError::Email)),
    }
}

/// Registers a local account.  The username must satisfy the local name
/// grammar, the contact address the e-mail grammar, and the password a
/// minimum length; the username and address must be free, without regard
/// to case.  The password hash and the actor's key pair come from the
/// caller's collaborators.  The new account's canonical identifier is
/// minted from the username, lower-cased.
pub fn register(
    store: &mut Storage,
    display_name: &str,
    username: &str,
    email: &str,
    password: &str,
    password_hash: &str,
    public_key: &str,
    private_key: &str,
    scheme: &str,
    local_domain: &str,
    now: i64,
) -> (r: Result<(), RegistrationError>)
    requires
        old(store).wf(),
    ensures
        final(store).wf(),
        final(store).novels@ == old(store).novels@,
        final(store).author_roles@ == old(store).author_roles@,
        final(store).chapters@ == old(store).chapters@,
        match r {
            Ok(()) => {
                &&& valid_username(username@)
                &&& email_ok(email@)
                &&& password@.len() >= 8
                &&& key_find(old(store).user_email_keys(), lower(email@)) is None
                &&& key_find(old(store).user_name_keys(), lower(username@)) is None
                &&& key_find(
                    old(store).user_id_keys(),
                    lower(lower(scheme@ + "://"@ + local_domain@ + "/user/"@ + lower(username@))),
                ) is None
                &&& {
                    let u = final(store).users@.last();
                    &&& final(store).users@ == old(store).users@.push(u)
                    &&& u.apub_id@ == lower(
                        scheme@ + "://"@ + local_domain@ + "/user/"@ + lower(username@),
                    )
                    &&& u.preferred_username@ == username@
                    &&& u.name@ == display_name@
                    &&& u.email@ == email@
                    &&& u.password@ == password_hash@
                    &&& u.inbox@ == u.apub_id@ + "/inbox"@
                    &&& u.outbox@ == u.apub_id@ + "/outbox"@
                    &&& u.public_key@ == public_key@
                    &&& u.private_key matches Some(k) && k@ == private_key@
                    &&& u.published == now
                }
            },
            Err(RegistrationError::BadRequest(_)) => {
                &&& !valid_username(username@) || !email_ok(email@) || password@.len() < 8
                &&& final(store).users@ == old(store).users@
            },
            Err(RegistrationError::Conflict(FormAuthError::Email)) => {
                &&& valid_username(username@) && email_ok(email@) && password@.len() >= 8
                &&& key_find(old(store).user_email_keys(), lower(email@)) is Some
                &&& final(store).users@ == old(store).users@
            },
            Err(RegistrationError::Conflict(FormAuthError::Username)) => {
                &&& valid_username(username@) && email_ok(email@) && password@.len() >= 8
                &&& key_find(old(store).user_email_keys(), lower(email@)) is None
                &&& key_find(old(store).user_name_keys(), lower(username@)) is Some
                &&& final(store).users@ == old(store).users@
            },
            Err(RegistrationError::Conflict(FormAuthError::Password)) => false,
            Err(RegistrationError::InternalServerError(_)) => {
                &&& valid_username(username@) && email_ok(email@) && password@.len() >= 8
                &&& key_find(old(store).user_email_keys(), lower(email@)) is None
                &&& key_find(old(store).user_name_keys(), lower(username@)) is None
                &&& key_find(
                    old(store).user_id_keys(),
                    lower(lower(scheme@ + "://"@ + local_domain@ + "/user/"@ + lower(username@))),
                ) is Some
                &&& final(store).users@ == old(store).users@
            },
        },
{
    if !check_username(username) {
        return Err(RegistrationError::BadRequest(String::from_str("Invalid username")));
    }
    if !email_format_ok(email) {
        return Err(RegistrationError::BadRequest(String::from_str("invalid email")));
    }
    if password.unicode_len() < 8 {
        return Err(RegistrationError::BadRequest(String::from_str("password too short")));
    }
    if store.find_user_by_email(email).is_some() {
        return Err(RegistrationError::Conflict(FormAuthError::Email));
    }
    if store.find_user_by_name(username).is_some() {
        return Err(RegistrationError::Conflict(FormAuthError::Username));
    }
    let lowname = ascii_lower(username);
    let mut base = String::from_str(scheme);
    base.append("://");
    base.append(local_domain);
    base.append("/user/");
    base.append(lowname.as_str());
    proof {
        assert(base@ =~= scheme@ + "://"@ + local_domain@ + "/user/"@ + lower(username@));
    }
    let apub_id = ascii_lower(base.as_str());
    let inbox = apub_id.clone().concat("/inbox");
    let outbox = apub_id.clone().concat("/outbox");
    if store.find_user_by_id(apub_id.as_str()).is_some() {
        return Err(
            RegistrationError::InternalServerError(String::from_str("identifier already present")),
        );
    }
    proof {
        lemma_key_find_props(store.user_id_keys(), lower(apub_id@));
        lemma_key_find_props(store.user_name_keys(), lower(username@));
    }
    let u = User {
        apub_id,
        preferred_username: String::from_str(username),
        name: String::from_str(display_name),
        email: String::from_str(email),
        password: String::from_str(password_hash),
        inbox,
        outbox,
        public_key: String::from_str(public_key),
        private_key: Some(String::from_str(private_key)),
        published: now,
        last_refresh: now,
    };
    let ghost pre = *store;
    store.users.push(u);
    proof {
        let us = store.users@;
        let n = us.len() - 1;
        assert(us.drop_last() =~= pre.users@);
        assert forall|i: int, j: int| 0 <= i < j < us.len() implies {
            &&& lower(#[trigger] us[i].apub_id@) != lower(#[trigger] us[j].apub_id@)
            &&& lower(us[i].preferred_username@) != lower(us[j].preferred_username@)
        } by {
            if j < n {
                assert(pre.users@[i] == us[i] && pre.users@[j] == us[j]);
            } else {
                assert(us[i] == pre.users@[i]);
                assert(pre.user_id_keys()[i] == lower(pre.users@[i].apub_id@));
                assert(pre.user_name_keys()[i] == lower(pre.users@[i].preferred_username@));
            }
        }
    }
    Ok(())
}

} // verus!
