//! The user API: looking an account up by reference, and the discovery
//! endpoint that turns an `acct:name@domain` query into the canonical
//! identifiers of the local actors bearing that name.

use vstd::prelude::*;

verus! {

use crate::objects::Person;
use crate::resolver::{extract_webfinger_name, spec_extract_webfinger_name};
use crate::store::{key_find, lemma_key_find_props, Storage};
use crate::text::{has_char, lower, str_has_char};
use vstd::string::StringExecFns;

/// Failure of a user lookup.
#[derive(Clone, Debug)]
pub enum GetUserError {
    NotFound,
}

/// How a user lookup resolves.
pub enum UserLookup {
    /// The account is local: its published document.
    Found(Person),
    /// A handle of this server's own domain: redirect to the bare name.
    Redirect(String),
    /// A handle of another server: resolve it there.
    Remote(String),
}

/// Looks an account up by reference: a handle of this server's own domain
/// becomes a redirect to the bare name, a handle of another server is the
/// caller's to resolve, and a bare name is read from the local store
/// case-insensitively.
pub fn get_user(store: &Storage, reference: &str, local_domain: &str) -> (r: Result<
    UserLookup,
    GetUserError,
>)
    ensures
        match r {
            Ok(UserLookup::Found(p)) => {
                &&& !has_char(reference@, '@')
                &&& key_find(store.user_name_keys(), lower(reference@)) matches Some(i) && {
                    let u = store.users@[i];
                    &&& p.id@ == u.apub_id@
                    &&& p.preferred_username@ == u.preferred_username@
                    &&& p.name@ == u.name@
                    &&& p.inbox@ == u.inbox@
                    &&& p.outbox@ == u.outbox@
                    &&& p.public_key_pem@ == u.public_key@
                    &&& p.published == u.published
                }
            },
            Ok(UserLookup::Redirect(loc)) => spec_extract_webfinger_name(
                "acct:"@ + reference@,
                local_domain@,
            ) matches Some(name) && loc@ == "/user/"@ + name,
            Ok(UserLookup::Remote(h)) => {
                &&& h@ == reference@
                &&& has_char(reference@, '@')
                &&& spec_extract_webfinger_name("acct:"@ + reference@, local_domain@) is None
            },
            Err(GetUserError::NotFound) => {
                &&& !has_char(reference@, '@')
                &&& key_find(store.user_name_keys(), lower(reference@)) is None
            },
        },
{
    let acct = String::from_str("acct:").concat(reference);
    proof {
        reveal_strlit("acct:");
        assert(acct@ =~= "acct:"@ + reference@);
    }
    match extract_webfinger_name(acct.as_str(), local_domain) {
        Some(name) => {
            let loc = String::from_str("/user/").concat(name.as_str());
            proof {
                assert(loc@ =~= "/user/"@ + name@);
            }
            return Ok(UserLookup::Redirect(loc));
        },
        None => {},
    }
    if str_has_char(reference, '@') {
        return Ok(UserLookup::Remote(String::from_str(reference)));
    }
    match store.find_user_by_name(reference) {
        Some(i) => {
            proof {
                lemma_key_find_props(store.user_name_keys(), lower(reference@));
            }
            Ok(UserLookup::Found(store.users[i].into_json()))
        },
        None => Err(GetUserError::NotFound),
    }
}

/// What an actor is, for discovery answers.
pub enum ActorKind {
    Person,
    Group,
}

/// Failure of a discovery query.
#[derive(Clone, Debug)]
pub enum WebfingerError {
    /// The query is malformed or names another server's domain.
    BadRequest,
    /// No local actor bears the name.
    NotFound,
}

/// Answers a discovery query `acct:name@domain`: the canonical identifiers
/// of the local actors bearing the name, a novel before a person.
pub fn webfinger(store: &Storage, resource: &str, local_domain: &str) -> (r: Result<
    Vec<(String, ActorKind)>,
    WebfingerError,
>)
    ensures
        match r {
            Ok(v) => spec_extract_webfinger_name(resource@, local_domain@) matches Some(name) && {
                let novel = key_find(store.novel_name_keys(), lower(name));
                let user = key_find(store.user_name_keys(), lower(name));
                match (novel, user) {
                    (Some(ni), Some(ui)) => v@.len() == 2 && v@[0].0@
                        == store.novels@[ni].apub_id@ && v@[0].1 is Group && v@[1].0@
                        == store.users@[ui].apub_id@ && v@[1].1 is Person,
                    (Some(ni), None) => v@.len() == 1 && v@[0].0@ == store.novels@[ni].apub_id@
                        && v@[0].1 is Group,
                    (None, Some(ui)) => v@.len() == 1 && v@[0].0@ == store.users@[ui].apub_id@
                        && v@[0].1 is Person,
                    (None, None) => false,
                }
            },
            Err(WebfingerError::BadRequest) => spec_extract_webfinger_name(
                resource@,
                local_domain@,
            ) is None,
            Err(WebfingerError::NotFound) => spec_extract_webfinger_name(
                resource@,
                local_domain@,
            ) matches Some(name) && key_find(store.novel_name_keys(), lower(name)) is None
                && key_find(store.user_name_keys(), lower(name)) is None,
        },
{
    let name = match extract_webfinger_name(resource, local_domain) {
        Some(n) => n,
        None => {
            return Err(WebfingerError::BadRequest);
        },
    };
    proof {
        lemma_key_find_props(store.novel_name_keys(), lower(name@));
        lemma_key_find_props(store.user_name_keys(), lower(name@));
    }
    let mut v: Vec<(String, ActorKind)> = Vec::new();
    match store.find_novel_by_name(name.as_str()) {
        Some(ni) => {
            v.push((store.novels[ni].apub_id.clone(), ActorKind::Group));
        },
        None => {},
    }
    match store.find_user_by_name(name.as_str()) {
        Some(ui) => {
            v.push((store.users[ui].apub_id.clone(), ActorKind::Person));
        },
        None => {},
    }
    if v.len() == 0 {
        return Err(WebfingerError::NotFound);
    }
    Ok(v)
}

} // verus!
