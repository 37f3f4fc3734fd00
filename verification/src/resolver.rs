//! The identity resolver: turns a loosely-typed actor reference — a bare
//! local name, a `name@domain` handle, or a full canonical identifier —
//! into a lookup against the local store or an instruction to consult a
//! remote collaborator.  Also the domain-match check applied to fetched
//! documents, and the staleness test for cached mirrors.

use vstd::prelude::*;

verus! {

use crate::store::{key_find, lemma_key_find_props, Storage};
use crate::text::{
    authority, authority_of, eq_ignore_case, find_char, has_scheme_sep, lemma_find_char_none,
    lemma_find_char_props, lemma_find_char_some, lemma_lower_idempotent, lower, scheme_sep_at,
    str_eq, str_find_char, str_has_scheme_sep,
};
use vstd::string::StringExecFns;

/// How a reference reads, at the specification level.
pub enum RefClass {
    /// A bare name, or a handle whose domain is this server's own.
    Local(Seq<char>),
    /// A handle naming another server.
    Remote(Seq<char>, Seq<char>),
    /// A full canonical identifier.
    Canonical(Seq<char>),
}

/// How a reference reads: a bare name, a handle, or a full identifier.
pub enum RefTarget {
    /// A bare name, or a handle whose domain is this server's own.
    Local(String),
    /// A handle naming another server: name, then domain.
    Remote(String, String),
    /// A full canonical identifier.
    Canonical(String),
}

/// Classifies a reference.  A string containing `://` is a canonical
/// identifier; otherwise the part after the first `@` names a server, and a
/// handle whose domain is this server's own is the same as the bare name —
/// domains compare without regard to ASCII case.
pub open spec fn spec_classify(s: Seq<char>, local_domain: Seq<char>) -> RefClass {
    if has_scheme_sep(s) {
        RefClass::Canonical(s)
    } else {
        match find_char(s, '@') {
            Some(i) => {
                let name = s.subrange(0, i);
                let d = s.subrange(i + 1, s.len() as int);
                if lower(d) == lower(local_domain) {
                    RefClass::Local(name)
                } else {
                    RefClass::Remote(name, d)
                }
            },
            None => RefClass::Local(s),
        }
    }
}

/// Classifies a reference string.
pub fn classify(s: &str, local_domain: &str) -> (r: RefTarget)
    ensures
        match r {
            RefTarget::Local(name) => spec_classify(s@, local_domain@) == RefClass::Local(name@),
            RefTarget::Remote(name, d) => spec_classify(s@, local_domain@) == RefClass::Remote(
                name@,
                d@,
            ),
            RefTarget::Canonical(u) => spec_classify(s@, local_domain@) == RefClass::Canonical(u@)
                && u@ == s@,
        },
{
    if str_has_scheme_sep(s) {
        return RefTarget::Canonical(String::from_str(s));
    }
    let len: usize = s.unicode_len();
    match str_find_char(s, '@') {
        Some(i) => {
            proof {
                lemma_find_char_props(s@, '@');
            }
            let name = String::from_str(s.substring_char(0, i));
            let d = String::from_str(s.substring_char(i + 1, len));
            if eq_ignore_case(d.as_str(), local_domain) {
                RefTarget::Local(name)
            } else {
                RefTarget::Remote(name, d)
            }
        },
        None => RefTarget::Local(String::from_str(s)),
    }
}

/// A handle `name@domain` whose domain is this server's own resolves
/// exactly as the bare `name` does: both classify as the same local name.
/// The name must not contain `@` or `:`, and the domain must not contain
/// `@` nor a scheme separator, which holds of every name and domain the
/// protocol mints.
pub proof fn lemma_local_handle_equivalent(name: Seq<char>, dom: Seq<char>)
    requires
        forall|i: int| 0 <= i < name.len() ==> name[i] != '@' && name[i] != ':',
        forall|i: int| 0 <= i < dom.len() ==> dom[i] != '@',
        !has_scheme_sep(dom),
    ensures
        spec_classify(name + seq!['@'] + dom, dom) == spec_classify(name, dom),
        spec_classify(name, dom) == RefClass::Local(name),
{
    let s = name + seq!['@'] + dom;
    let nl = name.len() as int;
    // The concatenation has no scheme separator: a `:` can only come from
    // the domain part.
    assert(!has_scheme_sep(s)) by {
        if has_scheme_sep(s) {
            let i = choose|i: int| scheme_sep_at(s, i);
            assert(s[i] == ':');
            assert(i > nl) by {
                if i < nl {
                    assert(s[i] == name[i]);
                } else if i == nl {
                    assert(s[i] == '@');
                }
            }
            assert(scheme_sep_at(dom, i - nl - 1)) by {
                assert(dom[i - nl - 1] == s[i]);
                assert(dom[i - nl] == s[i + 1]);
                assert(dom[i - nl + 1] == s[i + 2]);
            }
        }
    }
    // The first `@` of the concatenation is the one between name and domain.
    assert(find_char(s, '@') == Some(nl)) by {
        assert(s[nl] == '@');
        assert forall|j: int| 0 <= j < nl implies s[j] != '@' by {
            assert(s[j] == name[j]);
        }
        lemma_find_char_some(s, '@', nl);
    }
    assert(s.subrange(0, nl) =~= name);
    assert(s.subrange(nl + 1, s.len() as int) =~= dom);
    // The bare name has no scheme separator and no `@`.
    assert(!has_scheme_sep(name)) by {
        if has_scheme_sep(name) {
            let i = choose|i: int| scheme_sep_at(name, i);
        }
    }
    assert(find_char(name, '@') is None) by {
        lemma_find_char_none(name, '@');
    }
}

/// Looking a name up case-insensitively means the case of the query cannot
/// matter: a name and its lower-cased form find the same account.
pub proof fn lemma_case_insensitive_user_lookup(s: Storage, name: Seq<char>)
    ensures
        key_find(s.user_name_keys(), lower(name)) == key_find(
            s.user_name_keys(),
            lower(lower(name)),
        ),
{
    lemma_lower_idempotent(name);
}

/// More generally: two queries that agree up to ASCII case find the same
/// account.
pub proof fn lemma_case_insensitive_user_lookup_general(s: Storage, a: Seq<char>, b: Seq<char>)
    requires
        lower(a) == lower(b),
    ensures
        key_find(s.user_name_keys(), lower(a)) == key_find(s.user_name_keys(), lower(b)),
{
}

/// Whether two canonical identifiers declare the same authority, without
/// regard to ASCII case.  A fetched document is accepted only when its
/// declared identifier's authority matches the authority it was fetched
/// from.
pub open spec fn spec_domains_match(a: Seq<char>, b: Seq<char>) -> bool {
    &&& has_scheme_sep(a)
    &&& has_scheme_sep(b)
    &&& lower(authority_of(a)) == lower(authority_of(b))
}

/// Checks the domain-match condition on two canonical identifiers.
pub fn domains_match(a: &str, b: &str) -> (r: bool)
    ensures
        r == spec_domains_match(a@, b@),
{
    let aa = authority(a);
    let ab = authority(b);
    match (aa, ab) {
        (Some(x), Some(y)) => eq_ignore_case(x.as_str(), y.as_str()),
        _ => false,
    }
}

/// Whether a cached mirror is old enough to warrant refetching: its last
/// refresh lies more than `max_age_ms` milliseconds before `now`.  The
/// threshold is the caller's policy; no eviction is implied.
pub open spec fn spec_is_stale(last_refresh: i64, now: i64, max_age_ms: i64) -> bool {
    now - last_refresh > max_age_ms
}

/// Checks the staleness policy.
pub fn is_stale(last_refresh: i64, now: i64, max_age_ms: i64) -> (r: bool)
    ensures
        r == spec_is_stale(last_refresh, now, max_age_ms),
{
    (now as i128) - (last_refresh as i128) > (max_age_ms as i128)
}

/// The name of a discovery query `acct:name@domain`, when the resource is
/// well-formed and names this server's own domain.
pub open spec fn spec_extract_webfinger_name(s: Seq<char>, local_domain: Seq<char>) -> Option<
    Seq<char>,
> {
    if s.len() >= 5 && s.subrange(0, 5) == "acct:"@ {
        let rest = s.subrange(5, s.len() as int);
        match find_char(rest, '@') {
            Some(i) => {
                if lower(rest.subrange(i + 1, rest.len() as int)) == lower(local_domain) {
                    Some(rest.subrange(0, i))
                } else {
                    None
                }
            },
            None => None,
        }
    } else {
        None
    }
}

/// Parses a discovery query `acct:name@domain`; `None` unless the domain
/// is this server's own.
pub fn extract_webfinger_name(resource: &str, local_domain: &str) -> (r: Option<String>)
    ensures
        match r {
            Some(name) => spec_extract_webfinger_name(resource@, local_domain@) == Some(name@),
            None => spec_extract_webfinger_name(resource@, local_domain@) is None,
        },
{
    let len: usize = resource.unicode_len();
    if len < 5 {
        return None;
    }
    let prefix = resource.substring_char(0, 5);
    if !str_eq(prefix, "acct:") {
        return None;
    }
    let rest = resource.substring_char(5, len);
    let rest_len: usize = rest.unicode_len();
    match str_find_char(rest, '@') {
        Some(i) => {
            proof {
                lemma_find_char_props(rest@, '@');
            }
            let d = rest.substring_char(i + 1, rest_len);
            if eq_ignore_case(d, local_domain) {
                Some(String::from_str(rest.substring_char(0, i)))
            } else {
                None
            }
        },
        None => None,
    }
}

/// What resolving a reference asks of the caller: a record already in the
/// local store, or a consultation of a remote collaborator.
pub enum Resolution {
    /// The reference names this account of the local store.
    LocalUser(usize),
    /// The reference names this novel of the local store.
    LocalNovel(usize),
    /// A handle of another server: ask the discovery collaborator for the
    /// canonical identifier of `name` at `domain`.
    NeedsDiscovery(String, String),
    /// A canonical identifier of another server: fetch the document behind
    /// it.
    NeedsFetch(String),
}

/// Resolves a reference against the local store.  A bare name (or a handle
/// of this server's own domain) is looked up case-insensitively, first
/// among accounts, then among novels; a canonical identifier whose
/// authority is this server's own is looked up by identifier; anything
/// else is handed to a collaborator.  `Err(())` means a local reference
/// that resolves to nothing.
pub fn resolve(store: &Storage, reference: &str, local_domain: &str) -> (r: Result<Resolution, ()>)
    ensures
        match r {
            Ok(Resolution::LocalUser(i)) => {
                &&& i < store.users@.len()
                &&& match spec_classify(reference@, local_domain@) {
                    RefClass::Local(name) => key_find(store.user_name_keys(), lower(name)) == Some(
                        i as int,
                    ),
                    RefClass::Canonical(u) => key_find(store.user_id_keys(), lower(u)) == Some(
                        i as int,
                    ),
                    RefClass::Remote(_, _) => false,
                }
            },
            Ok(Resolution::LocalNovel(i)) => {
                &&& i < store.novels@.len()
                &&& match spec_classify(reference@, local_domain@) {
                    RefClass::Local(name) => key_find(store.user_name_keys(), lower(name)) is None
                        && key_find(store.novel_name_keys(), lower(name)) == Some(i as int),
                    RefClass::Canonical(u) => key_find(store.user_id_keys(), lower(u)) is None
                        && key_find(store.novel_id_keys(), lower(u)) == Some(i as int),
                    RefClass::Remote(_, _) => false,
                }
            },
            Ok(Resolution::NeedsDiscovery(name, d)) => spec_classify(reference@, local_domain@)
                == RefClass::Remote(name@, d@),
            Ok(Resolution::NeedsFetch(u)) => {
                &&& spec_classify(reference@, local_domain@) == RefClass::Canonical(u@)
                &&& !(lower(authority_of(u@)) == lower(local_domain@))
            },
            Err(()) => match spec_classify(reference@, local_domain@) {
                RefClass::Local(name) => key_find(store.user_name_keys(), lower(name)) is None
                    && key_find(store.novel_name_keys(), lower(name)) is None,
                RefClass::Canonical(u) => lower(authority_of(u)) == lower(local_domain@)
                    && key_find(store.user_id_keys(), lower(u)) is None && key_find(
                    store.novel_id_keys(),
                    lower(u),
                ) is None,
                RefClass::Remote(_, _) => false,
            },
        },
{
    match classify(reference, local_domain) {
        RefTarget::Local(name) => {
            proof {
                lemma_key_find_props(store.user_name_keys(), lower(name@));
                lemma_key_find_props(store.novel_name_keys(), lower(name@));
            }
            match store.find_user_by_name(name.as_str()) {
                Some(i) => Ok(Resolution::LocalUser(i)),
                None => match store.find_novel_by_name(name.as_str()) {
                    Some(i) => Ok(Resolution::LocalNovel(i)),
                    None => Err(()),
                },
            }
        },
        RefTarget::Remote(name, d) => Ok(Resolution::NeedsDiscovery(name, d)),
        RefTarget::Canonical(u) => {
            let auth = authority(u.as_str());
            let local = match &auth {
                Some(a) => eq_ignore_case(a.as_str(), local_domain),
                None => false,
            };
            if !local {
                return Ok(Resolution::NeedsFetch(u));
            }
            proof {
                lemma_key_find_props(store.user_id_keys(), lower(u@));
                lemma_key_find_props(store.novel_id_keys(), lower(u@));
            }
            match store.find_user_by_id(u.as_str()) {
                Some(i) => Ok(Resolution::LocalUser(i)),
                None => match store.find_novel_by_id(u.as_str()) {
                    Some(i) => Ok(Resolution::LocalNovel(i)),
                    None => Err(()),
                },
            }
        },
    }
}

} // verus!
