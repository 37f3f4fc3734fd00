//! The document forms of the stored records: what a server publishes about
//! an actor, a novel or a chapter, and how a fetched document becomes a
//! read-only mirror.  A mirror is accepted only when the document's
//! declared identifier carries the authority it was fetched from; the
//! fetch itself is a collaborator's work.

use vstd::prelude::*;

verus! {

use crate::enums::Genres;
use crate::outside::{is_language_code, lang_code_ok};
use crate::resolver::{domains_match, spec_domains_match};
use crate::store::{
    clone_string_vec, key_find, lemma_key_find_props, Author, Chapter, DbNovel, Storage, User,
};
use crate::text::lower;
use vstd::string::StringExecFns;

/// Whether a character can stand in a hexadecimal digit.
pub open spec fn is_hex_char(c: char) -> bool {
    ('0' <= c && c <= '9') || ('a' <= c && c <= 'f') || ('A' <= c && c <= 'F')
}

/// The textual form of a novel's key: thirty-six characters, hexadecimal
/// but for hyphens at the four fixed positions.
pub open spec fn is_uuid_seq(s: Seq<char>) -> bool {
    &&& s.len() == 36
    &&& forall|i: int|
        0 <= i < 36 ==> (if i == 8 || i == 13 || i == 18 || i == 23 {
            s[i] == '-'
        } else {
            is_hex_char(#[trigger] s[i])
        })
}

/// Checks the textual form of a novel's key.
pub fn check_uuid_text(s: &str) -> (r: bool)
    ensures
        r == is_uuid_seq(s@),
{
    let len: usize = s.unicode_len();
    if len != 36 {
        return false;
    }
    let mut i: usize = 0;
    while i < 36
        invariant
            i <= 36,
            s@.len() == 36,
            forall|j: int|
                0 <= j < i ==> (if j == 8 || j == 13 || j == 18 || j == 23 {
                    s@[j] == '-'
                } else {
                    is_hex_char(#[trigger] s@[j])
                }),
        decreases 36 - i,
    {
        let c = s.get_char(i);
        if i == 8 || i == 13 || i == 18 || i == 23 {
            if c != '-' {
                return false;
            }
        } else {
            if !(('0' <= c && c <= '9') || ('a' <= c && c <= 'f') || ('A' <= c && c <= 'F')) {
                return false;
            }
        }
        i = i + 1;
    }
    true
}

/// The published document of a `Person` actor; the private key and the
/// account's credentials never leave the home server.
pub struct Person {
    pub id: String,
    pub preferred_username: String,
    pub name: String,
    pub inbox: String,
    pub outbox: String,
    pub public_key_pem: String,
    pub published: i64,
}

impl User {
    /// The account's published document.
    pub fn into_json(&self) -> (r: Person)
        ensures
            r.id@ == self.apub_id@,
            r.preferred_username@ == self.preferred_username@,
            r.name@ == self.name@,
            r.inbox@ == self.inbox@,
            r.outbox@ == self.outbox@,
            r.public_key_pem@ == self.public_key@,
            r.published == self.published,
    {
        Person {
            id: self.apub_id.clone(),
            preferred_username: self.preferred_username.clone(),
            name: self.name.clone(),
            inbox: self.inbox.clone(),
            outbox: self.outbox.clone(),
            public_key_pem: self.public_key.clone(),
            published: self.published,
        }
    }

    /// A fetched document is accepted only when its declared identifier's
    /// authority matches the authority it was fetched from.
    pub fn verify(json: &Person, expected_domain_of: &str) -> (r: bool)
        ensures
            r == spec_domains_match(json.id@, expected_domain_of@),
    {
        domains_match(json.id.as_str(), expected_domain_of)
    }

    /// Materializes a fetched document as a read-only mirror: no private
    /// key, no credentials, freshly stamped.
    pub fn from_json(json: Person, now: i64) -> (r: User)
        ensures
            r.apub_id@ == json.id@,
            r.preferred_username@ == json.preferred_username@,
            r.name@ == json.name@,
            r.email@.len() == 0,
            r.password@.len() == 0,
            r.inbox@ == json.inbox@,
            r.outbox@ == json.outbox@,
            r.public_key@ == json.public_key_pem@,
            r.private_key is None,
            r.published == json.published,
            r.last_refresh == now,
    {
        User {
            apub_id: json.id,
            preferred_username: json.preferred_username,
            name: json.name,
            email: String::new(),
            password: String::new(),
            inbox: json.inbox,
            outbox: json.outbox,
            public_key: json.public_key_pem,
            private_key: None,
            published: json.published,
            last_refresh: now,
        }
    }
}

impl User {
    /// Looks an account up by short name, case-insensitively.  This lookup
    /// serves requests about other actors, so the row comes back without
    /// its private signing key, whatever the store holds.
    pub fn read_from_username(username: &str, store: &Storage) -> (r: Option<User>)
        ensures
            match r {
                Some(u) => key_find(store.user_name_keys(), lower(username@)) matches Some(i) && {
                    let s = store.users@[i];
                    &&& u.apub_id == s.apub_id
                    &&& u.preferred_username == s.preferred_username
                    &&& u.name == s.name
                    &&& u.email == s.email
                    &&& u.password == s.password
                    &&& u.inbox == s.inbox
                    &&& u.outbox == s.outbox
                    &&& u.public_key == s.public_key
                    &&& u.private_key is None
                    &&& u.published == s.published
                    &&& u.last_refresh == s.last_refresh
                },
                None => key_find(store.user_name_keys(), lower(username@)) is None,
            },
    {
        match store.find_user_by_name(username) {
            Some(i) => {
                proof {
                    lemma_key_find_props(store.user_name_keys(), lower(username@));
                }
                let found = &store.users[i];
                Some(
                    User {
                        apub_id: found.apub_id.clone(),
                        preferred_username: found.preferred_username.clone(),
                        name: found.name.clone(),
                        email: found.email.clone(),
                        password: found.password.clone(),
                        inbox: found.inbox.clone(),
                        outbox: found.outbox.clone(),
                        public_key: found.public_key.clone(),
                        private_key: None,
                        published: found.published,
                        last_refresh: found.last_refresh,
                    },
                )
            },
            None => None,
        }
    }

    /// Looks an account up by canonical identifier, case-insensitively.
    pub fn read_from_id<'a>(object_id: &str, store: &'a Storage) -> (r: Option<&'a User>)
        ensures
            match r {
                Some(u) => key_find(store.user_id_keys(), lower(object_id@)) matches Some(i) && *u
                    == store.users@[i],
                None => key_find(store.user_id_keys(), lower(object_id@)) is None,
            },
    {
        match store.find_user_by_id(object_id) {
            Some(i) => {
                proof {
                    lemma_key_find_props(store.user_id_keys(), lower(object_id@));
                }
                Some(&store.users[i])
            },
            None => None,
        }
    }
}

/// The published document of a novel: a `Group` actor with its authors.
pub struct Novel {
    pub id: String,
    pub preferred_username: String,
    pub name: String,
    pub summary: String,
    pub authors: Vec<Author>,
    pub attributed_to: Vec<String>,
    pub genre: Genres,
    pub tags: Vec<String>,
    pub language: String,
    pub sensitive: bool,
    pub inbox: String,
    pub outbox: String,
    pub public_key_pem: String,
    pub published: i64,
}

impl DbNovel {
    /// The novel's published document, with the authors the caller read
    /// from the authorship relation.
    pub fn into_json(&self, authors: Vec<Author>) -> (r: Novel)
        ensures
            r.id@ == self.apub_id@,
            r.preferred_username@ == lower(self.preferred_username@),
            r.name@ == self.title@,
            r.summary@ == self.summary@,
            r.authors@ == authors@,
            r.attributed_to@.map_values(|s: String| s@) == authors@.map_values(
                |a: Author| a.apub_id@,
            ),
            r.genre == self.genre,
            r.tags@ == self.tags@,
            r.language@ == self.language@,
            r.sensitive == self.sensitive,
            r.inbox@ == self.inbox@,
            r.outbox@ == self.outbox@,
            r.public_key_pem@ == self.public_key@,
            r.published == self.published,
    {
        let n = authors.len();
        let mut attributed_to: Vec<String> = Vec::new();
        let mut i: usize = 0;
        while i < n
            invariant
                i <= n,
                n == authors@.len(),
                attributed_to@.map_values(|s: String| s@) == authors@.subrange(
                    0,
                    i as int,
                ).map_values(|a: Author| a.apub_id@),
            decreases n - i,
        {
            let ghost oldv = attributed_to@;
            attributed_to.push(authors[i].apub_id.clone());
            proof {
                let fs = |s: String| s@;
                let fa = |a: Author| a.apub_id@;
                assert(authors@.subrange(0, i + 1 as int).drop_last() =~= authors@.subrange(
                    0,
                    i as int,
                ));
                assert(attributed_to@.map_values(fs) =~= oldv.map_values(fs).push(
                    authors@[i as int].apub_id@,
                ));
                assert(authors@.subrange(0, i + 1 as int).map_values(fa) =~= authors@.subrange(
                    0,
                    i as int,
                ).map_values(fa).push(fa(authors@[i as int])));
            }
            i = i + 1;
        }
        proof {
            assert(authors@.subrange(0, n as int) =~= authors@);
        }
        Novel {
            id: self.apub_id.clone(),
            preferred_username: crate::text::ascii_lower(self.preferred_username.as_str()),
            name: self.title.clone(),
            summary: self.summary.clone(),
            authors,
            attributed_to,
            genre: self.genre,
            tags: clone_string_vec(&self.tags),
            language: self.language.clone(),
            sensitive: self.sensitive,
            inbox: self.inbox.clone(),
            outbox: self.outbox.clone(),
            public_key_pem: self.public_key.clone(),
            published: self.published,
        }
    }

    /// A fetched document is accepted only when its declared identifier's
    /// authority matches the authority it was fetched from.
    pub fn verify(json: &Novel, expected_domain_of: &str) -> (r: bool)
        ensures
            r == spec_domains_match(json.id@, expected_domain_of@),
    {
        domains_match(json.id.as_str(), expected_domain_of)
    }

    /// Materializes a fetched document as a read-only mirror.  The short
    /// name must be the textual form of a key and the language a known
    /// code; otherwise the document is rejected.
    pub fn from_json(json: Novel, now: i64) -> (r: Option<DbNovel>)
        ensures
            match r {
                Some(n) => {
                    &&& is_uuid_seq(json.preferred_username@)
                    &&& lang_code_ok(json.language@)
                    &&& n.apub_id@ == json.id@
                    &&& n.preferred_username@ == json.preferred_username@
                    &&& n.title@ == json.name@
                    &&& n.summary@ == json.summary@
                    &&& n.genre == json.genre
                    &&& n.tags@ == json.tags@
                    &&& n.language@ == json.language@
                    &&& n.sensitive == json.sensitive
                    &&& n.inbox@ == json.inbox@
                    &&& n.outbox@ == json.outbox@
                    &&& n.public_key@ == json.public_key_pem@
                    &&& n.private_key is None
                    &&& n.published == json.published
                    &&& n.last_refresh == now
                },
                None => !is_uuid_seq(json.preferred_username@) || !lang_code_ok(json.language@),
            },
    {
        if !check_uuid_text(json.preferred_username.as_str()) {
            return None;
        }
        if !is_language_code(json.language.as_str()) {
            return None;
        }
        Some(
            DbNovel {
                apub_id: json.id,
                preferred_username: json.preferred_username,
                title: json.name,
                summary: json.summary,
                genre: json.genre,
                tags: json.tags,
                language: json.language,
                sensitive: json.sensitive,
                inbox: json.inbox,
                outbox: json.outbox,
                public_key: json.public_key_pem,
                private_key: None,
                published: json.published,
                last_refresh: now,
            },
        )
    }
}

impl DbNovel {
    /// Looks a novel up by the text of its key, case-insensitively.  The
    /// author list is not part of the record: it lives in the authorship
    /// relation, read with `Storage::authors_of`.
    pub fn read_from_uuid<'a>(uuid: &str, store: &'a Storage) -> (r: Option<&'a DbNovel>)
        ensures
            match r {
                Some(n) => key_find(store.novel_name_keys(), lower(uuid@)) matches Some(i) && *n
                    == store.novels@[i],
                None => key_find(store.novel_name_keys(), lower(uuid@)) is None,
            },
    {
        match store.find_novel_by_name(uuid) {
            Some(i) => {
                proof {
                    lemma_key_find_props(store.novel_name_keys(), lower(uuid@));
                }
                Some(&store.novels[i])
            },
            None => None,
        }
    }

    /// Looks a novel up by canonical identifier, case-insensitively.  The
    /// author list is not part of the record: it lives in the authorship
    /// relation, read with `Storage::authors_of`.
    pub fn read_from_id<'a>(object_id: &str, store: &'a Storage) -> (r: Option<&'a DbNovel>)
        ensures
            match r {
                Some(n) => key_find(store.novel_id_keys(), lower(object_id@)) matches Some(i) && *n
                    == store.novels@[i],
                None => key_find(store.novel_id_keys(), lower(object_id@)) is None,
            },
    {
        match store.find_novel_by_id(object_id) {
            Some(i) => {
                proof {
                    lemma_key_find_props(store.novel_id_keys(), lower(object_id@));
                }
                Some(&store.novels[i])
            },
            None => None,
        }
    }
}

/// The published document of a chapter: an Article object.
pub struct Article {
    pub id: String,
    pub name: String,
    pub audience: String,
    pub summary: String,
    pub sensitive: bool,
    pub published: i64,
    pub updated: Option<i64>,
}

impl Chapter {
    /// Looks a chapter up by canonical identifier, case-insensitively.
    pub fn read_from_id<'a>(object_id: &str, store: &'a Storage) -> (r: Option<&'a Chapter>)
        ensures
            match r {
                Some(c) => key_find(store.chapter_id_keys(), lower(object_id@)) matches Some(i)
                    && *c == store.chapters@[i],
                None => key_find(store.chapter_id_keys(), lower(object_id@)) is None,
            },
    {
        match store.find_chapter_by_id(object_id) {
            Some(i) => {
                proof {
                    lemma_key_find_props(store.chapter_id_keys(), lower(object_id@));
                }
                Some(&store.chapters[i])
            },
            None => None,
        }
    }

    /// The chapter's published document.
    pub fn into_json(&self) -> (r: Article)
        ensures
            r.id@ == self.apub_id@,
            r.name@ == self.title@,
            r.audience@ == self.audience@,
            r.summary@ == self.summary@,
            r.sensitive == self.sensitive,
            r.published == self.published,
            r.updated == self.updated,
    {
        Article {
            id: self.apub_id.clone(),
            name: self.title.clone(),
            audience: self.audience.clone(),
            summary: self.summary.clone(),
            sensitive: self.sensitive,
            published: self.published,
            updated: self.updated,
        }
    }

    /// A fetched document is accepted only when its declared identifier's
    /// authority matches the authority it was fetched from.
    pub fn verify(json: &Article, expected_domain_of: &str) -> (r: bool)
        ensures
            r == spec_domains_match(json.id@, expected_domain_of@),
    {
        domains_match(json.id.as_str(), expected_domain_of)
    }

    /// Materializes a fetched document as a read-only mirror.  A mirrored
    /// chapter is never stored beside the locally sequenced ones: its
    /// sequence is not this server's to assign, so it carries none here
    /// and stays out of the sequence allocator's table.
    pub fn from_json(json: Article, sequence: u64, now: i64) -> (r: Chapter)
        ensures
            r.apub_id@ == json.id@,
            r.audience@ == json.audience@,
            r.title@ == json.name@,
            r.summary@ == json.summary@,
            r.sensitive == json.sensitive,
            r.sequence == sequence,
            r.published == json.published,
            r.updated == json.updated,
            r.last_refresh == now,
    {
        Chapter {
            apub_id: json.id,
            audience: json.audience,
            title: json.name,
            summary: json.summary,
            sensitive: json.sensitive,
            sequence,
            published: json.published,
            updated: json.updated,
            last_refresh: now,
        }
    }
}

} // verus!
