//! The persisted relations of the protocol, modeled as in-memory tables:
//! local accounts, novels, the authorship relation, and chapters.  The
//! store's well-formedness invariant carries the central guarantee of the
//! sequence allocator: within one novel, chapter sequence numbers are
//! strictly increasing in creation order, hence unique.
//!
//! A real deployment keeps these tables in a database whose transactions
//! serialize chapter creation per novel; callers of this model hold the
//! store exclusively (`&mut`), which models that discipline.

use vstd::prelude::*;

verus! {

use crate::enums::Roles;
use crate::text::{dec_str, eq_ignore_case, lower};

/// A local account: a federated `Person` actor, as stored.
pub struct User {
    /// Canonical identifier, an absolute URI minted by the home server.
    pub apub_id: String,
    /// Short name, unique on the home server up to ASCII case.
    pub preferred_username: String,
    /// Display name.
    pub name: String,
    /// Contact address; only local accounts carry one.
    pub email: String,
    /// Password hash, opaque to this crate; empty on mirrors.
    pub password: String,
    pub inbox: String,
    pub outbox: String,
    pub public_key: String,
    /// Only the home server holds a private key.
    pub private_key: Option<String>,
    /// Creation time, in milliseconds.
    pub published: i64,
    /// When a mirror of this actor was last fetched, in milliseconds.
    pub last_refresh: i64,
}

/// A novel: a federated `Group` actor that owns chapters.
pub struct DbNovel {
    /// Canonical identifier, an absolute URI minted by the home server.
    pub apub_id: String,
    /// The novel's short name: the lowercase hyphenated text of its key.
    pub preferred_username: String,
    pub title: String,
    pub summary: String,
    pub genre: crate::enums::Genres,
    pub tags: Vec<String>,
    /// ISO 639-1 code.
    pub language: String,
    pub sensitive: bool,
    pub inbox: String,
    pub outbox: String,
    pub public_key: String,
    pub private_key: Option<String>,
    pub published: i64,
    pub last_refresh: i64,
}

/// One author of a novel, as shown in the novel's document.
pub struct Author {
    pub apub_id: String,
    pub role: Roles,
}

/// A row of the authorship relation; its presence grants write permission.
pub struct AuthorRole {
    pub novel_id: String,
    pub author_id: String,
    pub role: Roles,
}

/// A chapter, owned by exactly one novel (its audience).
pub struct Chapter {
    /// Canonical identifier: the audience's identifier with the decimal
    /// sequence number appended as a path segment.
    pub apub_id: String,
    /// The owning novel's canonical identifier.
    pub audience: String,
    pub title: String,
    pub summary: String,
    pub sensitive: bool,
    /// Position within the novel; unique and increasing in creation order.
    pub sequence: u64,
    pub published: i64,
    pub updated: Option<i64>,
    pub last_refresh: i64,
}

/// The store of one server: its accounts, novels, authorships and chapters.
pub struct Storage {
    pub users: Vec<User>,
    pub novels: Vec<DbNovel>,
    pub author_roles: Vec<AuthorRole>,
    pub chapters: Vec<Chapter>,
}

/// First position of a key in a sequence of keys, if any.
pub open spec fn key_find(keys: Seq<Seq<char>>, key: Seq<char>) -> Option<int>
    decreases keys.len(),
{
    if keys.len() == 0 {
        None
    } else if keys[0] == key {
        Some(0int)
    } else {
        match key_find(keys.drop_first(), key) {
            Some(i) => Some(i + 1),
            None => None,
        }
    }
}

pub proof fn lemma_key_find_some(keys: Seq<Seq<char>>, key: Seq<char>, i: int)
    requires
        0 <= i < keys.len(),
        keys[i] == key,
        forall|j: int| 0 <= j < i ==> keys[j] != key,
    ensures
        key_find(keys, key) == Some(i),
    decreases i,
{
    if i == 0 {
    } else {
        assert(keys[0] != key);
        let t = keys.drop_first();
        assert(t[i - 1] == keys[i]);
        assert forall|j: int| 0 <= j < i - 1 implies t[j] != key by {
            assert(t[j] == keys[j + 1]);
        }
        lemma_key_find_some(t, key, i - 1);
    }
}

pub proof fn lemma_key_find_none(keys: Seq<Seq<char>>, key: Seq<char>)
    requires
        forall|j: int| 0 <= j < keys.len() ==> keys[j] != key,
    ensures
        key_find(keys, key) is None,
    decreases keys.len(),
{
    if keys.len() > 0 {
        let t = keys.drop_first();
        assert forall|j: int| 0 <= j < t.len() implies t[j] != key by {
            assert(t[j] == keys[j + 1]);
        }
        lemma_key_find_none(t, key);
    }
}

pub proof fn lemma_key_find_props(keys: Seq<Seq<char>>, key: Seq<char>)
    ensures
        match key_find(keys, key) {
            Some(i) => 0 <= i < keys.len() && keys[i] == key && forall|j: int|
                0 <= j < i ==> keys[j] != key,
            None => forall|j: int| 0 <= j < keys.len() ==> keys[j] != key,
        },
    decreases keys.len(),
{
    if keys.len() > 0 {
        if keys[0] == key {
        } else {
            let t = keys.drop_first();
            lemma_key_find_props(t, key);
            match key_find(t, key) {
                Some(i) => {
                    assert(keys[i + 1] == t[i]);
                    assert forall|j: int| 0 <= j < i + 1 implies keys[j] != key by {
                        if j >= 1 {
                            assert(keys[j] == t[j - 1]);
                        }
                    }
                },
                None => {
                    assert forall|j: int| 0 <= j < keys.len() implies keys[j] != key by {
                        if j >= 1 {
                            assert(keys[j] == t[j - 1]);
                        }
                    }
                },
            }
        }
    }
}

impl Storage {
    /// The lower-cased canonical identifiers of the accounts, in order.
    pub open spec fn user_id_keys(self) -> Seq<Seq<char>> {
        self.users@.map_values(|u: User| lower(u.apub_id@))
    }

    /// The lower-cased short names of the accounts, in order.
    pub open spec fn user_name_keys(self) -> Seq<Seq<char>> {
        self.users@.map_values(|u: User| lower(u.preferred_username@))
    }

    /// The lower-cased contact addresses of the accounts, in order.
    pub open spec fn user_email_keys(self) -> Seq<Seq<char>> {
        self.users@.map_values(|u: User| lower(u.email@))
    }

    /// The lower-cased canonical identifiers of the chapters, in order.
    pub open spec fn chapter_id_keys(self) -> Seq<Seq<char>> {
        self.chapters@.map_values(|c: Chapter| lower(c.apub_id@))
    }

    /// The lower-cased canonical identifiers of the novels, in order.
    pub open spec fn novel_id_keys(self) -> Seq<Seq<char>> {
        self.novels@.map_values(|n: DbNovel| lower(n.apub_id@))
    }

    /// The lower-cased short names of the novels, in order.
    pub open spec fn novel_name_keys(self) -> Seq<Seq<char>> {
        self.novels@.map_values(|n: DbNovel| lower(n.preferred_username@))
    }

    /// Accounts are unique by identifier and by short name, up to case.
    pub open spec fn users_wf(self) -> bool {
        forall|i: int, j: int|
            0 <= i < j < self.users@.len() ==> {
                &&& lower(#[trigger] self.users@[i].apub_id@) != lower(
                    #[trigger] self.users@[j].apub_id@,
                )
                &&& lower(self.users@[i].preferred_username@) != lower(
                    self.users@[j].preferred_username@,
                )
            }
    }

    /// Novels are unique by identifier and by short name, up to case.
    pub open spec fn novels_wf(self) -> bool {
        forall|i: int, j: int|
            0 <= i < j < self.novels@.len() ==> {
                &&& lower(#[trigger] self.novels@[i].apub_id@) != lower(
                    #[trigger] self.novels@[j].apub_id@,
                )
                &&& lower(self.novels@[i].preferred_username@) != lower(
                    self.novels@[j].preferred_username@,
                )
            }
    }

    /// A chapter's identifier is derived from its audience and sequence.
    pub open spec fn chapter_id_derived(c: Chapter) -> bool {
        c.apub_id@ == c.audience@ + seq!['/'] + dec_str(c.sequence as nat)
    }

    /// Within one novel, sequence numbers strictly increase in creation
    /// order, and every identifier is the derived one.
    pub open spec fn chapters_wf(self) -> bool {
        &&& forall|i: int, j: int|
            0 <= i < j < self.chapters@.len() && lower(
                #[trigger] self.chapters@[i].audience@,
            ) == lower(#[trigger] self.chapters@[j].audience@)
                ==> self.chapters@[i].sequence < self.chapters@[j].sequence
        &&& forall|i: int|
            0 <= i < self.chapters@.len() ==> Self::chapter_id_derived(
                #[trigger] self.chapters@[i],
            )
    }

    /// The store's invariant.
    pub open spec fn wf(self) -> bool {
        self.users_wf() && self.novels_wf() && self.chapters_wf()
    }

    /// An authorship row exists for the novel and author; any role grants
    /// write permission.
    pub open spec fn spec_has_author_role(self, novel: Seq<char>, author: Seq<char>) -> bool {
        exists|i: int|
            0 <= i < self.author_roles@.len() && lower(
                (#[trigger] self.author_roles@[i]).novel_id@,
            ) == lower(novel) && lower(self.author_roles@[i].author_id@) == lower(author)
    }

    /// An empty store.
    pub fn new() -> (r: Storage)
        ensures
            r.wf(),
            r.users@.len() == 0,
            r.novels@.len() == 0,
            r.author_roles@.len() == 0,
            r.chapters@.len() == 0,
    {
        Storage { users: Vec::new(), novels: Vec::new(), author_roles: Vec::new(), chapters: Vec::new() }
    }

    /// Looks an account up by canonical identifier, case-insensitively.
    pub fn find_user_by_id(&self, id: &str) -> (r: Option<usize>)
        ensures
            match r {
                Some(i) => key_find(self.user_id_keys(), lower(id@)) == Some(i as int),
                None => key_find(self.user_id_keys(), lower(id@)) is None,
            },
    {
        let n = self.users.len();
        let mut i: usize = 0;
        while i < n
            invariant
                i <= n,
                n == self.users@.len(),
                forall|j: int| 0 <= j < i ==> self.user_id_keys()[j] != lower(id@),
            decreases n - i,
        {
            if eq_ignore_case(self.users[i].apub_id.as_str(), id) {
                proof {
                    lemma_key_find_some(self.user_id_keys(), lower(id@), i as int);
                }
                return Some(i);
            }
            i = i + 1;
        }
        proof {
            lemma_key_find_none(self.user_id_keys(), lower(id@));
        }
        None
    }

    /// Looks an account up by short name, case-insensitively.
    pub fn find_user_by_name(&self, name: &str) -> (r: Option<usize>)
        ensures
            match r {
                Some(i) => key_find(self.user_name_keys(), lower(name@)) == Some(i as int),
                None => key_find(self.user_name_keys(), lower(name@)) is None,
            },
    {
        let n = self.users.len();
        let mut i: usize = 0;
        while i < n
            invariant
                i <= n,
                n == self.users@.len(),
                forall|j: int| 0 <= j < i ==> self.user_name_keys()[j] != lower(name@),
            decreases n - i,
        {
            if eq_ignore_case(self.users[i].preferred_username.as_str(), name) {
                proof {
                    lemma_key_find_some(self.user_name_keys(), lower(name@), i as int);
                }
                return Some(i);
            }
            i = i + 1;
        }
        proof {
            lemma_key_find_none(self.user_name_keys(), lower(name@));
        }
        None
    }

    /// Looks an account up by contact address, case-insensitively.
    pub fn find_user_by_email(&self, email: &str) -> (r: Option<usize>)
        ensures
            match r {
                Some(i) => key_find(self.user_email_keys(), lower(email@)) == Some(i as int),
                None => key_find(self.user_email_keys(), lower(email@)) is None,
            },
    {
        let n = self.users.len();
        let mut i: usize = 0;
        while i < n
            invariant
                i <= n,
                n == self.users@.len(),
                forall|j: int| 0 <= j < i ==> self.user_email_keys()[j] != lower(email@),
            decreases n - i,
        {
            if eq_ignore_case(self.users[i].email.as_str(), email) {
                proof {
                    lemma_key_find_some(self.user_email_keys(), lower(email@), i as int);
                }
                return Some(i);
            }
            i = i + 1;
        }
        proof {
            lemma_key_find_none(self.user_email_keys(), lower(email@));
        }
        None
    }

    /// Looks a novel up by canonical identifier, case-insensitively.
    pub fn find_novel_by_id(&self, id: &str) -> (r: Option<usize>)
        ensures
            match r {
                Some(i) => key_find(self.novel_id_keys(), lower(id@)) == Some(i as int),
                None => key_find(self.novel_id_keys(), lower(id@)) is None,
            },
    {
        let n = self.novels.len();
        let mut i: usize = 0;
        while i < n
            invariant
                i <= n,
                n == self.novels@.len(),
                forall|j: int| 0 <= j < i ==> self.novel_id_keys()[j] != lower(id@),
            decreases n - i,
        {
            if eq_ignore_case(self.novels[i].apub_id.as_str(), id) {
                proof {
                    lemma_key_find_some(self.novel_id_keys(), lower(id@), i as int);
                }
                return Some(i);
            }
            i = i + 1;
        }
        proof {
            lemma_key_find_none(self.novel_id_keys(), lower(id@));
        }
        None
    }

    /// Looks a novel up by short name, case-insensitively.
    pub fn find_novel_by_name(&self, name: &str) -> (r: Option<usize>)
        ensures
            match r {
                Some(i) => key_find(self.novel_name_keys(), lower(name@)) == Some(i as int),
                None => key_find(self.novel_name_keys(), lower(name@)) is None,
            },
    {
        let n = self.novels.len();
        let mut i: usize = 0;
        while i < n
            invariant
                i <= n,
                n == self.novels@.len(),
                forall|j: int| 0 <= j < i ==> self.novel_name_keys()[j] != lower(name@),
            decreases n - i,
        {
            if eq_ignore_case(self.novels[i].preferred_username.as_str(), name) {
                proof {
                    lemma_key_find_some(self.novel_name_keys(), lower(name@), i as int);
                }
                return Some(i);
            }
            i = i + 1;
        }
        proof {
            lemma_key_find_none(self.novel_name_keys(), lower(name@));
        }
        None
    }

    /// Looks a chapter up by canonical identifier, case-insensitively.
    pub fn find_chapter_by_id(&self, id: &str) -> (r: Option<usize>)
        ensures
            match r {
                Some(i) => key_find(self.chapter_id_keys(), lower(id@)) == Some(i as int),
                None => key_find(self.chapter_id_keys(), lower(id@)) is None,
            },
    {
        let n = self.chapters.len();
        let mut i: usize = 0;
        while i < n
            invariant
                i <= n,
                n == self.chapters@.len(),
                forall|j: int| 0 <= j < i ==> self.chapter_id_keys()[j] != lower(id@),
            decreases n - i,
        {
            if eq_ignore_case(self.chapters[i].apub_id.as_str(), id) {
                proof {
                    lemma_key_find_some(self.chapter_id_keys(), lower(id@), i as int);
                }
                return Some(i);
            }
            i = i + 1;
        }
        proof {
            lemma_key_find_none(self.chapter_id_keys(), lower(id@));
        }
        None
    }

    /// Whether an authorship row grants the author write permission on the
    /// novel.
    pub fn can_write(&self, novel_id: &str, author_id: &str) -> (r: bool)
        ensures
            r == self.spec_has_author_role(novel_id@, author_id@),
    {
        let n = self.author_roles.len();
        let mut i: usize = 0;
        while i < n
            invariant
                i <= n,
                n == self.author_roles@.len(),
                forall|j: int|
                    0 <= j < i ==> !(lower((#[trigger] self.author_roles@[j]).novel_id@) == lower(
                        novel_id@,
                    ) && lower(self.author_roles@[j].author_id@) == lower(author_id@)),
            decreases n - i,
        {
            if eq_ignore_case(self.author_roles[i].novel_id.as_str(), novel_id) && eq_ignore_case(
                self.author_roles[i].author_id.as_str(),
                author_id,
            ) {
                return true;
            }
            i = i + 1;
        }
        false
    }

    /// The sequence number the next chapter of the novel receives: one more
    /// than the largest assigned so far, or zero for the first chapter.
    /// `None` only when the largest number cannot be exceeded.
    pub open spec fn spec_next_sequence(chs: Seq<Chapter>, novel: Seq<char>) -> int
        decreases chs.len(),
    {
        if chs.len() == 0 {
            0
        } else {
            let prev = Self::spec_next_sequence(chs.drop_last(), novel);
            let c = chs.last();
            if lower(c.audience@) == lower(novel) && c.sequence + 1 > prev {
                c.sequence + 1
            } else {
                prev
            }
        }
    }

    /// Computes the next sequence number for the novel.
    pub fn next_sequence(&self, novel_id: &str) -> (r: Option<u64>)
        ensures
            match r {
                Some(s) => s as int == Self::spec_next_sequence(self.chapters@, novel_id@),
                None => Self::spec_next_sequence(self.chapters@, novel_id@) > u64::MAX,
            },
    {
        let n = self.chapters.len();
        let mut cur: u64 = 0;
        let mut i: usize = 0;
        while i < n
            invariant
                i <= n,
                n == self.chapters@.len(),
                cur as int == Self::spec_next_sequence(
                    self.chapters@.subrange(0, i as int),
                    novel_id@,
                ),
            decreases n - i,
        {
            let ghost pre = self.chapters@.subrange(0, i as int);
            let c = &self.chapters[i];
            if eq_ignore_case(c.audience.as_str(), novel_id) && c.sequence >= cur {
                if c.sequence == u64::MAX {
                    proof {
                        lemma_next_sequence_lb(self.chapters@, novel_id@, i as int);
                    }
                    return None;
                }
                cur = c.sequence + 1;
            }
            proof {
                reveal(Seq::filter);
                assert(self.chapters@.subrange(0, i + 1 as int).drop_last() =~= pre);
                assert(self.chapters@.subrange(0, i + 1 as int).last() == self.chapters@[i as int]);
            }
            i = i + 1;
        }
        proof {
            assert(self.chapters@.subrange(0, n as int) =~= self.chapters@);
        }
        Some(cur)
    }
}

/// If some chapter of the novel has sequence `m`, the next sequence number
/// exceeds `m`.
pub proof fn lemma_next_sequence_lb(chs: Seq<Chapter>, novel: Seq<char>, i: int)
    requires
        0 <= i < chs.len(),
        lower(chs[i].audience@) == lower(novel),
    ensures
        Storage::spec_next_sequence(chs, novel) > chs[i].sequence,
    decreases chs.len(),
{
    if i == chs.len() - 1 {
    } else {
        assert(chs.drop_last()[i] == chs[i]);
        lemma_next_sequence_lb(chs.drop_last(), novel, i);
    }
}

/// The chapters owned by the novel, in creation order.
pub open spec fn spec_novel_chapters(chs: Seq<Chapter>, novel: Seq<char>) -> Seq<Chapter> {
    chs.filter(|c: Chapter| lower(c.audience@) == lower(novel))
}

/// The authorship rows of the novel, in insertion order.
pub open spec fn spec_novel_author_roles(roles: Seq<AuthorRole>, novel: Seq<char>) -> Seq<
    AuthorRole,
> {
    roles.filter(|ar: AuthorRole| lower(ar.novel_id@) == lower(novel))
}

/// Copies a vector of strings.
pub(crate) fn clone_string_vec(v: &Vec<String>) -> (r: Vec<String>)
    ensures
        r@ == v@,
{
    let n = v.len();
    let mut r: Vec<String> = Vec::new();
    let mut i: usize = 0;
    while i < n
        invariant
            i <= n,
            n == v@.len(),
            r@ == v@.subrange(0, i as int),
        decreases n - i,
    {
        r.push(v[i].clone());
        proof {
            assert(r@ =~= v@.subrange(0, i + 1 as int));
        }
        i = i + 1;
    }
    proof {
        assert(v@.subrange(0, n as int) =~= v@);
    }
    r
}

impl User {
    /// A structural copy.
    pub fn duplicate(&self) -> (r: User)
        ensures
            r == *self,
    {
        User {
            apub_id: self.apub_id.clone(),
            preferred_username: self.preferred_username.clone(),
            name: self.name.clone(),
            email: self.email.clone(),
            password: self.password.clone(),
            inbox: self.inbox.clone(),
            outbox: self.outbox.clone(),
            public_key: self.public_key.clone(),
            private_key: match &self.private_key {
                Some(k) => Some(k.clone()),
                None => None,
            },
            published: self.published,
            last_refresh: self.last_refresh,
        }
    }
}

impl DbNovel {
    /// A structural copy.
    pub fn duplicate(&self) -> (r: DbNovel)
        ensures
            r.apub_id == self.apub_id,
            r.preferred_username == self.preferred_username,
            r.title == self.title,
            r.summary == self.summary,
            r.genre == self.genre,
            r.tags@ == self.tags@,
            r.language == self.language,
            r.sensitive == self.sensitive,
            r.inbox == self.inbox,
            r.outbox == self.outbox,
            r.public_key == self.public_key,
            r.private_key == self.private_key,
            r.published == self.published,
            r.last_refresh == self.last_refresh,
    {
        DbNovel {
            apub_id: self.apub_id.clone(),
            preferred_username: self.preferred_username.clone(),
            title: self.title.clone(),
            summary: self.summary.clone(),
            genre: self.genre,
            tags: clone_string_vec(&self.tags),
            language: self.language.clone(),
            sensitive: self.sensitive,
            inbox: self.inbox.clone(),
            outbox: self.outbox.clone(),
            public_key: self.public_key.clone(),
            private_key: match &self.private_key {
                Some(k) => Some(k.clone()),
                None => None,
            },
            published: self.published,
            last_refresh: self.last_refresh,
        }
    }
}

impl Chapter {
    /// A structural copy.
    pub fn duplicate(&self) -> (r: Chapter)
        ensures
            r == *self,
    {
        Chapter {
            apub_id: self.apub_id.clone(),
            audience: self.audience.clone(),
            title: self.title.clone(),
            summary: self.summary.clone(),
            sensitive: self.sensitive,
            sequence: self.sequence,
            published: self.published,
            updated: self.updated,
            last_refresh: self.last_refresh,
        }
    }
}

impl Storage {
    /// The novel's authors, one entry per authorship row, in insertion
    /// order.
    pub fn authors_of(&self, novel_id: &str) -> (r: Vec<Author>)
        ensures
            r@.map_values(|a: Author| (a.apub_id@, a.role)) == spec_novel_author_roles(
                self.author_roles@,
                novel_id@,
            ).map_values(|ar: AuthorRole| (ar.author_id@, ar.role)),
    {
        let n = self.author_roles.len();
        let mut r: Vec<Author> = Vec::new();
        let mut i: usize = 0;
        proof {
            reveal(Seq::filter);
        }
        while i < n
            invariant
                i <= n,
                n == self.author_roles@.len(),
                r@.map_values(|a: Author| (a.apub_id@, a.role)) == spec_novel_author_roles(
                    self.author_roles@.subrange(0, i as int),
                    novel_id@,
                ).map_values(|ar: AuthorRole| (ar.author_id@, ar.role)),
            decreases n - i,
        {
            let ghost pre = self.author_roles@.subrange(0, i as int);
            let ghost oldr = r@;
            let ar = &self.author_roles[i];
            let matched = eq_ignore_case(ar.novel_id.as_str(), novel_id);
            if matched {
                r.push(Author { apub_id: ar.author_id.clone(), role: ar.role });
            }
            proof {
                reveal(Seq::filter);
                let fa = |a: Author| (a.apub_id@, a.role);
                let fr = |ar2: AuthorRole| (ar2.author_id@, ar2.role);
                let row = self.author_roles@[i as int];
                assert(self.author_roles@.subrange(0, i + 1 as int).drop_last() =~= pre);
                assert(self.author_roles@.subrange(0, i + 1 as int).last() == row);
                if matched {
                    assert(spec_novel_author_roles(
                        self.author_roles@.subrange(0, i + 1 as int),
                        novel_id@,
                    ) == spec_novel_author_roles(pre, novel_id@).push(row));
                    assert(r@ == oldr.push(Author { apub_id: row.author_id, role: row.role }));
                    assert(r@.map_values(fa) =~= oldr.map_values(fa).push(fr(row)));
                    assert(spec_novel_author_roles(pre, novel_id@).push(row).map_values(fr)
                        =~= spec_novel_author_roles(pre, novel_id@).map_values(fr).push(fr(row)));
                } else {
                    assert(spec_novel_author_roles(
                        self.author_roles@.subrange(0, i + 1 as int),
                        novel_id@,
                    ) == spec_novel_author_roles(pre, novel_id@));
                }
            }
            i = i + 1;
        }
        proof {
            assert(self.author_roles@.subrange(0, n as int) =~= self.author_roles@);
        }
        r
    }

    /// The novel's chapters, most recent first.
    pub fn chapters_desc(&self, novel_id: &str) -> (r: Vec<Chapter>)
        ensures
            r@ == spec_novel_chapters(self.chapters@, novel_id@).reverse(),
    {
        let n = self.chapters.len();
        let mut asc: Vec<Chapter> = Vec::new();
        let mut i: usize = 0;
        proof {
            reveal(Seq::filter);
        }
        while i < n
            invariant
                i <= n,
                n == self.chapters@.len(),
                asc@ == spec_novel_chapters(self.chapters@.subrange(0, i as int), novel_id@),
            decreases n - i,
        {
            let ghost pre = self.chapters@.subrange(0, i as int);
            let c = &self.chapters[i];
            if eq_ignore_case(c.audience.as_str(), novel_id) {
                asc.push(c.duplicate());
            }
            proof {
                reveal(Seq::filter);
                assert(self.chapters@.subrange(0, i + 1 as int).drop_last() =~= pre);
                assert(self.chapters@.subrange(0, i + 1 as int).last() == self.chapters@[i as int]);
                assert(asc@ =~= spec_novel_chapters(
                    self.chapters@.subrange(0, i + 1 as int),
                    novel_id@,
                ));
            }
            i = i + 1;
        }
        proof {
            assert(self.chapters@.subrange(0, n as int) =~= self.chapters@);
        }
        let m = asc.len();
        let mut r: Vec<Chapter> = Vec::new();
        let mut k: usize = 0;
        while k < m
            invariant
                k <= m,
                m == asc@.len(),
                asc@ == spec_novel_chapters(self.chapters@, novel_id@),
                r@ == asc@.reverse().subrange(0, k as int),
            decreases m - k,
        {
            r.push(asc[m - 1 - k].duplicate());
            proof {
                assert(r@ =~= asc@.reverse().subrange(0, k + 1 as int));
            }
            k = k + 1;
        }
        proof {
            assert(asc@.reverse().subrange(0, m as int) =~= asc@.reverse());
        }
        r
    }

    /// The canonical identifiers of the novel's chapters, most recent
    /// first: the novel's outbox collection.
    pub fn chapter_ids_desc(&self, novel_id: &str) -> (r: Vec<String>)
        ensures
            r@.map_values(|s: String| s@) == spec_novel_chapters(
                self.chapters@,
                novel_id@,
            ).reverse().map_values(|c: Chapter| c.apub_id@),
    {
        let chs = self.chapters_desc(novel_id);
        let m = chs.len();
        let mut r: Vec<String> = Vec::new();
        let mut k: usize = 0;
        while k < m
            invariant
                k <= m,
                m == chs@.len(),
                chs@ == spec_novel_chapters(self.chapters@, novel_id@).reverse(),
                r@.map_values(|s: String| s@) == chs@.subrange(0, k as int).map_values(
                    |c: Chapter| c.apub_id@,
                ),
            decreases m - k,
        {
            let ghost oldr = r@;
            r.push(chs[k].apub_id.clone());
            proof {
                let fs = |s2: String| s2@;
                let fc = |c: Chapter| c.apub_id@;
                assert(chs@.subrange(0, k + 1 as int).drop_last() =~= chs@.subrange(0, k as int));
                assert(r@.map_values(fs) =~= oldr.map_values(fs).push(chs@[k as int].apub_id@));
                assert(chs@.subrange(0, k + 1 as int).map_values(fc) =~= chs@.subrange(
                    0,
                    k as int,
                ).map_values(fc).push(fc(chs@[k as int])));
            }
            k = k + 1;
        }
        proof {
            assert(chs@.subrange(0, m as int) =~= chs@);
        }
        r
    }
}

/// The law of monotonic sequencing: in a well-formed store, the sequence
/// numbers of one novel's chapters strictly increase in creation order.
/// Chapter creation holds the store exclusively, so the law holds however
/// concurrent requests are interleaved by the store's serialization.
pub proof fn lemma_sequence_monotonic(s: Storage, i: int, j: int)
    requires
        s.wf(),
        0 <= i < j < s.chapters@.len(),
        lower(s.chapters@[i].audience@) == lower(s.chapters@[j].audience@),
    ensures
        s.chapters@[i].sequence < s.chapters@[j].sequence,
{
}

/// The law of unique sequencing: in a well-formed store, two distinct
/// chapters of one novel never share a sequence number.
pub proof fn lemma_sequence_unique(s: Storage, i: int, j: int)
    requires
        s.wf(),
        0 <= i < s.chapters@.len(),
        0 <= j < s.chapters@.len(),
        i != j,
        lower(s.chapters@[i].audience@) == lower(s.chapters@[j].audience@),
    ensures
        s.chapters@[i].sequence != s.chapters@[j].sequence,
{
    if i < j {
        lemma_sequence_monotonic(s, i, j);
    } else {
        lemma_sequence_monotonic(s, j, i);
    }
}

/// Two derived identifiers that agree up to ASCII case come from the same
/// audience (up to case) and the same sequence number: the decimal part
/// after the last separator reads the number back, and what precedes it
/// the audience.
pub proof fn lemma_derived_id_injective(a: Seq<char>, m: u64, b: Seq<char>, n: u64)
    requires
        lower(a + seq!['/'] + dec_str(m as nat)) == lower(b + seq!['/'] + dec_str(n as nat)),
    ensures
        lower(a) == lower(b),
        m == n,
{
    let dm = dec_str(m as nat);
    let dn = dec_str(n as nat);
    crate::text::lemma_dec_str_digits(m as nat);
    crate::text::lemma_dec_str_digits(n as nat);
    crate::text::lemma_lower_concat(a, seq!['/']);
    crate::text::lemma_lower_concat(a + seq!['/'], dm);
    crate::text::lemma_lower_concat(b, seq!['/']);
    crate::text::lemma_lower_concat(b + seq!['/'], dn);
    crate::text::lemma_lower_fixes(dm);
    crate::text::lemma_lower_fixes(dn);
    assert(lower(seq!['/']) =~= seq!['/']);
    let la = lower(a);
    let lb = lower(b);
    let s = la + seq!['/'] + dm;
    assert(s == lb + seq!['/'] + dn);
    assert(s.len() == la.len() + 1 + dm.len());
    assert(s.len() == lb.len() + 1 + dn.len());
    if dm.len() == dn.len() {
        assert(la.len() == lb.len());
        assert(dm =~= dn) by {
            assert forall|i: int| 0 <= i < dm.len() implies dm[i] == dn[i] by {
                assert(s[la.len() + 1 + i] == dm[i]);
                assert(s[lb.len() + 1 + i] == dn[i]);
            }
        }
        crate::text::lemma_dec_str_injective(m as nat, n as nat);
        assert(la =~= lb) by {
            assert forall|i: int| 0 <= i < la.len() implies la[i] == lb[i] by {
                assert(s[i] == la[i]);
                assert(s[i] == lb[i]);
            }
        }
    } else if dm.len() < dn.len() {
        let p = la.len() as int;
        assert(s[p] == '/');
        assert(p >= lb.len() + 1);
        assert(s[p] == dn[p - lb.len() - 1]);
        assert(false);
    } else {
        let p = lb.len() as int;
        assert(s[p] == '/');
        assert(p >= la.len() + 1);
        assert(s[p] == dm[p - la.len() - 1]);
        assert(false);
    }
}

/// The law of unique canonical identifiers: in a well-formed store, two
/// distinct chapters never share an identifier, even without regard to
/// ASCII case — the derived identifier reads its audience and sequence
/// number back uniquely, and sequence numbers are unique per novel.
pub proof fn lemma_chapter_ids_unique(s: Storage, i: int, j: int)
    requires
        s.wf(),
        0 <= i < s.chapters@.len(),
        0 <= j < s.chapters@.len(),
        i != j,
    ensures
        lower(s.chapters@[i].apub_id@) != lower(s.chapters@[j].apub_id@),
{
    let ci = s.chapters@[i];
    let cj = s.chapters@[j];
    if lower(ci.apub_id@) == lower(cj.apub_id@) {
        assert(Storage::chapter_id_derived(ci));
        assert(Storage::chapter_id_derived(cj));
        lemma_derived_id_injective(ci.audience@, ci.sequence, cj.audience@, cj.sequence);
        lemma_sequence_unique(s, i, j);
    }
}

/// Both stores hold the same relations.
pub open spec fn storage_same(a: Storage, b: Storage) -> bool {
    &&& a.users@ == b.users@
    &&& a.novels@ == b.novels@
    &&& a.author_roles@ == b.author_roles@
    &&& a.chapters@ == b.chapters@
}

/// The next sequence number depends on the novel's identifier only up to
/// ASCII case.
pub proof fn lemma_next_sequence_congruent(chs: Seq<Chapter>, a: Seq<char>, b: Seq<char>)
    requires
        lower(a) == lower(b),
    ensures
        Storage::spec_next_sequence(chs, a) == Storage::spec_next_sequence(chs, b),
    decreases chs.len(),
{
    if chs.len() > 0 {
        lemma_next_sequence_congruent(chs.drop_last(), a, b);
    }
}

} // verus!
