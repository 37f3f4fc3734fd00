//! The sequence allocator and the chapter API: creating a chapter under a
//! novel with the next gap-free sequence number and a deterministically
//! derived identifier, and listing a novel's chapters most recent first.

use vstd::prelude::*;

verus! {

use crate::activities::NewChapter;
use crate::errors::{ChapterCreationError, ChapterError};
use crate::resolver::{classify, spec_classify, RefClass, RefTarget};
use crate::store::{
    key_find, lemma_key_find_props, lemma_key_find_some, lemma_next_sequence_congruent,
    lemma_next_sequence_lb, Chapter, Storage,
};
use crate::text::{authority, authority_of, dec_str, eq_ignore_case, lower, u64_to_dec};
use vstd::string::StringExecFns;

/// The derived identifier of a chapter: the novel's identifier with the
/// decimal sequence number appended as a path segment.
pub fn derive_chapter_id(novel_id: &str, sequence: u64) -> (r: String)
    ensures
        r@ == novel_id@ + seq!['/'] + dec_str(sequence as nat),
{
    let mut id = String::from_str(novel_id);
    id.append("/");
    let d = u64_to_dec(sequence);
    id.append(d.as_str());
    proof {
        reveal_strlit("/");
        assert("/"@ =~= seq!['/']);
        assert(id@ =~= novel_id@ + seq!['/'] + dec_str(sequence as nat));
    }
    id
}

/// Allocates the next sequence number of the novel and persists the new
/// chapter, atomically from the caller's point of view: the store is held
/// exclusively, so no other allocation can interleave.  The new chapter's
/// sequence number exceeds every number assigned before, so numbers within
/// one novel stay unique.  Fails `NotFound` when no local novel has the
/// given identifier; the allocator runs only on the novel's home server.
pub fn create_chapter(store: &mut Storage, chapter: NewChapter, novel_id: &str, now: i64) -> (r:
    Result<String, ChapterCreationError>)
    requires
        old(store).wf(),
    ensures
        final(store).wf(),
        final(store).users@ == old(store).users@,
        final(store).novels@ == old(store).novels@,
        final(store).author_roles@ == old(store).author_roles@,
        match r {
            Ok(id) => {
                &&& key_find(old(store).novel_id_keys(), lower(novel_id@)) matches Some(ni) && {
                    let novel = old(store).novels@[ni];
                    let c = final(store).chapters@.last();
                    &&& final(store).chapters@ == old(store).chapters@.push(c)
                    &&& c.audience@ == novel.apub_id@
                    &&& c.sequence as int == Storage::spec_next_sequence(
                        old(store).chapters@,
                        novel.apub_id@,
                    )
                    &&& c.apub_id@ == novel.apub_id@ + seq!['/'] + dec_str(c.sequence as nat)
                    &&& id@ == c.apub_id@
                    &&& c.title == chapter.title
                    &&& c.summary == chapter.summary
                    &&& c.sensitive == chapter.sensitive
                    &&& c.published == now
                    &&& c.updated is None
                }
            },
            Err(ChapterCreationError::NotFound) => {
                &&& key_find(old(store).novel_id_keys(), lower(novel_id@)) is None
                &&& final(store).chapters@ == old(store).chapters@
            },
            Err(ChapterCreationError::InternalError(_)) => {
                &&& key_find(old(store).novel_id_keys(), lower(novel_id@)) is Some
                &&& Storage::spec_next_sequence(old(store).chapters@, novel_id@) > u64::MAX
                &&& final(store).chapters@ == old(store).chapters@
            },
            Err(ChapterCreationError::Unauthorized) => false,
        },
{
    let ni = match store.find_novel_by_id(novel_id) {
        Some(ni) => ni,
        None => {
            return Err(ChapterCreationError::NotFound);
        },
    };
    proof {
        lemma_key_find_props(store.novel_id_keys(), lower(novel_id@));
    }
    let sequence = match store.next_sequence(novel_id) {
        Some(s) => s,
        None => {
            return Err(
                ChapterCreationError::InternalError(
                    String::from_str("sequence numbers exhausted"),
                ),
            );
        },
    };
    let audience = store.novels[ni].apub_id.clone();
    let apub_id = derive_chapter_id(audience.as_str(), sequence);
    let id_out = apub_id.clone();
    let c = Chapter {
        apub_id,
        audience,
        title: chapter.title,
        summary: chapter.summary,
        sensitive: chapter.sensitive,
        sequence,
        published: now,
        updated: None,
        last_refresh: now,
    };
    proof {
        lemma_next_sequence_congruent(
            store.chapters@,
            novel_id@,
            store.novels@[ni as int].apub_id@,
        );
    }
    let ghost pre = *store;
    store.chapters.push(c);
    proof {
        let chs = store.chapters@;
        let n = chs.len() - 1;
        assert(chs.drop_last() =~= pre.chapters@);
        assert forall|i: int, j: int|
            0 <= i < j < chs.len() && lower(#[trigger] chs[i].audience@) == lower(
                #[trigger] chs[j].audience@,
            ) implies chs[i].sequence < chs[j].sequence by {
            if j < n {
                assert(pre.chapters@[i] == chs[i] && pre.chapters@[j] == chs[j]);
            } else {
                assert(chs[i] == pre.chapters@[i]);
                assert(lower(chs[n].audience@) == lower(novel_id@));
                lemma_next_sequence_lb(pre.chapters@, chs[n].audience@, i);
                lemma_next_sequence_congruent(
                    pre.chapters@,
                    chs[n].audience@,
                    chs[i].audience@,
                );
            }
        }
        assert forall|i: int| 0 <= i < chs.len() implies Storage::chapter_id_derived(
            #[trigger] chs[i],
        ) by {
            if i < n {
                assert(chs[i] == pre.chapters@[i]);
            }
        }
    }
    Ok(id_out)
}

/// What a chapter-creation request comes to, after the target reference is
/// read against this server.
pub enum NewChapterOutcome {
    /// The novel is local and the chapter was created, with this
    /// identifier.
    Created(String),
    /// The novel lives at another server: ask the discovery collaborator
    /// for `name` at `domain`, then build and deliver an `Add`.
    RemoteNovel(String, String),
    /// The novel's canonical identifier points at another server: fetch
    /// it, then build and deliver an `Add`.
    RemoteId(String),
}

/// The index of the local novel a classified reference denotes, if any.
pub open spec fn spec_local_novel(store: Storage, refc: RefClass, local_domain: Seq<char>) -> Option<
    int,
> {
    match refc {
        RefClass::Local(name) => key_find(store.novel_name_keys(), lower(name)),
        RefClass::Canonical(u) => if lower(authority_of(u)) == lower(local_domain) {
            key_find(store.novel_id_keys(), lower(u))
        } else {
            None
        },
        RefClass::Remote(_, _) => None,
    }
}

/// A chapter-creation request from a signed-in author.  The caller is
/// unauthorized without a session.  A local novel takes the direct path:
/// the authorization guard, then the sequence allocator; the request
/// succeeds only when the session's actor holds an authorship row on the
/// novel.  A remote novel is not written here: the request becomes an
/// instruction to hand an `Add` activity to the novel's home server, which
/// re-checks authorization itself.
pub fn new_chapter(
    store: &mut Storage,
    session_id: Option<&str>,
    novel_ref: &str,
    chapter: NewChapter,
    local_domain: &str,
    now: i64,
) -> (r: Result<NewChapterOutcome, ChapterCreationError>)
    requires
        old(store).wf(),
    ensures
        final(store).wf(),
        final(store).users@ == old(store).users@,
        final(store).novels@ == old(store).novels@,
        final(store).author_roles@ == old(store).author_roles@,
        match r {
            Ok(NewChapterOutcome::Created(id)) => {
                let refc = spec_classify(novel_ref@, local_domain@);
                &&& session_id matches Some(sid) && spec_local_novel(
                    *old(store),
                    refc,
                    local_domain@,
                ) matches Some(ni) && {
                    let novel = old(store).novels@[ni];
                    let c = final(store).chapters@.last();
                    &&& old(store).spec_has_author_role(novel.apub_id@, sid@)
                    &&& final(store).chapters@ == old(store).chapters@.push(c)
                    &&& c.audience@ == novel.apub_id@
                    &&& c.sequence as int == Storage::spec_next_sequence(
                        old(store).chapters@,
                        novel.apub_id@,
                    )
                    &&& c.apub_id@ == novel.apub_id@ + seq!['/'] + dec_str(c.sequence as nat)
                    &&& id@ == c.apub_id@
                    &&& c.title == chapter.title
                    &&& c.summary == chapter.summary
                    &&& c.sensitive == chapter.sensitive
                    &&& c.published == now
                }
            },
            Ok(NewChapterOutcome::RemoteNovel(name, d)) => {
                &&& final(store).chapters@ == old(store).chapters@
                &&& session_id is Some
                &&& spec_classify(novel_ref@, local_domain@) == RefClass::Remote(name@, d@)
            },
            Ok(NewChapterOutcome::RemoteId(u)) => {
                &&& final(store).chapters@ == old(store).chapters@
                &&& session_id is Some
                &&& spec_classify(novel_ref@, local_domain@) == RefClass::Canonical(u@)
                &&& !(lower(authority_of(u@)) == lower(local_domain@))
            },
            Err(ChapterCreationError::Unauthorized) => {
                &&& final(store).chapters@ == old(store).chapters@
                &&& match session_id {
                    None => true,
                    Some(sid) => spec_local_novel(
                        *old(store),
                        spec_classify(novel_ref@, local_domain@),
                        local_domain@,
                    ) matches Some(ni) && !old(store).spec_has_author_role(
                        old(store).novels@[ni].apub_id@,
                        sid@,
                    ),
                }
            },
            Err(ChapterCreationError::NotFound) => {
                &&& final(store).chapters@ == old(store).chapters@
                &&& session_id is Some
                &&& spec_local_novel(
                    *old(store),
                    spec_classify(novel_ref@, local_domain@),
                    local_domain@,
                ) is None
                &&& !(spec_classify(novel_ref@, local_domain@) matches RefClass::Remote(_, _))
            },
            Err(ChapterCreationError::InternalError(_)) => {
                &&& final(store).chapters@ == old(store).chapters@
                &&& session_id matches Some(sid) && spec_local_novel(
                    *old(store),
                    spec_classify(novel_ref@, local_domain@),
                    local_domain@,
                ) matches Some(ni) && {
                    let novel = old(store).novels@[ni];
                    &&& old(store).spec_has_author_role(novel.apub_id@, sid@)
                    &&& Storage::spec_next_sequence(old(store).chapters@, novel.apub_id@)
                        > u64::MAX
                }
            },
        },
{
    let sid = match session_id {
        Some(s) => s,
        None => {
            return Err(ChapterCreationError::Unauthorized);
        },
    };
    let novel_index: usize = match classify(novel_ref, local_domain) {
        RefTarget::Local(name) => {
            proof {
                lemma_key_find_props(store.novel_name_keys(), lower(name@));
            }
            match store.find_novel_by_name(name.as_str()) {
                Some(ni) => ni,
                None => {
                    return Err(ChapterCreationError::NotFound);
                },
            }
        },
        RefTarget::Remote(name, d) => {
            return Ok(NewChapterOutcome::RemoteNovel(name, d));
        },
        RefTarget::Canonical(u) => {
            let local = match authority(u.as_str()) {
                Some(a) => eq_ignore_case(a.as_str(), local_domain),
                None => false,
            };
            if !local {
                return Ok(NewChapterOutcome::RemoteId(u));
            }
            proof {
                lemma_key_find_props(store.novel_id_keys(), lower(u@));
            }
            match store.find_novel_by_id(u.as_str()) {
                Some(ni) => ni,
                None => {
                    return Err(ChapterCreationError::NotFound);
                },
            }
        },
    };
    proof {
        assert(spec_local_novel(
            *store,
            spec_classify(novel_ref@, local_domain@),
            local_domain@,
        ) == Some(novel_index as int));
    }
    let novel_id = store.novels[novel_index].apub_id.clone();
    if !store.can_write(novel_id.as_str(), sid) {
        return Err(ChapterCreationError::Unauthorized);
    }
    let r = create_chapter(store, chapter, novel_id.as_str(), now);
    match r {
        Ok(id) => {
            proof {
                let ghost keys = old(store).novel_id_keys();
                assert(keys[novel_index as int] == lower(novel_id@));
                assert forall|j: int| 0 <= j < novel_index implies keys[j] != lower(novel_id@) by {
                    if keys[j] == lower(novel_id@) {
                        assert(lower(old(store).novels@[j].apub_id@) == lower(
                            old(store).novels@[novel_index as int].apub_id@,
                        ));
                    }
                }
                lemma_key_find_some(keys, lower(novel_id@), novel_index as int);
            }
            Ok(NewChapterOutcome::Created(id))
        },
        Err(e) => {
            proof {
                let ghost keys = old(store).novel_id_keys();
                assert(keys[novel_index as int] == lower(novel_id@));
                lemma_key_find_props(keys, lower(novel_id@));
            }
            Err(e)
        },
    }
}

/// What a chapter-listing request comes to.
pub enum ChapterListOutcome {
    /// The novel is local: its chapters, most recent first, each
    /// individually available.
    Chapters(Vec<Result<Chapter, ChapterError>>),
    /// The novel lives at another server: ask discovery for `name` at
    /// `domain`, fetch its outbox, then assemble with
    /// `assemble_chapter_list`.
    RemoteNovel(String, String),
    /// The novel's canonical identifier points at another server.
    RemoteId(String),
}

/// Lists a novel's chapters.  For a local novel the listing comes straight
/// from the store, most recent first.  For a remote novel the caller
/// fetches the outbox and each chapter document, and assembles the results
/// with `assemble_chapter_list`.
pub fn get_chapters(store: &Storage, novel_ref: &str, local_domain: &str) -> (r: Result<
    ChapterListOutcome,
    ChapterError,
>)
    ensures
        match r {
            Ok(ChapterListOutcome::Chapters(list)) => {
                &&& spec_local_novel(
                    *store,
                    spec_classify(novel_ref@, local_domain@),
                    local_domain@,
                ) matches Some(ni) && {
                    let desc = crate::store::spec_novel_chapters(
                        store.chapters@,
                        store.novels@[ni].apub_id@,
                    ).reverse();
                    &&& list@.len() == desc.len()
                    &&& forall|i: int|
                        0 <= i < desc.len() ==> (#[trigger] list@[i] matches Ok(c) && c == desc[i])
                }
            },
            Ok(ChapterListOutcome::RemoteNovel(name, d)) => spec_classify(
                novel_ref@,
                local_domain@,
            ) == RefClass::Remote(name@, d@),
            Ok(ChapterListOutcome::RemoteId(u)) => spec_classify(novel_ref@, local_domain@)
                == RefClass::Canonical(u@) && !(lower(authority_of(u@)) == lower(local_domain@)),
            Err(ChapterError::NotFound) => spec_local_novel(
                *store,
                spec_classify(novel_ref@, local_domain@),
                local_domain@,
            ) is None && !(spec_classify(novel_ref@, local_domain@) matches RefClass::Remote(
                _,
                _,
            )),
            Err(ChapterError::InternalError(_)) => false,
        },
{
    let novel_index: usize = match classify(novel_ref, local_domain) {
        RefTarget::Local(name) => {
            proof {
                lemma_key_find_props(store.novel_name_keys(), lower(name@));
            }
            match store.find_novel_by_name(name.as_str()) {
                Some(ni) => ni,
                None => {
                    return Err(ChapterError::NotFound);
                },
            }
        },
        RefTarget::Remote(name, d) => {
            return Ok(ChapterListOutcome::RemoteNovel(name, d));
        },
        RefTarget::Canonical(u) => {
            let local = match authority(u.as_str()) {
                Some(a) => eq_ignore_case(a.as_str(), local_domain),
                None => false,
            };
            if !local {
                return Ok(ChapterListOutcome::RemoteId(u));
            }
            proof {
                lemma_key_find_props(store.novel_id_keys(), lower(u@));
            }
            match store.find_novel_by_id(u.as_str()) {
                Some(ni) => ni,
                None => {
                    return Err(ChapterError::NotFound);
                },
            }
        },
    };
    let chs = store.chapters_desc(store.novels[novel_index].apub_id.as_str());
    let m = chs.len();
    let mut list: Vec<Result<Chapter, ChapterError>> = Vec::new();
    let mut k: usize = 0;
    let ghost desc = chs@;
    for k in 0..m
        invariant
            m == chs@.len(),
            chs@ == desc,
            list@.len() == k,
            forall|i: int| 0 <= i < k ==> (#[trigger] list@[i] matches Ok(c) && c == desc[i]),
    {
        list.push(Ok(chs[k].duplicate()));
    }
    Ok(ChapterListOutcome::Chapters(list))
}

/// The ordered collection a novel publishes as its outbox: its chapters'
/// canonical identifiers, most recent first.
pub struct ChapterList {
    pub total_items: usize,
    pub ordered_items: Vec<String>,
}

impl ChapterList {
    /// Reads the owner novel's collection from the local store.
    pub fn read_local(owner_id: &str, store: &Storage) -> (r: ChapterList)
        ensures
            r.total_items == r.ordered_items@.len(),
            r.ordered_items@.map_values(|s: String| s@) == crate::store::spec_novel_chapters(
                store.chapters@,
                owner_id@,
            ).reverse().map_values(|c: Chapter| c.apub_id@),
    {
        let ids = store.chapter_ids_desc(owner_id);
        let total_items = ids.len();
        ChapterList { total_items, ordered_items: ids }
    }
}

/// Assembles a remote novel's chapter listing from the outbox identifiers
/// and the outcome of each individual fetch.  One failed fetch yields an
/// error at its own position and leaves every other position intact.
pub fn assemble_chapter_list(ids: &Vec<String>, fetched: Vec<Result<Chapter, String>>) -> (r: Vec<
    Result<Chapter, ChapterError>,
>)
    requires
        ids@.len() == fetched@.len(),
    ensures
        r@.len() == ids@.len(),
        forall|i: int|
            0 <= i < r@.len() ==> match fetched@[i] {
                Ok(c) => #[trigger] r@[i] matches Ok(rc) && rc == c,
                Err(m) => r@[i] matches Err(ChapterError::InternalError(msg)) && msg@ == ids@[i]@
                    + ": "@ + m@,
            },
{
    let n = ids.len();
    let mut rest = fetched;
    let ghost orig = rest@;
    let mut r: Vec<Result<Chapter, ChapterError>> = Vec::new();
    let mut k: usize = 0;
    while k < n
        invariant
            k <= n,
            n == ids@.len(),
            orig.len() == n,
            rest@ == orig.subrange(k as int, n as int),
            r@.len() == k,
            forall|i: int|
                0 <= i < k ==> match orig[i] {
                    Ok(c) => #[trigger] r@[i] matches Ok(rc) && rc == c,
                    Err(m) => r@[i] matches Err(ChapterError::InternalError(msg)) && msg@ == ids@[
                        i
                    ]@ + ": "@ + m@,
                },
        decreases n - k,
    {
        let item = rest.remove(0);
        proof {
            assert(orig.subrange(k as int, n as int)[0] == orig[k as int]);
            assert(orig.subrange(k as int, n as int).subrange(
                1,
                orig.subrange(k as int, n as int).len() as int,
            ) =~= orig.subrange(k + 1 as int, n as int));
        }
        match item {
            Ok(c) => {
                r.push(Ok(c));
            },
            Err(m) => {
                let msg = ids[k].clone().concat(": ").concat(m.as_str());
                proof {
                    assert(msg@ =~= ids@[k as int]@ + ": "@ + m@);
                }
                r.push(Err(ChapterError::InternalError(msg)));
            },
        }
        k = k + 1;
    }
    r
}

} // verus!
