//! The Add/Accept message exchange used when the requesting author's home
//! server differs from the novel's.  The requester's server builds an
//! `Add`; the novel's home server verifies it against its own authorship
//! relation, creates the chapter, and answers with an `Accept` addressed
//! to the requester.  Delivery itself belongs to a collaborator: these
//! functions construct and interpret the messages.

use vstd::prelude::*;

verus! {

use crate::chapters::create_chapter;
use crate::errors::ChapterCreationError;
use crate::store::{key_find, Storage};
use crate::text::{dec_str, lower, u64_to_dec};
use vstd::string::StringExecFns;

/// A proposed chapter, as a caller supplies it.
pub struct NewChapter {
    pub title: String,
    pub summary: String,
    pub sensitive: bool,
}

/// The wire form of a proposed chapter: an Article object.
pub struct NewArticle {
    pub name: String,
    pub summary: String,
    pub sensitive: bool,
}

impl NewChapter {
    /// The wire form of the draft.
    pub fn into_json(self) -> (r: NewArticle)
        ensures
            r.name == self.title,
            r.summary == self.summary,
            r.sensitive == self.sensitive,
    {
        NewArticle { name: self.title, summary: self.summary, sensitive: self.sensitive }
    }

    /// Reads the wire form back.
    pub fn from_json(json: NewArticle) -> (r: NewChapter)
        ensures
            r.title == json.name,
            r.summary == json.summary,
            r.sensitive == json.sensitive,
    {
        NewChapter { title: json.name, summary: json.summary, sensitive: json.sensitive }
    }
}

/// A fresh activity identifier: minted under this server's authority from
/// a timestamp the caller draws.
pub fn mint_activity_id(scheme: &str, local_domain: &str, stamp: u64) -> (r: String)
    ensures
        r@ == scheme@ + "://"@ + local_domain@ + "/activities/"@ + dec_str(stamp as nat),
{
    let mut id = String::from_str(scheme);
    id.append("://");
    id.append(local_domain);
    id.append("/activities/");
    let d = u64_to_dec(stamp);
    id.append(d.as_str());
    proof {
        assert(id@ =~= scheme@ + "://"@ + local_domain@ + "/activities/"@ + dec_str(
            stamp as nat,
        ));
    }
    id
}

/// The request half of the exchange: `actor` proposes `object` for the
/// novel `target`.
pub struct Add {
    /// The requesting author's canonical identifier.
    pub actor: String,
    /// The proposed chapter.
    pub object: NewArticle,
    /// The target novel's canonical identifier.
    pub target: String,
    /// This activity's own fresh identifier.
    pub id: String,
}

/// The confirmation half: the novel `actor` accepts the Add `object` and
/// points at the created chapter `target`.
pub struct Accept {
    /// The novel's canonical identifier.
    pub actor: String,
    /// The identifier of the Add being accepted.
    pub object: String,
    /// The new chapter's canonical identifier.
    pub target: String,
    /// This activity's own fresh identifier.
    pub id: String,
}

impl Add {
    /// Builds an `Add` for delivery to a remote novel's inbox.  The
    /// requesting actor must be an account of this server; the caller
    /// hands the result to the delivery collaborator, fire and forget.
    pub fn send(
        store: &Storage,
        chapter: NewChapter,
        actor_id: &str,
        novel_id: &str,
        scheme: &str,
        local_domain: &str,
        stamp: u64,
    ) -> (r: Result<Add, ChapterCreationError>)
        ensures
            match r {
                Ok(add) => {
                    &&& key_find(store.user_id_keys(), lower(actor_id@)) is Some
                    &&& add.actor@ == actor_id@
                    &&& add.object.name == chapter.title
                    &&& add.object.summary == chapter.summary
                    &&& add.object.sensitive == chapter.sensitive
                    &&& add.target@ == novel_id@
                    &&& add.id@ == scheme@ + "://"@ + local_domain@ + "/activities/"@ + dec_str(
                        stamp as nat,
                    )
                },
                Err(ChapterCreationError::NotFound) => key_find(
                    store.user_id_keys(),
                    lower(actor_id@),
                ) is None,
                Err(_) => false,
            },
    {
        if store.find_user_by_id(actor_id).is_none() {
            return Err(ChapterCreationError::NotFound);
        }
        let id = mint_activity_id(scheme, local_domain, stamp);
        Ok(
            Add {
                actor: String::from_str(actor_id),
                object: chapter.into_json(),
                target: String::from_str(novel_id),
                id,
            },
        )
    }

    /// The receiving server's own authorization check: the target novel
    /// must be local, and the actor must hold an authorship row on it.  No
    /// claim inside the message is trusted.
    pub fn verify(&self, store: &Storage) -> (r: Result<(), ChapterCreationError>)
        ensures
            match r {
                Ok(()) => key_find(store.novel_id_keys(), lower(self.target@)) is Some
                    && store.spec_has_author_role(self.target@, self.actor@),
                Err(ChapterCreationError::NotFound) => key_find(
                    store.novel_id_keys(),
                    lower(self.target@),
                ) is None,
                Err(ChapterCreationError::Unauthorized) => key_find(
                    store.novel_id_keys(),
                    lower(self.target@),
                ) is Some && !store.spec_has_author_role(self.target@, self.actor@),
                Err(ChapterCreationError::InternalError(_)) => false,
            },
    {
        if store.find_novel_by_id(self.target.as_str()).is_none() {
            return Err(ChapterCreationError::NotFound);
        }
        if !store.can_write(self.target.as_str(), self.actor.as_str()) {
            return Err(ChapterCreationError::Unauthorized);
        }
        Ok(())
    }

    /// Receives an `Add` on the novel's home server: re-checks
    /// authorization against the local authorship relation, creates the
    /// chapter through the sequence allocator, and builds the `Accept` to
    /// hand back to the requester's inbox.  On any failure no chapter is
    /// created and no `Accept` is produced.
    pub fn receive(self, store: &mut Storage, scheme: &str, local_domain: &str, stamp: u64, now: i64) -> (r:
        Result<Accept, ChapterCreationError>)
        requires
            old(store).wf(),
        ensures
            final(store).wf(),
            final(store).users@ == old(store).users@,
            final(store).novels@ == old(store).novels@,
            final(store).author_roles@ == old(store).author_roles@,
            match r {
                Ok(acc) => {
                    &&& key_find(old(store).novel_id_keys(), lower(self.target@)) matches Some(ni)
                        && {
                        let novel = old(store).novels@[ni];
                        let c = final(store).chapters@.last();
                        &&& old(store).spec_has_author_role(self.target@, self.actor@)
                        &&& final(store).chapters@ == old(store).chapters@.push(c)
                        &&& c.audience@ == novel.apub_id@
                        &&& c.sequence as int == Storage::spec_next_sequence(
                            old(store).chapters@,
                            novel.apub_id@,
                        )
                        &&& c.apub_id@ == novel.apub_id@ + seq!['/'] + dec_str(c.sequence as nat)
                        &&& c.title == self.object.name
                        &&& c.summary == self.object.summary
                        &&& c.sensitive == self.object.sensitive
                        &&& c.published == now
                        &&& acc.actor@ == self.target@
                        &&& acc.object@ == self.id@
                        &&& acc.target@ == c.apub_id@
                        &&& acc.id@ == scheme@ + "://"@ + local_domain@ + "/activities/"@
                            + dec_str(stamp as nat)
                    }
                },
                Err(ChapterCreationError::NotFound) => {
                    &&& key_find(old(store).novel_id_keys(), lower(self.target@)) is None
                    &&& final(store).chapters@ == old(store).chapters@
                },
                Err(ChapterCreationError::Unauthorized) => {
                    &&& key_find(old(store).novel_id_keys(), lower(self.target@)) is Some
                    &&& !old(store).spec_has_author_role(self.target@, self.actor@)
                    &&& final(store).chapters@ == old(store).chapters@
                },
                Err(ChapterCreationError::InternalError(_)) => {
                    &&& key_find(old(store).novel_id_keys(), lower(self.target@)) is Some
                    &&& old(store).spec_has_author_role(self.target@, self.actor@)
                    &&& Storage::spec_next_sequence(old(store).chapters@, self.target@)
                        > u64::MAX
                    &&& final(store).chapters@ == old(store).chapters@
                },
            },
    {
        match self.verify(store) {
            Ok(()) => {},
            Err(e) => {
                return Err(e);
            },
        }
        Accept::send(
            store,
            self.target.as_str(),
            &self.object,
            self.id.as_str(),
            scheme,
            local_domain,
            stamp,
            now,
        )
    }
}

impl Accept {
    /// The authoritative half of a confirmed request: allocates the next
    /// sequence number of the local novel, persists the chapter, and
    /// builds the `Accept` that answers the `Add` named by `activity`.
    /// Authorization is the caller's step; `Add::receive` applies it
    /// before coming here.
    pub fn send(
        store: &mut Storage,
        novel_id: &str,
        chapter: &NewArticle,
        activity: &str,
        scheme: &str,
        local_domain: &str,
        stamp: u64,
        now: i64,
    ) -> (r: Result<Accept, ChapterCreationError>)
        requires
            old(store).wf(),
        ensures
            final(store).wf(),
            final(store).users@ == old(store).users@,
            final(store).novels@ == old(store).novels@,
            final(store).author_roles@ == old(store).author_roles@,
            match r {
                Ok(acc) => {
                    &&& key_find(old(store).novel_id_keys(), lower(novel_id@)) matches Some(ni)
                        && {
                        let novel = old(store).novels@[ni];
                        let c = final(store).chapters@.last();
                        &&& final(store).chapters@ == old(store).chapters@.push(c)
                        &&& c.audience@ == novel.apub_id@
                        &&& c.sequence as int == Storage::spec_next_sequence(
                            old(store).chapters@,
                            novel.apub_id@,
                        )
                        &&& c.apub_id@ == novel.apub_id@ + seq!['/'] + dec_str(c.sequence as nat)
                        &&& c.title == chapter.name
                        &&& c.summary == chapter.summary
                        &&& c.sensitive == chapter.sensitive
                        &&& c.published == now
                        &&& acc.actor@ == novel_id@
                        &&& acc.object@ == activity@
                        &&& acc.target@ == c.apub_id@
                        &&& acc.id@ == scheme@ + "://"@ + local_domain@ + "/activities/"@
                            + dec_str(stamp as nat)
                    }
                },
                Err(ChapterCreationError::NotFound) => {
                    &&& key_find(old(store).novel_id_keys(), lower(novel_id@)) is None
                    &&& final(store).chapters@ == old(store).chapters@
                },
                Err(ChapterCreationError::Unauthorized) => false,
                Err(ChapterCreationError::InternalError(_)) => {
                    &&& key_find(old(store).novel_id_keys(), lower(novel_id@)) is Some
                    &&& Storage::spec_next_sequence(old(store).chapters@, novel_id@) > u64::MAX
                    &&& final(store).chapters@ == old(store).chapters@
                },
            },
    {
        let draft = NewChapter {
            title: chapter.name.clone(),
            summary: chapter.summary.clone(),
            sensitive: chapter.sensitive,
        };
        let chapter_id = match create_chapter(store, draft, novel_id, now) {
            Ok(id) => id,
            Err(e) => {
                return Err(e);
            },
        };
        let id = mint_activity_id(scheme, local_domain, stamp);
        Ok(
            Accept {
                actor: String::from_str(novel_id),
                object: String::from_str(activity),
                target: chapter_id,
                id,
            },
        )
    }

    /// The receiving side of an `Accept` checks nothing: the confirmation
    /// carries no instruction to act on.
    pub fn verify(&self) -> (r: Result<(), ChapterCreationError>)
        ensures
            r is Ok,
    {
        Ok(())
    }

    /// Receiving an `Accept` changes nothing on the requester's server;
    /// the chapter lives on the novel's home server alone.
    pub fn receive(self, store: &mut Storage) -> (r: Result<(), ChapterCreationError>)
        ensures
            r is Ok,
            crate::store::storage_same(*final(store), *old(store)),
    {
        Ok(())
    }
}

/// The activities a novel's inbox accepts, dispatched by their declared
/// type.
pub enum NovelAcceptedActivities {
    Add(Add),
}

impl NovelAcceptedActivities {
    /// The identifier of the carried activity.
    pub fn id(&self) -> (r: &String)
        ensures
            match self {
                NovelAcceptedActivities::Add(a) => r == a.id,
            },
    {
        match self {
            NovelAcceptedActivities::Add(a) => &a.id,
        }
    }

    /// The actor of the carried activity.
    pub fn actor(&self) -> (r: &String)
        ensures
            match self {
                NovelAcceptedActivities::Add(a) => r == a.actor,
            },
    {
        match self {
            NovelAcceptedActivities::Add(a) => &a.actor,
        }
    }

    /// Dispatches the authorization check by the activity's type.
    pub fn verify(&self, store: &Storage) -> (r: Result<(), ChapterCreationError>)
        ensures
            match self {
                NovelAcceptedActivities::Add(a) => match r {
                    Ok(()) => key_find(store.novel_id_keys(), lower(a.target@)) is Some
                        && store.spec_has_author_role(a.target@, a.actor@),
                    Err(ChapterCreationError::NotFound) => key_find(
                        store.novel_id_keys(),
                        lower(a.target@),
                    ) is None,
                    Err(ChapterCreationError::Unauthorized) => key_find(
                        store.novel_id_keys(),
                        lower(a.target@),
                    ) is Some && !store.spec_has_author_role(a.target@, a.actor@),
                    Err(ChapterCreationError::InternalError(_)) => false,
                },
            },
    {
        match self {
            NovelAcceptedActivities::Add(a) => a.verify(store),
        }
    }

    /// Dispatches reception by the activity's type; an accepted `Add`
    /// yields the `Accept` to send back.
    pub fn receive(self, store: &mut Storage, scheme: &str, local_domain: &str, stamp: u64, now: i64) -> (r:
        Result<Accept, ChapterCreationError>)
        requires
            old(store).wf(),
        ensures
            final(store).wf(),
            final(store).users@ == old(store).users@,
            final(store).novels@ == old(store).novels@,
            final(store).author_roles@ == old(store).author_roles@,
            match self {
                NovelAcceptedActivities::Add(a) => match r {
                    Ok(acc) => {
                        &&& key_find(old(store).novel_id_keys(), lower(a.target@)) matches Some(
                            ni,
                        ) && {
                            let novel = old(store).novels@[ni];
                            let c = final(store).chapters@.last();
                            &&& old(store).spec_has_author_role(a.target@, a.actor@)
                            &&& final(store).chapters@ == old(store).chapters@.push(c)
                            &&& c.audience@ == novel.apub_id@
                            &&& c.sequence as int == Storage::spec_next_sequence(
                                old(store).chapters@,
                                novel.apub_id@,
                            )
                            &&& c.apub_id@ == novel.apub_id@ + seq!['/'] + dec_str(
                                c.sequence as nat,
                            )
                            &&& c.title == a.object.name
                            &&& c.summary == a.object.summary
                            &&& c.sensitive == a.object.sensitive
                            &&& c.published == now
                            &&& acc.actor@ == a.target@
                            &&& acc.object@ == a.id@
                            &&& acc.target@ == c.apub_id@
                            &&& acc.id@ == scheme@ + "://"@ + local_domain@ + "/activities/"@
                                + dec_str(stamp as nat)
                        }
                    },
                    Err(ChapterCreationError::NotFound) => {
                        &&& key_find(old(store).novel_id_keys(), lower(a.target@)) is None
                        &&& final(store).chapters@ == old(store).chapters@
                    },
                    Err(ChapterCreationError::Unauthorized) => {
                        &&& key_find(old(store).novel_id_keys(), lower(a.target@)) is Some
                        &&& !old(store).spec_has_author_role(a.target@, a.actor@)
                        &&& final(store).chapters@ == old(store).chapters@
                    },
                    Err(ChapterCreationError::InternalError(_)) => {
                        &&& key_find(old(store).novel_id_keys(), lower(a.target@)) is Some
                        &&& old(store).spec_has_author_role(a.target@, a.actor@)
                        &&& Storage::spec_next_sequence(old(store).chapters@, a.target@)
                            > u64::MAX
                        &&& final(store).chapters@ == old(store).chapters@
                    },
                },
            },
    {
        match self {
            NovelAcceptedActivities::Add(a) => a.receive(store, scheme, local_domain, stamp, now),
        }
    }
}

} // verus!
