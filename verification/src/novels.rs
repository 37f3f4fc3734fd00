//! The novel API: creating a novel — a fresh `Group` actor with its
//! creator auto-authored — and looking a novel up by reference.  Tag
//! strings are tokenized by a collaborator and then normalized here:
//! sorted, with adjacent case-insensitive duplicates dropped.

use vstd::prelude::*;

verus! {

use crate::enums::{Genres, Roles};
use crate::errors::{CreateNovelError, GetNovelError};
use crate::objects::{check_uuid_text, is_uuid_seq, Novel};
use crate::outside::{
    lang_code_ok, language_code_of, language_name_code, mint_uuid, tag_tokens, tag_tokens_of,
    trim_of, trim_str, unicode_lower, unicode_lower_of,
};
use crate::resolver::{extract_webfinger_name, spec_extract_webfinger_name};
use crate::store::{key_find, lemma_key_find_props, AuthorRole, DbNovel, Storage};
use crate::text::{
    has_char, lemma_seq_le_ordering, lemma_seq_le_total, lemma_seq_le_trans, lower, seq_le,
    str_has_char, str_le,
};
use vstd::multiset::Multiset;
use vstd::relations::sorted_by;
use vstd::seq_lib::lemma_sorted_unique;
use vstd::string::StringExecFns;

/// A request to create a novel.
pub struct NewNovel {
    pub title: String,
    pub summary: String,
    pub genre: Genres,
    pub role: Roles,
    pub lang: String,
    pub sensitive: bool,
    pub tags: String,
}

/// The string with every carriage return and line feed removed.
pub open spec fn strip_newlines_spec(s: Seq<char>) -> Seq<char> {
    s.filter(|c: char| c != '\r' && c != '\n')
}

/// Removes every carriage return and line feed.
pub fn strip_newlines(s: &str) -> (r: String)
    ensures
        r@ == strip_newlines_spec(s@),
{
    let len: usize = s.unicode_len();
    let mut r = String::new();
    let mut i: usize = 0;
    proof {
        reveal(Seq::filter);
    }
    while i < len
        invariant
            i <= len,
            len == s@.len(),
            r@ == strip_newlines_spec(s@.subrange(0, i as int)),
        decreases len - i,
    {
        let ghost pre = s@.subrange(0, i as int);
        let c = s.get_char(i);
        if c != '\r' && c != '\n' {
            crate::outside::push_char(&mut r, c);
        }
        proof {
            reveal(Seq::filter);
            assert(s@.subrange(0, i + 1 as int).drop_last() =~= pre);
            assert(s@.subrange(0, i + 1 as int).last() == s@[i as int]);
        }
        i = i + 1;
    }
    proof {
        assert(s@.subrange(0, len as int) =~= s@);
    }
    r
}

/// Keeps the first of each run of adjacent tags that agree up to Unicode
/// case.
pub open spec fn dedup_by_lower(s: Seq<Seq<char>>) -> Seq<Seq<char>>
    decreases s.len(),
{
    if s.len() <= 1 {
        s
    } else {
        let d = dedup_by_lower(s.drop_last());
        if unicode_lower_of(s.last()) == unicode_lower_of(s[s.len() - 2]) {
            d
        } else {
            d.push(s.last())
        }
    }
}

/// Sorts tags in lexicographic order.
#[verifier::loop_isolation(false)]
fn sort_tags(v: Vec<String>) -> (r: Vec<String>)
    ensures
        r@.map_values(|t: String| t@) == v@.map_values(|t: String| t@).sort_by(
            |a: Seq<char>, b: Seq<char>| seq_le(a, b),
        ),
{
    let ghost leq = |a: Seq<char>, b: Seq<char>| seq_le(a, b);
    let ghost fv = |t: String| t@;
    let ghost toks = v@.map_values(fv);
    let mut src = v;
    let mut out: Vec<String> = Vec::new();
    proof {
        broadcast use vstd::seq_lib::group_to_multiset_ensures;
        broadcast use vstd::multiset::group_multiset_axioms;

        assert(out@.map_values(fv).to_multiset() =~= Multiset::<Seq<char>>::empty());
        assert(out@.map_values(fv).to_multiset().add(src@.map_values(fv).to_multiset())
            =~= toks.to_multiset());
    }
    while src.len() > 0
        invariant
            out@.map_values(fv).to_multiset().add(src@.map_values(fv).to_multiset())
                == toks.to_multiset(),
            sorted_by(out@.map_values(fv), leq),
            forall|i: int, j: int|
                0 <= i < out@.len() && 0 <= j < src@.len() ==> seq_le(
                    #[trigger] out@.map_values(fv)[i],
                    #[trigger] src@.map_values(fv)[j],
                ),
        decreases src@.len(),
    {
        let n = src.len();
        let mut m: usize = 0;
        let mut k: usize = 1;
        proof {
            assert(src@.map_values(fv)[0] == src@[0]@);
            crate::text::lemma_seq_le_refl(src@.map_values(fv)[0]);
        }
        while k < n
            invariant
                m < k <= n,
                n == src@.len(),
                forall|k2: int|
                    0 <= k2 < k ==> seq_le(
                        src@.map_values(fv)[m as int],
                        #[trigger] src@.map_values(fv)[k2],
                    ),
            decreases n - k,
        {
            let took = str_le(src[k].as_str(), src[m].as_str());
            proof {
                assert(src@.map_values(fv)[k as int] == src@[k as int]@);
                assert(src@.map_values(fv)[m as int] == src@[m as int]@);
            }
            if took {
                proof {
                    assert forall|k2: int|
                        0 <= k2 < k + 1 implies seq_le(
                        src@.map_values(fv)[k as int],
                        #[trigger] src@.map_values(fv)[k2],
                    ) by {
                        if k2 < k {
                            assert(seq_le(src@.map_values(fv)[m as int], src@.map_values(fv)[k2]));
                            lemma_seq_le_trans(
                                src@.map_values(fv)[k as int],
                                src@.map_values(fv)[m as int],
                                src@.map_values(fv)[k2],
                            );
                        } else {
                            crate::text::lemma_seq_le_refl(src@.map_values(fv)[k as int]);
                        }
                    }
                }
                m = k;
            } else {
                proof {
                    lemma_seq_le_total(src@[k as int]@, src@[m as int]@);
                    assert forall|k2: int|
                        0 <= k2 < k + 1 implies seq_le(
                        src@.map_values(fv)[m as int],
                        #[trigger] src@.map_values(fv)[k2],
                    ) by {
                        if k2 == k {
                            assert(seq_le(src@[m as int]@, src@[k as int]@));
                        }
                    }
                }
            }
            k = k + 1;
        }
        let ghost gsrc = src@.map_values(fv);
        let ghost gout = out@.map_values(fv);
        let x = src.remove(m);
        out.push(x);
        proof {
            broadcast use vstd::seq_lib::group_to_multiset_ensures;
            broadcast use vstd::multiset::group_multiset_axioms;

            let xv = gsrc[m as int];
            assert(src@.map_values(fv) =~= gsrc.remove(m as int));
            assert(out@.map_values(fv) =~= gout.push(xv));
            assert(gsrc.to_multiset().contains(xv)) by {
                assert(gsrc[m as int] == xv);
            }
            assert(gout.push(xv).to_multiset() =~= gout.to_multiset().insert(xv));
            assert(gsrc.remove(m as int).to_multiset() =~= gsrc.to_multiset().remove(xv));
            assert(gout.to_multiset().insert(xv).add(gsrc.to_multiset().remove(xv))
                =~= gout.to_multiset().add(gsrc.to_multiset()));
            // the new last element is at least every element already placed
            assert forall|i: int, j: int|
                0 <= i < out@.len() && 0 <= j < src@.len() implies seq_le(
                #[trigger] out@.map_values(fv)[i],
                #[trigger] src@.map_values(fv)[j],
            ) by {
                let s2 = gsrc.remove(m as int);
                if j < m {
                    assert(s2[j] == gsrc[j]);
                } else {
                    assert(s2[j] == gsrc[j + 1]);
                }
                if i < gout.len() {
                    assert(out@.map_values(fv)[i] == gout[i]);
                } else {
                    assert(out@.map_values(fv)[i] == xv);
                }
            }
            assert(sorted_by(out@.map_values(fv), leq)) by {
                assert forall|i: int, j: int|
                    0 <= i < j < out@.len() implies #[trigger] leq(
                    out@.map_values(fv)[i],
                    out@.map_values(fv)[j],
                ) by {
                    if j < gout.len() {
                        assert(out@.map_values(fv)[i] == gout[i]);
                        assert(out@.map_values(fv)[j] == gout[j]);
                        assert(leq(gout[i], gout[j]));
                    } else {
                        assert(out@.map_values(fv)[j] == xv);
                        assert(out@.map_values(fv)[i] == gout[i]);
                        assert(seq_le(gout[i], gsrc[m as int]));
                    }
                }
            }
        }
    }
    proof {
        assert(src@.map_values(fv).to_multiset() =~= Multiset::<Seq<char>>::empty());
        assert(out@.map_values(fv).to_multiset() =~= toks.to_multiset());
        lemma_seq_le_ordering();
        toks.lemma_sort_by_ensures(leq);
        lemma_sorted_unique(out@.map_values(fv), toks.sort_by(leq), leq);
        assert(out@.map_values(fv) =~= toks.sort_by(leq));
    }
    out
}

/// Drops adjacent tags that agree up to Unicode case, keeping the first of
/// each run.
#[verifier::loop_isolation(false)]
fn dedup_tags(v: Vec<String>) -> (r: Vec<String>)
    ensures
        r@.map_values(|t: String| t@) == dedup_by_lower(v@.map_values(|t: String| t@)),
{
    let ghost fv = |t: String| t@;
    let n = v.len();
    let mut r: Vec<String> = Vec::new();
    let mut i: usize = 0;
    while i < n
        invariant
            i <= n,
            n == v@.len(),
            r@.map_values(fv) == dedup_by_lower(v@.subrange(0, i as int).map_values(fv)),
        decreases n - i,
    {
        let ghost gpre = v@.subrange(0, i as int).map_values(fv);
        let ghost goldr = r@.map_values(fv);
        let keep: bool = if i == 0 {
            true
        } else {
            let la = unicode_lower(v[i].as_str());
            let lb = unicode_lower(v[i - 1].as_str());
            !(la == lb)
        };
        if keep {
            r.push(v[i].clone());
        }
        proof {
            let gcur = v@.subrange(0, i + 1 as int).map_values(fv);
            assert(v@.subrange(0, i + 1 as int).drop_last() =~= v@.subrange(0, i as int));
            assert(gcur.drop_last() =~= gpre);
            assert(v@.subrange(0, i + 1 as int)[i as int] == v@[i as int]);
            assert(gcur[i as int] == v@[i as int]@);
            assert(gcur.last() == v@[i as int]@);
            if i == 0 {
                assert(gcur.len() == 1);
                assert(r@.map_values(fv) =~= gcur);
            } else {
                assert(v@.subrange(0, i + 1 as int)[i - 1 as int] == v@[i - 1 as int]);
                assert(gcur[i - 1 as int] == v@[i - 1 as int]@);
                assert(gcur[gcur.len() - 2] == v@[i - 1 as int]@);
                if keep {
                    assert(r@.map_values(fv) =~= goldr.push(v@[i as int]@));
                    assert(dedup_by_lower(gcur) == dedup_by_lower(gpre).push(v@[i as int]@));
                } else {
                    assert(dedup_by_lower(gcur) == dedup_by_lower(gpre));
                }
            }
        }
        i = i + 1;
    }
    proof {
        assert(v@.subrange(0, n as int) =~= v@);
    }
    r
}

/// The normalized form of a tag string: its tokens, sorted, with adjacent
/// case-insensitive duplicates dropped.
pub open spec fn spec_normalized_tags(s: Seq<char>) -> Seq<Seq<char>> {
    dedup_by_lower(tag_tokens_of(s).sort_by(|a: Seq<char>, b: Seq<char>| seq_le(a, b)))
}

/// Tokenizes and normalizes a tag string.
pub fn normalize_tags(s: &str) -> (r: Vec<String>)
    ensures
        r@.map_values(|t: String| t@) == spec_normalized_tags(s@),
{
    let toks = tag_tokens(s);
    proof {
        assert(toks.deep_view() =~= toks@.map_values(|t: String| t@));
    }
    dedup_tags(sort_tags(toks))
}

/// Creates a novel: a fresh `Group` actor under a newly minted key, with
/// the signed-in creator auto-authored in the given role.  The language
/// must name a known two-letter code.  The actor's key pair comes from the
/// caller's collaborator.  Returns the novel's key text.
pub fn create_novel(
    store: &mut Storage,
    session_id: Option<&str>,
    info: NewNovel,
    scheme: &str,
    local_domain: &str,
    public_key: &str,
    private_key: &str,
    now: i64,
) -> (r: Result<String, CreateNovelError>)
    requires
        old(store).wf(),
    ensures
        final(store).wf(),
        final(store).users@ == old(store).users@,
        final(store).chapters@ == old(store).chapters@,
        match r {
            Ok(u) => {
                &&& session_id matches Some(sid) && {
                    let novel = final(store).novels@.last();
                    let row = final(store).author_roles@.last();
                    &&& final(store).novels@ == old(store).novels@.push(novel)
                    &&& final(store).author_roles@ == old(store).author_roles@.push(row)
                    &&& language_code_of(info.lang@) == Some(novel.language@)
                    &&& lang_code_ok(novel.language@)
                    &&& novel.title@ == trim_of(strip_newlines_spec(trim_of(info.title@)))
                    &&& novel.summary@ == trim_of(info.summary@)
                    &&& novel.genre == info.genre
                    &&& novel.sensitive == info.sensitive
                    &&& novel.tags@.map_values(|t: String| t@) == spec_normalized_tags(info.tags@)
                    &&& is_uuid_seq(u@)
                    &&& lower(u@) == u@
                    &&& u@ == novel.preferred_username@
                    &&& novel.apub_id@ == scheme@ + "://"@ + local_domain@ + "/novel/"@ + u@
                    &&& novel.inbox@ == novel.apub_id@ + "/inbox"@
                    &&& novel.outbox@ == novel.apub_id@ + "/outbox"@
                    &&& novel.public_key@ == public_key@
                    &&& novel.private_key matches Some(k) && k@ == private_key@
                    &&& novel.published == now
                    &&& row.novel_id@ == novel.apub_id@
                    &&& row.author_id@ == sid@
                    &&& row.role == info.role
                    &&& final(store).spec_has_author_role(novel.apub_id@, sid@)
                }
            },
            Err(CreateNovelError::Unauthorized(_)) => {
                &&& session_id is None
                &&& final(store).novels@ == old(store).novels@
                &&& final(store).author_roles@ == old(store).author_roles@
            },
            Err(CreateNovelError::BadRequest(_)) => {
                &&& session_id is Some
                &&& language_code_of(info.lang@) is None
                &&& final(store).novels@ == old(store).novels@
                &&& final(store).author_roles@ == old(store).author_roles@
            },
            Err(CreateNovelError::InternalServerError(_)) => {
                &&& session_id is Some
                &&& language_code_of(info.lang@) is Some
                &&& final(store).novels@ == old(store).novels@
                &&& final(store).author_roles@ == old(store).author_roles@
            },
        },
{
    let sid = match session_id {
        Some(s) => s,
        None => {
            return Err(CreateNovelError::Unauthorized(String::from_str("Not signed in")));
        },
    };
    let title = strip_newlines(trim_str(info.title.as_str()));
    let title = String::from_str(trim_str(title.as_str()));
    let summary = String::from_str(trim_str(info.summary.as_str()));
    let lang = match language_name_code(info.lang.as_str()) {
        Some(c) => c,
        None => {
            return Err(CreateNovelError::BadRequest(String::from_str("Invalid language")));
        },
    };
    let tags = normalize_tags(info.tags.as_str());
    let uuid = mint_uuid();
    proof {
        assert forall|i: int|
            0 <= i < uuid@.len() implies !('A' <= #[trigger] uuid@[i] && uuid@[i] <= 'Z') by {}
        crate::text::lemma_lower_fixes(uuid@);
    }
    let mut url = String::from_str(scheme);
    url.append("://");
    url.append(local_domain);
    url.append("/novel/");
    url.append(uuid.as_str());
    proof {
        assert(url@ =~= scheme@ + "://"@ + local_domain@ + "/novel/"@ + uuid@);
    }
    if store.find_novel_by_id(url.as_str()).is_some() {
        return Err(
            CreateNovelError::InternalServerError(String::from_str("identifier already present")),
        );
    }
    if store.find_novel_by_name(uuid.as_str()).is_some() {
        return Err(
            CreateNovelError::InternalServerError(String::from_str("key already present")),
        );
    }
    proof {
        lemma_key_find_props(store.novel_id_keys(), lower(url@));
        lemma_key_find_props(store.novel_name_keys(), lower(uuid@));
    }
    let inbox = url.clone().concat("/inbox");
    let outbox = url.clone().concat("/outbox");
    let novel = DbNovel {
        apub_id: url.clone(),
        preferred_username: uuid.clone(),
        title,
        summary,
        genre: info.genre,
        tags,
        language: lang,
        sensitive: info.sensitive,
        inbox,
        outbox,
        public_key: String::from_str(public_key),
        private_key: Some(String::from_str(private_key)),
        published: now,
        last_refresh: now,
    };
    let ghost pre = *store;
    store.novels.push(novel);
    let row = AuthorRole {
        novel_id: url,
        author_id: String::from_str(sid),
        role: info.role,
    };
    store.author_roles.push(row);
    proof {
        let ns = store.novels@;
        let n = ns.len() - 1;
        assert(ns.drop_last() =~= pre.novels@);
        assert forall|i: int, j: int| 0 <= i < j < ns.len() implies {
            &&& lower(#[trigger] ns[i].apub_id@) != lower(#[trigger] ns[j].apub_id@)
            &&& lower(ns[i].preferred_username@) != lower(ns[j].preferred_username@)
        } by {
            if j < n {
                assert(pre.novels@[i] == ns[i] && pre.novels@[j] == ns[j]);
            } else {
                assert(ns[i] == pre.novels@[i]);
                assert(pre.novel_id_keys()[i] == lower(pre.novels@[i].apub_id@));
                assert(pre.novel_name_keys()[i] == lower(pre.novels@[i].preferred_username@));
            }
        }
        let rows = store.author_roles@;
        assert(rows[rows.len() - 1].novel_id@ == ns[n].apub_id@);
        assert(store.spec_has_author_role(ns[n].apub_id@, sid@)) by {
            assert(lower(rows[rows.len() - 1].novel_id@) == lower(ns[n].apub_id@));
        }
    }
    Ok(uuid)
}

/// How a novel lookup resolves.
pub enum NovelLookup {
    /// The novel is local: its published document.
    Found(Novel),
    /// The reference is a handle of another server: resolve it there.
    Remote(String),
}

/// Looks a novel up by reference: a handle of this server's own domain
/// becomes a redirect to the bare key; a handle of another server is the
/// caller's to resolve; a bare key is read from the local store.
pub fn get_novel(store: &Storage, reference: &str, local_domain: &str) -> (r: Result<
    NovelLookup,
    GetNovelError,
>)
    ensures
        match r {
            Ok(NovelLookup::Found(novel)) => {
                &&& !has_char(reference@, '@')
                &&& is_uuid_seq(reference@)
                &&& key_find(store.novel_name_keys(), lower(reference@)) matches Some(ni) && {
                    let n = store.novels@[ni];
                    &&& novel.id@ == n.apub_id@
                    &&& novel.preferred_username@ == lower(n.preferred_username@)
                    &&& novel.name@ == n.title@
                    &&& novel.summary@ == n.summary@
                    &&& novel.genre == n.genre
                    &&& novel.tags@ == n.tags@
                    &&& novel.language@ == n.language@
                    &&& novel.sensitive == n.sensitive
                    &&& novel.published == n.published
                    &&& novel.authors@.map_values(|a: crate::store::Author| (a.apub_id@, a.role))
                        == crate::store::spec_novel_author_roles(
                        store.author_roles@,
                        n.apub_id@,
                    ).map_values(|ar: crate::store::AuthorRole| (ar.author_id@, ar.role))
                }
            },
            Ok(NovelLookup::Remote(h)) => {
                &&& h@ == reference@
                &&& has_char(reference@, '@')
                &&& spec_extract_webfinger_name("acct:"@ + reference@, local_domain@) is None
            },
            Err(GetNovelError::PermanentRedirect(loc)) => spec_extract_webfinger_name(
                "acct:"@ + reference@,
                local_domain@,
            ) matches Some(name) && loc@ == "/novel/"@ + name,
            Err(GetNovelError::WebfingerNotFound) => false,
            Err(GetNovelError::NovelNotFound) => {
                &&& !has_char(reference@, '@')
                &&& spec_extract_webfinger_name("acct:"@ + reference@, local_domain@) is None
                &&& !is_uuid_seq(reference@) || key_find(
                    store.novel_name_keys(),
                    lower(reference@),
                ) is None
            },
            Err(GetNovelError::InternalServerError(_)) => false,
        },
{
    let acct = String::from_str("acct:").concat(reference);
    proof {
        reveal_strlit("acct:");
        assert(acct@ =~= "acct:"@ + reference@);
    }
    match extract_webfinger_name(acct.as_str(), local_domain) {
        Some(name) => {
            let loc = String::from_str("/novel/").concat(name.as_str());
            proof {
                assert(loc@ =~= "/novel/"@ + name@);
            }
            return Err(GetNovelError::PermanentRedirect(loc));
        },
        None => {},
    }
    if str_has_char(reference, '@') {
        return Ok(NovelLookup::Remote(String::from_str(reference)));
    }
    if !check_uuid_text(reference) {
        return Err(GetNovelError::NovelNotFound);
    }
    match store.find_novel_by_name(reference) {
        Some(ni) => {
            proof {
                lemma_key_find_props(store.novel_name_keys(), lower(reference@));
            }
            let authors = store.authors_of(store.novels[ni].apub_id.as_str());
            Ok(NovelLookup::Found(store.novels[ni].into_json(authors)))
        },
        None => Err(GetNovelError::NovelNotFound),
    }
}

} // verus!
