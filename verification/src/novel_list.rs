//! An author's outbox: the ordered collection of the novels they hold an
//! authorship row on, most recently published first.

use vstd::prelude::*;

verus! {

use crate::store::{key_find, lemma_key_find_some, DbNovel, Storage};
use crate::text::lower;
use vstd::multiset::Multiset;
use vstd::string::StringExecFns;

/// The identifiers of the novels the owner authors, in store order.
pub open spec fn author_novel_ids(store: Storage, owner: Seq<char>) -> Seq<Seq<char>> {
    store.novels@.filter(|n: DbNovel| store.spec_has_author_role(n.apub_id@, owner)).map_values(
        |n: DbNovel| n.apub_id@,
    )
}

/// The publication time of the novel a canonical identifier names, or zero
/// when it names none.
pub open spec fn spec_novel_published(store: Storage, id: Seq<char>) -> int {
    match key_find(store.novel_id_keys(), lower(id)) {
        Some(i) => store.novels@[i].published as int,
        None => 0,
    }
}

/// An ordered collection of novel identifiers.
pub struct NovelList {
    pub total_items: usize,
    pub ordered_items: Vec<String>,
}

impl NovelList {
    /// Reads the owner's collection from the local store: exactly the
    /// novels the owner holds an authorship row on, most recently
    /// published first.
    #[verifier::loop_isolation(false)]
    pub fn read_local(owner_id: &str, store: &Storage) -> (r: NovelList)
        requires
            store.wf(),
        ensures
            r.total_items == r.ordered_items@.len(),
            r.ordered_items@.map_values(|s: String| s@).to_multiset() == author_novel_ids(
                *store,
                owner_id@,
            ).to_multiset(),
            forall|k1: int, k2: int|
                0 <= k1 < k2 < r.ordered_items@.len() ==> spec_novel_published(
                    *store,
                    (#[trigger] r.ordered_items@[k1])@,
                ) >= spec_novel_published(*store, (#[trigger] r.ordered_items@[k2])@),
    {
        let ghost fv = |s: String| s@;
        let ghost fid = |n: DbNovel| n.apub_id@;
        let ghost pred = |n: DbNovel| store.spec_has_author_role(n.apub_id@, owner_id@);
        let n = store.novels.len();
        let mut idxs: Vec<usize> = Vec::new();
        let mut i: usize = 0;
        proof {
            reveal(Seq::filter);
        }
        while i < n
            invariant
                i <= n,
                idxs@.map_values(|x: usize| store.novels@[x as int].apub_id@)
                    == store.novels@.subrange(0, i as int).filter(pred).map_values(fid),
                forall|k: int| 0 <= k < idxs@.len() ==> #[trigger] idxs@[k] < i,
            decreases n - i,
        {
            let ghost pre = store.novels@.subrange(0, i as int);
            let ghost goldi = idxs@;
            let matched = store.can_write(store.novels[i].apub_id.as_str(), owner_id);
            if matched {
                idxs.push(i);
            }
            proof {
                let gm = |x: usize| store.novels@[x as int].apub_id@;
                assert(store.novels@.subrange(0, i + 1 as int).drop_last() =~= pre);
                assert(store.novels@.subrange(0, i + 1 as int).last() == store.novels@[i as int]);
                if matched {
                    assert(idxs@.map_values(gm) =~= goldi.map_values(gm).push(
                        store.novels@[i as int].apub_id@,
                    ));
                    assert(pre.filter(pred).map_values(fid).push(store.novels@[i as int].apub_id@)
                        =~= store.novels@.subrange(0, i + 1 as int).filter(pred).map_values(fid));
                } else {
                    assert(store.novels@.subrange(0, i + 1 as int).filter(pred) == pre.filter(
                        pred,
                    ));
                }
            }
            i = i + 1;
        }
        proof {
            assert(store.novels@.subrange(0, n as int) =~= store.novels@);
        }
        // order by publication time, most recent first
        let mut src = idxs;
        let mut out: Vec<usize> = Vec::new();
        let ghost gm = |x: usize| store.novels@[x as int].apub_id@;
        let ghost all = author_novel_ids(*store, owner_id@);
        proof {
            broadcast use vstd::seq_lib::group_to_multiset_ensures;
            broadcast use vstd::multiset::group_multiset_axioms;

            assert(out@.map_values(gm).to_multiset() =~= Multiset::<Seq<char>>::empty());
            assert(out@.map_values(gm).to_multiset().add(src@.map_values(gm).to_multiset())
                =~= all.to_multiset());
        }
        while src.len() > 0
            invariant
                out@.map_values(gm).to_multiset().add(src@.map_values(gm).to_multiset())
                    == all.to_multiset(),
                forall|k: int| 0 <= k < out@.len() ==> #[trigger] out@[k] < store.novels@.len(),
                forall|k: int| 0 <= k < src@.len() ==> #[trigger] src@[k] < store.novels@.len(),
                forall|k1: int, k2: int|
                    0 <= k1 < k2 < out@.len() ==> store.novels@[#[trigger] out@[k1] as int].published
                        >= store.novels@[#[trigger] out@[k2] as int].published,
                forall|k1: int, k2: int|
                    0 <= k1 < out@.len() && 0 <= k2 < src@.len() ==> store.novels@[#[trigger] out@[
                        k1
                    ] as int].published >= store.novels@[#[trigger] src@[k2] as int].published,
            decreases src@.len(),
        {
            let sn = src.len();
            let mut m: usize = 0;
            let mut k: usize = 1;
            while k < sn
                invariant
                    m < k <= sn,
                    sn == src@.len(),
                    forall|k2: int|
                        0 <= k2 < k ==> store.novels@[src@[m as int] as int].published
                            >= store.novels@[#[trigger] src@[k2] as int].published,
                decreases sn - k,
            {
                if store.novels[src[k]].published > store.novels[src[m]].published {
                    m = k;
                }
                k = k + 1;
            }
            let ghost gsrc = src@;
            let ghost gout = out@;
            let x = src.remove(m);
            out.push(x);
            proof {
                broadcast use vstd::seq_lib::group_to_multiset_ensures;
                broadcast use vstd::multiset::group_multiset_axioms;

                let xv = gm(gsrc[m as int]);
                assert(src@.map_values(gm) =~= gsrc.map_values(gm).remove(m as int));
                assert(out@.map_values(gm) =~= gout.map_values(gm).push(xv));
                assert(gsrc.map_values(gm).to_multiset().contains(xv)) by {
                    assert(gsrc.map_values(gm)[m as int] == xv);
                }
                assert(gout.map_values(gm).push(xv).to_multiset() =~= gout.map_values(
                    gm,
                ).to_multiset().insert(xv));
                assert(gsrc.map_values(gm).remove(m as int).to_multiset() =~= gsrc.map_values(
                    gm,
                ).to_multiset().remove(xv));
                assert(gout.map_values(gm).to_multiset().insert(xv).add(
                    gsrc.map_values(gm).to_multiset().remove(xv),
                ) =~= gout.map_values(gm).to_multiset().add(gsrc.map_values(gm).to_multiset()));
            }
        }
        // materialize the identifiers
        let on = out.len();
        let mut items: Vec<String> = Vec::new();
        let mut k: usize = 0;
        while k < on
            invariant
                k <= on,
                on == out@.len(),
                items@.map_values(fv) == out@.subrange(0, k as int).map_values(gm),
            decreases on - k,
        {
            let ghost golditems = items@;
            items.push(store.novels[out[k]].apub_id.clone());
            proof {
                assert(out@.subrange(0, k + 1 as int).drop_last() =~= out@.subrange(0, k as int));
                assert(items@.map_values(fv) =~= golditems.map_values(fv).push(
                    gm(out@[k as int]),
                ));
                assert(out@.subrange(0, k + 1 as int).map_values(gm) =~= out@.subrange(
                    0,
                    k as int,
                ).map_values(gm).push(gm(out@[k as int])));
            }
            k = k + 1;
        }
        proof {
            assert(out@.subrange(0, on as int) =~= out@);
            assert(src@.map_values(gm).to_multiset() =~= Multiset::<Seq<char>>::empty());
            assert(items@.map_values(fv).to_multiset() =~= all.to_multiset());
            // the identifier of a stored novel finds that novel again
            assert forall|k1: int, k2: int|
                0 <= k1 < k2 < items@.len() implies spec_novel_published(
                *store,
                (#[trigger] items@[k1])@,
            ) >= spec_novel_published(*store, (#[trigger] items@[k2])@) by {
                lemma_id_lookup(*store, out@[k1] as int);
                lemma_id_lookup(*store, out@[k2] as int);
                assert(items@[k1]@ == items@.map_values(fv)[k1]);
                assert(items@[k2]@ == items@.map_values(fv)[k2]);
                assert(items@.map_values(fv)[k1] == gm(out@[k1]));
                assert(items@.map_values(fv)[k2] == gm(out@[k2]));
            }
        }
        let total_items = items.len();
        NovelList { total_items, ordered_items: items }
    }
}

/// In a well-formed store a novel's identifier looks that novel up again.
proof fn lemma_id_lookup(store: Storage, i: int)
    requires
        store.wf(),
        0 <= i < store.novels@.len(),
    ensures
        key_find(store.novel_id_keys(), lower(store.novels@[i].apub_id@)) == Some(i),
{
    let keys = store.novel_id_keys();
    let key = lower(store.novels@[i].apub_id@);
    assert(keys[i] == key);
    assert forall|j: int| 0 <= j < i implies keys[j] != key by {
        if keys[j] == key {
            assert(lower(store.novels@[j].apub_id@) == lower(store.novels@[i].apub_id@));
        }
    }
    lemma_key_find_some(keys, key, i);
}

} // verus!
