//! Collection views: the chapter listing of a novel, tolerance of partial
//! fetch failures when mirroring a remote novel, and an author's outbox.

use wordforge::activities::NewChapter;
use wordforge::chapters::{assemble_chapter_list, get_chapters, ChapterListOutcome};
use wordforge::enums::{Genres, Roles};
use wordforge::errors::ChapterError;
use wordforge::novel_list::NovelList;
use wordforge::novels::{create_novel, NewNovel};
use wordforge::objects::Article;
use wordforge::store::{Chapter, Storage};

const DOMAIN: &str = "example.org";

fn author(store: &mut Storage, name: &str) -> String {
    let r = wordforge::account::register(
        store,
        name,
        name,
        &format!("{}@mail.example", name),
        "password123",
        "hash",
        "pub",
        "priv",
        "http",
        DOMAIN,
        1_000,
    );
    assert!(r.is_ok());
    store.users.last().unwrap().apub_id.clone()
}

fn novel_at(store: &mut Storage, author_id: &str, published: i64) -> (String, String) {
    let info = NewNovel {
        title: String::from("N"),
        summary: String::new(),
        genre: Genres::Drama,
        role: Roles::Writer,
        lang: String::from("English"),
        sensitive: false,
        tags: String::new(),
    };
    let uuid = create_novel(
        store,
        Some(author_id),
        info,
        "http",
        DOMAIN,
        "npub",
        "npriv",
        published,
    )
    .ok()
    .unwrap();
    let id = format!("http://{}/novel/{}", DOMAIN, uuid);
    (uuid, id)
}

fn add_chapter(store: &mut Storage, sid: &str, uuid: &str, title: &str, now: i64) {
    let d = NewChapter {
        title: String::from(title),
        summary: String::new(),
        sensitive: false,
    };
    let r = wordforge::chapters::new_chapter(store, Some(sid), uuid, d, DOMAIN, now);
    assert!(r.is_ok());
}

#[test]
fn local_listing_is_most_recent_first() {
    let mut store = Storage::new();
    let a = author(&mut store, "ann");
    let (uuid, novel_id) = novel_at(&mut store, &a, 2_000);
    add_chapter(&mut store, &a, &uuid, "c0", 3_000);
    add_chapter(&mut store, &a, &uuid, "c1", 3_001);
    add_chapter(&mut store, &a, &uuid, "c2", 3_002);
    match get_chapters(&store, &uuid, DOMAIN) {
        Ok(ChapterListOutcome::Chapters(list)) => {
            assert_eq!(list.len(), 3);
            let seqs: Vec<u64> = list
                .iter()
                .map(|r| r.as_ref().ok().unwrap().sequence)
                .collect();
            assert_eq!(seqs, vec![2, 1, 0]);
            assert_eq!(
                list[0].as_ref().ok().unwrap().apub_id,
                format!("{}/2", novel_id)
            );
        }
        _ => panic!("expected the local listing"),
    }
}

#[test]
fn listing_an_unknown_novel_fails() {
    let store = Storage::new();
    assert!(matches!(
        get_chapters(&store, "0f0e0d0c-0b0a-0908-0706-050403020100", DOMAIN),
        Err(ChapterError::NotFound)
    ));
}

#[test]
fn listing_a_remote_novel_is_the_callers_fetch() {
    let store = Storage::new();
    match get_chapters(&store, "story@far.example", DOMAIN) {
        Ok(ChapterListOutcome::RemoteNovel(name, domain)) => {
            assert_eq!(name, "story");
            assert_eq!(domain, "far.example");
        }
        _ => panic!("expected a remote instruction"),
    }
}

fn mirrored(id: &str, seq: u64) -> Chapter {
    let doc = Article {
        id: String::from(id),
        name: format!("chapter {}", seq),
        audience: String::from("https://far.example/novel/n"),
        summary: String::new(),
        sensitive: false,
        published: 5,
        updated: None,
    };
    Chapter::from_json(doc, seq, 77)
}

#[test]
fn one_failed_fetch_leaves_the_other_chapters() {
    let ids = vec![
        String::from("https://far.example/novel/n/2"),
        String::from("https://far.example/novel/n/1"),
        String::from("https://far.example/novel/n/0"),
    ];
    let fetched = vec![
        Ok(mirrored("https://far.example/novel/n/2", 2)),
        Err(String::from("connection refused")),
        Ok(mirrored("https://far.example/novel/n/0", 0)),
    ];
    let assembled = assemble_chapter_list(&ids, fetched);
    assert_eq!(assembled.len(), 3);
    assert_eq!(assembled[0].as_ref().ok().unwrap().sequence, 2);
    match &assembled[1] {
        Err(ChapterError::InternalError(msg)) => {
            assert_eq!(msg, "https://far.example/novel/n/1: connection refused")
        }
        _ => panic!("the failed position must carry its own error"),
    }
    assert_eq!(assembled[2].as_ref().ok().unwrap().sequence, 0);
}

#[test]
fn outbox_lists_authored_novels_most_recent_first() {
    let mut store = Storage::new();
    let a = author(&mut store, "ann");
    let b = author(&mut store, "ben");
    let (_, early) = novel_at(&mut store, &a, 1_000);
    let (_, other) = novel_at(&mut store, &b, 1_500);
    let (_, late) = novel_at(&mut store, &a, 9_000);
    let list = NovelList::read_local(&a, &store);
    assert_eq!(list.total_items, 2);
    assert_eq!(list.ordered_items, vec![late.clone(), early.clone()]);
    assert!(!list.ordered_items.contains(&other));
}

#[test]
fn chapter_documents_round_trip() {
    let mut store = Storage::new();
    let a = author(&mut store, "ann");
    let (uuid, _) = novel_at(&mut store, &a, 2_000);
    add_chapter(&mut store, &a, &uuid, "The One", 3_000);
    let doc = store.chapters[0].into_json();
    assert_eq!(doc.name, "The One");
    let back = Chapter::from_json(doc, store.chapters[0].sequence, 4_000);
    assert_eq!(back.apub_id, store.chapters[0].apub_id);
    assert_eq!(back.title, "The One");
    assert_eq!(back.last_refresh, 4_000);
}

#[test]
fn the_outbox_collection_carries_the_same_ids() {
    let mut store = Storage::new();
    let a = author(&mut store, "ann");
    let (uuid, novel_id) = novel_at(&mut store, &a, 2_000);
    add_chapter(&mut store, &a, &uuid, "c0", 3_000);
    add_chapter(&mut store, &a, &uuid, "c1", 3_001);
    let outbox = wordforge::chapters::ChapterList::read_local(&novel_id, &store);
    assert_eq!(outbox.total_items, 2);
    assert_eq!(
        outbox.ordered_items,
        vec![format!("{}/1", novel_id), format!("{}/0", novel_id)]
    );
}
