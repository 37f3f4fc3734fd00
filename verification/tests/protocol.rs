//! The chapter-publication protocol end to end: local creation with the
//! authorization gate, the sequence allocator, and the Add/Accept exchange.

use wordforge::activities::{Add, NewArticle, NewChapter, NovelAcceptedActivities};
use wordforge::chapters::{create_chapter, new_chapter, NewChapterOutcome};
use wordforge::enums::{Genres, Roles};
use wordforge::errors::ChapterCreationError;
use wordforge::novels::{create_novel, NewNovel};
use wordforge::store::{Chapter, DbNovel, Storage};

const DOMAIN: &str = "example.org";
const SCHEME: &str = "http";

fn registered_user(store: &mut Storage, name: &str) -> String {
    let r = wordforge::account::register(
        store,
        name,
        name,
        &format!("{}@mail.example", name),
        "password123",
        "hash",
        "pubkey",
        "privkey",
        SCHEME,
        DOMAIN,
        1_000,
    );
    assert!(r.is_ok());
    store.users.last().unwrap().apub_id.clone()
}

fn fresh_novel(store: &mut Storage, author_id: &str) -> (String, String) {
    let info = NewNovel {
        title: String::from("A Story"),
        summary: String::from("about things"),
        genre: Genres::Fantasy,
        role: Roles::Writer,
        lang: String::from("English"),
        sensitive: false,
        tags: String::new(),
    };
    let uuid = create_novel(
        store,
        Some(author_id),
        info,
        SCHEME,
        DOMAIN,
        "npub",
        "npriv",
        2_000,
    )
    .ok()
    .unwrap();
    let novel_id = format!("{}://{}/novel/{}", SCHEME, DOMAIN, uuid);
    (uuid, novel_id)
}

fn draft(title: &str) -> NewChapter {
    NewChapter {
        title: String::from(title),
        summary: String::from("a summary"),
        sensitive: false,
    }
}

#[test]
fn first_chapter_gets_sequence_zero() {
    let mut store = Storage::new();
    let u1 = registered_user(&mut store, "u1");
    let (uuid, novel_id) = fresh_novel(&mut store, &u1);
    let r = new_chapter(&mut store, Some(&u1), &uuid, draft("Ch1"), DOMAIN, 3_000);
    match r {
        Ok(NewChapterOutcome::Created(id)) => assert_eq!(id, format!("{}/0", novel_id)),
        _ => panic!("expected a created chapter"),
    }
    let r2 = new_chapter(&mut store, Some(&u1), &uuid, draft("Ch2"), DOMAIN, 4_000);
    match r2 {
        Ok(NewChapterOutcome::Created(id)) => assert_eq!(id, format!("{}/1", novel_id)),
        _ => panic!("expected a created chapter"),
    }
    assert_eq!(store.chapters.len(), 2);
    assert_eq!(store.chapters[0].sequence, 0);
    assert_eq!(store.chapters[1].sequence, 1);
}

#[test]
fn unauthorized_author_creates_nothing() {
    let mut store = Storage::new();
    let u1 = registered_user(&mut store, "u1");
    let u2 = registered_user(&mut store, "u2");
    let (uuid, _) = fresh_novel(&mut store, &u1);
    let before = store.chapters.len();
    let r = new_chapter(&mut store, Some(&u2), &uuid, draft("Ch1"), DOMAIN, 3_000);
    assert!(matches!(r, Err(ChapterCreationError::Unauthorized)));
    assert_eq!(store.chapters.len(), before);
}

#[test]
fn no_session_is_unauthorized() {
    let mut store = Storage::new();
    let u1 = registered_user(&mut store, "u1");
    let (uuid, _) = fresh_novel(&mut store, &u1);
    let r = new_chapter(&mut store, None, &uuid, draft("Ch1"), DOMAIN, 3_000);
    assert!(matches!(r, Err(ChapterCreationError::Unauthorized)));
    assert_eq!(store.chapters.len(), 0);
}

#[test]
fn unknown_novel_is_not_found() {
    let mut store = Storage::new();
    let u1 = registered_user(&mut store, "u1");
    let r = new_chapter(
        &mut store,
        Some(&u1),
        "0f0e0d0c-0b0a-0908-0706-050403020100",
        draft("Ch1"),
        DOMAIN,
        3_000,
    );
    assert!(matches!(r, Err(ChapterCreationError::NotFound)));
    assert_eq!(store.chapters.len(), 0);
}

#[test]
fn sequence_numbers_stay_unique_per_novel() {
    let mut store = Storage::new();
    let u1 = registered_user(&mut store, "u1");
    let (uuid_a, _) = fresh_novel(&mut store, &u1);
    let (uuid_b, _) = fresh_novel(&mut store, &u1);
    for i in 0..4 {
        let title = format!("A{}", i);
        let r = new_chapter(&mut store, Some(&u1), &uuid_a, draft(&title), DOMAIN, 3_000 + i);
        assert!(matches!(r, Ok(NewChapterOutcome::Created(_))));
        let title = format!("B{}", i);
        let r = new_chapter(&mut store, Some(&u1), &uuid_b, draft(&title), DOMAIN, 3_000 + i);
        assert!(matches!(r, Ok(NewChapterOutcome::Created(_))));
    }
    for i in 0..store.chapters.len() {
        for j in 0..store.chapters.len() {
            if i != j
                && store.chapters[i]
                    .audience
                    .eq_ignore_ascii_case(&store.chapters[j].audience)
            {
                assert_ne!(store.chapters[i].sequence, store.chapters[j].sequence);
            }
        }
    }
}

#[test]
fn remote_novel_becomes_an_add_plan() {
    let mut store = Storage::new();
    let u1 = registered_user(&mut store, "u1");
    let r = new_chapter(
        &mut store,
        Some(&u1),
        "story@far.example",
        draft("Ch1"),
        DOMAIN,
        3_000,
    );
    match r {
        Ok(NewChapterOutcome::RemoteNovel(name, domain)) => {
            assert_eq!(name, "story");
            assert_eq!(domain, "far.example");
        }
        _ => panic!("expected a remote plan"),
    }
    assert_eq!(store.chapters.len(), 0);
}

#[test]
fn add_send_requires_a_local_actor() {
    let mut store = Storage::new();
    let u1 = registered_user(&mut store, "u1");
    let add = Add::send(
        &store,
        draft("Ch1"),
        &u1,
        "https://far.example/novel/abc",
        SCHEME,
        DOMAIN,
        12345,
    )
    .ok()
    .unwrap();
    assert_eq!(add.actor, u1);
    assert_eq!(add.target, "https://far.example/novel/abc");
    assert_eq!(add.object.name, "Ch1");
    assert_eq!(add.id, format!("{}://{}/activities/12345", SCHEME, DOMAIN));

    let stranger = Add::send(
        &store,
        draft("Ch1"),
        "https://far.example/user/ghost",
        "https://far.example/novel/abc",
        SCHEME,
        DOMAIN,
        12346,
    );
    assert!(matches!(stranger, Err(ChapterCreationError::NotFound)));
}

#[test]
fn received_add_creates_chapter_and_accept() {
    let mut store = Storage::new();
    // the requesting author lives on another server but holds authorship
    let remote_author = "https://far.example/user/carol";
    let (uuid, novel_id) = fresh_novel(&mut store, remote_author);
    let _ = uuid;
    let add = Add {
        actor: String::from(remote_author),
        object: NewArticle {
            name: String::from("Ch1"),
            summary: String::from("s"),
            sensitive: true,
        },
        target: novel_id.clone(),
        id: String::from("https://far.example/activities/7"),
    };
    let accept = NovelAcceptedActivities::Add(add)
        .receive(&mut store, SCHEME, DOMAIN, 99, 5_000)
        .ok()
        .unwrap();
    assert_eq!(store.chapters.len(), 1);
    assert_eq!(store.chapters[0].sequence, 0);
    assert_eq!(store.chapters[0].title, "Ch1");
    assert!(store.chapters[0].sensitive);
    assert_eq!(accept.actor, novel_id);
    assert_eq!(accept.object, "https://far.example/activities/7");
    assert_eq!(accept.target, format!("{}/0", novel_id));
    assert_eq!(accept.id, format!("{}://{}/activities/99", SCHEME, DOMAIN));
}

#[test]
fn received_add_for_unknown_novel_is_rejected() {
    let mut store = Storage::new();
    let add = Add {
        actor: String::from("https://far.example/user/carol"),
        object: NewArticle {
            name: String::from("Ch1"),
            summary: String::from("s"),
            sensitive: false,
        },
        target: String::from("http://example.org/novel/does-not-exist"),
        id: String::from("https://far.example/activities/8"),
    };
    let r = NovelAcceptedActivities::Add(add).receive(&mut store, SCHEME, DOMAIN, 99, 5_000);
    assert!(matches!(r, Err(ChapterCreationError::NotFound)));
    assert_eq!(store.chapters.len(), 0);
}

#[test]
fn received_add_without_authorship_is_rejected() {
    let mut store = Storage::new();
    let u1 = registered_user(&mut store, "u1");
    let (_, novel_id) = fresh_novel(&mut store, &u1);
    let add = Add {
        actor: String::from("https://far.example/user/ghost"),
        object: NewArticle {
            name: String::from("Ch1"),
            summary: String::from("s"),
            sensitive: false,
        },
        target: novel_id,
        id: String::from("https://far.example/activities/9"),
    };
    let verdict = add.verify(&store);
    assert!(matches!(verdict, Err(ChapterCreationError::Unauthorized)));
    let r = NovelAcceptedActivities::Add(add).receive(&mut store, SCHEME, DOMAIN, 99, 5_000);
    assert!(matches!(r, Err(ChapterCreationError::Unauthorized)));
    assert_eq!(store.chapters.len(), 0);
}

#[test]
fn create_chapter_alone_allocates_in_order() {
    let mut store = Storage::new();
    let u1 = registered_user(&mut store, "u1");
    let (_, novel_id) = fresh_novel(&mut store, &u1);
    let a = create_chapter(&mut store, draft("One"), &novel_id, 10).ok().unwrap();
    let b = create_chapter(&mut store, draft("Two"), &novel_id, 11).ok().unwrap();
    assert_eq!(a, format!("{}/0", novel_id));
    assert_eq!(b, format!("{}/1", novel_id));
}

#[test]
fn chapter_drafts_round_trip_through_wire_form() {
    let d = NewChapter {
        title: String::from("T"),
        summary: String::from("S"),
        sensitive: true,
    };
    let wire = d.into_json();
    assert_eq!(wire.name, "T");
    let back = NewChapter::from_json(wire);
    assert_eq!(back.title, "T");
    assert_eq!(back.summary, "S");
    assert!(back.sensitive);
}

#[test]
fn an_exhausted_sequence_is_an_internal_error() {
    let mut store = Storage::new();
    let novel_id = String::from("http://example.org/novel/n");
    store.novels.push(DbNovel {
        apub_id: novel_id.clone(),
        preferred_username: String::from("n"),
        title: String::from("N"),
        summary: String::new(),
        genre: Genres::Drama,
        tags: Vec::new(),
        language: String::from("en"),
        sensitive: false,
        inbox: format!("{}/inbox", novel_id),
        outbox: format!("{}/outbox", novel_id),
        public_key: String::new(),
        private_key: None,
        published: 1,
        last_refresh: 1,
    });
    store.chapters.push(Chapter {
        apub_id: format!("{}/{}", novel_id, u64::MAX),
        audience: novel_id.clone(),
        title: String::from("last"),
        summary: String::new(),
        sensitive: false,
        sequence: u64::MAX,
        published: 1,
        updated: None,
        last_refresh: 1,
    });
    let r = create_chapter(&mut store, draft("overflow"), &novel_id, 2);
    assert!(matches!(r, Err(ChapterCreationError::InternalError(_))));
    assert_eq!(store.chapters.len(), 1);
}
