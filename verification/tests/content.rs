//! Novel content handling: the closed enumerations, language validation,
//! title clean-up, tag normalization, and the minted keys.

use wordforge::enums::{all_genres, Genres, Roles};
use wordforge::errors::CreateNovelError;
use wordforge::novels::{create_novel, get_novel, NewNovel, NovelLookup};
use wordforge::store::Storage;

const DOMAIN: &str = "example.org";

fn author(store: &mut Storage) -> String {
    let r = wordforge::account::register(
        store,
        "ann",
        "ann",
        "ann@mail.example",
        "password123",
        "hash",
        "pub",
        "priv",
        "http",
        DOMAIN,
        1_000,
    );
    assert!(r.is_ok());
    store.users.last().unwrap().apub_id.clone()
}

fn make(store: &mut Storage, sid: &str, title: &str, lang: &str, tags: &str) -> Result<
    String,
    CreateNovelError,
> {
    let info = NewNovel {
        title: String::from(title),
        summary: String::from("  a summary  "),
        genre: Genres::SciFi,
        role: Roles::Editor,
        lang: String::from(lang),
        sensitive: false,
        tags: String::from(tags),
    };
    create_novel(store, Some(sid), info, "http", DOMAIN, "npub", "npriv", 2_000)
}

#[test]
fn genre_and_role_names_round_trip() {
    assert_eq!(Genres::from_name("Sci-Fi"), Some(Genres::SciFi));
    assert_eq!(Genres::from_name("Slice of Life"), Some(Genres::SliceOfLife));
    assert_eq!(Genres::from_name("scifi"), None);
    assert_eq!(Genres::SciFi.to_name(), "Sci-Fi");
    assert_eq!(Roles::from_name("Cover Artist"), Some(Roles::CoverArtist));
    assert_eq!(Roles::from_name("None"), Some(Roles::NoRole));
    assert_eq!(Roles::NoRole.to_name(), "None");
    assert_eq!(Roles::from_name("janitor"), None);
    assert_eq!(all_genres().len(), 17);
    assert_eq!(Roles::all().len(), 14);
}

#[test]
fn the_minted_key_is_hyphenated_text() {
    let mut store = Storage::new();
    let a = author(&mut store);
    let u1 = make(&mut store, &a, "One", "English", "").ok().unwrap();
    let u2 = make(&mut store, &a, "Two", "English", "").ok().unwrap();
    for u in [&u1, &u2] {
        assert_eq!(u.len(), 36);
        for (i, c) in u.chars().enumerate() {
            if i == 8 || i == 13 || i == 18 || i == 23 {
                assert_eq!(c, '-');
            } else {
                assert!(c.is_ascii_hexdigit());
            }
        }
    }
    assert_ne!(u1, u2);
}

#[test]
fn the_language_becomes_its_two_letter_code() {
    let mut store = Storage::new();
    let a = author(&mut store);
    let uuid = make(&mut store, &a, "One", "German", "").ok().unwrap();
    match get_novel(&store, &uuid, DOMAIN) {
        Ok(NovelLookup::Found(n)) => assert_eq!(n.language, "de"),
        _ => panic!("expected the novel"),
    }
    let bad = make(&mut store, &a, "Two", "Klingon", "");
    assert!(matches!(bad, Err(CreateNovelError::BadRequest(_))));
}

#[test]
fn titles_lose_line_breaks_and_edges() {
    let mut store = Storage::new();
    let a = author(&mut store);
    let uuid = make(&mut store, &a, "  A\r\nTale  ", "English", "").ok().unwrap();
    match get_novel(&store, &uuid, DOMAIN) {
        Ok(NovelLookup::Found(n)) => {
            assert_eq!(n.name, "ATale");
            assert_eq!(n.summary, "a summary");
        }
        _ => panic!("expected the novel"),
    }
}

#[test]
fn tags_are_tokenized_sorted_and_deduplicated() {
    let mut store = Storage::new();
    let a = author(&mut store);
    let uuid = make(&mut store, &a, "One", "English", "magic, Magic swords x dragons")
        .ok()
        .unwrap();
    match get_novel(&store, &uuid, DOMAIN) {
        Ok(NovelLookup::Found(n)) => {
            // tokens of at least two characters, in sorted order; "x" is
            // too short, and "magic" stays because "dragons" parts it from
            // "Magic"
            assert_eq!(n.tags, vec!["Magic", "dragons", "magic", "swords"]);
        }
        _ => panic!("expected the novel"),
    }
    let uuid = make(&mut store, &a, "Two", "English", "Swords swords")
        .ok()
        .unwrap();
    match get_novel(&store, &uuid, DOMAIN) {
        Ok(NovelLookup::Found(n)) => {
            // adjacent case-insensitive duplicates collapse to the first
            assert_eq!(n.tags, vec!["Swords"]);
        }
        _ => panic!("expected the novel"),
    }
}

#[test]
fn creating_a_novel_needs_a_session() {
    let mut store = Storage::new();
    let info = NewNovel {
        title: String::from("One"),
        summary: String::new(),
        genre: Genres::Drama,
        role: Roles::Writer,
        lang: String::from("English"),
        sensitive: false,
        tags: String::new(),
    };
    let r = create_novel(&mut store, None, info, "http", DOMAIN, "p", "k", 1);
    assert!(matches!(r, Err(CreateNovelError::Unauthorized(_))));
    assert_eq!(store.novels.len(), 0);
}

#[test]
fn the_creator_is_auto_authored() {
    let mut store = Storage::new();
    let a = author(&mut store);
    let uuid = make(&mut store, &a, "One", "English", "").ok().unwrap();
    let novel_id = format!("http://{}/novel/{}", DOMAIN, uuid);
    assert_eq!(store.author_roles.len(), 1);
    assert_eq!(store.author_roles[0].novel_id, novel_id);
    assert_eq!(store.author_roles[0].author_id, a);
    assert!(matches!(store.author_roles[0].role, Roles::Editor));
}

#[test]
fn novel_documents_round_trip_as_mirrors() {
    let mut store = Storage::new();
    let a = author(&mut store);
    let uuid = make(&mut store, &a, "One", "German", "").ok().unwrap();
    match get_novel(&store, &uuid, DOMAIN) {
        Ok(NovelLookup::Found(doc)) => {
            let mirror = wordforge::store::DbNovel::from_json(doc, 9_000)
                .expect("a published document reads back");
            assert_eq!(mirror.apub_id, format!("http://{}/novel/{}", DOMAIN, uuid));
            assert_eq!(mirror.preferred_username, uuid);
            assert_eq!(mirror.title, "One");
            assert_eq!(mirror.language, "de");
            assert!(mirror.private_key.is_none());
            assert_eq!(mirror.last_refresh, 9_000);
        }
        _ => panic!("expected the novel"),
    }
}
