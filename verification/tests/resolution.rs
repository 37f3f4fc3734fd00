//! Identity resolution: handle classification, case-insensitive lookup,
//! discovery queries, and the domain-match check on fetched documents.

use wordforge::novels::{create_novel, get_novel, NewNovel, NovelLookup};
use wordforge::objects::Person;
use wordforge::resolver::{domains_match, is_stale, resolve, Resolution};
use wordforge::store::{Storage, User};
use wordforge::users::{get_user, webfinger, ActorKind, UserLookup, WebfingerError};

const DOMAIN: &str = "example.org";

fn store_with_alice() -> Storage {
    let mut store = Storage::new();
    let r = wordforge::account::register(
        &mut store,
        "Alice Display",
        "alice",
        "alice@mail.example",
        "password123",
        "hash",
        "pub",
        "priv",
        "http",
        DOMAIN,
        1_000,
    );
    assert!(r.is_ok());
    store
}

#[test]
fn local_handle_resolves_like_bare_name() {
    let store = store_with_alice();
    let bare = resolve(&store, "alice", DOMAIN);
    let handle = resolve(&store, "alice@example.org", DOMAIN);
    match (bare, handle) {
        (Ok(Resolution::LocalUser(i)), Ok(Resolution::LocalUser(j))) => assert_eq!(i, j),
        _ => panic!("both references must resolve to the same local account"),
    }
}

#[test]
fn resolution_ignores_ascii_case() {
    let store = store_with_alice();
    let upper = resolve(&store, "Alice", DOMAIN);
    let lower = resolve(&store, "alice", DOMAIN);
    match (upper, lower) {
        (Ok(Resolution::LocalUser(i)), Ok(Resolution::LocalUser(j))) => assert_eq!(i, j),
        _ => panic!("case must not matter for local names"),
    }
}

#[test]
fn remote_handle_asks_for_discovery() {
    let store = store_with_alice();
    match resolve(&store, "bob@far.example", DOMAIN) {
        Ok(Resolution::NeedsDiscovery(name, domain)) => {
            assert_eq!(name, "bob");
            assert_eq!(domain, "far.example");
        }
        _ => panic!("expected a discovery instruction"),
    }
}

#[test]
fn remote_identifier_asks_for_fetch() {
    let store = store_with_alice();
    match resolve(&store, "https://far.example/user/bob", DOMAIN) {
        Ok(Resolution::NeedsFetch(u)) => assert_eq!(u, "https://far.example/user/bob"),
        _ => panic!("expected a fetch instruction"),
    }
}

#[test]
fn local_identifier_resolves_directly() {
    let store = store_with_alice();
    match resolve(&store, "http://example.org/user/alice", DOMAIN) {
        Ok(Resolution::LocalUser(0)) => {}
        _ => panic!("expected the local account"),
    }
}

#[test]
fn unknown_local_name_is_an_error() {
    let store = store_with_alice();
    assert!(resolve(&store, "nobody", DOMAIN).is_err());
}

#[test]
fn domain_match_accepts_same_authority() {
    assert!(domains_match(
        "https://example.org/user/alice",
        "https://EXAMPLE.ORG/anything/else"
    ));
    assert!(!domains_match(
        "https://example.org/user/alice",
        "https://far.example/user/alice"
    ));
    assert!(!domains_match("no scheme here", "https://example.org/x"));
}

#[test]
fn fetched_person_is_checked_against_its_source() {
    let doc = Person {
        id: String::from("https://far.example/user/carol"),
        preferred_username: String::from("carol"),
        name: String::from("Carol"),
        inbox: String::from("https://far.example/user/carol/inbox"),
        outbox: String::from("https://far.example/user/carol/outbox"),
        public_key_pem: String::from("pk"),
        published: 7,
    };
    assert!(User::verify(&doc, "https://far.example/user/carol"));
    assert!(!User::verify(&doc, "https://evil.example/user/carol"));
    let mirror = User::from_json(doc, 42);
    assert_eq!(mirror.apub_id, "https://far.example/user/carol");
    assert!(mirror.private_key.is_none());
    assert_eq!(mirror.last_refresh, 42);
}

#[test]
fn staleness_follows_the_threshold() {
    assert!(is_stale(1_000, 5_000, 3_000));
    assert!(!is_stale(1_000, 4_000, 3_000));
}

#[test]
fn webfinger_answers_for_local_actors() {
    let store = store_with_alice();
    match webfinger(&store, "acct:alice@example.org", DOMAIN) {
        Ok(v) => {
            assert_eq!(v.len(), 1);
            assert_eq!(v[0].0, "http://example.org/user/alice");
            assert!(matches!(v[0].1, ActorKind::Person));
        }
        _ => panic!("expected a discovery answer"),
    }
    assert!(matches!(
        webfinger(&store, "acct:nobody@example.org", DOMAIN),
        Err(WebfingerError::NotFound)
    ));
    assert!(matches!(
        webfinger(&store, "acct:alice@far.example", DOMAIN),
        Err(WebfingerError::BadRequest)
    ));
    assert!(matches!(
        webfinger(&store, "alice@example.org", DOMAIN),
        Err(WebfingerError::BadRequest)
    ));
}

#[test]
fn webfinger_finds_a_novel_by_its_key() {
    let mut store = store_with_alice();
    let alice = store.users[0].apub_id.clone();
    let info = NewNovel {
        title: String::from("N"),
        summary: String::new(),
        genre: wordforge::enums::Genres::Drama,
        role: wordforge::enums::Roles::Writer,
        lang: String::from("English"),
        sensitive: false,
        tags: String::new(),
    };
    let uuid = create_novel(
        &mut store,
        Some(&alice),
        info,
        "http",
        DOMAIN,
        "npub",
        "npriv",
        2,
    )
    .ok()
    .unwrap();
    let resource = format!("acct:{}@{}", uuid, DOMAIN);
    match webfinger(&store, &resource, DOMAIN) {
        Ok(v) => {
            assert_eq!(v.len(), 1);
            assert_eq!(v[0].0, format!("http://{}/novel/{}", DOMAIN, uuid));
            assert!(matches!(v[0].1, ActorKind::Group));
        }
        _ => panic!("expected the novel"),
    }
}

#[test]
fn get_user_redirects_local_handles() {
    let store = store_with_alice();
    match get_user(&store, "alice@example.org", DOMAIN) {
        Ok(UserLookup::Redirect(loc)) => assert_eq!(loc, "/user/alice"),
        _ => panic!("expected a redirect"),
    }
    match get_user(&store, "alice", DOMAIN) {
        Ok(UserLookup::Found(p)) => {
            assert_eq!(p.id, "http://example.org/user/alice");
            assert_eq!(p.name, "Alice Display");
        }
        _ => panic!("expected the account"),
    }
    match get_user(&store, "bob@far.example", DOMAIN) {
        Ok(UserLookup::Remote(h)) => assert_eq!(h, "bob@far.example"),
        _ => panic!("expected a remote instruction"),
    }
    assert!(get_user(&store, "nobody", DOMAIN).is_err());
}

#[test]
fn get_novel_redirects_local_handles() {
    let mut store = store_with_alice();
    let alice = store.users[0].apub_id.clone();
    let info = NewNovel {
        title: String::from("N"),
        summary: String::new(),
        genre: wordforge::enums::Genres::Drama,
        role: wordforge::enums::Roles::Writer,
        lang: String::from("English"),
        sensitive: false,
        tags: String::new(),
    };
    let uuid = create_novel(
        &mut store,
        Some(&alice),
        info,
        "http",
        DOMAIN,
        "npub",
        "npriv",
        2,
    )
    .ok()
    .unwrap();
    let handle = format!("{}@{}", uuid, DOMAIN);
    match get_novel(&store, &handle, DOMAIN) {
        Err(wordforge::errors::GetNovelError::PermanentRedirect(loc)) => {
            assert_eq!(loc, format!("/novel/{}", uuid))
        }
        _ => panic!("expected a redirect"),
    }
    match get_novel(&store, &uuid, DOMAIN) {
        Ok(NovelLookup::Found(novel)) => {
            assert_eq!(novel.id, format!("http://{}/novel/{}", DOMAIN, uuid));
            assert_eq!(novel.language, "en");
            assert_eq!(novel.authors.len(), 1);
            assert_eq!(novel.authors[0].apub_id, alice);
        }
        _ => panic!("expected the novel"),
    }
    match get_novel(&store, "story@far.example", DOMAIN) {
        Ok(NovelLookup::Remote(h)) => assert_eq!(h, "story@far.example"),
        _ => panic!("expected a remote instruction"),
    }
    assert!(get_novel(&store, "not-a-key", DOMAIN).is_err());
}

#[test]
fn stored_records_read_back_by_name_and_identifier() {
    let store = store_with_alice();
    let by_name = User::read_from_username("ALICE", &store).expect("by name");
    assert_eq!(by_name.apub_id, "http://example.org/user/alice");
    // the stored account holds a signing key; the lookup never hands it out
    assert!(store.users[0].private_key.is_some());
    assert!(by_name.private_key.is_none());
    let by_id = User::read_from_id("HTTP://EXAMPLE.ORG/USER/ALICE", &store).expect("by id");
    assert_eq!(by_id.preferred_username, "alice");
    assert!(User::read_from_username("nobody", &store).is_none());
}
