//! Federated serial-fiction hosting: novels composed of ordered chapters,
//! written by authors whose accounts may live on other servers.
//!
//! The crate models the chapter-publication protocol: resolving actor
//! references, authorizing writes against a novel's authorship relation,
//! allocating gap-free chapter sequence numbers on the novel's home server,
//! and the Add/Accept message exchange between servers.

use vstd::prelude::*;

pub mod account;
pub mod activities;
pub mod chapters;
pub mod enums;
pub mod errors;
pub mod novel_list;
pub mod novels;
pub mod objects;
mod outside;
pub mod resolver;
pub mod store;
pub mod text;
pub mod users;

verus! {

/// Application-wide configuration carried by the server: the URI scheme
/// under which this server mints canonical identifiers.
pub struct AppState {
    pub scheme: String,
}

} // verus!
