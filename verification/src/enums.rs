//! The closed enumerations of the data model: the genre of a novel and the
//! role an author holds on it.  Each has a canonical wire name, used when a
//! value is stored or shown, and a parser that accepts exactly those names.

use vstd::prelude::*;

verus! {

use vstd::string::StringExecFns;
use crate::text::str_eq;

#[derive(Clone, Copy, Debug, PartialEq, Eq, Structural)]
pub enum Genres {
    Action,
    Adventure,
    Comedy,
    Drama,
    Educational,
    Fantasy,
    History,
    Horror,
    Mystery,
    NonFiction,
    Romance,
    SciFi,
    SliceOfLife,
    Sports,
    Superhero,
    Thriller,
    Other,
}

#[derive(Clone, Copy, Debug, PartialEq, Eq, Structural)]
pub enum Roles {
    NoRole,
    Writer,
    Adapter,
    Artist,
    Penciller,
    Inker,
    Colorist,
    Letterer,
    CoverArtist,
    Photographer,
    Editor,
    Assistant,
    Translator,
    Other,
}

/// The canonical wire name of a genre.
pub open spec fn genre_name(g: Genres) -> Seq<char> {
    match g {
        Genres::Action => "Action"@,
        Genres::Adventure => "Adventure"@,
        Genres::Comedy => "Comedy"@,
        Genres::Drama => "Drama"@,
        Genres::Educational => "Educational"@,
        Genres::Fantasy => "Fantasy"@,
        Genres::History => "History"@,
        Genres::Horror => "Horror"@,
        Genres::Mystery => "Mystery"@,
        Genres::NonFiction => "Non-Fiction"@,
        Genres::Romance => "Romance"@,
        Genres::SciFi => "Sci-Fi"@,
        Genres::SliceOfLife => "Slice of Life"@,
        Genres::Sports => "Sports"@,
        Genres::Superhero => "Superhero"@,
        Genres::Thriller => "Thriller"@,
        Genres::Other => "Other"@,
    }
}

/// The canonical wire name of a role.
pub open spec fn role_name(r: Roles) -> Seq<char> {
    match r {
        Roles::NoRole => "None"@,
        Roles::Writer => "Writer"@,
        Roles::Adapter => "Adapter"@,
        Roles::Artist => "Artist"@,
        Roles::Penciller => "Penciller"@,
        Roles::Inker => "Inker"@,
        Roles::Colorist => "Colorist"@,
        Roles::Letterer => "Letterer"@,
        Roles::CoverArtist => "Cover Artist"@,
        Roles::Photographer => "Photographer"@,
        Roles::Editor => "Editor"@,
        Roles::Assistant => "Assistant"@,
        Roles::Translator => "Translator"@,
        Roles::Other => "Other"@,
    }
}

impl Genres {
    /// Renders the canonical wire name.
    pub fn to_name(&self) -> (r: String)
        ensures
            r@ == genre_name(*self),
    {
        match self {
            Genres::Action => String::from_str("Action"),
            Genres::Adventure => String::from_str("Adventure"),
            Genres::Comedy => String::from_str("Comedy"),
            Genres::Drama => String::from_str("Drama"),
            Genres::Educational => String::from_str("Educational"),
            Genres::Fantasy => String::from_str("Fantasy"),
            Genres::History => String::from_str("History"),
            Genres::Horror => String::from_str("Horror"),
            Genres::Mystery => String::from_str("Mystery"),
            Genres::NonFiction => String::from_str("Non-Fiction"),
            Genres::Romance => String::from_str("Romance"),
            Genres::SciFi => String::from_str("Sci-Fi"),
            Genres::SliceOfLife => String::from_str("Slice of Life"),
            Genres::Sports => String::from_str("Sports"),
            Genres::Superhero => String::from_str("Superhero"),
            Genres::Thriller => String::from_str("Thriller"),
            Genres::Other => String::from_str("Other"),
        }
    }

    /// Parses a canonical wire name; `None` on any other string.
    pub fn from_name(s: &str) -> (r: Option<Genres>)
        ensures
            match r {
                Some(g) => genre_name(g) == s@,
                None => forall|g: Genres| genre_name(g) != s@,
            },
    {
        if str_eq(s, "Action") {
            Some(Genres::Action)
        } else if str_eq(s, "Adventure") {
            Some(Genres::Adventure)
        } else if str_eq(s, "Comedy") {
            Some(Genres::Comedy)
        } else if str_eq(s, "Drama") {
            Some(Genres::Drama)
        } else if str_eq(s, "Educational") {
            Some(Genres::Educational)
        } else if str_eq(s, "Fantasy") {
            Some(Genres::Fantasy)
        } else if str_eq(s, "History") {
            Some(Genres::History)
        } else if str_eq(s, "Horror") {
            Some(Genres::Horror)
        } else if str_eq(s, "Mystery") {
            Some(Genres::Mystery)
        } else if str_eq(s, "Non-Fiction") {
            Some(Genres::NonFiction)
        } else if str_eq(s, "Romance") {
            Some(Genres::Romance)
        } else if str_eq(s, "Sci-Fi") {
            Some(Genres::SciFi)
        } else if str_eq(s, "Slice of Life") {
            Some(Genres::SliceOfLife)
        } else if str_eq(s, "Sports") {
            Some(Genres::Sports)
        } else if str_eq(s, "Superhero") {
            Some(Genres::Superhero)
        } else if str_eq(s, "Thriller") {
            Some(Genres::Thriller)
        } else if str_eq(s, "Other") {
            Some(Genres::Other)
        } else {
            None
        }
    }
}

impl Roles {
    /// Renders the canonical wire name.
    pub fn to_name(&self) -> (r: String)
        ensures
            r@ == role_name(*self),
    {
        match self {
            Roles::NoRole => String::from_str("None"),
            Roles::Writer => String::from_str("Writer"),
            Roles::Adapter => String::from_str("Adapter"),
            Roles::Artist => String::from_str("Artist"),
            Roles::Penciller => String::from_str("Penciller"),
            Roles::Inker => String::from_str("Inker"),
            Roles::Colorist => String::from_str("Colorist"),
            Roles::Letterer => String::from_str("Letterer"),
            Roles::CoverArtist => String::from_str("Cover Artist"),
            Roles::Photographer => String::from_str("Photographer"),
            Roles::Editor => String::from_str("Editor"),
            Roles::Assistant => String::from_str("Assistant"),
            Roles::Translator => String::from_str("Translator"),
            Roles::Other => String::from_str("Other"),
        }
    }

    /// Parses a canonical wire name; `None` on any other string.
    pub fn from_name(s: &str) -> (r: Option<Roles>)
        ensures
            match r {
                Some(g) => role_name(g) == s@,
                None => forall|g: Roles| role_name(g) != s@,
            },
    {
        if str_eq(s, "None") {
            Some(Roles::NoRole)
        } else if str_eq(s, "Writer") {
            Some(Roles::Writer)
        } else if str_eq(s, "Adapter") {
            Some(Roles::Adapter)
        } else if str_eq(s, "Artist") {
            Some(Roles::Artist)
        } else if str_eq(s, "Penciller") {
            Some(Roles::Penciller)
        } else if str_eq(s, "Inker") {
            Some(Roles::Inker)
        } else if str_eq(s, "Colorist") {
            Some(Roles::Colorist)
        } else if str_eq(s, "Letterer") {
            Some(Roles::Letterer)
        } else if str_eq(s, "Cover Artist") {
            Some(Roles::CoverArtist)
        } else if str_eq(s, "Photographer") {
            Some(Roles::Photographer)
        } else if str_eq(s, "Editor") {
            Some(Roles::Editor)
        } else if str_eq(s, "Assistant") {
            Some(Roles::Assistant)
        } else if str_eq(s, "Translator") {
            Some(Roles::Translator)
        } else if str_eq(s, "Other") {
            Some(Roles::Other)
        } else {
            None
        }
    }

    /// All roles, in the order they are listed.
    pub fn all() -> (r: Vec<Roles>)
        ensures
            r@ == seq![
                Roles::NoRole,
                Roles::Writer,
                Roles::Adapter,
                Roles::Artist,
                Roles::Penciller,
                Roles::Inker,
                Roles::Colorist,
                Roles::Letterer,
                Roles::CoverArtist,
                Roles::Photographer,
                Roles::Editor,
                Roles::Assistant,
                Roles::Translator,
                Roles::Other,
            ],
    {
        let v = vec![
            Roles::NoRole,
            Roles::Writer,
            Roles::Adapter,
            Roles::Artist,
            Roles::Penciller,
            Roles::Inker,
            Roles::Colorist,
            Roles::Letterer,
            Roles::CoverArtist,
            Roles::Photographer,
            Roles::Editor,
            Roles::Assistant,
            Roles::Translator,
            Roles::Other,
        ];
        proof {
            assert(v@ =~= seq![
                Roles::NoRole,
                Roles::Writer,
                Roles::Adapter,
                Roles::Artist,
                Roles::Penciller,
                Roles::Inker,
                Roles::Colorist,
                Roles::Letterer,
                Roles::CoverArtist,
                Roles::Photographer,
                Roles::Editor,
                Roles::Assistant,
                Roles::Translator,
                Roles::Other,
            ]);
        }
        v
    }
}

/// All genres, in the order they are listed.
pub fn all_genres() -> (r: Vec<Genres>)
    ensures
        r@ == seq![
            Genres::Action,
            Genres::Adventure,
            Genres::Comedy,
            Genres::Drama,
            Genres::Educational,
            Genres::Fantasy,
            Genres::History,
            Genres::Horror,
            Genres::Mystery,
            Genres::NonFiction,
            Genres::Romance,
            Genres::SciFi,
            Genres::SliceOfLife,
            Genres::Sports,
            Genres::Superhero,
            Genres::Thriller,
            Genres::Other,
        ],
{
    let v = vec![
        Genres::Action,
        Genres::Adventure,
        Genres::Comedy,
        Genres::Drama,
        Genres::Educational,
        Genres::Fantasy,
        Genres::History,
        Genres::Horror,
        Genres::Mystery,
        Genres::NonFiction,
        Genres::Romance,
        Genres::SciFi,
        Genres::SliceOfLife,
        Genres::Sports,
        Genres::Superhero,
        Genres::Thriller,
        Genres::Other,
    ];
    proof {
        assert(v@ =~= seq![
            Genres::Action,
            Genres::Adventure,
            Genres::Comedy,
            Genres::Drama,
            Genres::Educational,
            Genres::Fantasy,
            Genres::History,
            Genres::Horror,
            Genres::Mystery,
            Genres::NonFiction,
            Genres::Romance,
            Genres::SciFi,
            Genres::SliceOfLife,
            Genres::Sports,
            Genres::Superhero,
            Genres::Thriller,
            Genres::Other,
        ]);
    }
    v
}

} // verus!
