//! The crate's trusted boundary: wrappers around functions of outside crates
//! (and the few std functions vstd gives no specification for), together with
//! the uninterpreted names for results whose exact value this crate does not
//! restate.  Everything below is believed, not proved; each item's doc comment
//! names the outside function it relies on.

use vstd::prelude::*;

verus! {

/// The ISO 639-1 code that the language table assigns to an English language
/// name, if the name is known and the language has a two-letter code.
pub uninterp spec fn language_code_of(name: Seq<char>) -> Option<Seq<char>>;

/// Whether the language table knows a two-letter code.
pub uninterp spec fn lang_code_ok(code: Seq<char>) -> bool;

/// Whether a string is a valid e-mail address under the HTML5 grammar.
pub uninterp spec fn email_ok(s: Seq<char>) -> bool;

/// Whether a string parses as an absolute URL.
pub uninterp spec fn url_ok(s: Seq<char>) -> bool;

/// The tag tokens found in a free-form tag string: the maximal runs of
/// letters, marks, digits and underscores of length at least two, in order
/// of appearance.
pub uninterp spec fn tag_tokens_of(s: Seq<char>) -> Seq<Seq<char>>;

/// Unicode lower-casing of a string.
pub uninterp spec fn unicode_lower_of(s: Seq<char>) -> Seq<char>;

/// The string with leading and trailing whitespace removed.
pub uninterp spec fn trim_of(s: Seq<char>) -> Seq<char>;

/// Relies on String::push: appends one character at the end.
#[verifier::external_body]
pub(crate) fn push_char(s: &mut String, c: char)
    ensures
        final(s)@ == old(s)@.push(c),
{
    s.push(c)
}

/// Relies on str::trim: returns the string without leading and trailing
/// whitespace.
#[verifier::external_body]
pub(crate) fn trim_str<'a>(s: &'a str) -> (r: &'a str)
    ensures
        r@ == trim_of(s@),
{
    s.trim()
}

/// Relies on str::to_lowercase: Unicode lower-casing, a function of the
/// characters alone.
#[verifier::external_body]
pub(crate) fn unicode_lower(s: &str) -> (r: String)
    ensures
        r@ == unicode_lower_of(s@),
{
    s.to_lowercase()
}

/// Relies on uuid::Uuid::new_v4 and its Display form: a fresh random
/// identifier rendered as 36 characters of lowercase hex, with hyphens at
/// positions 8, 13, 18 and 23.  Nothing relates two calls: the value is
/// random.
#[verifier::external_body]
pub(crate) fn mint_uuid() -> (r: String)
    ensures
        r@.len() == 36,
        forall|i: int|
            0 <= i < 36 ==> (if i == 8 || i == 13 || i == 18 || i == 23 {
                r@[i] == '-'
            } else {
                ('0' <= r@[i] && r@[i] <= '9') || ('a' <= r@[i] && r@[i] <= 'f')
            }),
{
    uuid::Uuid::new_v4().to_string()
}

/// Relies on isolang::Language::from_name and Language::to_639_1: maps an
/// English language name to its two-letter ISO 639-1 code, when the name is
/// known and such a code exists.  A returned code is itself recognized:
/// both directions read the same generated table, every code of which
/// Language::from_639_1 accepts.
#[verifier::external_body]
pub(crate) fn language_name_code(name: &str) -> (r: Option<String>)
    ensures
        match r {
            Some(c) => language_code_of(name@) == Some(c@) && c@.len() == 2 && lang_code_ok(c@),
            None => language_code_of(name@) is None,
        },
{
    match isolang::Language::from_name(name) {
        Some(l) => l.to_639_1().map(|c| c.to_string()),
        None => None,
    }
}

/// Relies on isolang::Language::from_639_1: whether a string is a known
/// two-letter ISO 639-1 code.
#[verifier::external_body]
pub(crate) fn is_language_code(code: &str) -> (r: bool)
    ensures
        r == lang_code_ok(code@),
{
    isolang::Language::from_639_1(code).is_some()
}

/// Relies on validator::validate_email: the HTML5 e-mail grammar.
#[verifier::external_body]
pub(crate) fn email_format_ok(s: &str) -> (r: bool)
    ensures
        r == email_ok(s@),
{
    validator::validate_email(s)
}

/// Relies on validator::validate_url: whether the string parses as an
/// absolute URL.
#[verifier::external_body]
pub(crate) fn url_format_ok(s: &str) -> (r: bool)
    ensures
        r == url_ok(s@),
{
    validator::validate_url(s)
}

/// Relies on regex::Regex::new, Regex::find_iter and Match::as_str with the
/// fixed tag pattern: the non-overlapping maximal matches, left to right.
/// The pattern is constant and valid, so the error arm is never taken.
#[verifier::external_body]
pub(crate) fn tag_tokens(s: &str) -> (r: Vec<String>)
    ensures
        r.deep_view() == tag_tokens_of(s@),
{
    match regex::Regex::new(r"(?i)[\p{L}\p{M}\p{N}_]{2,}") {
        Ok(re) => re.find_iter(s).map(|m| m.as_str().to_string()).collect(),
        Err(_) => Vec::new(),
    }
}

} // verus!
