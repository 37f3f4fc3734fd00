//! Character-level helpers shared by the identifier and reference logic:
//! ASCII case folding, decimal rendering of sequence numbers, substring
//! search, the authority part of a canonical identifier, and the username
//! grammar that local actor names must satisfy.

use vstd::prelude::*;

verus! {

use crate::outside::push_char;
use vstd::string::StringExecFns;

/// ASCII lower-casing of a single character; other characters are unchanged.
pub open spec fn lower_char(c: char) -> char {
    if 'A' <= c && c <= 'Z' {
        ((c as u8) + 32) as char
    } else {
        c
    }
}

/// ASCII lower-casing of a character sequence.
pub open spec fn lower(s: Seq<char>) -> Seq<char> {
    s.map_values(|c: char| lower_char(c))
}

/// Lower-casing twice changes nothing.
pub proof fn lemma_lower_idempotent(s: Seq<char>)
    ensures
        lower(lower(s)) == s.map_values(|c: char| lower_char(c)),
        lower(lower(s)) == lower(s),
{
    assert forall|i: int| 0 <= i < s.len() implies lower_char(lower_char(s[i])) == lower_char(
        s[i],
    ) by {
        let c = s[i];
        if 'A' <= c && c <= 'Z' {
            assert(!('A' <= lower_char(c) && lower_char(c) <= 'Z'));
        }
    }
    assert(lower(lower(s)) =~= lower(s));
}

/// Lower-cases the ASCII letters of a string, leaving all other characters
/// (including non-ASCII ones) unchanged.
pub fn ascii_lower(s: &str) -> (r: String)
    ensures
        r@ == lower(s@),
{
    let len: usize = s.unicode_len();
    let mut r = String::new();
    let mut i: usize = 0;
    while i < len
        invariant
            i <= len,
            len == s@.len(),
            r@ == lower(s@.subrange(0, i as int)),
        decreases len - i,
    {
        let c = s.get_char(i);
        let lc: char = if 'A' <= c && c <= 'Z' {
            (((c as u8) + 32) as char)
        } else {
            c
        };
        push_char(&mut r, lc);
        proof {
            assert(s@.subrange(0, i + 1 as int).drop_last() =~= s@.subrange(0, i as int));
            assert(r@ =~= lower(s@.subrange(0, i + 1 as int)));
        }
        i = i + 1;
    }
    proof {
        assert(s@.subrange(0, len as int) =~= s@);
    }
    r
}

/// Whether two strings are equal, character for character.
pub fn str_eq(a: &str, b: &str) -> (r: bool)
    ensures
        r == (a@ == b@),
{
    let sa = String::from_str(a);
    let sb = String::from_str(b);
    sa == sb
}

/// Whether two strings are equal up to ASCII case.
pub fn eq_ignore_case(a: &str, b: &str) -> (r: bool)
    ensures
        r == (lower(a@) == lower(b@)),
{
    let la = ascii_lower(a);
    let lb = ascii_lower(b);
    la == lb
}

/// The decimal digit character for a value below ten.
pub open spec fn digit_char(d: int) -> char {
    if d == 0 {
        '0'
    } else if d == 1 {
        '1'
    } else if d == 2 {
        '2'
    } else if d == 3 {
        '3'
    } else if d == 4 {
        '4'
    } else if d == 5 {
        '5'
    } else if d == 6 {
        '6'
    } else if d == 7 {
        '7'
    } else if d == 8 {
        '8'
    } else {
        '9'
    }
}

/// The usual decimal rendering of a natural number, without leading zeros.
pub open spec fn dec_str(n: nat) -> Seq<char>
    decreases n,
{
    if n < 10 {
        seq![digit_char(n as int)]
    } else {
        dec_str(n / 10).push(digit_char((n % 10) as int))
    }
}

fn digit_of(d: u64) -> (c: char)
    requires
        d < 10,
    ensures
        c == digit_char(d as int),
{
    if d == 0 {
        '0'
    } else if d == 1 {
        '1'
    } else if d == 2 {
        '2'
    } else if d == 3 {
        '3'
    } else if d == 4 {
        '4'
    } else if d == 5 {
        '5'
    } else if d == 6 {
        '6'
    } else if d == 7 {
        '7'
    } else if d == 8 {
        '8'
    } else {
        '9'
    }
}

/// Renders a number in decimal.
pub fn u64_to_dec(n: u64) -> (r: String)
    ensures
        r@ == dec_str(n as nat),
    decreases n,
{
    if n < 10 {
        let mut s = String::new();
        push_char(&mut s, digit_of(n));
        proof {
            assert(s@ =~= dec_str(n as nat));
        }
        s
    } else {
        let mut s = u64_to_dec(n / 10);
        push_char(&mut s, digit_of(n % 10));
        s
    }
}

/// First position of a character in a sequence, if any.
pub open spec fn find_char(s: Seq<char>, c: char) -> Option<int>
    decreases s.len(),
{
    if s.len() == 0 {
        None
    } else if s[0] == c {
        Some(0int)
    } else {
        match find_char(s.drop_first(), c) {
            Some(i) => Some(i + 1),
            None => None,
        }
    }
}

/// Whether a character occurs in a sequence.
pub open spec fn has_char(s: Seq<char>, c: char) -> bool {
    exists|i: int| 0 <= i < s.len() && s[i] == c
}

pub proof fn lemma_find_char_some(s: Seq<char>, c: char, i: int)
    requires
        0 <= i < s.len(),
        s[i] == c,
        forall|j: int| 0 <= j < i ==> s[j] != c,
    ensures
        find_char(s, c) == Some(i),
    decreases i,
{
    if i == 0 {
    } else {
        assert(s[0] != c);
        let t = s.drop_first();
        assert(t[i - 1] == s[i]);
        assert forall|j: int| 0 <= j < i - 1 implies t[j] != c by {
            assert(t[j] == s[j + 1]);
        }
        lemma_find_char_some(t, c, i - 1);
    }
}

pub proof fn lemma_find_char_none(s: Seq<char>, c: char)
    requires
        forall|j: int| 0 <= j < s.len() ==> s[j] != c,
    ensures
        find_char(s, c) is None,
    decreases s.len(),
{
    if s.len() > 0 {
        let t = s.drop_first();
        assert forall|j: int| 0 <= j < t.len() implies t[j] != c by {
            assert(t[j] == s[j + 1]);
        }
        lemma_find_char_none(t, c);
    }
}

pub proof fn lemma_find_char_props(s: Seq<char>, c: char)
    ensures
        match find_char(s, c) {
            Some(i) => 0 <= i < s.len() && s[i] == c && forall|j: int| 0 <= j < i ==> s[j] != c,
            None => forall|j: int| 0 <= j < s.len() ==> s[j] != c,
        },
    decreases s.len(),
{
    if s.len() > 0 {
        if s[0] == c {
        } else {
            let t = s.drop_first();
            lemma_find_char_props(t, c);
            match find_char(t, c) {
                Some(i) => {
                    assert(s[i + 1] == t[i]);
                    assert forall|j: int| 0 <= j < i + 1 implies s[j] != c by {
                        if j >= 1 {
                            assert(s[j] == t[j - 1]);
                        }
                    }
                },
                None => {
                    assert forall|j: int| 0 <= j < s.len() implies s[j] != c by {
                        if j >= 1 {
                            assert(s[j] == t[j - 1]);
                        }
                    }
                },
            }
        }
    }
}

/// First position of a character, by a scan.
pub fn str_find_char(s: &str, c: char) -> (r: Option<usize>)
    ensures
        match r {
            Some(i) => find_char(s@, c) == Some(i as int),
            None => find_char(s@, c) is None,
        },
{
    let len: usize = s.unicode_len();
    let mut i: usize = 0;
    while i < len
        invariant
            i <= len,
            len == s@.len(),
            forall|j: int| 0 <= j < i ==> s@[j] != c,
        decreases len - i,
    {
        if s.get_char(i) == c {
            proof {
                lemma_find_char_some(s@, c, i as int);
            }
            return Some(i);
        }
        i = i + 1;
    }
    proof {
        lemma_find_char_none(s@, c);
    }
    None
}

/// Whether a character occurs in the string.
pub fn str_has_char(s: &str, c: char) -> (r: bool)
    ensures
        r == has_char(s@, c),
{
    let f = str_find_char(s, c);
    proof {
        lemma_find_char_props(s@, c);
    }
    match f {
        Some(i) => true,
        None => false,
    }
}

/// A scheme separator `://` starting at position `i`.
pub open spec fn scheme_sep_at(s: Seq<char>, i: int) -> bool {
    0 <= i && i + 3 <= s.len() && s[i] == ':' && s[i + 1] == '/' && s[i + 2] == '/'
}

/// Whether the string contains `://`, the mark of an absolute identifier.
pub open spec fn has_scheme_sep(s: Seq<char>) -> bool {
    exists|i: int| scheme_sep_at(s, i)
}

/// First position of the scheme separator, if any.
pub open spec fn first_scheme_sep(s: Seq<char>) -> Option<int>
    decreases s.len(),
{
    if s.len() < 3 {
        None
    } else if s[0] == ':' && s[1] == '/' && s[2] == '/' {
        Some(0int)
    } else {
        match first_scheme_sep(s.drop_first()) {
            Some(i) => Some(i + 1),
            None => None,
        }
    }
}

pub proof fn lemma_first_scheme_sep_some(s: Seq<char>, i: int)
    requires
        scheme_sep_at(s, i),
        forall|j: int| 0 <= j < i ==> !scheme_sep_at(s, j),
    ensures
        first_scheme_sep(s) == Some(i),
    decreases i,
{
    if i == 0 {
    } else {
        assert(!scheme_sep_at(s, 0));
        let t = s.drop_first();
        assert(scheme_sep_at(t, i - 1)) by {
            assert(t[i - 1] == s[i] && t[i] == s[i + 1] && t[i + 1] == s[i + 2]);
        }
        assert forall|j: int| 0 <= j < i - 1 implies !scheme_sep_at(t, j) by {
            if scheme_sep_at(t, j) {
                assert(t[j] == s[j + 1] && t[j + 1] == s[j + 2] && t[j + 2] == s[j + 3]);
                assert(scheme_sep_at(s, j + 1));
            }
        }
        lemma_first_scheme_sep_some(t, i - 1);
    }
}

pub proof fn lemma_first_scheme_sep_none(s: Seq<char>)
    requires
        forall|j: int| !scheme_sep_at(s, j),
    ensures
        first_scheme_sep(s) is None,
    decreases s.len(),
{
    if s.len() >= 3 {
        assert(!scheme_sep_at(s, 0));
        let t = s.drop_first();
        assert forall|j: int| !scheme_sep_at(t, j) by {
            if scheme_sep_at(t, j) {
                assert(t[j] == s[j + 1] && t[j + 1] == s[j + 2] && t[j + 2] == s[j + 3]);
                assert(scheme_sep_at(s, j + 1));
            }
        }
        lemma_first_scheme_sep_none(t);
    }
}

pub proof fn lemma_first_scheme_sep_props(s: Seq<char>)
    ensures
        match first_scheme_sep(s) {
            Some(i) => scheme_sep_at(s, i) && forall|j: int| 0 <= j < i ==> !scheme_sep_at(s, j),
            None => forall|j: int| !scheme_sep_at(s, j),
        },
    decreases s.len(),
{
    if s.len() < 3 {
        assert forall|j: int| !scheme_sep_at(s, j) by {}
    } else if s[0] == ':' && s[1] == '/' && s[2] == '/' {
    } else {
        let t = s.drop_first();
        lemma_first_scheme_sep_props(t);
        match first_scheme_sep(t) {
            Some(i) => {
                assert(scheme_sep_at(s, i + 1)) by {
                    assert(s[i + 1] == t[i] && s[i + 2] == t[i + 1] && s[i + 3] == t[i + 2]);
                }
                assert forall|j: int| 0 <= j < i + 1 implies !scheme_sep_at(s, j) by {
                    if 1 <= j && scheme_sep_at(s, j) {
                        assert(t[j - 1] == s[j] && t[j] == s[j + 1] && t[j + 1] == s[j + 2]);
                        assert(scheme_sep_at(t, j - 1));
                    }
                }
            },
            None => {
                assert forall|j: int| !scheme_sep_at(s, j) by {
                    if 1 <= j && scheme_sep_at(s, j) {
                        assert(t[j - 1] == s[j] && t[j] == s[j + 1] && t[j + 1] == s[j + 2]);
                        assert(scheme_sep_at(t, j - 1));
                    }
                }
            },
        }
    }
}

/// First position of `://`, by a scan.
fn find_scheme_sep_pos(s: &str) -> (r: Option<usize>)
    ensures
        match r {
            Some(i) => first_scheme_sep(s@) == Some(i as int),
            None => first_scheme_sep(s@) is None,
        },
{
    let len: usize = s.unicode_len();
    if len < 3 {
        proof {
            assert forall|j: int| !scheme_sep_at(s@, j) by {}
            lemma_first_scheme_sep_none(s@);
        }
        return None;
    }
    let mut i: usize = 0;
    while i <= len - 3
        invariant
            len == s@.len(),
            3 <= len,
            i <= len - 2,
            forall|j: int| 0 <= j < i ==> !scheme_sep_at(s@, j),
        decreases len - i,
    {
        if s.get_char(i) == ':' && s.get_char(i + 1) == '/' && s.get_char(i + 2) == '/' {
            proof {
                assert(scheme_sep_at(s@, i as int));
                lemma_first_scheme_sep_some(s@, i as int);
            }
            return Some(i);
        }
        i = i + 1;
    }
    proof {
        assert forall|j: int| !scheme_sep_at(s@, j) by {
            if scheme_sep_at(s@, j) {
                assert(j + 3 <= len);
                assert(0 <= j < i);
            }
        }
        lemma_first_scheme_sep_none(s@);
    }
    None
}

/// Whether the string contains `://`, by a scan.
pub fn str_has_scheme_sep(s: &str) -> (r: bool)
    ensures
        r == has_scheme_sep(s@),
{
    let f = find_scheme_sep_pos(s);
    proof {
        lemma_first_scheme_sep_props(s@);
    }
    match f {
        Some(i) => true,
        None => {
            proof {
                assert(!has_scheme_sep(s@)) by {
                    if has_scheme_sep(s@) {
                        let j = choose|j: int| scheme_sep_at(s@, j);
                    }
                }
            }
            false
        },
    }
}

/// The authority of an absolute identifier: what stands between `://` and
/// the next `/`, or the rest of the string when no `/` follows.  Empty when
/// the string has no scheme separator.
pub open spec fn authority_of(s: Seq<char>) -> Seq<char> {
    match first_scheme_sep(s) {
        None => Seq::empty(),
        Some(i) => {
            let rest = s.subrange(i + 3, s.len() as int);
            match find_char(rest, '/') {
                Some(j) => rest.subrange(0, j),
                None => rest,
            }
        },
    }
}

/// Extracts the authority of an absolute identifier; `None` when the string
/// is not absolute (has no `://`).
pub fn authority(s: &str) -> (r: Option<String>)
    ensures
        match r {
            Some(a) => has_scheme_sep(s@) && a@ == authority_of(s@),
            None => !has_scheme_sep(s@),
        },
{
    let len: usize = s.unicode_len();
    let sep = find_scheme_sep_pos(s);
    proof {
        lemma_first_scheme_sep_props(s@);
    }
    match sep {
        None => {
            proof {
                assert(!has_scheme_sep(s@)) by {
                    if has_scheme_sep(s@) {
                        let j = choose|j: int| scheme_sep_at(s@, j);
                    }
                }
            }
            None
        },
        Some(p) => {
            let start: usize = p + 3;
            let ghost rest = s@.subrange(p + 3 as int, len as int);
            let mut k: usize = start;
            let mut out = String::new();
            while k < len
                invariant
                    start <= k <= len,
                    start == p + 3,
                    len == s@.len(),
                    p + 3 <= len,
                    rest == s@.subrange(p + 3 as int, len as int),
                    first_scheme_sep(s@) == Some(p as int),
                    scheme_sep_at(s@, p as int),
                    out@ == rest.subrange(0, k - start),
                    forall|j: int| 0 <= j < k - start ==> rest[j] != '/',
                decreases len - k,
            {
                let c = s.get_char(k);
                proof {
                    assert(rest[k - start] == s@[k as int]);
                }
                if c == '/' {
                    proof {
                        lemma_find_char_some(rest, '/', k - start);
                        assert(out@ =~= authority_of(s@));
                    }
                    return Some(out);
                }
                push_char(&mut out, c);
                proof {
                    assert(out@ =~= rest.subrange(0, k + 1 - start));
                }
                k = k + 1;
            }
            proof {
                lemma_find_char_none(rest, '/');
                assert(out@ =~= rest.subrange(0, len - start));
                assert(rest.subrange(0, len - start) =~= rest);
            }
            Some(out)
        },
    }
}

/// A character allowed anywhere in a local actor name.
pub open spec fn word_char(c: char) -> bool {
    ('a' <= c && c <= 'z') || ('A' <= c && c <= 'Z') || ('0' <= c && c <= '9') || c == '_'
}

/// A character allowed in the middle of a local actor name.
pub open spec fn name_char(c: char) -> bool {
    word_char(c) || c == '.' || c == '-'
}

/// The local actor name grammar: non-empty, made of letters, digits,
/// underscore, dot and hyphen, beginning and ending with a letter, digit or
/// underscore.
pub open spec fn valid_username(s: Seq<char>) -> bool {
    &&& s.len() >= 1
    &&& word_char(s[0])
    &&& word_char(s[s.len() - 1])
    &&& forall|i: int| 0 <= i < s.len() ==> name_char(#[trigger] s[i])
}

fn is_word_char(c: char) -> (r: bool)
    ensures
        r == word_char(c),
{
    ('a' <= c && c <= 'z') || ('A' <= c && c <= 'Z') || ('0' <= c && c <= '9') || c == '_'
}

fn is_name_char(c: char) -> (r: bool)
    ensures
        r == name_char(c),
{
    is_word_char(c) || c == '.' || c == '-'
}

/// Checks the local actor name grammar.
pub fn check_username(s: &str) -> (r: bool)
    ensures
        r == valid_username(s@),
{
    let len: usize = s.unicode_len();
    if len == 0 {
        return false;
    }
    if !is_word_char(s.get_char(0)) {
        return false;
    }
    if !is_word_char(s.get_char(len - 1)) {
        return false;
    }
    let mut i: usize = 0;
    while i < len
        invariant
            i <= len,
            len == s@.len(),
            forall|j: int| 0 <= j < i ==> name_char(#[trigger] s@[j]),
        decreases len - i,
    {
        if !is_name_char(s.get_char(i)) {
            return false;
        }
        i = i + 1;
    }
    true
}

/// Lexicographic order on character sequences, by code point.
pub open spec fn seq_le(a: Seq<char>, b: Seq<char>) -> bool
    decreases a.len(),
{
    if a.len() == 0 {
        true
    } else if b.len() == 0 {
        false
    } else if a[0] < b[0] {
        true
    } else if a[0] > b[0] {
        false
    } else {
        seq_le(a.drop_first(), b.drop_first())
    }
}

pub proof fn lemma_seq_le_refl(a: Seq<char>)
    ensures
        seq_le(a, a),
    decreases a.len(),
{
    if a.len() > 0 {
        lemma_seq_le_refl(a.drop_first());
    }
}

pub proof fn lemma_seq_le_total(a: Seq<char>, b: Seq<char>)
    ensures
        seq_le(a, b) || seq_le(b, a),
    decreases a.len(),
{
    if a.len() > 0 && b.len() > 0 && a[0] == b[0] {
        lemma_seq_le_total(a.drop_first(), b.drop_first());
    }
}

pub proof fn lemma_seq_le_antisym(a: Seq<char>, b: Seq<char>)
    requires
        seq_le(a, b),
        seq_le(b, a),
    ensures
        a == b,
    decreases a.len(),
{
    if a.len() == 0 {
        assert(b.len() == 0);
        assert(a =~= b);
    } else {
        assert(b.len() > 0);
        assert(a[0] == b[0]);
        let at = a.drop_first();
        let bt = b.drop_first();
        lemma_seq_le_antisym(at, bt);
        assert(at == bt);
        assert(a.len() == b.len()) by {
            assert(at.len() == bt.len());
        }
        assert forall|i: int| 0 <= i < a.len() implies a[i] == b[i] by {
            if i > 0 {
                assert(at[i - 1] == a[i]);
                assert(bt[i - 1] == b[i]);
                assert(at[i - 1] == bt[i - 1]);
            }
        }
        assert(a =~= b);
    }
}

pub proof fn lemma_seq_le_trans(a: Seq<char>, b: Seq<char>, c: Seq<char>)
    requires
        seq_le(a, b),
        seq_le(b, c),
    ensures
        seq_le(a, c),
    decreases a.len(),
{
    if a.len() > 0 {
        assert(b.len() > 0);
        assert(c.len() > 0);
        if a[0] == b[0] && b[0] == c[0] {
            lemma_seq_le_trans(a.drop_first(), b.drop_first(), c.drop_first());
        }
    }
}

/// The lexicographic order is a total ordering.
pub proof fn lemma_seq_le_ordering()
    ensures
        vstd::relations::total_ordering(|a: Seq<char>, b: Seq<char>| seq_le(a, b)),
{
    let leq = |a: Seq<char>, b: Seq<char>| seq_le(a, b);
    assert forall|a: Seq<char>| #[trigger] leq(a, a) by {
        lemma_seq_le_refl(a);
    }
    assert forall|a: Seq<char>, b: Seq<char>| #[trigger] leq(a, b) && #[trigger] leq(b, a)
        implies a == b by {
        lemma_seq_le_antisym(a, b);
    }
    assert forall|a: Seq<char>, b: Seq<char>, c: Seq<char>|
        #[trigger] leq(a, b) && #[trigger] leq(b, c) implies leq(a, c) by {
        lemma_seq_le_trans(a, b, c);
    }
    assert forall|a: Seq<char>, b: Seq<char>| #[trigger] leq(a, b) || #[trigger] leq(b, a) by {
        lemma_seq_le_total(a, b);
    }
}

/// Compares two strings in lexicographic order.
pub fn str_le(a: &str, b: &str) -> (r: bool)
    ensures
        r == seq_le(a@, b@),
{
    let alen: usize = a.unicode_len();
    let blen: usize = b.unicode_len();
    let mut i: usize = 0;
    proof {
        assert(a@.subrange(0, alen as int) =~= a@);
        assert(b@.subrange(0, blen as int) =~= b@);
    }
    while i < alen && i < blen
        invariant
            i <= alen,
            i <= blen,
            alen == a@.len(),
            blen == b@.len(),
            seq_le(a@, b@) == seq_le(
                a@.subrange(i as int, alen as int),
                b@.subrange(i as int, blen as int),
            ),
        decreases alen - i,
    {
        let ghost ra = a@.subrange(i as int, alen as int);
        let ghost rb = b@.subrange(i as int, blen as int);
        let ca = a.get_char(i);
        let cb = b.get_char(i);
        proof {
            assert(ra[0] == a@[i as int]);
            assert(rb[0] == b@[i as int]);
            assert(ra.drop_first() =~= a@.subrange(i + 1 as int, alen as int));
            assert(rb.drop_first() =~= b@.subrange(i + 1 as int, blen as int));
        }
        if ca < cb {
            return true;
        }
        if cb < ca {
            return false;
        }
        i = i + 1;
    }
    proof {
        if i >= alen {
            assert(a@.subrange(i as int, alen as int).len() == 0);
        } else {
            assert(b@.subrange(i as int, blen as int).len() == 0);
            assert(a@.subrange(i as int, alen as int).len() > 0);
        }
    }
    i >= alen
}

/// Lower-casing distributes over concatenation.
pub proof fn lemma_lower_concat(a: Seq<char>, b: Seq<char>)
    ensures
        lower(a + b) == lower(a) + lower(b),
{
    assert(lower(a + b) =~= lower(a) + lower(b)) by {
        assert forall|i: int| 0 <= i < a.len() + b.len() implies lower(a + b)[i] == (lower(a)
            + lower(b))[i] by {
            if i < a.len() {
                assert((a + b)[i] == a[i]);
            } else {
                assert((a + b)[i] == b[i - a.len()]);
            }
        }
    }
}

/// Lower-casing fixes a sequence without uppercase ASCII letters.
pub proof fn lemma_lower_fixes(s: Seq<char>)
    requires
        forall|i: int| 0 <= i < s.len() ==> !('A' <= #[trigger] s[i] && s[i] <= 'Z'),
    ensures
        lower(s) == s,
{
    assert(lower(s) =~= s);
}

/// A decimal rendering is non-empty and consists of digits.
pub proof fn lemma_dec_str_digits(n: nat)
    ensures
        dec_str(n).len() >= 1,
        forall|i: int|
            0 <= i < dec_str(n).len() ==> '0' <= #[trigger] dec_str(n)[i] && dec_str(n)[i] <= '9',
    decreases n,
{
    if n >= 10 {
        lemma_dec_str_digits(n / 10);
    }
}

/// Decimal renderings are injective: equal renderings mean equal numbers.
pub proof fn lemma_dec_str_injective(m: nat, n: nat)
    requires
        dec_str(m) == dec_str(n),
    ensures
        m == n,
    decreases m,
{
    if m < 10 && n < 10 {
        assert(dec_str(m)[0] == digit_char(m as int));
        assert(dec_str(n)[0] == digit_char(n as int));
    } else if m < 10 {
        lemma_dec_str_digits(n / 10);
        assert(dec_str(m).len() == 1);
        assert(dec_str(n).len() == dec_str(n / 10).len() + 1);
    } else if n < 10 {
        lemma_dec_str_digits(m / 10);
        assert(dec_str(n).len() == 1);
        assert(dec_str(m).len() == dec_str(m / 10).len() + 1);
    } else {
        assert(dec_str(m).last() == digit_char((m % 10) as int));
        assert(dec_str(n).last() == digit_char((n % 10) as int));
        assert(m % 10 == n % 10);
        assert(dec_str(m).drop_last() == dec_str(m / 10));
        assert(dec_str(n).drop_last() == dec_str(n / 10));
        lemma_dec_str_injective(m / 10, n / 10);
    }
}

} // verus!
