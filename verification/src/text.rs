//! Text helpers for the catalog: case folding and substring containment,
//! used by the case-insensitive author filter.

use vstd::prelude::*;

verus! {

/// The characters of a string folded to lower case, as `str::to_lowercase`
/// computes it: a function of the characters alone, left otherwise
/// uninterpreted here.
pub uninterp spec fn lower_of(s: Seq<char>) -> Seq<char>;

/// True when `needle` occurs contiguously inside `hay`.
pub open spec fn is_substring_of(needle: Seq<char>, hay: Seq<char>) -> bool {
    exists|i: int|
        0 <= i <= hay.len() - needle.len() && #[trigger] hay.subrange(i, i + needle.len())
            == needle
}

/// Case-insensitive containment: `search_term` occurs in `author` once both
/// are folded to lower case.
pub open spec fn author_contains(author: Seq<char>, search_term: Seq<char>) -> bool {
    is_substring_of(lower_of(search_term), lower_of(author))
}

/// Relies on `str::to_lowercase`: returns the lower-case form of the string,
/// which depends on its characters alone.
#[verifier::external_body]
fn lowercase(s: &str) -> (r: String)
    ensures
        r@ == lower_of(s@),
{
    s.to_lowercase()
}

/// Relies on `str::contains`: true exactly when the pattern occurs as a
/// sub-slice of the string.
#[verifier::external_body]
fn str_contains(hay: &str, needle: &str) -> (r: bool)
    ensures
        r == is_substring_of(needle@, hay@),
{
    hay.contains(needle)
}

/// Relies on `String`'s `FromIterator<char>`: collecting characters yields
/// the string of exactly those characters.
#[verifier::external_body]
pub(crate) fn string_from_chars(v: &Vec<char>) -> (r: String)
    ensures
        r@ == v@,
{
    v.iter().collect()
}

/// The characters of a string, collected into a vector.
pub fn chars_of(s: &str) -> (r: Vec<char>)
    ensures
        r@ == s@,
{
    let mut v: Vec<char> = Vec::new();
    for c in it: s.chars()
        invariant
            it.seq() == s@,
            v@ == it.seq().take(it.index() as int),
    {
        v.push(c);
    }
    proof {
        assert(v@ =~= s@);
    }
    v
}

/// Case-insensitive substring match of a search term against an author name.
pub fn author_matches_search(author: &str, search_term: &str) -> (r: bool)
    ensures
        r == author_contains(author@, search_term@),
{
    let author_lower = lowercase(author);
    let term_lower = lowercase(search_term);
    str_contains(author_lower.as_str(), term_lower.as_str())
}

} // verus!
