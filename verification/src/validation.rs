//! Validation of create commands: non-empty title and author, a calendar
//! year that is not in the future, and a well-formed ISBN. Validation runs
//! only on create; patches are applied unchecked.

use vstd::prelude::*;
use crate::book::{AddBook, AddBookView};
use crate::text::chars_of;

verus! {

/// A decimal digit, '0' through '9'.
pub open spec fn is_dec_digit(c: char) -> bool {
    ('0' as u32) <= (c as u32) && (c as u32) <= ('9' as u32)
}

/// `s` with every hyphen removed.
pub open spec fn strip_hyphens(s: Seq<char>) -> Seq<char>
    decreases s.len(),
{
    if s.len() == 0 {
        Seq::empty()
    } else if s.last() == '-' {
        strip_hyphens(s.drop_last())
    } else {
        strip_hyphens(s.drop_last()).push(s.last())
    }
}

/// Every character of `s` is a decimal digit.
pub open spec fn all_dec_digits(s: Seq<char>) -> bool {
    forall|i: int| 0 <= i < s.len() ==> is_dec_digit(#[trigger] s[i])
}

/// A well-formed ISBN: after stripping hyphens, exactly 13 decimal digits
/// remain. No check-digit verification is performed.
pub open spec fn valid_isbn(s: Seq<char>) -> bool {
    strip_hyphens(s).len() == 13 && all_dec_digits(strip_hyphens(s))
}

/// A calendar year the catalog accepts, judged against a given current
/// year: between 1000 and that year inclusive.
pub open spec fn valid_year_at(year: u32, current_year: i32) -> bool {
    1000 <= year as int && year as int <= current_year as int
}

/// A create command the store accepts, judged against a given current year.
pub open spec fn valid_add_book(input: AddBookView, current_year: i32) -> bool {
    &&& input.title.len() > 0
    &&& input.author.len() > 0
    &&& valid_year_at(input.year, current_year)
    &&& valid_isbn(input.isbn)
}

proof fn lemma_strip_hyphens_push(s: Seq<char>, c: char)
    ensures
        c == '-' ==> strip_hyphens(s.push(c)) == strip_hyphens(s),
        c != '-' ==> strip_hyphens(s.push(c)) == strip_hyphens(s).push(c),
{
    assert(s.push(c).drop_last() =~= s);
    assert(s.push(c).last() == c);
}

proof fn lemma_all_dec_digits_push(s: Seq<char>, c: char)
    ensures
        all_dec_digits(s.push(c)) == (all_dec_digits(s) && is_dec_digit(c)),
{
    assert(s.push(c)[s.len() as int] == c);
    if all_dec_digits(s) && is_dec_digit(c) {
        assert forall|i: int| 0 <= i < s.push(c).len() implies is_dec_digit(#[trigger] s.push(c)[i]) by {
            if i < s.len() {
                assert(s.push(c)[i] == s[i]);
            }
        }
    }
    if all_dec_digits(s.push(c)) {
        assert forall|i: int| 0 <= i < s.len() implies is_dec_digit(#[trigger] s[i]) by {
            assert(s.push(c)[i] == s[i]);
        }
    }
}

/// The length of the stripped text, capped just above the length a valid
/// ISBN must have, so a running count cannot overflow.
spec fn capped_strip_len(s: Seq<char>) -> nat {
    if strip_hyphens(s).len() > 14 {
        14nat
    } else {
        strip_hyphens(s).len()
    }
}

fn is_dec_digit_exec(c: char) -> (r: bool)
    ensures
        r == is_dec_digit(c),
{
    let u = c as u32;
    48 <= u && u <= 57
}

/// Whether the text is a well-formed ISBN: exactly 13 decimal digits once
/// hyphens are stripped.
pub fn is_valid_isbn(isbn: &str) -> (r: bool)
    ensures
        r == valid_isbn(isbn@),
{
    let cs = chars_of(isbn);
    let n = cs.len();
    let mut count: usize = 0;
    let mut all_digits: bool = true;
    for i in 0..n
        invariant
            n == cs@.len(),
            cs@ == isbn@,
            count == capped_strip_len(isbn@.take(i as int)),
            all_digits == all_dec_digits(strip_hyphens(isbn@.take(i as int))),
    {
        let c = cs[i];
        proof {
            assert(isbn@.take(i + 1) =~= isbn@.take(i as int).push(isbn@[i as int]));
            lemma_strip_hyphens_push(isbn@.take(i as int), isbn@[i as int]);
            lemma_all_dec_digits_push(strip_hyphens(isbn@.take(i as int)), isbn@[i as int]);
        }
        if c != '-' {
            if count < 14 {
                count = count + 1;
            }
            all_digits = all_digits && is_dec_digit_exec(c);
        }
    }
    proof {
        assert(isbn@.take(n as int) =~= isbn@);
    }
    count == 13 && all_digits
}

/// Relies on `chrono::Utc::now` and `chrono::Datelike::year`: the calendar
/// year of the system clock, in UTC. The result depends on the clock, so
/// nothing is assumed of it.
#[verifier::external_body]
pub(crate) fn current_utc_year() -> i32 {
    chrono::Datelike::year(&chrono::Utc::now())
}

/// Whether a year is accepted relative to a given current year.
pub fn is_valid_year_at(year: u32, current_year: i32) -> (r: bool)
    ensures
        r == valid_year_at(year, current_year),
{
    1000 <= year && (year as i64) <= (current_year as i64)
}

/// Whether a year is accepted now: at least 1000 and no later than the
/// clock's current UTC year. The clock decides the upper bound, so only
/// the lower bound can be promised of every outcome.
pub fn is_valid_year(year: u32) -> (r: bool)
    ensures
        r ==> 1000 <= year,
{
    let current_year = current_utc_year();
    is_valid_year_at(year, current_year)
}

/// Whether a create command is accepted relative to a given current year.
pub fn validate_book_at(book: &AddBook, current_year: i32) -> (r: bool)
    ensures
        r == valid_add_book(book@, current_year),
{
    !book.title.as_str().is_empty() && !book.author.as_str().is_empty() && is_valid_year_at(
        book.year,
        current_year,
    )
        && is_valid_isbn(book.isbn.as_str())
}

/// Whether a create command is accepted now, judged against the system
/// clock. The clock decides the year's upper bound; everything else holds
/// of every outcome.
pub fn validate_book(book: &AddBook) -> (r: bool)
    ensures
        r ==> book@.title.len() > 0 && book@.author.len() > 0 && 1000 <= book@.year && valid_isbn(
            book@.isbn,
        ),
{
    let current_year = current_utc_year();
    validate_book_at(book, current_year)
}

} // verus!
