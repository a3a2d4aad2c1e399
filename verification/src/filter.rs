//! The filter engine: optional predicates on availability, author and year,
//! all of which must hold at once for a record to pass.

use vstd::prelude::*;
use crate::book::{Book, BookParams, BookView, ParamsView};
use crate::text::{author_contains, author_matches_search};

verus! {

/// Whether a record passes the optional filters: exact availability match,
/// case-insensitive author substring match, exact year match. An absent
/// filter passes every record.
pub open spec fn book_matches(b: BookView, p: ParamsView) -> bool {
    &&& (p.available is Some ==> b.available == p.available->Some_0)
    &&& (p.author is Some ==> author_contains(b.author, p.author->Some_0))
    &&& (p.year is Some ==> b.year == p.year->Some_0)
}

/// The records that pass the filters, in stored order.
pub open spec fn filtered_views(s: Seq<BookView>, p: ParamsView) -> Seq<BookView> {
    s.filter(|b: BookView| book_matches(b, p))
}

/// Filtering one more record appends it exactly when it passes the
/// filters.
pub proof fn lemma_filtered_views_push(s: Seq<BookView>, v: BookView, p: ParamsView)
    ensures
        filtered_views(s.push(v), p) == if book_matches(v, p) {
            filtered_views(s, p).push(v)
        } else {
            filtered_views(s, p)
        },
{
    reveal(Seq::filter);
    assert(s.push(v).drop_last() =~= s);
    assert(s.push(v).last() == v);
}

/// Whether a book passes every filter present in the parameters.
pub fn matches_filters(book: &Book, params: &BookParams) -> (r: bool)
    ensures
        r == book_matches(book@, params@),
{
    let availability_matches = match params.available {
        Some(availability) => book.available == availability,
        None => true,
    };
    let author_matches = match &params.author {
        Some(search) => author_matches_search(book.author.as_str(), search.as_str()),
        None => true,
    };
    let year_matches = match params.year {
        Some(year) => book.year == year,
        None => true,
    };
    availability_matches && author_matches && year_matches
}

} // verus!
