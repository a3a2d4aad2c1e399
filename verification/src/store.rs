//! The book store: owns the collection of records, assigns ids, and serves
//! create, lookup, partial update, delete, and filtered paginated listing.
//!
//! Ids come from a counter that deletes never decrement, so within one
//! store's lifetime an id is never reused.

use vstd::prelude::*;
use crate::book::{
    AddBook, Book, BookParams, BookView, PaginatedResponse, PaginationMeta, UpdateBook, created,
    distinct_ids, patched, views_of,
};
use crate::errors::StoreError;
use crate::filter::{filtered_views, lemma_filtered_views_push, matches_filters};
use crate::pagination::{
    effective_limit, effective_limit_of, effective_page, effective_page_of,
    lemma_pages_total_bounds, page_window, pages_total,
};
use crate::validation::{current_utc_year, valid_add_book, validate_book_at};
use vstd::arithmetic::mul::lemma_mul_inequality;

verus! {

/// Whether some record in `s` has the id.
pub open spec fn has_id(s: Seq<BookView>, id: u32) -> bool {
    exists|i: int| 0 <= i < s.len() && (#[trigger] s[i]).id == id
}

/// An index of a record with the id (the only one, when ids are distinct).
pub open spec fn index_of_id(s: Seq<BookView>, id: u32) -> int {
    choose|i: int| 0 <= i < s.len() && (#[trigger] s[i]).id == id
}

/// Reading is idempotent: `get_by_id` pins its result to the store contents
/// and the id alone, so two lookups of one id with no write in between see
/// the very same outcome.
pub proof fn lemma_get_idempotent(
    s: Seq<BookView>,
    id: u32,
    first: Option<BookView>,
    second: Option<BookView>,
)
    requires
        first == (if has_id(s, id) {
            Some(s[index_of_id(s, id)])
        } else {
            None::<BookView>
        }),
        second == (if has_id(s, id) {
            Some(s[index_of_id(s, id)])
        } else {
            None::<BookView>
        }),
    ensures
        first == second,
{
}

/// Created ids are fresh: a well-formed store never holds a record with
/// the id it will assign next, so the book a create returns carries an id
/// no stored record ever had.
pub proof fn lemma_upcoming_id_is_fresh(s: &BookStore)
    requires
        s.wf(),
    ensures
        forall|i: int| 0 <= i < s@.len() ==> (#[trigger] s@[i]).id != s.upcoming_id(),
{
}

/// The store: the records in insertion order, and the next id to assign.
pub struct BookStore {
    books: Vec<Book>,
    next_id: u32,
}

impl View for BookStore {
    type V = Seq<BookView>;

    closed spec fn view(&self) -> Seq<BookView> {
        views_of(self.books@)
    }
}

impl BookStore {
    /// The id the next created book will get.
    pub closed spec fn upcoming_id(&self) -> u32 {
        self.next_id
    }

    /// Well-formed: the id counter is positive, every id is positive,
    /// below the counter, and unique.
    pub open spec fn wf(&self) -> bool {
        &&& 0 < self.upcoming_id()
        &&& forall|i: int|
            0 <= i < self@.len() ==> 0 < (#[trigger] self@[i]).id < self.upcoming_id()
        &&& distinct_ids(self@)
    }

    /// An empty store; the first created book gets id 1.
    pub fn new() -> (r: BookStore)
        ensures
            r@.len() == 0,
            r.wf(),
            r.upcoming_id() == 1,
    {
        BookStore { books: Vec::new(), next_id: 1 }
    }

    /// How many records the store holds.
    pub fn count(&self) -> (n: usize)
        ensures
            n == self@.len(),
    {
        self.books.len()
    }

    /// The id the next created book will get, as a value.
    pub fn peek_next_id(&self) -> (id: u32)
        ensures
            id == self.upcoming_id(),
    {
        self.next_id
    }

    /// Creates a book, validating against the given current year: a valid
    /// command is stored under a fresh id with `available` true and the
    /// stored record returned; an invalid one is rejected and the store is
    /// untouched.
    pub fn create_with_year(&mut self, input: AddBook, current_year: i32) -> (r: Result<
        Book,
        StoreError,
    >)
        requires
            old(self).wf(),
            old(self).upcoming_id() < u32::MAX,
        ensures
            final(self).wf(),
            (r is Ok <==> valid_add_book(input@, current_year)),
            r matches Ok(b) ==> {
                &&& b@ == created(input@, old(self).upcoming_id())
                &&& final(self)@ == old(self)@.push(b@)
                &&& final(self).upcoming_id() == old(self).upcoming_id() + 1
                &&& forall|i: int|
                    0 <= i < old(self)@.len() ==> (#[trigger] old(self)@[i]).id != b@.id
            },
            r is Err ==> r == Err::<Book, StoreError>(StoreError::Validation) && *final(self)
                == *old(self),
    {
        if !validate_book_at(&input, current_year) {
            return Err(StoreError::Validation);
        }
        let new_id = self.next_id;
        self.next_id = self.next_id + 1;
        let book = Book {
            id: new_id,
            title: input.title,
            author: input.author,
            year: input.year,
            isbn: input.isbn,
            available: true,
        };
        let result = book.clone();
        let ghost prior = self@;
        self.books.push(book);
        proof {
            assert(self@ =~= prior.push(result@));
            assert forall|i: int|
                0 <= i < self@.len() implies 0 < (#[trigger] self@[i]).id < self.upcoming_id() by {
                if i < prior.len() {
                    assert(self@[i] == prior[i]);
                } else {
                    assert(self@[i] == result@);
                }
            }
            assert forall|i: int, j: int| 0 <= i < j < self@.len() implies self@[i].id
                != self@[j].id by {
                assert(self@[i] == prior[i]);
                if j < prior.len() {
                    assert(self@[j] == prior[j]);
                } else {
                    assert(self@[j] == result@);
                }
            }
        }
        Ok(result)
    }

    /// Creates a book, validating against the system clock's current year.
    /// Whatever year the clock reports: a created book carries the
    /// command's fields under a fresh id and is available; a rejected
    /// command leaves the store unchanged; and a command with an empty
    /// title or author, a year below 1000, or a malformed ISBN is always
    /// rejected.
    pub fn create(&mut self, input: AddBook) -> (r: Result<Book, StoreError>)
        requires
            old(self).wf(),
            old(self).upcoming_id() < u32::MAX,
        ensures
            final(self).wf(),
            r matches Ok(b) ==> {
                &&& b@ == created(input@, old(self).upcoming_id())
                &&& final(self)@ == old(self)@.push(b@)
                &&& final(self).upcoming_id() == old(self).upcoming_id() + 1
                &&& forall|i: int|
                    0 <= i < old(self)@.len() ==> (#[trigger] old(self)@[i]).id != b@.id
            },
            r is Err ==> r == Err::<Book, StoreError>(StoreError::Validation) && *final(self)
                == *old(self),
            input@.title.len() == 0 || input@.author.len() == 0 || input@.year < 1000
                || !crate::validation::valid_isbn(input@.isbn) ==> r is Err,
            r is Ok ==> input@.title.len() > 0 && input@.author.len() > 0 && 1000 <= input@.year
                && crate::validation::valid_isbn(input@.isbn),
    {
        let current_year = current_utc_year();
        self.create_with_year(input, current_year)
    }

    /// The position of the record with the id, if any.
    fn find_index(&self, id: u32) -> (r: Option<usize>)
        requires
            self.wf(),
        ensures
            (r is Some <==> has_id(self@, id)),
            r matches Some(i) ==> i < self@.len() && self@[i as int].id == id && i as int
                == index_of_id(self@, id),
    {
        let n = self.books.len();
        for i in 0..n
            invariant
                n == self.books@.len(),
                self.wf(),
                forall|j: int| 0 <= j < i ==> (#[trigger] self@[j]).id != id,
        {
            if self.books[i].id == id {
                proof {
                    assert(self@[i as int].id == id);
                    let at = index_of_id(self@, id);
                    assert(self@[at].id == id);
                    if at != i as int {
                        assert(false);
                    }
                }
                return Some(i);
            }
        }
        None
    }

    /// Looks up a book by id; the error names the id it did not find.
    pub fn get_by_id(&self, id: u32) -> (r: Result<Book, StoreError>)
        requires
            self.wf(),
        ensures
            (r is Ok <==> has_id(self@, id)),
            r matches Ok(b) ==> has_id(self@, id) && b@ == self@[index_of_id(self@, id)],
            r matches Err(e) ==> e == (StoreError::NotFound { id }),
    {
        match self.find_index(id) {
            Some(i) => Ok(self.books[i].clone()),
            None => Err(StoreError::NotFound { id }),
        }
    }

    /// Patches the stored book with the id: overwrites exactly the fields
    /// the patch names, keeps every other field and every other record,
    /// and returns the updated record. A missing id is reported as
    /// not-found with the store untouched. No validation is re-applied to
    /// patched fields.
    pub fn update_by_id(&mut self, id: u32, patch: UpdateBook) -> (r: Result<Book, StoreError>)
        requires
            old(self).wf(),
        ensures
            final(self).wf(),
            final(self).upcoming_id() == old(self).upcoming_id(),
            (r is Ok <==> has_id(old(self)@, id)),
            r matches Ok(b) ==> {
                let at = index_of_id(old(self)@, id);
                &&& b@ == patched(old(self)@[at], patch@)
                &&& final(self)@ == old(self)@.update(at, b@)
            },
            r matches Err(e) ==> e == (StoreError::NotFound { id }) && *final(self) == *old(self),
    {
        match self.find_index(id) {
            None => Err(StoreError::NotFound { id }),
            Some(i) => {
                let ghost prior = self@;
                let removed = self.books.remove(i);
                let updated = Book {
                    id: removed.id,
                    title: match patch.title {
                        Some(t) => t,
                        None => removed.title,
                    },
                    author: match patch.author {
                        Some(a) => a,
                        None => removed.author,
                    },
                    year: match patch.year {
                        Some(y) => y,
                        None => removed.year,
                    },
                    isbn: match patch.isbn {
                        Some(s) => s,
                        None => removed.isbn,
                    },
                    available: match patch.available {
                        Some(a) => a,
                        None => removed.available,
                    },
                };
                let result = updated.clone();
                self.books.insert(i, updated);
                proof {
                    assert(self@ =~= prior.update(i as int, result@));
                    assert forall|a: int, b: int| 0 <= a < b < self@.len() implies self@[a].id
                        != self@[b].id by {
                        assert(self@[a].id == prior[a].id);
                        assert(self@[b].id == prior[b].id);
                    }
                    assert forall|j: int|
                        0 <= j < self@.len() implies 0 < (#[trigger] self@[j]).id
                        < self.upcoming_id() by {
                        assert(self@[j].id == prior[j].id);
                    }
                }
                Ok(result)
            },
        }
    }

    /// Deletes the record with the id; deleting an absent id is an error,
    /// not a no-op. The id counter is not decremented, so the freed id is
    /// never reused.
    pub fn delete_by_id(&mut self, id: u32) -> (r: Result<(), StoreError>)
        requires
            old(self).wf(),
        ensures
            final(self).wf(),
            final(self).upcoming_id() == old(self).upcoming_id(),
            (r is Ok <==> has_id(old(self)@, id)),
            r is Ok ==> final(self)@ == old(self)@.remove(index_of_id(old(self)@, id)),
            r matches Err(e) ==> e == (StoreError::NotFound { id }) && *final(self) == *old(self),
    {
        match self.find_index(id) {
            None => Err(StoreError::NotFound { id }),
            Some(i) => {
                let ghost prior = self@;
                self.books.remove(i);
                proof {
                    assert(self@ =~= prior.remove(i as int));
                    assert forall|a: int, b: int| 0 <= a < b < self@.len() implies self@[a].id
                        != self@[b].id by {
                        if b < i as int {
                            assert(self@[a] == prior[a] && self@[b] == prior[b]);
                        } else if a < i as int {
                            assert(self@[a] == prior[a] && self@[b] == prior[b + 1]);
                        } else {
                            assert(self@[a] == prior[a + 1] && self@[b] == prior[b + 1]);
                        }
                    }
                    assert forall|j: int|
                        0 <= j < self@.len() implies 0 < (#[trigger] self@[j]).id
                        < self.upcoming_id() by {
                        if j < i as int {
                            assert(self@[j] == prior[j]);
                        } else {
                            assert(self@[j] == prior[j + 1]);
                        }
                    }
                }
                Ok(())
            },
        }
    }

    /// Lists the records that pass the filters, as one page with its
    /// metadata: the window the effective page cuts from the filtered
    /// records, the filtered total, and the page count. Listing always
    /// succeeds; a page beyond the end is empty with the totals still
    /// reported.
    pub fn list(&self, params: &BookParams) -> (r: PaginatedResponse<Book>)
        ensures
            views_of(r.data@) == page_window(
                filtered_views(self@, params@),
                effective_page(params@),
                effective_limit(params@),
            ),
            r.pagination.page as int == effective_page(params@),
            r.pagination.limit as int == effective_limit(params@),
            r.pagination.total_items == filtered_views(self@, params@).len(),
            r.pagination.total_pages as int == pages_total(
                filtered_views(self@, params@).len() as int,
                effective_limit(params@),
            ),
    {
        let ghost target = filtered_views(self@, params@);
        let mut filtered: Vec<Book> = Vec::new();
        let n = self.books.len();
        for i in 0..n
            invariant
                n == self.books@.len(),
                views_of(filtered@) == filtered_views(self@.take(i as int), params@),
        {
            proof {
                assert(self@.take(i + 1) =~= self@.take(i as int).push(self@[i as int]));
                lemma_filtered_views_push(self@.take(i as int), self@[i as int], params@);
            }
            if matches_filters(&self.books[i], params) {
                let ghost before = views_of(filtered@);
                filtered.push(self.books[i].clone());
                proof {
                    assert(views_of(filtered@) =~= before.push(self@[i as int]));
                }
            }
        }
        proof {
            assert(self@.take(n as int) =~= self@);
        }
        let total = filtered.len();
        let page = effective_page_of(params);
        let limit = effective_limit_of(params);
        proof {
            lemma_pages_total_bounds(total as int, limit as int);
        }
        let quotient = total / limit;
        let total_pages = if total % limit == 0 {
            quotient
        } else {
            quotient + 1
        };
        let meta = PaginationMeta { page, limit, total_items: total, total_pages };
        let offset_pages = page - 1;
        if offset_pages >= total_pages {
            proof {
                lemma_mul_inequality(total_pages as int, offset_pages as int, limit as int);
                assert(views_of(Seq::<Book>::empty()) =~= Seq::<BookView>::empty());
            }
            let data: Vec<Book> = Vec::new();
            proof {
                assert(views_of(data@) =~= Seq::<BookView>::empty());
            }
            return PaginatedResponse { data, pagination: meta };
        }
        proof {
            lemma_mul_inequality(offset_pages as int, total_pages as int - 1, limit as int);
        }
        let start = offset_pages * limit;
        let remaining = total - start;
        let window_len = if limit < remaining {
            limit
        } else {
            remaining
        };
        let end = start + window_len;
        let mut data: Vec<Book> = Vec::new();
        for j in start..end
            invariant
                views_of(filtered@) == target,
                start <= j <= end,
                end <= total,
                total == filtered@.len(),
                views_of(data@) == target.subrange(start as int, j as int),
        {
            proof {
                assert(target.subrange(start as int, j + 1) =~= target.subrange(
                    start as int,
                    j as int,
                ).push(target[j as int]));
            }
            let ghost before = views_of(data@);
            data.push(filtered[j].clone());
            proof {
                assert(views_of(data@) =~= before.push(target[j as int]));
            }
        }
        PaginatedResponse { data, pagination: meta }
    }
}

} // verus!
