//! The catalog's data model: book records, the commands that create and
//! patch them, the filter and pagination parameters, and the page envelope
//! returned by listing.

use vstd::prelude::*;

verus! {

/// A stored book record. The id is assigned by the store and never changes;
/// every other field may be patched.
#[derive(Debug)]
pub struct Book {
    pub id: u32,
    pub title: String,
    pub author: String,
    pub year: u32,
    pub isbn: String,
    pub available: bool,
}

/// The mathematical content of a `Book`: text fields as character sequences.
pub ghost struct BookView {
    pub id: u32,
    pub title: Seq<char>,
    pub author: Seq<char>,
    pub year: u32,
    pub isbn: Seq<char>,
    pub available: bool,
}

impl View for Book {
    type V = BookView;

    open spec fn view(&self) -> BookView {
        BookView {
            id: self.id,
            title: self.title@,
            author: self.author@,
            year: self.year,
            isbn: self.isbn@,
            available: self.available,
        }
    }
}

impl Clone for Book {
    fn clone(&self) -> (r: Book)
        ensures
            r@ == self@,
    {
        Book {
            id: self.id,
            title: self.title.clone(),
            author: self.author.clone(),
            year: self.year,
            isbn: self.isbn.clone(),
            available: self.available,
        }
    }
}

/// The views of a sequence of books.
pub open spec fn views_of(s: Seq<Book>) -> Seq<BookView> {
    s.map_values(|b: Book| b@)
}

/// No two records share an id.
pub open spec fn distinct_ids(s: Seq<BookView>) -> bool {
    forall|i: int, j: int| 0 <= i < j < s.len() ==> s[i].id != s[j].id
}

/// The command that creates a book: no id, no availability (a new book is
/// always available).
#[derive(Debug)]
pub struct AddBook {
    pub title: String,
    pub author: String,
    pub year: u32,
    pub isbn: String,
}

/// The mathematical content of an `AddBook`.
pub ghost struct AddBookView {
    pub title: Seq<char>,
    pub author: Seq<char>,
    pub year: u32,
    pub isbn: Seq<char>,
}

impl View for AddBook {
    type V = AddBookView;

    open spec fn view(&self) -> AddBookView {
        AddBookView {
            title: self.title@,
            author: self.author@,
            year: self.year,
            isbn: self.isbn@,
        }
    }
}

/// The book that a successful create stores: the command's fields under a
/// fresh id, available.
pub open spec fn created(input: AddBookView, id: u32) -> BookView {
    BookView {
        id: id,
        title: input.title,
        author: input.author,
        year: input.year,
        isbn: input.isbn,
        available: true,
    }
}

/// A partial patch: absent fields mean "leave unchanged".
#[derive(Debug)]
pub struct UpdateBook {
    pub title: Option<String>,
    pub author: Option<String>,
    pub year: Option<u32>,
    pub isbn: Option<String>,
    pub available: Option<bool>,
}

/// The mathematical content of an `UpdateBook`.
pub ghost struct UpdateBookView {
    pub title: Option<Seq<char>>,
    pub author: Option<Seq<char>>,
    pub year: Option<u32>,
    pub isbn: Option<Seq<char>>,
    pub available: Option<bool>,
}

impl View for UpdateBook {
    type V = UpdateBookView;

    open spec fn view(&self) -> UpdateBookView {
        UpdateBookView {
            title: match self.title {
                Some(t) => Some(t@),
                None => None,
            },
            author: match self.author {
                Some(a) => Some(a@),
                None => None,
            },
            year: self.year,
            isbn: match self.isbn {
                Some(i) => Some(i@),
                None => None,
            },
            available: self.available,
        }
    }
}

/// The record that a patch produces: each field the patch mentions is
/// overwritten, every other field keeps its stored value, and the id is
/// kept in any case.
pub open spec fn patched(b: BookView, p: UpdateBookView) -> BookView {
    BookView {
        id: b.id,
        title: if p.title is Some {
            p.title->Some_0
        } else {
            b.title
        },
        author: if p.author is Some {
            p.author->Some_0
        } else {
            b.author
        },
        year: if p.year is Some {
            p.year->Some_0
        } else {
            b.year
        },
        isbn: if p.isbn is Some {
            p.isbn->Some_0
        } else {
            b.isbn
        },
        available: if p.available is Some {
            p.available->Some_0
        } else {
            b.available
        },
    }
}

/// A partial update preserves untouched fields: whatever the patch leaves
/// absent keeps its stored value, and the id is immutable.
pub proof fn lemma_patch_preserves_absent_fields(b: BookView, p: UpdateBookView)
    ensures
        patched(b, p).id == b.id,
        p.title is None ==> patched(b, p).title == b.title,
        p.author is None ==> patched(b, p).author == b.author,
        p.year is None ==> patched(b, p).year == b.year,
        p.isbn is None ==> patched(b, p).isbn == b.isbn,
        p.available is None ==> patched(b, p).available == b.available,
{
}

/// Optional filters and pagination controls for listing. All present
/// filters must hold at once for a record to pass.
#[derive(Debug)]
pub struct BookParams {
    pub available: Option<bool>,
    pub author: Option<String>,
    pub year: Option<u32>,
    pub page: Option<usize>,
    pub limit: Option<usize>,
}

/// The mathematical content of `BookParams`.
pub ghost struct ParamsView {
    pub available: Option<bool>,
    pub author: Option<Seq<char>>,
    pub year: Option<u32>,
    pub page: Option<usize>,
    pub limit: Option<usize>,
}

impl View for BookParams {
    type V = ParamsView;

    open spec fn view(&self) -> ParamsView {
        ParamsView {
            available: self.available,
            author: match self.author {
                Some(a) => Some(a@),
                None => None,
            },
            year: self.year,
            page: self.page,
            limit: self.limit,
        }
    }
}

impl BookParams {
    /// Parameters that filter nothing and take the default page.
    pub fn none() -> (r: BookParams)
        ensures
            r@.available is None,
            r@.author is None,
            r@.year is None,
            r@.page is None,
            r@.limit is None,
    {
        BookParams { available: None, author: None, year: None, page: None, limit: None }
    }
}

/// Pagination metadata reported alongside a page of results.
#[derive(Debug, Clone, Copy, PartialEq, Eq, Structural)]
pub struct PaginationMeta {
    pub page: usize,
    pub limit: usize,
    pub total_items: usize,
    pub total_pages: usize,
}

/// A bounded slice of the filtered records plus pagination metadata.
#[derive(Debug)]
pub struct PaginatedResponse<T> {
    pub data: Vec<T>,
    pub pagination: PaginationMeta,
}

} // verus!
