use book_catalog::book::{AddBook, Book, BookParams, UpdateBook};
use book_catalog::errors::StoreError;
use book_catalog::filter::matches_filters;
use book_catalog::store::BookStore;

fn sample_book(id: u32) -> Book {
    Book {
        id,
        title: format!("Book {}", id),
        author: "Author Name".to_string(),
        year: 2020,
        isbn: "9781593278281".to_string(),
        available: true,
    }
}

fn sample_add(i: u32) -> AddBook {
    AddBook {
        title: format!("Book {}", i),
        author: "Author Name".to_string(),
        year: 2020,
        isbn: "9781593278281".to_string(),
    }
}

fn add(title: &str, author: &str, year: u32, isbn: &str) -> AddBook {
    AddBook {
        title: title.to_string(),
        author: author.to_string(),
        year,
        isbn: isbn.to_string(),
    }
}

fn no_patch() -> UpdateBook {
    UpdateBook { title: None, author: None, year: None, isbn: None, available: None }
}

fn params() -> BookParams {
    BookParams { available: None, author: None, year: None, page: None, limit: None }
}

/// A store seeded through `create`, so ids run 1 through n.
fn store_with(n: u32) -> BookStore {
    let mut store = BookStore::new();
    for i in 1..=n {
        store.create(sample_add(i)).unwrap();
    }
    store
}

// --- list ---

#[test]
fn list_books_empty_store() {
    let store = BookStore::new();
    let resp = store.list(&params());
    assert!(resp.data.is_empty());
    assert_eq!(resp.pagination.total_items, 0);
    assert_eq!(resp.pagination.total_pages, 0);
}

#[test]
fn list_books_returns_all() {
    let store = store_with(3);
    let resp = store.list(&params());
    assert_eq!(resp.data.len(), 3);
    assert_eq!(resp.pagination.total_items, 3);
}

#[test]
fn list_books_filter_by_author_case_insensitive() {
    let mut store = BookStore::new();
    store.create(add("T1", "Tolkien", 2020, "9781593278281")).unwrap();
    store.create(add("T2", "Martin", 2020, "9781593278281")).unwrap();
    let mut p = params();
    p.author = Some("tolkien".to_string());
    let resp = store.list(&p);
    assert_eq!(resp.data.len(), 1);
    assert_eq!(resp.data[0].author, "Tolkien");
}

#[test]
fn list_books_filter_by_availability() {
    let mut store = store_with(2);
    let mut patch = no_patch();
    patch.available = Some(false);
    store.update_by_id(2, patch).unwrap();
    let mut p = params();
    p.available = Some(false);
    let resp = store.list(&p);
    assert_eq!(resp.data.len(), 1);
    assert!(!resp.data[0].available);
}

#[test]
fn list_books_filter_by_year() {
    let mut store = BookStore::new();
    store.create(add("T1", "A", 2010, "9781593278281")).unwrap();
    store.create(add("T2", "A", 2020, "9781593278281")).unwrap();
    let mut p = params();
    p.year = Some(2010);
    let resp = store.list(&p);
    assert_eq!(resp.data.len(), 1);
    assert_eq!(resp.data[0].year, 2010);
}

#[test]
fn list_books_pagination_second_page() {
    let store = store_with(15);
    let mut p = params();
    p.page = Some(2);
    p.limit = Some(5);
    let resp = store.list(&p);
    assert_eq!(resp.data.len(), 5);
    assert_eq!(resp.pagination.page, 2);
    assert_eq!(resp.pagination.limit, 5);
    assert_eq!(resp.pagination.total_items, 15);
    assert_eq!(resp.pagination.total_pages, 3);
    assert_eq!(resp.data[0].id, 6);
}

#[test]
fn list_books_page_beyond_total_returns_empty() {
    let store = store_with(3);
    let mut p = params();
    p.page = Some(99);
    p.limit = Some(10);
    let resp = store.list(&p);
    assert!(resp.data.is_empty());
    assert_eq!(resp.pagination.total_items, 3);
}

#[test]
fn list_books_limit_capped_at_100() {
    let store = store_with(110);
    let mut p = params();
    p.limit = Some(200);
    let resp = store.list(&p);
    assert_eq!(resp.pagination.limit, 100);
    assert_eq!(resp.data.len(), 100);
}

#[test]
fn list_books_zero_limit_falls_back_to_default() {
    let store = store_with(12);
    let mut p = params();
    p.limit = Some(0);
    let resp = store.list(&p);
    assert_eq!(resp.pagination.limit, 10);
    assert_eq!(resp.data.len(), 10);
    assert_eq!(resp.pagination.total_pages, 2);
}

#[test]
fn list_books_page_zero_falls_back_to_first() {
    let store = store_with(3);
    let mut p = params();
    p.page = Some(0);
    let resp = store.list(&p);
    assert_eq!(resp.pagination.page, 1);
    assert_eq!(resp.data.len(), 3);
}

// --- create ---

#[test]
fn add_book_returns_201_with_book() {
    let mut store = BookStore::new();
    let created = store
        .create(add("The Rust Programming Language", "Steve Klabnik", 2018, "9781593278281"))
        .unwrap();
    assert_eq!(created.title, "The Rust Programming Language");
    assert_eq!(created.author, "Steve Klabnik");
    assert_eq!(created.year, 2018);
    assert_eq!(created.id, 1);
    assert!(created.available);
}

#[test]
fn add_book_isbn_with_dashes_accepted() {
    let mut store = BookStore::new();
    let result = store.create(add("Test", "Author", 2020, "978-1593278281"));
    assert!(result.is_ok());
}

#[test]
fn add_book_invalid_isbn_returns_400() {
    let mut store = BookStore::new();
    let result = store.create(add("Test", "Author", 2020, "bad-isbn"));
    assert_eq!(result.unwrap_err(), StoreError::Validation);
}

#[test]
fn add_book_empty_title_returns_400() {
    let mut store = BookStore::new();
    let result = store.create(add("", "Author", 2020, "9781593278281"));
    assert_eq!(result.unwrap_err(), StoreError::Validation);
    assert_eq!(store.list(&params()).pagination.total_items, 0);
}

#[test]
fn add_book_empty_author_returns_400() {
    let mut store = BookStore::new();
    let result = store.create(add("Test", "", 2020, "9781593278281"));
    assert_eq!(result.unwrap_err(), StoreError::Validation);
}

#[test]
fn add_book_future_year_returns_400() {
    let mut store = BookStore::new();
    let future_year = chrono::Datelike::year(&chrono::Utc::now()) as u32 + 1;
    let result = store.create(add("Future Book", "Someone", future_year, "9781593278281"));
    assert_eq!(result.unwrap_err(), StoreError::Validation);
}

#[test]
fn add_book_assigns_fresh_ids_after_delete() {
    let mut store = store_with(3);
    store.delete_by_id(3).unwrap();
    let created = store.create(sample_add(9)).unwrap();
    assert_eq!(created.id, 4);
    let resp = store.list(&params());
    let ids: Vec<u32> = resp.data.iter().map(|b| b.id).collect();
    assert_eq!(ids, vec![1, 2, 4]);
}

// --- get ---

#[test]
fn get_book_existing_returns_book() {
    let store = store_with(1);
    let book = store.get_by_id(1).unwrap();
    assert_eq!(book.id, 1);
    assert_eq!(book.title, "Book 1");
}

#[test]
fn get_book_not_found_returns_404() {
    let store = BookStore::new();
    let err = store.get_by_id(99).unwrap_err();
    assert_eq!(err, StoreError::NotFound { id: 99 });
    assert!(err.message().contains("99"));
}

#[test]
fn get_book_twice_returns_identical_results() {
    let store = store_with(2);
    let first = store.get_by_id(2).unwrap();
    let second = store.get_by_id(2).unwrap();
    assert_eq!(first.id, second.id);
    assert_eq!(first.title, second.title);
    assert_eq!(first.author, second.author);
    assert_eq!(first.year, second.year);
    assert_eq!(first.isbn, second.isbn);
    assert_eq!(first.available, second.available);
}

// --- update ---

#[test]
fn update_book_title() {
    let mut store = store_with(1);
    let mut patch = no_patch();
    patch.title = Some("Updated Title".to_string());
    let book = store.update_by_id(1, patch).unwrap();
    assert_eq!(book.title, "Updated Title");
}

#[test]
fn update_book_partial_update_preserves_other_fields() {
    let mut store = store_with(1);
    let mut patch = no_patch();
    patch.available = Some(false);
    let book = store.update_by_id(1, patch).unwrap();
    assert!(!book.available);
    assert_eq!(book.title, "Book 1");
    assert_eq!(book.author, "Author Name");
    assert_eq!(book.year, 2020);
    assert_eq!(book.isbn, "9781593278281");
}

#[test]
fn update_book_not_found_returns_404() {
    let mut store = BookStore::new();
    let mut patch = no_patch();
    patch.title = Some("Whatever".to_string());
    let err = store.update_by_id(99, patch).unwrap_err();
    assert_eq!(err, StoreError::NotFound { id: 99 });
}

#[test]
fn update_book_does_not_revalidate() {
    let mut store = store_with(1);
    let mut patch = no_patch();
    patch.title = Some(String::new());
    patch.year = Some(999);
    patch.isbn = Some("bad-isbn".to_string());
    let book = store.update_by_id(1, patch).unwrap();
    assert_eq!(book.title, "");
    assert_eq!(book.year, 999);
    assert_eq!(book.isbn, "bad-isbn");
}

// --- delete ---

#[test]
fn delete_book_existing_returns_204() {
    let mut store = store_with(1);
    assert!(store.delete_by_id(1).is_ok());
    assert_eq!(store.count(), 0);
}

#[test]
fn delete_book_not_found_returns_404() {
    let mut store = BookStore::new();
    let err = store.delete_by_id(99).unwrap_err();
    assert_eq!(err, StoreError::NotFound { id: 99 });
    assert!(err.message().contains("99"));
}

// --- filtering helpers ---

#[test]
fn matches_filters_combines_all_present_filters() {
    let book = sample_book(1);
    let mut p = params();
    assert!(matches_filters(&book, &p));
    p.available = Some(true);
    p.author = Some("author".to_string());
    p.year = Some(2020);
    assert!(matches_filters(&book, &p));
    p.year = Some(2019);
    assert!(!matches_filters(&book, &p));
    p.year = Some(2020);
    p.available = Some(false);
    assert!(!matches_filters(&book, &p));
    p.available = Some(true);
    p.author = Some("nobody".to_string());
    assert!(!matches_filters(&book, &p));
}

// --- integration ---

#[test]
fn integration_create_then_get() {
    let mut store = BookStore::new();
    let created = store
        .create(add("Dune", "Frank Herbert", 1965, "9780340960196"))
        .unwrap();
    let fetched = store.get_by_id(created.id).unwrap();
    assert_eq!(created.id, fetched.id);
    assert_eq!(created.title, fetched.title);
    assert_eq!(created.author, fetched.author);
    assert_eq!(created.year, fetched.year);
    assert_eq!(created.isbn, fetched.isbn);
}

#[test]
fn integration_create_update_get() {
    let mut store = BookStore::new();
    let created = store
        .create(add("Original Title", "Jane Doe", 2000, "9780340960196"))
        .unwrap();
    let mut patch = no_patch();
    patch.title = Some("Updated Title".to_string());
    patch.available = Some(false);
    store.update_by_id(created.id, patch).unwrap();
    let final_book = store.get_by_id(created.id).unwrap();
    assert_eq!(final_book.title, "Updated Title");
    assert_eq!(final_book.available, false);
    assert_eq!(final_book.author, "Jane Doe");
    assert_eq!(final_book.year, 2000);
}

#[test]
fn integration_create_delete_then_get_returns_404() {
    let mut store = BookStore::new();
    let created = store
        .create(add("Temporary", "Someone", 2021, "9780340960196"))
        .unwrap();
    assert!(store.delete_by_id(created.id).is_ok());
    let err = store.get_by_id(created.id).unwrap_err();
    assert_eq!(err, StoreError::NotFound { id: created.id });
}

#[test]
fn integration_multiple_creates_reflected_in_list() {
    let mut store = BookStore::new();
    store.create(add("Book A", "Author A", 2001, "9780340960196")).unwrap();
    store.create(add("Book B", "Author B", 2002, "9780340960196")).unwrap();
    store.create(add("Book C", "Author C", 2003, "9780340960196")).unwrap();
    let resp = store.list(&params());
    assert_eq!(resp.pagination.total_items, 3);
    assert_eq!(resp.data.len(), 3);
    let titles: Vec<&str> = resp.data.iter().map(|b| b.title.as_str()).collect();
    assert!(titles.contains(&"Book A"));
    assert!(titles.contains(&"Book B"));
    assert!(titles.contains(&"Book C"));
}

#[test]
fn integration_update_availability_then_filter() {
    let mut store = BookStore::new();
    let created = store
        .create(add("Loanable", "Lib Author", 2015, "9780340960196"))
        .unwrap();
    assert!(created.available);
    let mut patch = no_patch();
    patch.available = Some(false);
    store.update_by_id(created.id, patch).unwrap();

    let mut p = params();
    p.available = Some(true);
    assert!(store.list(&p).data.is_empty());

    p.available = Some(false);
    let unavailable = store.list(&p);
    assert_eq!(unavailable.data.len(), 1);
    assert_eq!(unavailable.data[0].id, created.id);
}

#[test]
fn integration_create_multiple_then_filter_by_author() {
    let mut store = BookStore::new();
    store.create(add("T1", "George Orwell", 1949, "9780340960196")).unwrap();
    store.create(add("T2", "George R.R. Martin", 1996, "9780340960196")).unwrap();
    store.create(add("T3", "Isaac Asimov", 1951, "9780340960196")).unwrap();
    let mut p = params();
    p.author = Some("george".to_string());
    let resp = store.list(&p);
    assert_eq!(resp.data.len(), 2);
    for book in &resp.data {
        assert!(book.author.to_lowercase().contains("george"));
    }
}

#[test]
fn integration_create_many_then_paginate() {
    let mut store = BookStore::new();
    for i in 1..=12u32 {
        store
            .create(add(&format!("Paginated Book {}", i), "Paged Author", 2020, "9780340960196"))
            .unwrap();
    }

    let mut p = params();
    p.page = Some(1);
    p.limit = Some(5);
    let page1 = store.list(&p);
    assert_eq!(page1.data.len(), 5);
    assert_eq!(page1.pagination.page, 1);
    assert_eq!(page1.pagination.limit, 5);
    assert_eq!(page1.pagination.total_items, 12);
    assert_eq!(page1.pagination.total_pages, 3);
    assert_eq!(page1.data[0].title, "Paginated Book 1");
    assert_eq!(page1.data[4].title, "Paginated Book 5");

    p.page = Some(2);
    let page2 = store.list(&p);
    assert_eq!(page2.data.len(), 5);
    assert_eq!(page2.pagination.page, 2);
    assert_eq!(page2.data[0].title, "Paginated Book 6");
    assert_eq!(page2.data[4].title, "Paginated Book 10");

    p.page = Some(3);
    let page3 = store.list(&p);
    assert_eq!(page3.data.len(), 2);
    assert_eq!(page3.pagination.page, 3);
    assert_eq!(page3.data[0].title, "Paginated Book 11");
    assert_eq!(page3.data[1].title, "Paginated Book 12");

    p.page = Some(4);
    let page4 = store.list(&p);
    assert!(page4.data.is_empty());
    assert_eq!(page4.pagination.total_items, 12);
    assert_eq!(page4.pagination.total_pages, 3);

    // Pages partition the records: lengths sum to the total, ids disjoint.
    assert_eq!(page1.data.len() + page2.data.len() + page3.data.len(), 12);
    let ids_page1: Vec<u32> = page1.data.iter().map(|b| b.id).collect();
    let ids_page2: Vec<u32> = page2.data.iter().map(|b| b.id).collect();
    let ids_page3: Vec<u32> = page3.data.iter().map(|b| b.id).collect();
    assert!(ids_page1.iter().all(|id| !ids_page2.contains(id)));
    assert!(ids_page1.iter().all(|id| !ids_page3.contains(id)));
    assert!(ids_page2.iter().all(|id| !ids_page3.contains(id)));
}

#[test]
fn integration_delete_one_of_many_leaves_rest_intact() {
    let mut store = BookStore::new();
    let mut ids = Vec::new();
    for i in 0..3u32 {
        let book = store
            .create(add(&format!("Book {}", i), "Author", 2020, "9780340960196"))
            .unwrap();
        ids.push(book.id);
    }
    assert!(store.delete_by_id(ids[1]).is_ok());
    let resp = store.list(&params());
    assert_eq!(resp.pagination.total_items, 2);
    let remaining_ids: Vec<u32> = resp.data.iter().map(|b| b.id).collect();
    assert!(remaining_ids.contains(&ids[0]));
    assert!(remaining_ids.contains(&ids[2]));
    assert!(!remaining_ids.contains(&ids[1]));
}
