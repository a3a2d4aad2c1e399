//! A verified book catalog: a store of book records with create, lookup,
//! partial update, delete, and filtered, paginated listing.
//!
//! The store itself, input validation, and the filter/pagination engine are
//! verified; HTTP plumbing lives outside this crate and hands the library
//! already-typed values.

pub mod book;
pub mod errors;
pub mod filter;
pub mod pagination;
pub mod store;
pub mod text;
pub mod validation;
