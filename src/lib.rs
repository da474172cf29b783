//! A personal book catalogue: bibliographic records are adapted into an
//! editable model, rendered to and parsed from a `Key: value` text block,
//! normalised into authors, a publisher and a book, and handed to the store.
pub mod books;
pub mod db;
pub mod error;
pub mod isbn_db;
pub mod models;
pub mod number;
pub mod roundtrip;
pub mod text;
