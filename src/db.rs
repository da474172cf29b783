//! The statements of the relational store. Each write commits on its own;
//! authors and publishers are upserted by natural key ("insert, ignore a
//! conflict, then select by key"), so a repeated upsert finds the row that
//! is already there.
use vstd::prelude::*;

verus! {

pub const CREATE_PUBLISHERS: &'static str = "CREATE TABLE IF NOT EXISTS publishers (
            id INTEGER PRIMARY KEY AUTOINCREMENT,
            name TEXT NOT NULL UNIQUE
         )";

pub const CREATE_AUTHORS: &'static str = "CREATE TABLE IF NOT EXISTS authors (
            id INTEGER PRIMARY KEY AUTOINCREMENT,
            forename TEXT NOT NULL,
            surname TEXT NOT NULL,
            UNIQUE(forename, surname)
         )";

pub const CREATE_BOOKS: &'static str = "CREATE TABLE IF NOT EXISTS books (
            id INTEGER PRIMARY KEY AUTOINCREMENT,
            publisher_id INTEGER,
            title TEXT NOT NULL,
            edition TEXT,
            date_published TEXT NOT NULL,
            original_date_published TEXT,
            price DECIMAL,
            binding TEXT NOT NULL,
            isbn TEXT NOT NULL,
            pages INTEGER NOT NULL DEFAULT 0,
            owned INTEGER NOT NULL DEFAULT 0,
            UNIQUE(title, edition),
            FOREIGN KEY (publisher_id) REFERENCES publishers(id)
         )";

pub const CREATE_BOOKS_AUTHORS: &'static str = "CREATE TABLE IF NOT EXISTS books_authors (
            book_id INTEGER,
            author_id INTEGER,
            FOREIGN KEY (book_id) REFERENCES books(id),
            FOREIGN KEY (author_id) REFERENCES authors(id)
         )";

/// Parameter: the publisher's name.
pub const INSERT_PUBLISHER: &'static str = "INSERT OR IGNORE INTO publishers (name) VALUES (?1)";

/// Parameter: the publisher's name.
pub const SELECT_PUBLISHER_ID: &'static str = "SELECT id FROM publishers WHERE name = ?1";

/// Parameters: forename, surname.
pub const INSERT_AUTHOR: &'static str = "INSERT OR IGNORE INTO authors (forename, surname) VALUES (?1, ?2)";

/// Parameters: forename, surname.
pub const SELECT_AUTHOR_ID: &'static str = "SELECT id FROM authors WHERE forename = ?1 AND surname = ?2";

/// Parameters: publisher id, title, edition, date published, original date
/// published, price (its text), binding, isbn, pages, owned.
pub const INSERT_BOOK: &'static str = "INSERT INTO books (
            publisher_id, title, edition,
            date_published, original_date_published, price,
            binding, isbn, pages, owned
        ) VALUES (?1, ?2, ?3, ?4, ?5, ?6, ?7, ?8, ?9, ?10)";

/// Parameters: book id, author id.
pub const INSERT_BOOK_AUTHOR: &'static str = "INSERT INTO books_authors (book_id, author_id) VALUES (?1, ?2)";

/// Parameter: the book's id. Columns in the order of `BookRow`'s fields.
pub const SELECT_BOOK: &'static str = "SELECT
            books.id, books.title, books.edition, books.date_published,
            books.original_date_published, CAST(books.price AS TEXT), books.binding,
            books.isbn, books.pages, books.owned,
            publishers.id, publishers.name
        FROM books
        LEFT JOIN publishers ON books.publisher_id = publishers.id
        WHERE books.id = ?1";

/// Parameter: the book's id. The authors come in the order they were linked.
pub const SELECT_BOOK_AUTHORS: &'static str = "SELECT authors.id, authors.forename, authors.surname
        FROM authors
        JOIN books_authors ON authors.id = books_authors.author_id
        WHERE books_authors.book_id = ?1
        ORDER BY books_authors.rowid";

} // verus!
