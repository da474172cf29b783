use books::books::{Author, Book, BookRow, Price, Publisher, AddBookPlan, StoreRequest};
use books::db;
use books::models::AddBookModel;
use rusqlite::Connection;

fn init(conn: &Connection) {
    for sql in [
        db::CREATE_PUBLISHERS,
        db::CREATE_AUTHORS,
        db::CREATE_BOOKS,
        db::CREATE_BOOKS_AUTHORS,
    ] {
        conn.execute(sql, []).unwrap();
    }
}

fn save_publisher(conn: &Connection, publisher: &Publisher) -> u32 {
    conn.execute(db::INSERT_PUBLISHER, [&publisher.name]).unwrap();
    conn.query_row(db::SELECT_PUBLISHER_ID, [&publisher.name], |row| row.get(0))
        .unwrap()
}

fn save_author(conn: &Connection, author: &Author) -> u32 {
    conn.execute(db::INSERT_AUTHOR, [&author.forename, &author.surname])
        .unwrap();
    conn.query_row(
        db::SELECT_AUTHOR_ID,
        [&author.forename, &author.surname],
        |row| row.get(0),
    )
    .unwrap()
}

fn save_book(conn: &Connection, book: &Book) -> rusqlite::Result<u32> {
    conn.execute(
        db::INSERT_BOOK,
        (
            book.publisher.id,
            &book.title,
            &book.edition,
            &book.date_published,
            &book.original_date_published,
            book.price.as_ref().map(|p| p.to_text()),
            &book.binding,
            &book.isbn,
            book.pages,
            book.owned,
        ),
    )?;
    let id = conn.last_insert_rowid() as u32;
    for author in book.authors.iter() {
        conn.execute(db::INSERT_BOOK_AUTHOR, (id, author.id))?;
    }
    Ok(id)
}

fn get_book(conn: &Connection, id: u32) -> Book {
    let row = conn
        .query_row(db::SELECT_BOOK, [id], |row| {
            Ok(BookRow {
                id: row.get(0)?,
                title: row.get(1)?,
                edition: row.get(2)?,
                date_published: row.get(3)?,
                original_date_published: row.get(4)?,
                price: row.get(5)?,
                binding: row.get(6)?,
                isbn: row.get(7)?,
                pages: row.get(8)?,
                owned: row.get(9)?,
                publisher_id: row.get(10)?,
                publisher_name: row.get(11)?,
            })
        })
        .unwrap();
    let mut stmt = conn.prepare(db::SELECT_BOOK_AUTHORS).unwrap();
    let authors: Vec<Author> = stmt
        .query_map([id], |row| {
            Ok(Author {
                id: row.get(0)?,
                forename: row.get(1)?,
                surname: row.get(2)?,
            })
        })
        .unwrap()
        .map(|a| a.unwrap())
        .collect();
    Book::from_row(row, authors).unwrap()
}

fn add_book(conn: &Connection, model: AddBookModel) -> rusqlite::Result<Book> {
    let mut plan = AddBookPlan::new(model).unwrap();
    loop {
        let id = match plan.request() {
            StoreRequest::SavePublisher => save_publisher(conn, &plan.book.publisher),
            StoreRequest::SaveAuthor(i) => save_author(conn, &plan.book.authors[i]),
            StoreRequest::SaveBook => save_book(conn, &plan.book)?,
            StoreRequest::Finished => return Ok(plan.into_book()),
        };
        plan.resolve(id);
    }
}

fn table_exists(conn: &Connection, name: &str) -> bool {
    let mut statement = conn
        .prepare("SELECT name FROM sqlite_master WHERE type='table' AND name=?")
        .unwrap();
    let rows = statement
        .query_map([name], |row| row.get::<_, String>(0))
        .unwrap();
    rows.count() > 0
}

fn store() -> Connection {
    let conn = Connection::open_in_memory().unwrap();
    init(&conn);
    conn
}

fn reeve_model() -> AddBookModel {
    AddBookModel {
        authors: "Reeve, Simon".to_string(),
        publisher: "Carlton Publishing Group".to_string(),
        title: "The New Jackals: Osama Bin Laden and the Future of Terrorism".to_string(),
        edition: "2nd".to_string(),
        date_published: "2001".to_string(),
        original_date_published: Some("1999".to_string()),
        price: Some(Price::parse("20").unwrap()),
        binding: "Paperback".to_string(),
        isbn: "9780233050485".to_string(),
        pages: 352,
        owned: true,
    }
}

#[test]
fn init_db_should_create_the_publishers_table() {
    assert!(table_exists(&store(), "publishers"));
}

#[test]
fn init_db_should_create_the_authors_table() {
    assert!(table_exists(&store(), "authors"));
}

#[test]
fn init_db_should_create_the_books_table() {
    assert!(table_exists(&store(), "books"));
}

#[test]
fn init_db_should_create_the_books_authors_table() {
    assert!(table_exists(&store(), "books_authors"));
}

#[test]
fn schema_creation_is_idempotent() {
    let conn = store();
    init(&conn);
    assert!(table_exists(&conn, "books"));
}

#[test]
fn add_book_should_save_book_authors_and_publisher() {
    let conn = store();
    let book = add_book(&conn, reeve_model()).unwrap();

    assert!(book.publisher.id != 0);
    assert!(book.authors[0].id != 0);
    assert!(book.id != 0);

    let book = get_book(&conn, book.id);
    assert_eq!(
        book.title,
        "The New Jackals: Osama Bin Laden and the Future of Terrorism"
    );
    assert_eq!(book.publisher.name, "Carlton Publishing Group");
    assert_eq!(book.authors[0].surname, "Reeve");
    assert_eq!(book.authors[0].forename, "Simon");
    assert_eq!(book.edition, "2nd");
    assert_eq!(book.date_published, "2001");
    assert_eq!(book.original_date_published, Some("1999".to_string()));
    assert_eq!(book.price, Some(Price::parse("20").unwrap()));
    assert_eq!(book.binding, "Paperback");
    assert_eq!(book.isbn, "9780233050485");
    assert_eq!(book.pages, 352);
    assert!(book.owned);
}

#[test]
fn add_book_should_save_book_with_multiple_authors() {
    let conn = store();
    let model = AddBookModel {
        authors: "Dwyer, Jim; Murphy, Deidre; Tyre, Peg; Kocieniewski, David".to_string(),
        publisher: "Crown".to_string(),
        title: "Two Seconds Under the World:Terror Comes to America-The Conspiracy Behind the World Trade Center Bombing".to_string(),
        edition: "1st".to_string(),
        date_published: "1997".to_string(),
        original_date_published: None,
        price: Some(Price::parse("20").unwrap()),
        binding: "Hardcover".to_string(),
        isbn: "9780517597675".to_string(),
        pages: 322,
        owned: true,
    };
    let book = add_book(&conn, model).unwrap();

    assert!(book.publisher.id != 0);
    assert!(book.authors.iter().all(|a| a.id != 0));
    assert!(book.id != 0);

    let book = get_book(&conn, book.id);
    assert_eq!(
        book.title,
        "Two Seconds Under the World:Terror Comes to America-The Conspiracy Behind the World Trade Center Bombing"
    );
    assert_eq!(book.publisher.name, "Crown");
    assert_eq!(book.authors[0].surname, "Dwyer");
    assert_eq!(book.authors[0].forename, "Jim");
    assert_eq!(book.authors[1].surname, "Murphy");
    assert_eq!(book.authors[1].forename, "Deidre");
    assert_eq!(book.authors[2].surname, "Tyre");
    assert_eq!(book.authors[2].forename, "Peg");
    assert_eq!(book.authors[3].surname, "Kocieniewski");
    assert_eq!(book.authors[3].forename, "David");
    assert_eq!(book.edition, "1st");
    assert_eq!(book.date_published, "1997");
    assert_eq!(book.original_date_published, None);
    assert_eq!(book.price, Some(Price::parse("20").unwrap()));
    assert_eq!(book.binding, "Hardcover");
    assert_eq!(book.isbn, "9780517597675");
    assert_eq!(book.pages, 322);
    assert!(book.owned);
}

#[test]
fn upserts_are_idempotent() {
    let conn = store();
    let publisher = Publisher { id: 0, name: "Crown".to_string() };
    let author = Author { id: 0, forename: "Jim".to_string(), surname: "Dwyer".to_string() };
    let publisher_first = save_publisher(&conn, &publisher);
    let publisher_again = save_publisher(&conn, &publisher);
    let author_first = save_author(&conn, &author);
    let author_again = save_author(&conn, &author);
    assert_eq!(publisher_first, publisher_again);
    assert_eq!(author_first, author_again);
    let count = |table: &str| -> u32 {
        conn.query_row(&format!("SELECT COUNT(*) FROM {table}"), [], |row| row.get(0))
            .unwrap()
    };
    assert_eq!(count("publishers"), 1);
    assert_eq!(count("authors"), 1);
}

#[test]
fn books_by_the_same_author_share_the_author_row() {
    let conn = store();
    let first = add_book(&conn, reeve_model()).unwrap();
    let mut model = reeve_model();
    model.edition = "3rd".to_string();
    let second = add_book(&conn, model).unwrap();
    assert_ne!(first.id, second.id);
    assert_eq!(first.authors[0].id, second.authors[0].id);
    assert_eq!(first.publisher.id, second.publisher.id);
}

#[test]
fn saving_the_same_title_and_edition_twice_fails() {
    let conn = store();
    let first = add_book(&conn, reeve_model()).unwrap();
    let mut again = reeve_model();
    again.pages = 1;
    let err = add_book(&conn, again).unwrap_err();
    match err {
        rusqlite::Error::SqliteFailure(e, _) => {
            assert_eq!(e.code, rusqlite::ErrorCode::ConstraintViolation)
        }
        other => panic!("unexpected {:?}", other),
    }
    let stored = get_book(&conn, first.id);
    assert_eq!(stored.pages, 352);
    assert_eq!(stored.edition, "2nd");
}

#[test]
fn a_fractional_price_is_stored_as_a_number_and_read_back() {
    let conn = store();
    let mut model = reeve_model();
    model.price = Some(Price::parse("19.99").unwrap());
    let book = add_book(&conn, model).unwrap();
    let kind: String = conn
        .query_row("SELECT typeof(price) FROM books WHERE id = ?1", [book.id], |row| row.get(0))
        .unwrap();
    assert_eq!(kind, "real");
    assert_eq!(get_book(&conn, book.id).price, Some(Price::parse("19.99").unwrap()));
}

#[test]
fn the_plan_resolves_publisher_then_authors_then_book() {
    let mut model = reeve_model();
    model.authors = "A, a; B, b".to_string();
    let mut plan = AddBookPlan::new(model).unwrap();
    let mut seen = Vec::new();
    let mut id = 10;
    loop {
        let r = plan.request();
        if r == StoreRequest::Finished {
            break;
        }
        seen.push(r);
        plan.resolve(id);
        id += 1;
    }
    assert_eq!(
        seen,
        vec![
            StoreRequest::SavePublisher,
            StoreRequest::SaveAuthor(0),
            StoreRequest::SaveAuthor(1),
            StoreRequest::SaveBook,
        ]
    );
    let book = plan.into_book();
    assert_eq!(book.publisher.id, 10);
    assert_eq!(book.authors[0].id, 11);
    assert_eq!(book.authors[1].id, 12);
    assert_eq!(book.id, 13);
}
