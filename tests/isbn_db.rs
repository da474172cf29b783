use books::error::{Error, FetchFailure, FieldError};
use books::isbn_db::{IsbnDbBook, IsbnDbRepository, RecordFields};

const REEVE_BODY: &str = r#"{"book": {
    "publisher": "Carlton Publishing Group",
    "language": "en",
    "image": "https://images.isbndb.com/covers/04/85/9780233050485.jpg",
    "title_long": "The New Jackals: Osama Bin Laden and the Future of Terrorism",
    "edition": "2nd",
    "dimensions": "Height: 7.71652 Inches, Length: 5.07873 Inches, Weight: 0.661386786 Pounds, Width: 0.7874 Inches",
    "pages": 352,
    "date_published": "2001",
    "authors": ["Reeve, Simon"],
    "title": "The New Jackals: Osama Bin Laden and the Future of Terrorism",
    "isbn13": "9780233050485",
    "msrp": 17.75,
    "binding": "Paperback",
    "isbn": "0233050485",
    "isbn10": "0233050485"
}}"#;

const DWYER_BODY: &str = r#"{"book": {
    "publisher": "Crown",
    "language": "en",
    "image": "https://images.isbndb.com/covers/76/75/9780517597675.jpg",
    "title_long": "Two Seconds Under the World:Terror Comes to America-The Conspiracy Behind the World Trade Center Bombing",
    "edition": "1st",
    "dimensions": "Height: 9.5 Inches, Length: 6.25 Inches, Weight: 1.4 Pounds, Width: 1 Inches",
    "pages": 322,
    "date_published": "1997",
    "authors": ["Dwyer, Jim", "Murphy, Deidre", "Tyre, Peg", "Kocieniewski, David"],
    "title": "Two Seconds Under the World:Terror Comes to America-The Conspiracy Behind the World Trade Center Bombing",
    "isbn13": "9780517597675",
    "msrp": 24,
    "binding": "Hardcover",
    "isbn": "0517597675",
    "isbn10": "0517597675",
    "subjects": ["World Trade Center Bombing, New York, N.Y., 1993", "Terrorism", "Terrorism--New York (State)--New York", "HV6432 .T88 1994", "364.1/09747/1"],
    "synopsis": "Text And Accompanying Photographs Present The Story Of The Bombing Of The World Trade Center By Islamic Fundamentalist Terrorists. Jim Dwyer ... [et Al.]. Includes Bibliographical References And Index."
}}"#;

#[test]
fn get_book_by_isbn_should_return_book_record() {
    let isbn = "9780233050485";
    let book = IsbnDbBook::from_json(REEVE_BODY).unwrap();
    assert_eq!(book.publisher, "Carlton Publishing Group");
    assert_eq!(book.language, "en");
    assert_eq!(
        book.image_url,
        "https://images.isbndb.com/covers/04/85/9780233050485.jpg"
    );
    assert_eq!(
        book.title_long,
        "The New Jackals: Osama Bin Laden and the Future of Terrorism"
    );
    assert_eq!(book.edition, "2nd");
    assert_eq!(
        book.dimensions,
        "Height: 7.71652 Inches, Length: 5.07873 Inches, Weight: 0.661386786 Pounds, Width: 0.7874 Inches"
    );
    assert_eq!(book.pages, 352);
    assert_eq!(book.date_published, "2001");
    assert_eq!(
        book.title,
        "The New Jackals: Osama Bin Laden and the Future of Terrorism"
    );
    assert_eq!(book.isbn13, isbn);
    assert_eq!(book.msrp, "17.75");
    assert_eq!(book.binding, "Paperback");
    assert_eq!(book.isbn, "0233050485");
    assert_eq!(book.isbn10, "0233050485");
    assert_eq!(book.authors.len(), 1);
    assert_eq!(book.authors[0], "Reeve, Simon");
    assert_eq!(book.synopsis, None);
    assert_eq!(book.subjects, None);
}

#[test]
fn get_book_by_isbn_when_book_has_multiple_authors_and_optional_fields_should_return_book_record() {
    let isbn = "9780517597675";
    let book = IsbnDbBook::from_json(DWYER_BODY).unwrap();
    assert_eq!(book.publisher, "Crown");
    assert_eq!(book.language, "en");
    assert_eq!(
        book.image_url,
        "https://images.isbndb.com/covers/76/75/9780517597675.jpg"
    );
    assert_eq!(
        book.title_long,
        "Two Seconds Under the World:Terror Comes to America-The Conspiracy Behind the World Trade Center Bombing"
    );
    assert_eq!(book.edition, "1st");
    assert_eq!(
        book.dimensions,
        "Height: 9.5 Inches, Length: 6.25 Inches, Weight: 1.4 Pounds, Width: 1 Inches"
    );
    assert_eq!(book.pages, 322);
    assert_eq!(book.date_published, "1997");
    assert_eq!(
        book.title,
        "Two Seconds Under the World:Terror Comes to America-The Conspiracy Behind the World Trade Center Bombing"
    );
    assert_eq!(book.isbn13, isbn);
    assert_eq!(book.msrp, "24");
    assert_eq!(book.binding, "Hardcover");
    assert_eq!(book.isbn, "0517597675");
    assert_eq!(book.isbn10, "0517597675");
    assert_eq!(book.authors.len(), 4);
    assert_eq!(book.authors[0], "Dwyer, Jim");
    assert_eq!(book.authors[1], "Murphy, Deidre");
    assert_eq!(book.authors[2], "Tyre, Peg");
    assert_eq!(book.authors[3], "Kocieniewski, David");
    assert_eq!(book.synopsis, Some("Text And Accompanying Photographs Present The Story Of The Bombing Of The World Trade Center By Islamic Fundamentalist Terrorists. Jim Dwyer ... [et Al.]. Includes Bibliographical References And Index.".to_string()));
    assert_eq!(
        book.subjects,
        Some(vec![
            "World Trade Center Bombing, New York, N.Y., 1993".to_string(),
            "Terrorism".to_string(),
            "Terrorism--New York (State)--New York".to_string(),
            "HV6432 .T88 1994".to_string(),
            "364.1/09747/1".to_string(),
        ])
    );
}

fn short_title_body() -> String {
    REEVE_BODY.replace(
        "\"title\": \"The New Jackals: Osama Bin Laden and the Future of Terrorism\"",
        "\"title\": \"The New Jackals\"",
    )
}

fn fetch_field_error(r: Result<IsbnDbBook, Error>) -> FieldError {
    match r {
        Err(Error::FetchError(FetchFailure::Field(e))) => e,
        other => panic!("expected a field error, got {:?}", other),
    }
}

#[test]
fn a_body_that_is_not_json_is_malformed() {
    assert!(matches!(
        IsbnDbBook::from_json("<html>"),
        Err(Error::FetchError(FetchFailure::Malformed))
    ));
}

#[test]
fn a_record_without_a_long_title_is_a_fetch_error() {
    let body = REEVE_BODY.replace("\"title_long\"", "\"subtitle\"");
    match fetch_field_error(IsbnDbBook::from_json(&body)) {
        FieldError::Missing(f) => assert_eq!(f, "title_long"),
        other => panic!("unexpected {:?}", other),
    }
}

#[test]
fn a_response_without_a_book_names_the_first_field() {
    match fetch_field_error(IsbnDbBook::from_json(r#"{"errorMessage": "Not Found"}"#)) {
        FieldError::Missing(f) => assert_eq!(f, "publisher"),
        other => panic!("unexpected {:?}", other),
    }
}

#[test]
fn pages_out_of_range_and_non_string_authors_are_invalid() {
    let body = REEVE_BODY.replace("\"pages\": 352", "\"pages\": -1");
    match fetch_field_error(IsbnDbBook::from_json(&body)) {
        FieldError::Invalid(f) => assert_eq!(f, "pages"),
        other => panic!("unexpected {:?}", other),
    }
    let body = REEVE_BODY.replace("[\"Reeve, Simon\"]", "[\"Reeve, Simon\", 7]");
    match fetch_field_error(IsbnDbBook::from_json(&body)) {
        FieldError::Invalid(f) => assert_eq!(f, "authors"),
        other => panic!("unexpected {:?}", other),
    }
}

#[test]
fn subjects_keep_only_their_strings() {
    let body = DWYER_BODY.replace("\"Terrorism\",", "12, \"Terrorism\", null,");
    let book = IsbnDbBook::from_json(&body).unwrap();
    assert_eq!(book.subjects.unwrap().len(), 5);
}

#[test]
fn from_fields_reports_the_first_absent_member() {
    let fields = RecordFields {
        publisher: Some("Crown".to_string()),
        language: Some("en".to_string()),
        image_url: None,
        title_long: None,
        edition: Some("1st".to_string()),
        dimensions: Some("".to_string()),
        pages: Some(10),
        date_published: Some("1997".to_string()),
        authors: Some(vec![Some("Dwyer, Jim".to_string())]),
        title: Some("T".to_string()),
        isbn13: Some("9780517597675".to_string()),
        msrp: Some("24".to_string()),
        binding: Some("Hardcover".to_string()),
        isbn: Some("0517597675".to_string()),
        isbn10: Some("0517597675".to_string()),
        subjects: None,
        synopsis: None,
    };
    match fetch_field_error(IsbnDbBook::from_fields(fields)) {
        FieldError::Missing(f) => assert_eq!(f, "image"),
        other => panic!("unexpected {:?}", other),
    }
}

#[test]
fn book_url_appends_the_isbn() {
    let repo = IsbnDbRepository::new("https://api2.isbndb.com", "SECRET-REDACTED");
    assert_eq!(repo.base_url, "https://api2.isbndb.com");
    assert_eq!(repo.rest_key, "SECRET-REDACTED");
    assert_eq!(
        repo.book_url("9780233050485"),
        "https://api2.isbndb.com/book/9780233050485"
    );
}

#[test]
fn display_rows_wrap_long_texts_and_show_the_long_title_when_it_differs() {
    let book = IsbnDbBook::from_json(&short_title_body()).unwrap();
    assert_eq!(book.title, "The New Jackals");
    let rows = book.display_rows();
    let labels: Vec<&str> = rows.iter().map(|r| r.0.as_str()).collect();
    assert_eq!(
        labels,
        vec![
            "Title", "Title (Long)", "Author(s)", "Date Published", "Binding", "Edition",
            "Pages", "Publisher", "Language", "Subjects", "Synopsis", "MSRP", "ISBN13", "ISBN",
            "ISBN10", "Dimensions",
        ]
    );
    assert_eq!(
        rows[1].1,
        "The New Jackals: Osama Bin Laden and the Future of Terrorism"
    );
    assert_eq!(rows[6].1, "352");
    assert_eq!(rows[9].1, "N/A");

    let dwyer = IsbnDbBook::from_json(DWYER_BODY).unwrap();
    let rows = dwyer.display_rows();
    assert_eq!(rows.len(), 15);
    assert_eq!(rows[0].0, "Title");
    let wrapped = &rows[0].1;
    assert!(wrapped.contains('\n'));
    assert!(wrapped.lines().all(|l| l.chars().count() <= 80));
    assert_eq!(wrapped.replace('\n', " "), dwyer.title);
    assert_eq!(rows[1].1, "Dwyer, Jim; Murphy, Deidre; Tyre, Peg; Kocieniewski, David");
}

#[test]
fn rows_with_places_the_given_texts() {
    let book = IsbnDbBook::from_json(&short_title_body()).unwrap();
    let rows = book.rows_with(
        "T".to_string(),
        "L".to_string(),
        "S".to_string(),
        "Y".to_string(),
    );
    assert_eq!(rows.len(), 16);
    assert_eq!(rows[0], ("Title".to_string(), "T".to_string()));
    assert_eq!(rows[1], ("Title (Long)".to_string(), "L".to_string()));
    assert_eq!(rows[2], ("Author(s)".to_string(), "Reeve, Simon".to_string()));
    assert_eq!(rows[9], ("Subjects".to_string(), "S".to_string()));
    assert_eq!(rows[10], ("Synopsis".to_string(), "Y".to_string()));
    assert_eq!(rows[11], ("MSRP".to_string(), "17.75".to_string()));
    assert_eq!(rows[15].0, "Dimensions");
}
