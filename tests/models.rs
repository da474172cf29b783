use books::books::Price;
use books::error::{Error, FieldError};
use books::isbn_db::IsbnDbBook;
use books::models::AddBookModel;

fn reeve_record() -> IsbnDbBook {
    IsbnDbBook {
        publisher: "Carlton Publishing Group".to_string(),
        authors: vec!["Reeve, Simon".to_string()],
        language: "en".to_string(),
        image_url: "https://images.isbndb.com/covers/04/85/9780233050485.jpg".to_string(),
        title_long: "The New Jackals: Osama Bin Laden and the Future of Terrorism".to_string(),
        edition: "2nd".to_string(),
        dimensions: "Height: 7.71652 Inches.to_string(), Length: 5.07873 Inches, Weight: 0.661386786 Pounds, Width: 0.7874 Inches".to_string(),
        pages: 352,
        date_published: "2001".to_string(),
        title: "The New Jackals".to_string(),
        isbn13: "9780233050485".to_string(),
        msrp: "17.75".to_string(),
        binding: "Paperback".to_string(),
        isbn: "0233050485".to_string(),
        isbn10: "0233050485".to_string(),
        subjects: None,
        synopsis: None,
    }
}

fn reeve_model() -> AddBookModel {
    AddBookModel {
        authors: "Reeve, Simon".to_string(),
        publisher: "Carlton Publishing Group".to_string(),
        title: "The New Jackals: Osama Bin Laden and the Future of Terrorism".to_string(),
        edition: "2nd".to_string(),
        date_published: "2001".to_string(),
        original_date_published: Some("1999".to_string()),
        price: Some(Price::parse("20").unwrap()),
        binding: "Paperback".to_string(),
        isbn: "9780233050485".to_string(),
        pages: 352,
        owned: true,
    }
}

const EDITED: &str = "Author(s): Reeve, Simon\n\
     Publisher: Carlton Publishing Group\n\
     Title: The New Jackals: Osama Bin Laden and the Future of Terrorism\n\
     Edition: 2nd\n\
     Date Published: 2001\n\
     Original Date Published: 1999\n\
     Price: 20.0\n\
     Binding: Paperback\n\
     ISBN: 9780233050485\n\
     Pages: 352\n\
     Owned: true";

fn parse_error(text: &str) -> FieldError {
    match text.parse::<AddBookModel>() {
        Err(Error::ParseError(e)) => e,
        other => panic!("expected a parse error, got {:?}", other),
    }
}

#[test]
fn from_should_convert_the_isbn_record_to_an_add_book_model() {
    let model = AddBookModel::from(reeve_record());
    assert_eq!(model.publisher, "Carlton Publishing Group");
    assert_eq!(model.edition, "2nd");
    assert_eq!(model.pages, 352);
    assert_eq!(model.date_published, "2001");
    assert_eq!(model.original_date_published, None);
    assert_eq!(model.price, None);
    assert_eq!(
        model.title,
        "The New Jackals: Osama Bin Laden and the Future of Terrorism"
    );
    assert_eq!(model.isbn, "9780233050485");
    assert_eq!(model.binding, "Paperback");
    assert_eq!(model.authors, "Reeve, Simon");
    assert!(model.owned);
}

#[test]
fn from_should_convert_the_isbn_record_with_multiple_authors_to_an_add_book_model() {
    let isbn_book = IsbnDbBook {
        publisher: "Crown".to_string(),
        authors: vec![
            "Dwyer, Jim".to_string(),
            "Murphy, Deidre".to_string(),
            "Tyre, Peg".to_string(),
            "Kocieniewski, David".to_string(),
        ],
        language: "en".to_string(),
        image_url: "https://images.isbndb.com/covers/76/75/9780517597675.jpg".to_string(),
        title_long: "Two Seconds Under the World:Terror Comes to America-The Conspiracy Behind the World Trade Center Bombing".to_string(),
        edition: "1st".to_string(),
        dimensions: "Height: 9.5 Inches, Length: 6.25 Inches, Weight: 1.4 Pounds, Width: 1 Inches".to_string(),
        pages: 322,
        date_published: "1997".to_string(),
        title: "Two Seconds Under the World:Terror Comes to America-The Conspiracy Behind the World Trade Center Bombing".to_string(),
        isbn13: "9780517597675".to_string(),
        msrp: "24".to_string(),
        binding: "Hardcover".to_string(),
        isbn: "0517597675".to_string(),
        isbn10: "0517597675".to_string(),
        subjects: Some(vec![
            "World Trade Center Bombing, New York, N.Y., 1993".to_string(),
            "Terrorism".to_string(),
            "Terrorism--New York (State)--New York".to_string(),
            "HV6432 .T88 1994".to_string(),
            "364.1/09747/1".to_string(),
        ]),
        synopsis: Some("Text And Accompanying Photographs Present The Story Of The Bombing Of The World Trade Center By Islamic Fundamentalist Terrorists. Jim Dwyer ... [et Al.]. Includes Bibliographical References And Index.".to_string()),
    };

    let model = AddBookModel::from(isbn_book);
    assert_eq!(model.publisher, "Crown");
    assert_eq!(model.edition, "1st");
    assert_eq!(model.pages, 322);
    assert_eq!(model.date_published, "1997");
    assert_eq!(model.price, None);
    assert_eq!(
        model.title,
        "Two Seconds Under the World:Terror Comes to America-The Conspiracy Behind the World Trade Center Bombing"
    );
    assert_eq!(model.isbn, "9780517597675");
    assert_eq!(model.binding, "Hardcover");
    assert_eq!(
        model.authors,
        "Dwyer, Jim; Murphy, Deidre; Tyre, Peg; Kocieniewski, David"
    );
    assert!(model.owned);
    assert_eq!(model.original_date_published, Some("1997".to_string()));
}

#[test]
fn first_edition_inherits_the_publication_date_and_others_do_not() {
    let mut record = reeve_record();
    record.edition = "1st".to_string();
    record.date_published = "1997".to_string();
    assert_eq!(
        AddBookModel::from(record).original_date_published,
        Some("1997".to_string())
    );
    let mut record = reeve_record();
    record.edition = "2nd".to_string();
    record.date_published = "1997".to_string();
    assert_eq!(AddBookModel::from(record).original_date_published, None);
}

#[test]
fn to_editor_should_represent_model_as_an_editable_string() {
    let model = reeve_model();
    let edit = model.to_editor();
    let newline = model.newline();
    let expected = format!(
        "Author(s): Reeve, Simon{nl}\
        Publisher: Carlton Publishing Group{nl}\
        Title: The New Jackals: Osama Bin Laden and the Future of Terrorism{nl}\
        Edition: 2nd{nl}\
        Date Published: 2001{nl}\
        Original Date Published: 1999{nl}\
        Price: 20{nl}\
        Binding: Paperback{nl}\
        ISBN: 9780233050485{nl}\
        Pages: 352{nl}\
        Owned: true",
        nl = newline
    );
    assert_eq!(edit, expected);
}

#[test]
fn to_editor_with_writes_unset_fields_as_empty_values() {
    let mut model = reeve_model();
    model.original_date_published = None;
    model.price = None;
    model.owned = false;
    let text = model.to_editor_with("\r\n");
    assert!(text.contains("\r\nOriginal Date Published: \r\nPrice: \r\n"));
    assert!(text.ends_with("\r\nOwned: false"));
    assert_eq!(text.split("\r\n").count(), 11);
}

#[test]
fn parse_should_convert_an_edited_book_string_to_an_add_book_model() {
    let model: AddBookModel = EDITED.parse().unwrap();

    assert_eq!(model.authors, "Reeve, Simon");
    assert_eq!(model.publisher, "Carlton Publishing Group");
    assert_eq!(
        model.title,
        "The New Jackals: Osama Bin Laden and the Future of Terrorism"
    );
    assert_eq!(model.edition, "2nd");
    assert_eq!(model.date_published, "2001");
    assert_eq!(model.original_date_published, Some("1999".to_string()));
    assert_eq!(model.price, Some(Price::parse("20").unwrap()));
    assert_eq!(model.binding, "Paperback");
    assert_eq!(model.isbn, "9780233050485");
    assert_eq!(model.pages, 352);
    assert!(model.owned);
}

#[test]
fn parse_should_convert_an_edited_book_string_with_optional_fields_missing_to_an_add_book_model() {
    let edited = "Author(s): Reeve, Simon\n\
     Publisher: Carlton Publishing Group\n\
     Title: The New Jackals: Osama Bin Laden and the Future of Terrorism\n\
     Edition: 2nd\n\
     Date Published: 2001\n\
     Binding: Paperback\n\
     ISBN: 9780233050485\n\
     Pages: 352\n\
     Owned: true";

    let model: AddBookModel = edited.parse().unwrap();

    assert_eq!(model.authors, "Reeve, Simon");
    assert_eq!(model.publisher, "Carlton Publishing Group");
    assert_eq!(
        model.title,
        "The New Jackals: Osama Bin Laden and the Future of Terrorism"
    );
    assert_eq!(model.edition, "2nd");
    assert_eq!(model.date_published, "2001");
    assert_eq!(model.original_date_published, None);
    assert_eq!(model.price, None);
    assert_eq!(model.binding, "Paperback");
    assert_eq!(model.isbn, "9780233050485");
    assert_eq!(model.pages, 352);
    assert!(model.owned);
}

#[test]
fn parse_should_convert_an_edited_book_string_with_optional_fields_not_populated_to_an_add_book_model() {
    let edited = "Author(s): Reeve, Simon\n\
     Publisher: Carlton Publishing Group\n\
     Title: The New Jackals: Osama Bin Laden and the Future of Terrorism\n\
     Edition: 2nd\n\
     Date Published: 2001\n\
     Original Date Published:\n\
     Price: \n\
     Binding: Paperback\n\
     ISBN: 9780233050485\n\
     Pages: 352\n\
     Owned: true";

    let model: AddBookModel = edited.parse().unwrap();

    assert_eq!(model.authors, "Reeve, Simon");
    assert_eq!(model.publisher, "Carlton Publishing Group");
    assert_eq!(
        model.title,
        "The New Jackals: Osama Bin Laden and the Future of Terrorism"
    );
    assert_eq!(model.edition, "2nd");
    assert_eq!(model.date_published, "2001");
    assert_eq!(model.original_date_published, None);
    assert_eq!(model.price, None);
    assert_eq!(model.binding, "Paperback");
    assert_eq!(model.isbn, "9780233050485");
    assert_eq!(model.pages, 352);
    assert!(model.owned);
}

#[test]
fn parse_without_isbn_names_isbn_as_missing() {
    let edited = EDITED.replace("ISBN: 9780233050485\n", "");
    match parse_error(&edited) {
        FieldError::Missing(f) => assert_eq!(f, "isbn"),
        other => panic!("unexpected {:?}", other),
    }
}

#[test]
fn parse_with_an_empty_price_gives_no_price() {
    let edited = EDITED.replace("Price: 20.0", "Price:");
    let model: AddBookModel = edited.parse().unwrap();
    assert_eq!(model.price, None);
}

#[test]
fn parse_with_a_price_that_is_not_a_number_names_price() {
    let edited = EDITED.replace("Price: 20.0", "Price: notanumber");
    match parse_error(&edited) {
        FieldError::Invalid(f) => assert_eq!(f, "price"),
        other => panic!("unexpected {:?}", other),
    }
}

#[test]
fn parse_reads_any_decimal_price_text() {
    let model: AddBookModel = EDITED.replace("Price: 20.0", "Price: 0.125").parse().unwrap();
    assert_eq!(model.price.unwrap().to_text(), "0.125");
    let model: AddBookModel = EDITED.replace("Price: 20.0", "Price: 1e2").parse().unwrap();
    assert_eq!(model.price.unwrap().to_text(), "100");
}

#[test]
fn parse_names_bad_pages_and_owned() {
    match parse_error(&EDITED.replace("Pages: 352", "Pages: many")) {
        FieldError::Invalid(f) => assert_eq!(f, "pages"),
        other => panic!("unexpected {:?}", other),
    }
    match parse_error(&EDITED.replace("Pages: 352", "Pages: 4294967296")) {
        FieldError::Invalid(f) => assert_eq!(f, "pages"),
        other => panic!("unexpected {:?}", other),
    }
    match parse_error(&EDITED.replace("Owned: true", "Owned: yes")) {
        FieldError::Invalid(f) => assert_eq!(f, "owned"),
        other => panic!("unexpected {:?}", other),
    }
}

#[test]
fn parse_rejects_an_unknown_label() {
    match parse_error(&EDITED.replace("Binding:", "Bindng:")) {
        FieldError::UnknownKey(k) => assert_eq!(k, "Bindng"),
        other => panic!("unexpected {:?}", other),
    }
}

#[test]
fn parse_reports_the_first_missing_field_in_model_order() {
    let edited = EDITED.replace("Author(s): Reeve, Simon\n", "").replace("Owned: true", "");
    match parse_error(&edited.trim_end().to_string()) {
        FieldError::Missing(f) => assert_eq!(f, "authors"),
        other => panic!("unexpected {:?}", other),
    }
}

#[test]
fn parse_accepts_crlf_and_any_order() {
    let lines: Vec<&str> = EDITED.lines().rev().collect();
    let edited = lines.join("\r\n") + "\r\n";
    let model: AddBookModel = edited.parse().unwrap();
    assert_eq!(model.isbn, "9780233050485");
    assert_eq!(model.pages, 352);
    assert_eq!(model.price, Some(Price::parse("20").unwrap()));
    assert_eq!(
        model.title,
        "The New Jackals: Osama Bin Laden and the Future of Terrorism"
    );
}

#[test]
fn parse_keeps_the_last_value_of_a_repeated_label() {
    let edited = format!("{}\nEdition: 3rd", EDITED);
    let model: AddBookModel = edited.parse().unwrap();
    assert_eq!(model.edition, "3rd");
}

#[test]
fn an_adapted_record_survives_render_and_parse() {
    let mut record = reeve_record();
    record.edition = "1st".to_string();
    let model = AddBookModel::from(record);
    for nl in ["\n", "\r\n"] {
        let back: AddBookModel = model.to_editor_with(nl).parse().unwrap();
        assert_eq!(back.authors, model.authors);
        assert_eq!(back.publisher, model.publisher);
        assert_eq!(back.title, model.title);
        assert_eq!(back.edition, model.edition);
        assert_eq!(back.date_published, model.date_published);
        assert_eq!(back.original_date_published, model.original_date_published);
        assert_eq!(back.price, model.price);
        assert_eq!(back.binding, model.binding);
        assert_eq!(back.isbn, model.isbn);
        assert_eq!(back.pages, model.pages);
        assert_eq!(back.owned, model.owned);
    }
}
