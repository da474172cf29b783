//! Records of the bibliographic lookup service, and their adaptation into
//! the editable model.
use vstd::prelude::*;
use crate::error::{Error, FetchFailure, FieldError};
use crate::models::{opt_view, AddBookModel, ModelView};
use crate::number::{decimal, push_decimal};
use crate::text::{char_vec, join, join_with, same_text, string_of, texts_of};

verus! {

/// A book record as the lookup service returns it. `msrp` is the list price
/// as the service wrote the number.
#[derive(Debug)]
pub struct IsbnDbBook {
    pub publisher: String,
    pub language: String,
    pub image_url: String,
    pub title_long: String,
    pub edition: String,
    pub dimensions: String,
    pub pages: u32,
    pub date_published: String,
    pub authors: Vec<String>,
    pub title: String,
    pub isbn13: String,
    pub msrp: String,
    pub binding: String,
    pub isbn: String,
    pub isbn10: String,
    pub subjects: Option<Vec<String>>,
    pub synopsis: Option<String>,
}

/// The model that `AddBookModel::from` makes of a record, as values.
pub open spec fn adapted(item: IsbnDbBook) -> ModelView {
    ModelView {
        authors: join_with(texts_of(item.authors@), "; "@),
        publisher: item.publisher@,
        title: item.title_long@,
        edition: item.edition@,
        date_published: item.date_published@,
        original_date_published: if item.edition@ == "1st"@ {
            Some(item.date_published@)
        } else {
            None
        },
        price: None,
        binding: item.binding@,
        isbn: item.isbn13@,
        pages: item.pages,
        owned: true,
    }
}

impl AddBookModel {
    /// Adapts a fetched record: the authors are joined with `"; "`, the title
    /// is the long title, a first edition's publication date is taken as the
    /// original one, the price is left for the user, and the book is owned.
    pub fn from(item: IsbnDbBook) -> (r: AddBookModel)
        ensures
            r.authors@ == join_with(texts_of(item.authors@), "; "@),
            r.publisher == item.publisher,
            r.title == item.title_long,
            r.edition == item.edition,
            r.date_published == item.date_published,
            r.original_date_published == (if item.edition@ == "1st"@ {
                Some(item.date_published)
            } else {
                None
            }),
            r.price is None,
            r.binding == item.binding,
            r.isbn == item.isbn13,
            r.pages == item.pages,
            r.owned,
            r@ == adapted(item),
    {
        let authors = join(&item.authors, "; ");
        let ed = char_vec(item.edition.as_str());
        let original_date_published = if same_text(&ed, 0, ed.len(), "1st") {
            Some(item.date_published.clone())
        } else {
            None
        };
        proof {
            assert(ed@.subrange(0, ed@.len() as int) =~= ed@);
        }
        AddBookModel {
            authors,
            publisher: item.publisher,
            title: item.title_long,
            edition: item.edition,
            date_published: item.date_published,
            original_date_published,
            price: None,
            binding: item.binding,
            isbn: item.isbn13,
            pages: item.pages,
            owned: true,
        }
    }
}

/// Whether `serde_json` reads a text as a JSON document.
pub uninterp spec fn json_parses(body: Seq<char>) -> bool;

/// The string that `serde_json` finds at `object.key` of a document.
pub uninterp spec fn json_text(body: Seq<char>, object: Seq<char>, key: Seq<char>) -> Option<
    Seq<char>,
>;

/// The `i64` that `serde_json` finds at `object.key` of a document.
pub uninterp spec fn json_integer(body: Seq<char>, object: Seq<char>, key: Seq<char>) -> Option<
    i64,
>;

/// The text of the number that `serde_json` finds at `object.key` of a document.
pub uninterp spec fn json_number_text(
    body: Seq<char>,
    object: Seq<char>,
    key: Seq<char>,
) -> Option<Seq<char>>;

/// The items of the array that `serde_json` finds at `object.key` of a
/// document, each item's string, or `None` for an item that is not one.
pub uninterp spec fn json_text_list(
    body: Seq<char>,
    object: Seq<char>,
    key: Seq<char>,
) -> Option<Seq<Option<Seq<char>>>>;

/// The texts of a list of optional strings.
pub open spec fn opt_texts(v: Seq<Option<String>>) -> Seq<Option<Seq<char>>> {
    v.map_values(|o: Option<String>| opt_view(o))
}

/// Relies on `serde_json::from_str`: whether the text is a JSON document.
#[verifier::external_body]
fn document_parses(body: &str) -> (r: bool)
    ensures
        r == json_parses(body@),
{
    serde_json::from_str::<serde_json::Value>(body).is_ok()
}

/// Relies on `serde_json::from_str`, `Value::get` and `Value::as_str`: the
/// string member `key` of the member `object` of the document.
#[verifier::external_body]
fn text_at(body: &str, object: &str, key: &str) -> (r: Option<String>)
    ensures
        opt_view(r) == json_text(body@, object@, key@),
{
    let doc: serde_json::Value = serde_json::from_str(body).ok()?;
    doc.get(object)?.get(key)?.as_str().map(String::from)
}

/// Relies on `serde_json::from_str`, `Value::get` and `Value::as_i64`: the
/// integer member `key` of the member `object` of the document.
#[verifier::external_body]
fn integer_at(body: &str, object: &str, key: &str) -> (r: Option<i64>)
    ensures
        r == json_integer(body@, object@, key@),
{
    let doc: serde_json::Value = serde_json::from_str(body).ok()?;
    doc.get(object)?.get(key)?.as_i64()
}

/// Relies on `serde_json::from_str`, `Value::get`, `Value::as_number` and the
/// number's `Display`: the number member `key` of the member `object`, as
/// written.
#[verifier::external_body]
fn number_text_at(body: &str, object: &str, key: &str) -> (r: Option<String>)
    ensures
        opt_view(r) == json_number_text(body@, object@, key@),
{
    let doc: serde_json::Value = serde_json::from_str(body).ok()?;
    doc.get(object)?.get(key)?.as_number().map(|n| n.to_string())
}

/// Relies on `serde_json::from_str`, `Value::get`, `Value::as_array` and
/// `Value::as_str`: the array member `key` of the member `object`, each item
/// as its string when it is one.
#[verifier::external_body]
fn text_list_at(body: &str, object: &str, key: &str) -> (r: Option<Vec<Option<String>>>)
    ensures
        match r {
            Some(v) => json_text_list(body@, object@, key@) == Some(opt_texts(v@)),
            None => json_text_list(body@, object@, key@) is None,
        },
{
    let doc: serde_json::Value = serde_json::from_str(body).ok()?;
    let items = doc.get(object)?.get(key)?.as_array()?;
    Some(items.iter().map(|x| x.as_str().map(String::from)).collect())
}

/// The members of a record as the lookup service sent them; `None` where a
/// member is absent or of another JSON type. A list holds `None` for an item
/// that is not a string.
pub struct RecordFields {
    pub publisher: Option<String>,
    pub language: Option<String>,
    pub image_url: Option<String>,
    pub title_long: Option<String>,
    pub edition: Option<String>,
    pub dimensions: Option<String>,
    pub pages: Option<i64>,
    pub date_published: Option<String>,
    pub authors: Option<Vec<Option<String>>>,
    pub title: Option<String>,
    pub isbn13: Option<String>,
    pub msrp: Option<String>,
    pub binding: Option<String>,
    pub isbn: Option<String>,
    pub isbn10: Option<String>,
    pub subjects: Option<Vec<Option<String>>>,
    pub synopsis: Option<String>,
}

/// `RecordFields` as values.
pub struct RecordView {
    pub publisher: Option<Seq<char>>,
    pub language: Option<Seq<char>>,
    pub image_url: Option<Seq<char>>,
    pub title_long: Option<Seq<char>>,
    pub edition: Option<Seq<char>>,
    pub dimensions: Option<Seq<char>>,
    pub pages: Option<i64>,
    pub date_published: Option<Seq<char>>,
    pub authors: Option<Seq<Option<Seq<char>>>>,
    pub title: Option<Seq<char>>,
    pub isbn13: Option<Seq<char>>,
    pub msrp: Option<Seq<char>>,
    pub binding: Option<Seq<char>>,
    pub isbn: Option<Seq<char>>,
    pub isbn10: Option<Seq<char>>,
    pub subjects: Option<Seq<Option<Seq<char>>>>,
    pub synopsis: Option<Seq<char>>,
}

pub open spec fn opt_list_view(o: Option<Vec<Option<String>>>) -> Option<Seq<Option<Seq<char>>>> {
    match o {
        Some(v) => Some(opt_texts(v@)),
        None => None,
    }
}

impl View for RecordFields {
    type V = RecordView;

    open spec fn view(&self) -> RecordView {
        RecordView {
            publisher: opt_view(self.publisher),
            language: opt_view(self.language),
            image_url: opt_view(self.image_url),
            title_long: opt_view(self.title_long),
            edition: opt_view(self.edition),
            dimensions: opt_view(self.dimensions),
            pages: self.pages,
            date_published: opt_view(self.date_published),
            authors: opt_list_view(self.authors),
            title: opt_view(self.title),
            isbn13: opt_view(self.isbn13),
            msrp: opt_view(self.msrp),
            binding: opt_view(self.binding),
            isbn: opt_view(self.isbn),
            isbn10: opt_view(self.isbn10),
            subjects: opt_list_view(self.subjects),
            synopsis: opt_view(self.synopsis),
        }
    }
}

/// The members of the `book` object of a response, as `serde_json` reads them.
pub open spec fn fetched(body: Seq<char>) -> RecordView {
    RecordView {
        publisher: json_text(body, "book"@, "publisher"@),
        language: json_text(body, "book"@, "language"@),
        image_url: json_text(body, "book"@, "image"@),
        title_long: json_text(body, "book"@, "title_long"@),
        edition: json_text(body, "book"@, "edition"@),
        dimensions: json_text(body, "book"@, "dimensions"@),
        pages: json_integer(body, "book"@, "pages"@),
        date_published: json_text(body, "book"@, "date_published"@),
        authors: json_text_list(body, "book"@, "authors"@),
        title: json_text(body, "book"@, "title"@),
        isbn13: json_text(body, "book"@, "isbn13"@),
        msrp: json_number_text(body, "book"@, "msrp"@),
        binding: json_text(body, "book"@, "binding"@),
        isbn: json_text(body, "book"@, "isbn"@),
        isbn10: json_text(body, "book"@, "isbn10"@),
        subjects: json_text_list(body, "book"@, "subjects"@),
        synopsis: json_text(body, "book"@, "synopsis"@),
    }
}

/// Whether every item of a list is present.
pub open spec fn all_present(v: Seq<Option<Seq<char>>>) -> bool {
    forall|i: int| 0 <= i < v.len() ==> (#[trigger] v[i]) is Some
}

/// The items of a list that are present, in order.
pub open spec fn present(v: Seq<Option<Seq<char>>>) -> Seq<Seq<char>>
    decreases v.len(),
{
    if v.len() == 0 {
        Seq::empty()
    } else {
        match v.last() {
            Some(s) => present(v.drop_last()).push(s),
            None => present(v.drop_last()),
        }
    }
}

/// `e` is a fetch error that names `field` as absent.
pub open spec fn fetch_missing(e: Error, field: Seq<char>) -> bool {
    e matches Error::FetchError(FetchFailure::Field(FieldError::Missing(f))) && f@ == field
}

/// `e` is a fetch error that names `field` as of the wrong type or range.
pub open spec fn fetch_invalid(e: Error, field: Seq<char>) -> bool {
    e matches Error::FetchError(FetchFailure::Field(FieldError::Invalid(f))) && f@ == field
}

/// Whether the required members of a record are all there and well formed.
pub open spec fn complete(f: RecordView) -> bool {
    &&& f.publisher is Some
    &&& f.language is Some
    &&& f.image_url is Some
    &&& f.title_long is Some
    &&& f.edition is Some
    &&& f.dimensions is Some
    &&& f.pages matches Some(p) && 0 <= p <= u32::MAX
    &&& f.date_published is Some
    &&& f.authors matches Some(a) && all_present(a)
    &&& f.title is Some
    &&& f.isbn13 is Some
    &&& f.msrp is Some
    &&& f.binding is Some
    &&& f.isbn is Some
    &&& f.isbn10 is Some
}

/// The error for an incomplete record: the first member, in the order of
/// the record's fields, that is absent or malformed.
pub open spec fn first_problem(f: RecordView, e: Error) -> bool {
    if f.publisher is None {
        fetch_missing(e, "publisher"@)
    } else if f.language is None {
        fetch_missing(e, "language"@)
    } else if f.image_url is None {
        fetch_missing(e, "image"@)
    } else if f.title_long is None {
        fetch_missing(e, "title_long"@)
    } else if f.edition is None {
        fetch_missing(e, "edition"@)
    } else if f.dimensions is None {
        fetch_missing(e, "dimensions"@)
    } else if f.pages is None {
        fetch_missing(e, "pages"@)
    } else if !(0 <= f.pages->0 <= u32::MAX) {
        fetch_invalid(e, "pages"@)
    } else if f.date_published is None {
        fetch_missing(e, "date_published"@)
    } else if f.authors is None {
        fetch_missing(e, "authors"@)
    } else if !all_present(f.authors->0) {
        fetch_invalid(e, "authors"@)
    } else if f.title is None {
        fetch_missing(e, "title"@)
    } else if f.isbn13 is None {
        fetch_missing(e, "isbn13"@)
    } else if f.msrp is None {
        fetch_missing(e, "msrp"@)
    } else if f.binding is None {
        fetch_missing(e, "binding"@)
    } else if f.isbn is None {
        fetch_missing(e, "isbn"@)
    } else {
        fetch_missing(e, "isbn10"@)
    }
}

/// A record built from complete members: each field holds its member.
pub open spec fn record_matches(b: IsbnDbBook, f: RecordView) -> bool {
    &&& Some(b.publisher@) == f.publisher
    &&& Some(b.language@) == f.language
    &&& Some(b.image_url@) == f.image_url
    &&& Some(b.title_long@) == f.title_long
    &&& Some(b.edition@) == f.edition
    &&& Some(b.dimensions@) == f.dimensions
    &&& Some(b.pages as i64) == f.pages
    &&& Some(b.date_published@) == f.date_published
    &&& f.authors matches Some(a) && texts_of(b.authors@) == present(a)
    &&& Some(b.title@) == f.title
    &&& Some(b.isbn13@) == f.isbn13
    &&& Some(b.msrp@) == f.msrp
    &&& Some(b.binding@) == f.binding
    &&& Some(b.isbn@) == f.isbn
    &&& Some(b.isbn10@) == f.isbn10
    &&& match f.subjects {
        Some(s) => b.subjects matches Some(k) && texts_of(k@) == present(s),
        None => b.subjects is None,
    }
    &&& opt_view(b.synopsis) == f.synopsis
}

fn fetch_error(kind: bool, field: &str) -> (e: Error)
    ensures
        kind ==> fetch_missing(e, field@),
        !kind ==> fetch_invalid(e, field@),
{
    let f = String::from_str(field);
    Error::FetchError(FetchFailure::Field(if kind { FieldError::Missing(f) } else { FieldError::Invalid(f) }))
}

/// The strings of a list whose items are all present.
fn unwrap_all(v: Vec<Option<String>>) -> (r: Option<Vec<String>>)
    ensures
        all_present(opt_texts(v@)) ==> r is Some && texts_of(r->0@) == present(opt_texts(v@)),
        !all_present(opt_texts(v@)) ==> r is None,
{
    let mut out: Vec<String> = Vec::new();
    let mut i: usize = 0;
    while i < v.len()
        invariant
            i <= v@.len(),
            all_present(opt_texts(v@).subrange(0, i as int)),
            texts_of(out@) == present(opt_texts(v@).subrange(0, i as int)),
        decreases v@.len() - i,
    {
        let ghost before = out@;
        match &v[i] {
            Some(s) => {
                out.push(s.clone());
            },
            None => {
                assert(opt_texts(v@)[i as int] is None);
                return None;
            },
        }
        proof {
            let w = opt_texts(v@).subrange(0, i + 1);
            assert(w.drop_last() =~= opt_texts(v@).subrange(0, i as int));
            assert(texts_of(out@) =~= texts_of(before).push(v@[i as int]->0@));
        }
        i = i + 1;
    }
    assert(opt_texts(v@).subrange(0, v@.len() as int) =~= opt_texts(v@));
    Some(out)
}

/// The strings of a list, leaving out the items that are absent.
fn keep_present(v: Vec<Option<String>>) -> (r: Vec<String>)
    ensures
        texts_of(r@) == present(opt_texts(v@)),
{
    let mut out: Vec<String> = Vec::new();
    let mut i: usize = 0;
    while i < v.len()
        invariant
            i <= v@.len(),
            texts_of(out@) == present(opt_texts(v@).subrange(0, i as int)),
        decreases v@.len() - i,
    {
        let ghost before = out@;
        match &v[i] {
            Some(s) => {
                out.push(s.clone());
            },
            None => {},
        }
        proof {
            let w = opt_texts(v@).subrange(0, i + 1);
            assert(w.drop_last() =~= opt_texts(v@).subrange(0, i as int));
            if v@[i as int] is Some {
                assert(texts_of(out@) =~= texts_of(before).push(v@[i as int]->0@));
            } else {
                assert(texts_of(out@) =~= texts_of(before));
            }
        }
        i = i + 1;
    }
    assert(opt_texts(v@).subrange(0, v@.len() as int) =~= opt_texts(v@));
    out
}

impl IsbnDbBook {
    /// Builds a record from the members sent: every member but `subjects`
    /// and `synopsis` is required, and `pages` must fit a `u32`. The first
    /// member that is absent or malformed is named in the error.
    pub fn from_fields(f: RecordFields) -> (r: Result<IsbnDbBook, Error>)
        ensures
            complete(f@) <==> r is Ok,
            match r {
                Ok(b) => record_matches(b, f@),
                Err(e) => first_problem(f@, e),
            },
    {
        let ghost fv = f@;
        let publisher = match f.publisher { Some(v) => v, None => return Err(fetch_error(true, "publisher")) };
        let language = match f.language { Some(v) => v, None => return Err(fetch_error(true, "language")) };
        let image_url = match f.image_url { Some(v) => v, None => return Err(fetch_error(true, "image")) };
        let title_long = match f.title_long { Some(v) => v, None => return Err(fetch_error(true, "title_long")) };
        let edition = match f.edition { Some(v) => v, None => return Err(fetch_error(true, "edition")) };
        let dimensions = match f.dimensions { Some(v) => v, None => return Err(fetch_error(true, "dimensions")) };
        let pages = match f.pages { Some(v) => v, None => return Err(fetch_error(true, "pages")) };
        if pages < 0 || pages > 4294967295i64 {
            return Err(fetch_error(false, "pages"));
        }
        let date_published = match f.date_published { Some(v) => v, None => return Err(fetch_error(true, "date_published")) };
        let author_items = match f.authors { Some(v) => v, None => return Err(fetch_error(true, "authors")) };
        let authors = match unwrap_all(author_items) { Some(v) => v, None => return Err(fetch_error(false, "authors")) };
        let title = match f.title { Some(v) => v, None => return Err(fetch_error(true, "title")) };
        let isbn13 = match f.isbn13 { Some(v) => v, None => return Err(fetch_error(true, "isbn13")) };
        let msrp = match f.msrp { Some(v) => v, None => return Err(fetch_error(true, "msrp")) };
        let binding = match f.binding { Some(v) => v, None => return Err(fetch_error(true, "binding")) };
        let isbn = match f.isbn { Some(v) => v, None => return Err(fetch_error(true, "isbn")) };
        let isbn10 = match f.isbn10 { Some(v) => v, None => return Err(fetch_error(true, "isbn10")) };
        let subjects = match f.subjects {
            Some(s) => Some(keep_present(s)),
            None => None,
        };
        Ok(
            IsbnDbBook {
                publisher,
                language,
                image_url,
                title_long,
                edition,
                dimensions,
                pages: pages as u32,
                date_published,
                authors,
                title,
                isbn13,
                msrp,
                binding,
                isbn,
                isbn10,
                subjects,
                synopsis: f.synopsis,
            },
        )
    }

    /// Reads the record in a response of the lookup service. A body that is
    /// not JSON is malformed; otherwise the members of its `book` object go
    /// to `from_fields`.
    pub fn from_json(body: &str) -> (r: Result<IsbnDbBook, Error>)
        ensures
            !json_parses(body@) ==> r matches Err(Error::FetchError(FetchFailure::Malformed)),
            json_parses(body@) ==> (complete(fetched(body@)) <==> r is Ok),
            json_parses(body@) ==> match r {
                Ok(b) => record_matches(b, fetched(body@)),
                Err(e) => first_problem(fetched(body@), e),
            },
    {
        if !document_parses(body) {
            return Err(Error::FetchError(FetchFailure::Malformed));
        }
        let fields = RecordFields {
            publisher: text_at(body, "book", "publisher"),
            language: text_at(body, "book", "language"),
            image_url: text_at(body, "book", "image"),
            title_long: text_at(body, "book", "title_long"),
            edition: text_at(body, "book", "edition"),
            dimensions: text_at(body, "book", "dimensions"),
            pages: integer_at(body, "book", "pages"),
            date_published: text_at(body, "book", "date_published"),
            authors: text_list_at(body, "book", "authors"),
            title: text_at(body, "book", "title"),
            isbn13: text_at(body, "book", "isbn13"),
            msrp: number_text_at(body, "book", "msrp"),
            binding: text_at(body, "book", "binding"),
            isbn: text_at(body, "book", "isbn"),
            isbn10: text_at(body, "book", "isbn10"),
            subjects: text_list_at(body, "book", "subjects"),
            synopsis: text_at(body, "book", "synopsis"),
        };
        assert(fields@ == fetched(body@));
        IsbnDbBook::from_fields(fields)
    }
}

/// The lookup service: where it is and the key it wants.
pub struct IsbnDbRepository {
    pub base_url: String,
    pub rest_key: String,
}

impl IsbnDbRepository {
    pub fn new(base_url: &str, rest_key: &str) -> (r: IsbnDbRepository)
        ensures
            r.base_url@ == base_url@,
            r.rest_key@ == rest_key@,
    {
        IsbnDbRepository { base_url: String::from_str(base_url), rest_key: String::from_str(rest_key) }
    }

    /// The address of the record for an ISBN: `{base_url}/book/{isbn}`.
    pub fn book_url(&self, isbn: &str) -> (r: String)
        ensures
            r@ == self.base_url@ + "/book/"@ + isbn@,
    {
        self.base_url.clone().concat("/book/").concat(isbn)
    }
}

/// The lines that `textwrap::wrap` makes of a text at a width.
pub uninterp spec fn wrapped_lines(s: Seq<char>, width: nat) -> Seq<Seq<char>>;

/// Relies on `textwrap::wrap` with its default options: the lines of `s`
/// broken at `width` columns.
#[verifier::external_body]
fn wrap_lines(s: &str, width: usize) -> (r: Vec<String>)
    ensures
        texts_of(r@) == wrapped_lines(s@, width as nat),
{
    textwrap::wrap(s, width).into_iter().map(|line| line.into_owned()).collect()
}

/// A text wrapped at a width, its lines joined by `\n`.
pub open spec fn wrapped(s: Seq<char>, width: nat) -> Seq<char> {
    join_with(wrapped_lines(s, width), "\n"@)
}

fn wrap_text(s: &str, width: usize) -> (r: String)
    ensures
        r@ == wrapped(s@, width as nat),
{
    join(&wrap_lines(s, width), "\n")
}

/// The width of wrapped texts in the record's display.
pub const WRAP_LENGTH: usize = 80;

/// The width of the long title in the record's display.
pub const LONG_TITLE_WRAP: usize = 72;

pub open spec fn pairs_of(v: Seq<(String, String)>) -> Seq<(Seq<char>, Seq<char>)> {
    v.map_values(|p: (String, String)| (p.0@, p.1@))
}

/// A text, or `N/A` when there is none.
pub open spec fn or_na(o: Option<Seq<char>>) -> Seq<char> {
    match o {
        Some(t) => t,
        None => "N/A"@,
    }
}

/// The subjects joined with `, `, or `N/A` when the record has none.
pub open spec fn subjects_text(b: IsbnDbBook) -> Seq<char> {
    match b.subjects {
        Some(s) => join_with(texts_of(s@), ", "@),
        None => "N/A"@,
    }
}

/// The labelled rows of a record, given the wrapped forms of its title, long
/// title, subjects and synopsis. The long title is shown only where it
/// differs from the title.
pub open spec fn rows_spec(
    b: IsbnDbBook,
    title: Seq<char>,
    title_long: Seq<char>,
    subjects: Seq<char>,
    synopsis: Seq<char>,
) -> Seq<(Seq<char>, Seq<char>)> {
    let head = seq![("Title"@, title)];
    let long = if b.title_long@ != b.title@ {
        seq![("Title (Long)"@, title_long)]
    } else {
        Seq::empty()
    };
    head + long + seq![
        ("Author(s)"@, join_with(texts_of(b.authors@), "; "@)),
        ("Date Published"@, b.date_published@),
        ("Binding"@, b.binding@),
        ("Edition"@, b.edition@),
        ("Pages"@, decimal(b.pages as nat)),
        ("Publisher"@, b.publisher@),
        ("Language"@, b.language@),
        ("Subjects"@, subjects),
        ("Synopsis"@, synopsis),
        ("MSRP"@, b.msrp@),
        ("ISBN13"@, b.isbn13@),
        ("ISBN"@, b.isbn@),
        ("ISBN10"@, b.isbn10@),
        ("Dimensions"@, b.dimensions@),
    ]
}

/// The labelled rows in which a record is shown: the title, subjects and
/// synopsis wrapped at `WRAP_LENGTH` columns, the long title at
/// `LONG_TITLE_WRAP`.
pub open spec fn display_spec(b: IsbnDbBook) -> Seq<(Seq<char>, Seq<char>)> {
    rows_spec(
        b,
        wrapped(b.title@, 80),
        wrapped(b.title_long@, 72),
        wrapped(subjects_text(b), 80),
        wrapped(or_na(opt_view(b.synopsis)), 80),
    )
}

fn row(label: &str, value: String) -> (r: (String, String))
    ensures
        r.0@ == label@,
        r.1 == value,
{
    (String::from_str(label), value)
}

impl IsbnDbBook {
    /// The labelled rows of the record, with the given texts standing for
    /// its title, long title, subjects and synopsis.
    pub fn rows_with(
        &self,
        title: String,
        title_long: String,
        subjects: String,
        synopsis: String,
    ) -> (r: Vec<(String, String)>)
        ensures
            pairs_of(r@) == rows_spec(*self, title@, title_long@, subjects@, synopsis@),
    {
        let mut rows: Vec<(String, String)> = Vec::new();
        rows.push(row("Title", title));
        if self.title_long != self.title {
            rows.push(row("Title (Long)", title_long));
        }
        let ghost head = pairs_of(rows@);
        let mut pages: Vec<char> = Vec::new();
        push_decimal(self.pages as u64, &mut pages);
        let tail = vec![
            row("Author(s)", join(&self.authors, "; ")),
            row("Date Published", self.date_published.clone()),
            row("Binding", self.binding.clone()),
            row("Edition", self.edition.clone()),
            row("Pages", string_of(&pages)),
            row("Publisher", self.publisher.clone()),
            row("Language", self.language.clone()),
            row("Subjects", subjects),
            row("Synopsis", synopsis),
            row("MSRP", self.msrp.clone()),
            row("ISBN13", self.isbn13.clone()),
            row("ISBN", self.isbn.clone()),
            row("ISBN10", self.isbn10.clone()),
            row("Dimensions", self.dimensions.clone()),
        ];
        let ghost tail_view = pairs_of(tail@);
        let mut tail = tail;
        rows.append(&mut tail);
        proof {
            assert(pairs_of(rows@) =~= head + tail_view);
            assert(pairs_of(rows@) =~= rows_spec(*self, title@, title_long@, subjects@, synopsis@));
        }
        rows
    }

    /// The labelled rows in which the record is shown.
    pub fn display_rows(&self) -> (r: Vec<(String, String)>)
        ensures
            pairs_of(r@) == display_spec(*self),
    {
        let subjects = match &self.subjects {
            Some(s) => join(s, ", "),
            None => String::from_str("N/A"),
        };
        let synopsis = match &self.synopsis {
            Some(s) => s.clone(),
            None => String::from_str("N/A"),
        };
        self.rows_with(
            wrap_text(self.title.as_str(), WRAP_LENGTH),
            wrap_text(self.title_long.as_str(), LONG_TITLE_WRAP),
            wrap_text(subjects.as_str(), WRAP_LENGTH),
            wrap_text(synopsis.as_str(), WRAP_LENGTH),
        )
    }
}

} // verus!
