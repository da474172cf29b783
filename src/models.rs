//! The editable form of a book, before its authors and publisher are resolved.
use vstd::prelude::*;
use crate::books::Price;
use crate::number::PriceView;
use crate::error::{invalid, missing, Error, FieldError, FieldErrorView};
use crate::number::{
    decimal, parse_price, parse_price_spec, parse_u32, parse_u32_spec, price_text, push_decimal,
    push_price,
};
use crate::text::{
    char_vec, find_in, index_of, join, join_with, same_text, string_of, text_slice, texts_of, trim,
    trim_bounds,
};

verus! {

/// A book as the user looks it over and edits it: the authors are one string of
/// `Surname, Forename` pairs separated by `;`, the publisher a plain name.
#[derive(Debug)]
pub struct AddBookModel {
    pub authors: String,
    pub publisher: String,
    pub title: String,
    pub edition: String,
    pub date_published: String,
    pub original_date_published: Option<String>,
    pub price: Option<Price>,
    pub binding: String,
    pub isbn: String,
    pub pages: u32,
    pub owned: bool,
}

/// The text of an optional string.
pub open spec fn opt_view(o: Option<String>) -> Option<Seq<char>> {
    match o {
        Some(s) => Some(s@),
        None => None,
    }
}

/// The value of an optional price.
pub open spec fn price_view(o: Option<Price>) -> Option<PriceView> {
    match o {
        Some(p) => Some(p@),
        None => None,
    }
}

/// An `AddBookModel` as values.
pub struct ModelView {
    pub authors: Seq<char>,
    pub publisher: Seq<char>,
    pub title: Seq<char>,
    pub edition: Seq<char>,
    pub date_published: Seq<char>,
    pub original_date_published: Option<Seq<char>>,
    pub price: Option<PriceView>,
    pub binding: Seq<char>,
    pub isbn: Seq<char>,
    pub pages: u32,
    pub owned: bool,
}

impl View for AddBookModel {
    type V = ModelView;

    open spec fn view(&self) -> ModelView {
        ModelView {
            authors: self.authors@,
            publisher: self.publisher@,
            title: self.title@,
            edition: self.edition@,
            date_published: self.date_published@,
            original_date_published: opt_view(self.original_date_published),
            price: price_view(self.price),
            binding: self.binding@,
            isbn: self.isbn@,
            pages: self.pages,
            owned: self.owned,
        }
    }
}


/// The fields read so far from an edited text block.
pub struct Fields {
    pub authors: Option<Seq<char>>,
    pub publisher: Option<Seq<char>>,
    pub title: Option<Seq<char>>,
    pub edition: Option<Seq<char>>,
    pub date_published: Option<Seq<char>>,
    pub original_date_published: Option<Seq<char>>,
    pub price: Option<PriceView>,
    pub binding: Option<Seq<char>>,
    pub isbn: Option<Seq<char>>,
    pub pages: Option<u32>,
    pub owned: Option<bool>,
}

pub open spec fn no_fields() -> Fields {
    Fields {
        authors: None,
        publisher: None,
        title: None,
        edition: None,
        date_published: None,
        original_date_published: None,
        price: None,
        binding: None,
        isbn: None,
        pages: None,
        owned: None,
    }
}

pub open spec fn strip_cr(l: Seq<char>) -> Seq<char> {
    if l.len() > 0 && l.last() == '\r' {
        l.drop_last()
    } else {
        l
    }
}

/// The lines of a text as `str::lines` yields them: split at `\n`, a `\r`
/// before the `\n` dropped, no empty line after a final line ending.
pub open spec fn lines_of(t: Seq<char>) -> Seq<Seq<char>>
    decreases t.len(),
{
    if t.len() == 0 {
        Seq::empty()
    } else {
        let k = index_of(t, '\n');
        if k < t.len() {
            seq![strip_cr(t.subrange(0, k as int))] + lines_of(t.subrange(k as int + 1, t.len() as int))
        } else {
            seq![t]
        }
    }
}

/// The label of a line: what stands before its first colon.
pub open spec fn key_of(line: Seq<char>) -> Seq<char> {
    line.subrange(0, index_of(line, ':') as int)
}

/// The value of a line: what follows its first colon, trimmed.
pub open spec fn value_of(line: Seq<char>) -> Seq<char> {
    let k = index_of(line, ':');
    if k < line.len() {
        trim(line.subrange(k as int + 1, line.len() as int))
    } else {
        Seq::empty()
    }
}

/// Reads one line into the fields: a known label sets its field, the last
/// occurrence winning; an unknown label or an unreadable value is an error.
pub open spec fn apply_line(f: Fields, line: Seq<char>) -> Result<Fields, FieldErrorView> {
    let key = key_of(line);
    let v = value_of(line);
    if key == "Author(s)"@ {
        Ok(Fields { authors: Some(v), ..f })
    } else if key == "Publisher"@ {
        Ok(Fields { publisher: Some(v), ..f })
    } else if key == "Title"@ {
        Ok(Fields { title: Some(v), ..f })
    } else if key == "Edition"@ {
        Ok(Fields { edition: Some(v), ..f })
    } else if key == "Date Published"@ {
        Ok(Fields { date_published: Some(v), ..f })
    } else if key == "Original Date Published"@ {
        Ok(Fields { original_date_published: if v.len() == 0 { None } else { Some(v) }, ..f })
    } else if key == "Price"@ {
        if v.len() == 0 {
            Ok(Fields { price: None, ..f })
        } else {
            match parse_price_spec(v) {
                Some(p) => Ok(Fields { price: Some(p), ..f }),
                None => Err(FieldErrorView::Invalid("price"@)),
            }
        }
    } else if key == "Binding"@ {
        Ok(Fields { binding: Some(v), ..f })
    } else if key == "ISBN"@ {
        Ok(Fields { isbn: Some(v), ..f })
    } else if key == "Pages"@ {
        match parse_u32_spec(v) {
            Some(p) => Ok(Fields { pages: Some(p), ..f }),
            None => Err(FieldErrorView::Invalid("pages"@)),
        }
    } else if key == "Owned"@ {
        if v == "true"@ {
            Ok(Fields { owned: Some(true), ..f })
        } else if v == "false"@ {
            Ok(Fields { owned: Some(false), ..f })
        } else {
            Err(FieldErrorView::Invalid("owned"@))
        }
    } else {
        Err(FieldErrorView::UnknownKey(key))
    }
}

/// Reads the lines in order, stopping at the first error.
pub open spec fn fold_lines(f: Fields, ls: Seq<Seq<char>>) -> Result<Fields, FieldErrorView>
    decreases ls.len(),
{
    if ls.len() == 0 {
        Ok(f)
    } else {
        match apply_line(f, ls[0]) {
            Ok(g) => fold_lines(g, ls.drop_first()),
            Err(e) => Err(e),
        }
    }
}

/// The model once every line is read: each required field must be present,
/// checked in the order of the model's fields.
pub open spec fn finish(f: Fields) -> Result<ModelView, FieldErrorView> {
    if f.authors is None {
        Err(FieldErrorView::Missing("authors"@))
    } else if f.publisher is None {
        Err(FieldErrorView::Missing("publisher"@))
    } else if f.title is None {
        Err(FieldErrorView::Missing("title"@))
    } else if f.edition is None {
        Err(FieldErrorView::Missing("edition"@))
    } else if f.date_published is None {
        Err(FieldErrorView::Missing("date_published"@))
    } else if f.binding is None {
        Err(FieldErrorView::Missing("binding"@))
    } else if f.isbn is None {
        Err(FieldErrorView::Missing("isbn"@))
    } else if f.pages is None {
        Err(FieldErrorView::Missing("pages"@))
    } else if f.owned is None {
        Err(FieldErrorView::Missing("owned"@))
    } else {
        Ok(
            ModelView {
                authors: f.authors->0,
                publisher: f.publisher->0,
                title: f.title->0,
                edition: f.edition->0,
                date_published: f.date_published->0,
                original_date_published: f.original_date_published,
                price: f.price,
                binding: f.binding->0,
                isbn: f.isbn->0,
                pages: f.pages->0,
                owned: f.owned->0,
            },
        )
    }
}

/// What an edited text block reads as.
pub open spec fn parse_spec(t: Seq<char>) -> Result<ModelView, FieldErrorView> {
    match fold_lines(no_fields(), lines_of(t)) {
        Ok(f) => finish(f),
        Err(e) => Err(e),
    }
}

/// The fields read so far, as the parser holds them.
struct Draft {
    authors: Option<String>,
    publisher: Option<String>,
    title: Option<String>,
    edition: Option<String>,
    date_published: Option<String>,
    original_date_published: Option<String>,
    price: Option<Price>,
    binding: Option<String>,
    isbn: Option<String>,
    pages: Option<u32>,
    owned: Option<bool>,
}

impl View for Draft {
    type V = Fields;

    closed spec fn view(&self) -> Fields {
        Fields {
            authors: opt_view(self.authors),
            publisher: opt_view(self.publisher),
            title: opt_view(self.title),
            edition: opt_view(self.edition),
            date_published: opt_view(self.date_published),
            original_date_published: opt_view(self.original_date_published),
            price: price_view(self.price),
            binding: opt_view(self.binding),
            isbn: opt_view(self.isbn),
            pages: self.pages,
            owned: self.owned,
        }
    }
}

/// `r` is the error `fe` of the text format.
pub open spec fn parse_failed<T>(r: Result<T, Error>, fe: FieldErrorView) -> bool {
    r matches Err(Error::ParseError(x)) && x@ == fe
}

/// Reads the line `t[a..b]` into `d`.
fn read_line(d: &mut Draft, s: &str, t: &Vec<char>, a: usize, b: usize) -> (r: Result<(), Error>)
    requires
        t@ == s@,
        a <= b <= t@.len(),
    ensures
        match apply_line(old(d)@, t@.subrange(a as int, b as int)) {
            Ok(g) => r is Ok && final(d)@ == g,
            Err(fe) => parse_failed(r, fe),
        },
{
    let ghost line = t@.subrange(a as int, b as int);
    let c = find_in(t, ':', a, b);
    let (va, vb) = if c < b {
        trim_bounds(t, c + 1, b)
    } else {
        (b, b)
    };
    proof {
        assert(key_of(line) =~= t@.subrange(a as int, c as int));
        if c < b {
            assert(line.subrange(c - a + 1, line.len() as int) =~= t@.subrange(c + 1, b as int));
        }
        assert(value_of(line) =~= t@.subrange(va as int, vb as int));
    }
    if same_text(t, a, c, "Author(s)") {
        d.authors = Some(text_slice(s, va, vb));
    } else if same_text(t, a, c, "Publisher") {
        d.publisher = Some(text_slice(s, va, vb));
    } else if same_text(t, a, c, "Title") {
        d.title = Some(text_slice(s, va, vb));
    } else if same_text(t, a, c, "Edition") {
        d.edition = Some(text_slice(s, va, vb));
    } else if same_text(t, a, c, "Date Published") {
        d.date_published = Some(text_slice(s, va, vb));
    } else if same_text(t, a, c, "Original Date Published") {
        d.original_date_published = if va == vb {
            None
        } else {
            Some(text_slice(s, va, vb))
        };
    } else if same_text(t, a, c, "Price") {
        if va == vb {
            d.price = None;
        } else {
            let v = char_vec(text_slice(s, va, vb).as_str());
            match parse_price(&v) {
                Some(p) => d.price = Some(p),
                None => return Err(invalid("price")),
            }
        }
    } else if same_text(t, a, c, "Binding") {
        d.binding = Some(text_slice(s, va, vb));
    } else if same_text(t, a, c, "ISBN") {
        d.isbn = Some(text_slice(s, va, vb));
    } else if same_text(t, a, c, "Pages") {
        let v = char_vec(text_slice(s, va, vb).as_str());
        match parse_u32(&v) {
            Some(p) => d.pages = Some(p),
            None => return Err(invalid("pages")),
        }
    } else if same_text(t, a, c, "Owned") {
        if same_text(t, va, vb, "true") {
            d.owned = Some(true);
        } else if same_text(t, va, vb, "false") {
            d.owned = Some(false);
        } else {
            return Err(invalid("owned"));
        }
    } else {
        return Err(Error::ParseError(FieldError::UnknownKey(text_slice(s, a, c))));
    }
    Ok(())
}

/// The model from the fields read, or the first required field that is absent.
fn finish_draft(d: Draft) -> (r: Result<AddBookModel, Error>)
    ensures
        match finish(d@) {
            Ok(m) => r is Ok && r->Ok_0@ == m,
            Err(fe) => parse_failed(r, fe),
        },
{
    let authors = match d.authors { Some(v) => v, None => return Err(missing("authors")) };
    let publisher = match d.publisher { Some(v) => v, None => return Err(missing("publisher")) };
    let title = match d.title { Some(v) => v, None => return Err(missing("title")) };
    let edition = match d.edition { Some(v) => v, None => return Err(missing("edition")) };
    let date_published = match d.date_published {
        Some(v) => v,
        None => return Err(missing("date_published")),
    };
    let binding = match d.binding { Some(v) => v, None => return Err(missing("binding")) };
    let isbn = match d.isbn { Some(v) => v, None => return Err(missing("isbn")) };
    let pages = match d.pages { Some(v) => v, None => return Err(missing("pages")) };
    let owned = match d.owned { Some(v) => v, None => return Err(missing("owned")) };
    Ok(
        AddBookModel {
            authors,
            publisher,
            title,
            edition,
            date_published,
            original_date_published: d.original_date_published,
            price: d.price,
            binding,
            isbn,
            pages,
            owned,
        },
    )
}

impl AddBookModel {
    /// Reads an edited text block. Lines may come in any order and end in
    /// `\n` or `\r\n`; each is split at its first colon into a label and a
    /// trimmed value. An unknown label, a value that does not read as its
    /// field's type, or a missing required field is an error naming it.
    pub fn parse_text(s: &str) -> (r: Result<AddBookModel, Error>)
        ensures
            match parse_spec(s@) {
                Ok(m) => r is Ok && r->Ok_0@ == m,
                Err(fe) => parse_failed(r, fe),
            },
    {
        let t = char_vec(s);
        let n = t.len();
        let mut d = Draft {
            authors: None,
            publisher: None,
            title: None,
            edition: None,
            date_published: None,
            original_date_published: None,
            price: None,
            binding: None,
            isbn: None,
            pages: None,
            owned: None,
        };
        let mut pos: usize = 0;
        assert(t@.subrange(0, n as int) =~= s@);
        while pos < n
            invariant
                t@ == s@,
                n == t@.len(),
                pos <= n,
                fold_lines(no_fields(), lines_of(s@)) == fold_lines(
                    d@,
                    lines_of(t@.subrange(pos as int, n as int)),
                ),
            decreases n - pos,
        {
            let ghost rest = t@.subrange(pos as int, n as int);
            let k = find_in(&t, '\n', pos, n);
            let e = if k < n && k > pos && t[k - 1] == '\r' {
                k - 1
            } else {
                k
            };
            proof {
                if k < n {
                    assert(rest.subrange(0, k - pos) =~= t@.subrange(pos as int, k as int));
                    assert(rest.subrange(k - pos + 1, rest.len() as int) =~= t@.subrange(
                        k + 1,
                        n as int,
                    ));
                    assert(strip_cr(t@.subrange(pos as int, k as int)) =~= t@.subrange(
                        pos as int,
                        e as int,
                    ));
                } else {
                    assert(lines_of(rest) == seq![rest]);
                }
                let ls = lines_of(rest);
                assert(ls[0] == t@.subrange(pos as int, e as int));
            }
            let ghost before = d@;
            match read_line(&mut d, s, &t, pos, e) {
                Ok(()) => {},
                Err(err) => return Err(err),
            }
            pos = if k < n {
                k + 1
            } else {
                n
            };
            proof {
                if k == n {
                    assert(lines_of(rest).drop_first() =~= Seq::<Seq<char>>::empty());
                    assert(lines_of(t@.subrange(pos as int, n as int)) =~= Seq::<Seq<char>>::empty());
                } else {
                    assert(lines_of(rest).drop_first() =~= lines_of(t@.subrange(pos as int, n as int)));
                }
            }
        }
        proof {
            assert(lines_of(t@.subrange(pos as int, n as int)) =~= Seq::<Seq<char>>::empty());
        }
        finish_draft(d)
    }
}

pub open spec fn opt_text(o: Option<Seq<char>>) -> Seq<char> {
    match o {
        Some(t) => t,
        None => Seq::empty(),
    }
}

pub open spec fn price_opt_text(p: Option<PriceView>) -> Seq<char> {
    match p {
        Some(p) => price_text(p),
        None => Seq::empty(),
    }
}

pub open spec fn bool_text(b: bool) -> Seq<char> {
    if b {
        "true"@
    } else {
        "false"@
    }
}

/// The labels of the editable text, in the order they are written.
pub open spec fn labels() -> Seq<Seq<char>> {
    seq![
        "Author(s)"@, "Publisher"@, "Title"@, "Edition"@, "Date Published"@,
        "Original Date Published"@, "Price"@, "Binding"@, "ISBN"@, "Pages"@, "Owned"@,
    ]
}

/// The values of a model, in the order of `labels`; an unset optional field
/// is empty.
pub open spec fn values(m: ModelView) -> Seq<Seq<char>> {
    seq![
        m.authors, m.publisher, m.title, m.edition, m.date_published,
        opt_text(m.original_date_published), price_opt_text(m.price), m.binding, m.isbn,
        decimal(m.pages as nat), bool_text(m.owned),
    ]
}

/// The lines of the editable text: `Label: value`.
pub open spec fn editor_lines(m: ModelView) -> Seq<Seq<char>> {
    Seq::new(11, |i: int| labels()[i] + ": "@ + values(m)[i])
}

/// The editable text of a model: its eleven lines separated by `nl`.
pub open spec fn render(m: ModelView, nl: Seq<char>) -> Seq<char> {
    join_with(editor_lines(m), nl)
}

/// The line `label: value`.
fn labelled(label: &str, value: &str) -> (r: String)
    ensures
        r@ == label@ + ": "@ + value@,
{
    String::from_str(label).concat(": ").concat(value)
}

/// Relies on `std::path::MAIN_SEPARATOR`: `\` on Windows, `/` elsewhere.
#[verifier::external_body]
fn path_separator() -> (r: char)
    ensures
        r == '/' || r == '\\',
{
    std::path::MAIN_SEPARATOR
}

/// The line ending of the platform whose path separator is `separator`:
/// `\r\n` where it is `\` (Windows), `\n` elsewhere.
pub fn line_ending_for(separator: char) -> (r: &'static str)
    ensures
        separator == '\\' ==> r@ == "\r\n"@,
        separator != '\\' ==> r@ == "\n"@,
{
    if separator == '\\' {
        "\r\n"
    } else {
        "\n"
    }
}

impl AddBookModel {
    /// The line ending of this platform: `\r\n` on Windows, `\n` elsewhere.
    pub fn newline(&self) -> (r: &'static str)
        ensures
            r@ == "\n"@ || r@ == "\r\n"@,
    {
        line_ending_for(path_separator())
    }

    /// The editable text of the model with the given line ending.
    pub fn to_editor_with(&self, nl: &str) -> (r: String)
        ensures
            r@ == render(self@, nl@),
    {
        let original = match &self.original_date_published {
            Some(d) => d.clone(),
            None => String::new(),
        };
        let mut price_chars: Vec<char> = Vec::new();
        match &self.price {
            Some(p) => push_price(p, &mut price_chars),
            None => {},
        }
        let mut page_chars: Vec<char> = Vec::new();
        push_decimal(self.pages as u64, &mut page_chars);
        let price = string_of(&price_chars);
        let pages = string_of(&page_chars);
        let owned = if self.owned {
            "true"
        } else {
            "false"
        };
        let lines = vec![
            labelled("Author(s)", self.authors.as_str()),
            labelled("Publisher", self.publisher.as_str()),
            labelled("Title", self.title.as_str()),
            labelled("Edition", self.edition.as_str()),
            labelled("Date Published", self.date_published.as_str()),
            labelled("Original Date Published", original.as_str()),
            labelled("Price", price.as_str()),
            labelled("Binding", self.binding.as_str()),
            labelled("ISBN", self.isbn.as_str()),
            labelled("Pages", pages.as_str()),
            labelled("Owned", owned),
        ];
        assert(texts_of(lines@) =~= editor_lines(self@));
        join(&lines, nl)
    }

    /// The editable text of the model with this platform's line ending.
    pub fn to_editor(&self) -> (r: String)
        ensures
            r@ == render(self@, "\n"@) || r@ == render(self@, "\r\n"@),
    {
        self.to_editor_with(self.newline())
    }
}

impl std::str::FromStr for AddBookModel {
    type Err = Error;

    fn from_str(s: &str) -> Result<AddBookModel, Error> {
        AddBookModel::parse_text(s)
    }
}

} // verus!
