//! Authors, publishers and books, and the split of an author list into names.
use vstd::prelude::*;
use crate::error::{invalid, is_invalid, Error, StorageError};
pub use crate::number::Price;
use crate::number::parse_price_spec;
use crate::models::AddBookModel;
use crate::text::{char_vec, find_in, index_of, text_slice, trim, trim_bounds};

verus! {

/// An author, identified in the store by the pair of forename and surname.
#[derive(Debug)]
pub struct Author {
    pub id: u32,
    pub forename: String,
    pub surname: String,
}

/// A publisher, identified in the store by its exact name.
#[derive(Debug)]
pub struct Publisher {
    pub id: u32,
    pub name: String,
}

/// A book with its publisher and its authors in the order they were listed.
/// An identifier of 0 marks an entity that the store has not yet numbered.
#[derive(Debug)]
pub struct Book {
    pub id: u32,
    pub authors: Vec<Author>,
    pub publisher: Publisher,
    pub title: String,
    pub edition: String,
    pub date_published: String,
    pub original_date_published: Option<String>,
    pub price: Option<Price>,
    pub binding: String,
    pub isbn: String,
    pub pages: u32,
    pub owned: bool,
}

/// A name as `(forename, surname)`.
pub type Name = (Seq<char>, Seq<char>);

/// The names of a list of authors, in order.
pub open spec fn names_of(authors: Seq<Author>) -> Seq<Name> {
    authors.map_values(|a: Author| (a.forename@, a.surname@))
}

/// One `Surname, Forename` entry: split at its first comma, both sides trimmed.
pub open spec fn name_of(piece: Seq<char>) -> Option<Name> {
    let k = index_of(piece, ',');
    if k < piece.len() {
        Some((trim(piece.subrange(k as int + 1, piece.len() as int)), trim(piece.subrange(0, k as int))))
    } else {
        None
    }
}

/// The names of an author list: entries separated by `;`, each of which
/// must hold a comma.
pub open spec fn split_authors(t: Seq<char>) -> Option<Seq<Name>>
    decreases t.len(),
{
    let k = index_of(t, ';');
    let head = name_of(t.subrange(0, k as int));
    if k < t.len() {
        match (head, split_authors(t.subrange(k as int + 1, t.len() as int))) {
            (Some(n), Some(rest)) => Some(seq![n] + rest),
            _ => None,
        }
    } else {
        match head {
            Some(n) => Some(seq![n]),
            None => None,
        }
    }
}

/// Splits an author list into unnumbered authors, or `None` when an entry
/// lacks its comma.
pub fn parse_authors(s: &str) -> (r: Option<Vec<Author>>)
    ensures
        match split_authors(s@) {
            Some(names) => r is Some && names_of(r->0@) == names && forall|i: int|
                0 <= i < r->0@.len() ==> (#[trigger] r->0@[i]).id == 0,
            None => r is None,
        },
{
    let t = char_vec(s);
    let n = t.len();
    let mut out: Vec<Author> = Vec::new();
    let mut pos: usize = 0;
    proof {
        assert(t@.subrange(0, n as int) =~= s@);
        assert(names_of(out@) =~= Seq::<Name>::empty());
        if let Some(rest) = split_authors(s@) {
            assert(names_of(out@) + rest =~= rest);
        }
    }
    loop
        invariant
            t@ == s@,
            n == t@.len(),
            pos <= n,
            split_authors(s@) == (match split_authors(t@.subrange(pos as int, n as int)) {
                Some(rest) => Some(names_of(out@) + rest),
                None => None::<Seq<Name>>,
            }),
            forall|i: int| 0 <= i < out@.len() ==> (#[trigger] out@[i]).id == 0,
        decreases n - pos,
    {
        let ghost rest = t@.subrange(pos as int, n as int);
        let k = find_in(&t, ';', pos, n);
        let c = find_in(&t, ',', pos, k);
        proof {
            assert(rest.subrange(0, k - pos) =~= t@.subrange(pos as int, k as int));
        }
        if c == k {
            return None;
        }
        let (sa, sb) = trim_bounds(&t, pos, c);
        let (fa, fb) = trim_bounds(&t, c + 1, k);
        let author = Author { id: 0, forename: text_slice(s, fa, fb), surname: text_slice(s, sa, sb) };
        proof {
            let piece = t@.subrange(pos as int, k as int);
            assert(piece.subrange(0, c - pos) =~= t@.subrange(pos as int, c as int));
            assert(piece.subrange(c - pos + 1, piece.len() as int) =~= t@.subrange(
                c + 1,
                k as int,
            ));
            assert(name_of(piece) == Some((author.forename@, author.surname@)));
        }
        let ghost before = out@;
        let ghost name = (author.forename@, author.surname@);
        out.push(author);
        proof {
            assert(names_of(out@) =~= names_of(before) + seq![name]);
        }
        if k == n {
            return Some(out);
        }
        proof {
            assert(rest.subrange(k - pos + 1, rest.len() as int) =~= t@.subrange(
                k + 1,
                n as int,
            ));
            if let Some(tail) = split_authors(t@.subrange(k + 1, n as int)) {
                assert(names_of(before) + (seq![name] + tail) =~= names_of(out@) + tail);
            }
        }
        pos = k + 1;
    }
}

impl Book {
    /// Builds an unnumbered book from the editable model: the author list is
    /// split into names, every other field is carried over as it is.
    pub fn try_from(item: AddBookModel) -> (r: Result<Book, Error>)
        ensures
            match r {
                Ok(b) => {
                    &&& split_authors(item.authors@) == Some(names_of(b.authors@))
                    &&& forall|i: int| 0 <= i < b.authors@.len() ==> (#[trigger] b.authors@[i]).id == 0
                    &&& b.id == 0
                    &&& b.publisher.id == 0
                    &&& b.publisher.name == item.publisher
                    &&& b.title == item.title
                    &&& b.edition == item.edition
                    &&& b.date_published == item.date_published
                    &&& b.original_date_published == item.original_date_published
                    &&& b.price == item.price
                    &&& b.binding == item.binding
                    &&& b.isbn == item.isbn
                    &&& b.pages == item.pages
                    &&& b.owned == item.owned
                },
                Err(e) => split_authors(item.authors@) is None && is_invalid(e, "authors"@),
            },
    {
        let authors = match parse_authors(item.authors.as_str()) {
            Some(a) => a,
            None => return Err(invalid("authors")),
        };
        Ok(
            Book {
                id: 0,
                authors,
                publisher: Publisher { id: 0, name: item.publisher },
                title: item.title,
                edition: item.edition,
                date_published: item.date_published,
                original_date_published: item.original_date_published,
                price: item.price,
                binding: item.binding,
                isbn: item.isbn,
                pages: item.pages,
                owned: item.owned,
            },
        )
    }
}

/// A row of the `books` table joined with its publisher, as the store
/// returns it; the price is the text of the stored number.
pub struct BookRow {
    pub id: u32,
    pub title: String,
    pub edition: String,
    pub date_published: String,
    pub original_date_published: Option<String>,
    pub price: Option<String>,
    pub binding: String,
    pub isbn: String,
    pub pages: u32,
    pub owned: bool,
    pub publisher_id: u32,
    pub publisher_name: String,
}

impl Book {
    /// Assembles a stored book from its row and its authors, in the order
    /// they were linked to it. A stored price that does not read as a price
    /// is a storage error.
    pub fn from_row(row: BookRow, authors: Vec<Author>) -> (r: Result<Book, Error>)
        ensures
            r is Ok <==> (row.price matches Some(p) ==> parse_price_spec(p@) is Some),
            match r {
                Ok(b) => {
                    &&& b.id == row.id
                    &&& b.authors == authors
                    &&& b.publisher.id == row.publisher_id
                    &&& b.publisher.name == row.publisher_name
                    &&& b.title == row.title
                    &&& b.edition == row.edition
                    &&& b.date_published == row.date_published
                    &&& b.original_date_published == row.original_date_published
                    &&& match row.price {
                        Some(p) => b.price matches Some(q) && Some(q@) == parse_price_spec(p@),
                        None => b.price is None,
                    }
                    &&& b.binding == row.binding
                    &&& b.isbn == row.isbn
                    &&& b.pages == row.pages
                    &&& b.owned == row.owned
                },
                Err(e) => e is DatabaseError,
            },
    {
        let price = match row.price {
            Some(p) => match Price::parse(p.as_str()) {
                Some(v) => Some(v),
                None => {
                    return Err(
                        Error::DatabaseError(StorageError::Failure(String::from_str("stored price is not an amount"))),
                    )
                },
            },
            None => None,
        };
        Ok(
            Book {
                id: row.id,
                authors,
                publisher: Publisher { id: row.publisher_id, name: row.publisher_name },
                title: row.title,
                edition: row.edition,
                date_published: row.date_published,
                original_date_published: row.original_date_published,
                price,
                binding: row.binding,
                isbn: row.isbn,
                pages: row.pages,
                owned: row.owned,
            },
        )
    }
}

/// What the store must do next for a book being added.
#[derive(Debug, PartialEq, Eq, Structural)]
pub enum StoreRequest {
    /// Upsert the publisher by name and report its identifier.
    SavePublisher,
    /// Upsert the author at this position by name and report its identifier.
    SaveAuthor(usize),
    /// Insert the book, whose publisher and authors are numbered, and report
    /// its identifier.
    SaveBook,
    /// Nothing: every entity of the book is numbered.
    Finished,
}

/// A book on its way into the store. The publisher is resolved first, then
/// each author in the order of the list, then the book itself; each step
/// hands back the identifier that the store gave.
pub struct AddBookPlan {
    pub book: Book,
    pub next: StoreRequest,
}

/// The request that follows `r` for a book with `n` authors.
pub open spec fn following(r: StoreRequest, n: nat) -> StoreRequest {
    match r {
        StoreRequest::SavePublisher => if n > 0 {
            StoreRequest::SaveAuthor(0)
        } else {
            StoreRequest::SaveBook
        },
        StoreRequest::SaveAuthor(i) => if i + 1 < n {
            StoreRequest::SaveAuthor((i + 1) as usize)
        } else {
            StoreRequest::SaveBook
        },
        _ => StoreRequest::Finished,
    }
}

/// The request after `k` steps of a plan for a book with `n` authors.
pub open spec fn request_at(k: nat, n: nat) -> StoreRequest
    decreases k,
{
    if k == 0 {
        StoreRequest::SavePublisher
    } else {
        following(request_at((k - 1) as nat, n), n)
    }
}

/// A plan resolves the publisher first, then each author in the order of
/// the list, then the book, and is finished after `n + 2` steps.
pub proof fn lemma_plan_order(k: nat, n: nat)
    requires
        n <= usize::MAX,
    ensures
        k == 0 ==> request_at(k, n) == StoreRequest::SavePublisher,
        1 <= k <= n ==> request_at(k, n) == StoreRequest::SaveAuthor((k - 1) as usize),
        k == n + 1 ==> request_at(k, n) == StoreRequest::SaveBook,
        k >= n + 2 ==> request_at(k, n) == StoreRequest::Finished,
    decreases k,
{
    if k > 0 {
        lemma_plan_order((k - 1) as nat, n);
    }
}

impl AddBookPlan {
    pub open spec fn wf(&self) -> bool {
        self.next matches StoreRequest::SaveAuthor(i) ==> i < self.book.authors@.len()
    }

    /// Starts adding the book that a model describes; fails as
    /// `Book::try_from` does.
    pub fn new(model: AddBookModel) -> (r: Result<AddBookPlan, Error>)
        ensures
            match r {
                Ok(p) => {
                    &&& p.wf()
                    &&& p.next == StoreRequest::SavePublisher
                    &&& split_authors(model.authors@) == Some(names_of(p.book.authors@))
                    &&& p.book.publisher.name == model.publisher
                    &&& p.book.title == model.title
                    &&& p.book.edition == model.edition
                    &&& p.book.date_published == model.date_published
                    &&& p.book.original_date_published == model.original_date_published
                    &&& p.book.price == model.price
                    &&& p.book.binding == model.binding
                    &&& p.book.isbn == model.isbn
                    &&& p.book.pages == model.pages
                    &&& p.book.owned == model.owned
                },
                Err(e) => split_authors(model.authors@) is None && is_invalid(e, "authors"@),
            },
    {
        match Book::try_from(model) {
            Ok(book) => Ok(AddBookPlan { book, next: StoreRequest::SavePublisher }),
            Err(e) => Err(e),
        }
    }

    /// What the store must do next.
    pub fn request(&self) -> (r: StoreRequest)
        ensures
            r == self.next,
    {
        match self.next {
            StoreRequest::SavePublisher => StoreRequest::SavePublisher,
            StoreRequest::SaveAuthor(i) => StoreRequest::SaveAuthor(i),
            StoreRequest::SaveBook => StoreRequest::SaveBook,
            StoreRequest::Finished => StoreRequest::Finished,
        }
    }

    /// Records the identifier that the store gave for the current request
    /// and moves to the next one.
    pub fn resolve(&mut self, id: u32)
        requires
            old(self).wf(),
            old(self).next != StoreRequest::Finished,
        ensures
            final(self).wf(),
            final(self).next == following(old(self).next, old(self).book.authors@.len()),
            final(self).book.title == old(self).book.title,
            final(self).book.edition == old(self).book.edition,
            final(self).book.date_published == old(self).book.date_published,
            final(self).book.original_date_published == old(self).book.original_date_published,
            final(self).book.price == old(self).book.price,
            final(self).book.binding == old(self).book.binding,
            final(self).book.isbn == old(self).book.isbn,
            final(self).book.pages == old(self).book.pages,
            final(self).book.owned == old(self).book.owned,
            final(self).book.publisher.name == old(self).book.publisher.name,
            names_of(final(self).book.authors@) == names_of(old(self).book.authors@),
            final(self).book.publisher.id == (if old(self).next == StoreRequest::SavePublisher {
                id
            } else {
                old(self).book.publisher.id
            }),
            forall|i: int|
                0 <= i < final(self).book.authors@.len() ==> (#[trigger] final(self).book.authors@[i]).id
                    == (if old(self).next == StoreRequest::SaveAuthor(i as usize) {
                    id
                } else {
                    old(self).book.authors@[i].id
                }),
            final(self).book.id == (if old(self).next == StoreRequest::SaveBook {
                id
            } else {
                old(self).book.id
            }),
    {
        let n = self.book.authors.len();
        match self.next {
            StoreRequest::SavePublisher => {
                self.book.publisher.id = id;
                self.next = if n > 0 {
                    StoreRequest::SaveAuthor(0)
                } else {
                    StoreRequest::SaveBook
                };
            },
            StoreRequest::SaveAuthor(i) => {
                let mut a = self.book.authors.remove(i);
                a.id = id;
                self.book.authors.insert(i, a);
                assert(names_of(self.book.authors@) =~= names_of(old(self).book.authors@));
                self.next = if i + 1 < n {
                    StoreRequest::SaveAuthor(i + 1)
                } else {
                    StoreRequest::SaveBook
                };
            },
            _ => {
                self.book.id = id;
                self.next = StoreRequest::Finished;
            },
        }
    }

    /// The book with the identifiers resolved so far.
    pub fn into_book(self) -> (r: Book)
        ensures
            r == self.book,
    {
        self.book
    }
}

#[verifier::external_type_specification]
#[verifier::external_body]
pub struct ExPathBuf(std::path::PathBuf);

/// Where the catalogue is stored.
pub struct BookRepository {
    pub storage_path: std::path::PathBuf,
}

impl BookRepository {
    pub fn new(storage_path: std::path::PathBuf) -> (r: BookRepository)
        ensures
            r.storage_path == storage_path,
    {
        BookRepository { storage_path }
    }
}

} // verus!
