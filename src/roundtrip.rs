//! The editable text of a model reads back as the same model.
use vstd::prelude::*;
use crate::error::FieldErrorView;
use crate::isbn_db::{adapted, IsbnDbBook};
use crate::models::{
    apply_line, editor_lines, finish, fold_lines, key_of, labels, lines_of, no_fields,
    parse_spec, render, strip_cr, value_of, values, Fields, ModelView,
};
use crate::number::{
    decimal, lemma_decimal, lemma_u32_round_trip,
};
use crate::text::{
    is_trimmed, is_white, join_with, lemma_index_of, lemma_lead, lemma_trail, trim,
};

verus! {

/// A text that a line of the format carries unchanged: no line break, and
/// no white space at either end.
pub open spec fn is_clean(t: Seq<char>) -> bool {
    is_trimmed(t) && forall|i: int| 0 <= i < t.len() ==> t[i] != '\n'
}

/// A model that the text format can carry: clean texts, an original date
/// that is unset or not empty, and no price (as the adapter leaves it).
pub open spec fn fits_text_format(m: ModelView) -> bool {
    &&& is_clean(m.authors)
    &&& is_clean(m.publisher)
    &&& is_clean(m.title)
    &&& is_clean(m.edition)
    &&& is_clean(m.date_published)
    &&& match m.original_date_published {
        Some(v) => v.len() > 0 && is_clean(v),
        None => true,
    }
    &&& m.price is None
    &&& is_clean(m.binding)
    &&& is_clean(m.isbn)
}

/// The lines joined with `nl` between each two, from the front.
pub open spec fn join_lines(ls: Seq<Seq<char>>, nl: Seq<char>) -> Seq<char>
    decreases ls.len(),
{
    if ls.len() <= 1 {
        if ls.len() == 0 {
            Seq::empty()
        } else {
            ls[0]
        }
    } else {
        ls[0] + nl + join_lines(ls.drop_first(), nl)
    }
}

proof fn lemma_join_lines_snoc(ls: Seq<Seq<char>>, nl: Seq<char>)
    requires
        ls.len() >= 2,
    ensures
        join_lines(ls, nl) == join_lines(ls.drop_last(), nl) + nl + ls.last(),
    decreases ls.len(),
{
    if ls.len() > 2 {
        lemma_join_lines_snoc(ls.drop_first(), nl);
        assert(ls.drop_first().drop_last() =~= ls.drop_last().drop_first());
        assert(join_lines(ls, nl) =~= join_lines(ls.drop_last(), nl) + nl + ls.last());
    } else {
        assert(join_lines(ls.drop_first(), nl) == ls[1]);
        assert(join_lines(ls.drop_last(), nl) == ls[0]);
    }
}

proof fn lemma_join_from_front(ls: Seq<Seq<char>>, nl: Seq<char>)
    ensures
        join_with(ls, nl) == join_lines(ls, nl),
    decreases ls.len(),
{
    if ls.len() >= 2 {
        lemma_join_from_front(ls.drop_last(), nl);
        lemma_join_lines_snoc(ls, nl);
    }
}

/// A line that is not empty, holds no line break and does not end in `\r`.
pub open spec fn plain_line(l: Seq<char>) -> bool {
    l.len() > 0 && l.last() != '\r' && forall|i: int| 0 <= i < l.len() ==> l[i] != '\n'
}

proof fn lemma_lines_of_join(ls: Seq<Seq<char>>, nl: Seq<char>)
    requires
        ls.len() >= 1,
        forall|i: int| 0 <= i < ls.len() ==> plain_line(#[trigger] ls[i]),
        nl == seq!['\n'] || nl == seq!['\r', '\n'],
    ensures
        lines_of(join_lines(ls, nl)) == ls,
    decreases ls.len(),
{
    let l = ls[0];
    assert(plain_line(l));
    if ls.len() == 1 {
        lemma_index_of(l, '\n', l.len() as int);
        assert(lines_of(l) == seq![l]);
        assert(seq![l] =~= ls);
    } else {
        let rest = ls.drop_first();
        assert forall|i: int| 0 <= i < rest.len() implies plain_line(#[trigger] rest[i]) by {
            assert(rest[i] == ls[i + 1]);
        }
        lemma_lines_of_join(rest, nl);
        let j = join_lines(rest, nl);
        let t = l + nl + j;
        let k = l.len() + nl.len() - 1;
        assert forall|i: int| 0 <= i < k implies t[i] != '\n' by {
            if i < l.len() {
                assert(t[i] == l[i]);
            } else {
                assert(t[i] == '\r');
            }
        }
        assert(t[k] == '\n');
        lemma_index_of(t, '\n', k);
        assert(strip_cr(t.subrange(0, k)) =~= l);
        assert(t.subrange(k + 1, t.len() as int) =~= j);
        assert(lines_of(t) == seq![l] + rest);
        assert(seq![l] + rest =~= ls);
    }
}

/// A labelled line reads back its label and its clean value.
proof fn lemma_line(label: Seq<char>, v: Seq<char>)
    requires
        forall|i: int| 0 <= i < label.len() ==> label[i] != ':',
        is_trimmed(v),
    ensures
        key_of(label + seq![':', ' '] + v) == label,
        value_of(label + seq![':', ' '] + v) == v,
{
    let line = label + seq![':', ' '] + v;
    let k = label.len() as int;
    assert forall|i: int| 0 <= i < k implies line[i] != ':' by {
        assert(line[i] == label[i]);
    }
    lemma_index_of(line, ':', k);
    assert(key_of(line) =~= label);
    let u = line.subrange(k + 1, line.len() as int);
    assert(u =~= seq![' '] + v);
    if v.len() == 0 {
        lemma_lead(u, 1);
        assert(trim(u) =~= v);
    } else {
        lemma_lead(u, 1);
        assert(u[u.len() - 1] == v.last());
        lemma_trail(u, 0);
        assert(u.subrange(1, u.len() as int) =~= v);
    }
}

proof fn lemma_clean_plain(label: Seq<char>, v: Seq<char>)
    requires
        label.len() > 0,
        forall|i: int| 0 <= i < label.len() ==> label[i] != '\n',
        is_clean(v),
    ensures
        plain_line(label + seq![':', ' '] + v),
{
    let l = label + seq![':', ' '] + v;
    if v.len() > 0 {
        assert(l.last() == v.last());
        assert(!is_white(v.last()));
    }
    assert forall|i: int| 0 <= i < l.len() implies l[i] != '\n' by {
        if i >= label.len() + 2 {
            assert(l[i] == v[i - label.len() - 2]);
        }
    }
}

proof fn lemma_labels()
    ensures
        forall|i: int, j: int|
            0 <= i < 11 && 0 <= j < labels()[i].len() ==> labels()[i][j] != ':' && labels()[i][j]
                != '\n',
        forall|i: int| 0 <= i < 11 ==> labels()[i].len() > 0,
        ": "@ == seq![':', ' '],
{
    reveal_strlit(": ");
    reveal_strlit("Author(s)");
    reveal_strlit("Publisher");
    reveal_strlit("Title");
    reveal_strlit("Edition");
    reveal_strlit("Date Published");
    reveal_strlit("Original Date Published");
    reveal_strlit("Price");
    reveal_strlit("Binding");
    reveal_strlit("ISBN");
    reveal_strlit("Pages");
    reveal_strlit("Owned");
    assert(": "@ =~= seq![':', ' ']);
}

/// The lines of a model that the format can carry each read back their label
/// and value.
proof fn lemma_editor_lines(m: ModelView)
    requires
        fits_text_format(m),
    ensures
        forall|i: int|
            0 <= i < 11 ==> key_of(#[trigger] editor_lines(m)[i]) == labels()[i] && value_of(
                editor_lines(m)[i],
            ) == values(m)[i] && plain_line(editor_lines(m)[i]),
{
    lemma_labels();
    lemma_decimal(m.pages as nat);
    reveal_strlit("true");
    reveal_strlit("false");
    let vs = values(m);
    assert forall|i: int| 0 <= i < 11 implies is_clean(#[trigger] vs[i]) by {
        if i == 9 {
            assert forall|j: int| 0 <= j < vs[i].len() implies vs[i][j] != '\n' by {
                assert(crate::number::is_digit(vs[i][j]));
            }
        }

    }
    assert forall|i: int| 0 <= i < 11 implies key_of(#[trigger] editor_lines(m)[i])
        == labels()[i] && value_of(editor_lines(m)[i]) == values(m)[i] && plain_line(
        editor_lines(m)[i],
    ) by {
        assert(is_clean(vs[i]));
        lemma_line(labels()[i], vs[i]);
        lemma_clean_plain(labels()[i], vs[i]);
    }
}

/// Rendering a model that the format can carry, with either line ending, and
/// parsing the text gives back the same model.
#[verifier::rlimit(50)]
pub proof fn lemma_round_trip(m: ModelView, nl: Seq<char>)
    requires
        fits_text_format(m),
        nl == "\n"@ || nl == "\r\n"@,
    ensures
        parse_spec(render(m, nl)) == Ok::<ModelView, FieldErrorView>(m),
{
    let ls = editor_lines(m);
    assert(nl == seq!['\n'] || nl == seq!['\r', '\n']) by {
        reveal_strlit("\n");
        reveal_strlit("\r\n");
        if nl == "\n"@ {
            assert(nl =~= seq!['\n']);
        } else {
            assert(nl =~= seq!['\r', '\n']);
        }
    }
    lemma_editor_lines(m);
    lemma_join_from_front(ls, nl);
    lemma_lines_of_join(ls, nl);
    lemma_u32_round_trip(m.pages);
    lemma_fields(m, ls);
}

/// A fetched record whose texts the format can carry is adapted into a model
/// that rendering and parsing give back unchanged, with either line ending.
pub proof fn lemma_adapted_round_trip(item: IsbnDbBook, nl: Seq<char>)
    requires
        fits_text_format(adapted(item)),
        nl == "\n"@ || nl == "\r\n"@,
    ensures
        parse_spec(render(adapted(item), nl)) == Ok::<ModelView, FieldErrorView>(adapted(item)),
{
    lemma_round_trip(adapted(item), nl);
}

#[verifier::rlimit(80)]
proof fn lemma_fields(m: ModelView, ls: Seq<Seq<char>>)
    requires
        fits_text_format(m),
        ls == editor_lines(m),
        forall|i: int|
            0 <= i < 11 ==> key_of(#[trigger] ls[i]) == labels()[i] && value_of(ls[i])
                == values(m)[i],
        crate::number::parse_u32_spec(decimal(m.pages as nat)) == Some(m.pages),
    ensures
        fold_lines(no_fields(), ls) == Ok::<Fields, FieldErrorView>(
            Fields {
                authors: Some(m.authors),
                publisher: Some(m.publisher),
                title: Some(m.title),
                edition: Some(m.edition),
                date_published: Some(m.date_published),
                original_date_published: m.original_date_published,
                price: m.price,
                binding: Some(m.binding),
                isbn: Some(m.isbn),
                pages: Some(m.pages),
                owned: Some(m.owned),
            },
        ),
        finish(
            Fields {
                authors: Some(m.authors),
                publisher: Some(m.publisher),
                title: Some(m.title),
                edition: Some(m.edition),
                date_published: Some(m.date_published),
                original_date_published: m.original_date_published,
                price: m.price,
                binding: Some(m.binding),
                isbn: Some(m.isbn),
                pages: Some(m.pages),
                owned: Some(m.owned),
            },
        ) == Ok::<ModelView, FieldErrorView>(m),
{
    let f0 = no_fields();
    let f1 = Fields { authors: Some(m.authors), ..f0 };
    let f2 = Fields { publisher: Some(m.publisher), ..f1 };
    let f3 = Fields { title: Some(m.title), ..f2 };
    let f4 = Fields { edition: Some(m.edition), ..f3 };
    let f5 = Fields { date_published: Some(m.date_published), ..f4 };
    let f6 = Fields { original_date_published: m.original_date_published, ..f5 };
    let f7 = Fields { price: m.price, ..f6 };
    let f8 = Fields { binding: Some(m.binding), ..f7 };
    let f9 = Fields { isbn: Some(m.isbn), ..f8 };
    let f10 = Fields { pages: Some(m.pages), ..f9 };
    let f11 = Fields { owned: Some(m.owned), ..f10 };
    let fs = seq![f0, f1, f2, f3, f4, f5, f6, f7, f8, f9, f10, f11];
    assert forall|i: int| 0 <= i < 11 implies apply_line(#[trigger] fs[i], ls[i]) == Ok::<
        Fields,
        FieldErrorView,
    >(fs[i + 1]) by {
        lemma_apply(m, fs[i], ls[i], i);
    }
    assert forall|i: int| 0 <= i <= 11 implies fold_lines(#[trigger] fs[i], ls.subrange(i, 11))
        == fold_lines(f11, Seq::<Seq<char>>::empty()) by {
        lemma_fold_from(fs, ls, i);
    }
    assert(ls.subrange(0, 11) =~= ls);
    assert(fold_lines(f11, Seq::<Seq<char>>::empty()) == Ok::<Fields, FieldErrorView>(f11));
}

#[verifier::rlimit(80)]
proof fn lemma_fold_from(fs: Seq<Fields>, ls: Seq<Seq<char>>, i: int)
    requires
        fs.len() == 12,
        ls.len() == 11,
        0 <= i <= 11,
        forall|j: int| 0 <= j < 11 ==> apply_line(#[trigger] fs[j], ls[j]) == Ok::<
            Fields,
            FieldErrorView,
        >(fs[j + 1]),
    ensures
        fold_lines(fs[i], ls.subrange(i, 11)) == fold_lines(fs[11], Seq::<Seq<char>>::empty()),
    decreases 11 - i,
{
    if i < 11 {
        lemma_fold_from(fs, ls, i + 1);
        assert(ls.subrange(i, 11).drop_first() =~= ls.subrange(i + 1, 11));
        assert(ls.subrange(i, 11)[0] == ls[i]);
        assert(apply_line(fs[i], ls[i]) == Ok::<Fields, FieldErrorView>(fs[i + 1]));
    } else {
        assert(ls.subrange(11, 11) =~= Seq::<Seq<char>>::empty());
    }
}

#[verifier::rlimit(50)]
proof fn lemma_apply(m: ModelView, f: Fields, line: Seq<char>, i: int)
    requires
        fits_text_format(m),
        0 <= i < 11,
        key_of(line) == labels()[i],
        value_of(line) == values(m)[i],
        crate::number::parse_u32_spec(decimal(m.pages as nat)) == Some(m.pages),
    ensures
        apply_line(f, line) == Ok::<Fields, FieldErrorView>(
            if i == 0 {
                Fields { authors: Some(m.authors), ..f }
            } else if i == 1 {
                Fields { publisher: Some(m.publisher), ..f }
            } else if i == 2 {
                Fields { title: Some(m.title), ..f }
            } else if i == 3 {
                Fields { edition: Some(m.edition), ..f }
            } else if i == 4 {
                Fields { date_published: Some(m.date_published), ..f }
            } else if i == 5 {
                Fields { original_date_published: m.original_date_published, ..f }
            } else if i == 6 {
                Fields { price: m.price, ..f }
            } else if i == 7 {
                Fields { binding: Some(m.binding), ..f }
            } else if i == 8 {
                Fields { isbn: Some(m.isbn), ..f }
            } else if i == 9 {
                Fields { pages: Some(m.pages), ..f }
            } else {
                Fields { owned: Some(m.owned), ..f }
            },
        ),
{
    reveal_strlit("Author(s)");
    reveal_strlit("Publisher");
    reveal_strlit("Title");
    reveal_strlit("Edition");
    reveal_strlit("Date Published");
    reveal_strlit("Original Date Published");
    reveal_strlit("Price");
    reveal_strlit("Binding");
    reveal_strlit("ISBN");
    reveal_strlit("Pages");
    reveal_strlit("Owned");
    reveal_strlit("true");
    reveal_strlit("false");
    let key = key_of(line);
    if i == 0 {
        assert(key =~= "Author(s)"@);
    } else if i == 1 {
        assert(key =~= "Publisher"@);
        assert(key[0] == 'P' && key.len() == 9);
    } else if i == 2 {
        assert(key =~= "Title"@);
        assert(key[0] == 'T' && key.len() == 5);
    } else if i == 3 {
        assert(key =~= "Edition"@);
        assert(key[0] == 'E' && key.len() == 7);
    } else if i == 4 {
        assert(key =~= "Date Published"@);
        assert(key[0] == 'D' && key.len() == 14);
    } else if i == 5 {
        assert(key =~= "Original Date Published"@);
        assert(key[0] == 'O' && key.len() == 23);
    } else if i == 6 {
        assert(key =~= "Price"@);
        assert(key[0] == 'P' && key[1] == 'r' && key.len() == 5);
        assert(value_of(line).len() == 0);
    } else if i == 7 {
        assert(key =~= "Binding"@);
        assert(key[0] == 'B' && key.len() == 7);
    } else if i == 8 {
        assert(key =~= "ISBN"@);
        assert(key[0] == 'I' && key.len() == 4);
    } else if i == 9 {
        assert(key =~= "Pages"@);
        assert(key[0] == 'P' && key[1] == 'a' && key.len() == 5);
    } else {
        assert(key =~= "Owned"@);
        assert(key[0] == 'O' && key.len() == 5);
        if m.owned {
            assert(value_of(line) == "true"@);
        } else {
            assert(value_of(line) == "false"@);
            assert(value_of(line)[0] == 'f');
        }
    }
}

} // verus!
