//! Character-level helpers shared by the text format and the author list.
use vstd::prelude::*;

verus! {

/// Position of the first `c` in `t`, or `t.len()` when `t` holds none.
pub open spec fn index_of(t: Seq<char>, c: char) -> nat
    decreases t.len(),
{
    if t.len() == 0 {
        0
    } else if t[0] == c {
        0
    } else {
        1 + index_of(t.drop_first(), c)
    }
}

/// `index_of` is the first position of `c`, or the length when none occurs.
pub proof fn lemma_index_of(t: Seq<char>, c: char, k: int)
    requires
        0 <= k <= t.len(),
        forall|j: int| 0 <= j < k ==> t[j] != c,
        k == t.len() || t[k] == c,
    ensures
        index_of(t, c) == k,
    decreases t.len(),
{
    if t.len() > 0 && t[0] != c {
        lemma_index_of(t.drop_first(), c, k - 1);
    }
}

/// The characters for which `char::is_whitespace` holds (Unicode `White_Space`).
pub open spec fn is_white(c: char) -> bool {
    ('\u{9}' <= c <= '\u{d}') || c == ' ' || c == '\u{85}' || c == '\u{a0}' || c == '\u{1680}'
        || ('\u{2000}' <= c <= '\u{200a}') || c == '\u{2028}' || c == '\u{2029}' || c
        == '\u{202f}' || c == '\u{205f}' || c == '\u{3000}'
}

pub fn is_white_char(c: char) -> (r: bool)
    ensures
        r == is_white(c),
{
    ('\u{9}' <= c && c <= '\u{d}') || c == ' ' || c == '\u{85}' || c == '\u{a0}' || c
        == '\u{1680}' || ('\u{2000}' <= c && c <= '\u{200a}') || c == '\u{2028}' || c
        == '\u{2029}' || c == '\u{202f}' || c == '\u{205f}' || c == '\u{3000}'
}

/// Number of leading white-space characters of `t`.
pub open spec fn lead(t: Seq<char>) -> nat
    decreases t.len(),
{
    if t.len() > 0 && is_white(t[0]) {
        1 + lead(t.drop_first())
    } else {
        0
    }
}

/// Number of trailing white-space characters of `t`.
pub open spec fn trail(t: Seq<char>) -> nat
    decreases t.len(),
{
    if t.len() > 0 && is_white(t.last()) {
        1 + trail(t.drop_last())
    } else {
        0
    }
}

/// `t` without its leading and trailing white space, as `str::trim` gives it.
pub open spec fn trim(t: Seq<char>) -> Seq<char> {
    let a = lead(t);
    if a == t.len() {
        Seq::empty()
    } else {
        t.subrange(a as int, t.len() - trail(t))
    }
}

/// A text that `trim` leaves as it is.
pub open spec fn is_trimmed(t: Seq<char>) -> bool {
    t.len() == 0 || (!is_white(t[0]) && !is_white(t.last()))
}

pub proof fn lemma_lead(t: Seq<char>, k: int)
    requires
        0 <= k <= t.len(),
        forall|j: int| 0 <= j < k ==> is_white(#[trigger] t[j]),
        k == t.len() || !is_white(t[k]),
    ensures
        lead(t) == k,
    decreases t.len(),
{
    if k > 0 {
        lemma_lead(t.drop_first(), k - 1);
    }
}

pub proof fn lemma_trail(t: Seq<char>, k: int)
    requires
        0 <= k <= t.len(),
        forall|j: int| t.len() - k <= j < t.len() ==> is_white(#[trigger] t[j]),
        k == t.len() || !is_white(t[t.len() - k - 1]),
    ensures
        trail(t) == k,
    decreases t.len(),
{
    if k > 0 {
        lemma_trail(t.drop_last(), k - 1);
    }
}

/// The characters of `s`, one by one.
pub fn char_vec(s: &str) -> (r: Vec<char>)
    ensures
        r@ == s@,
{
    let n = s.unicode_len();
    let mut r: Vec<char> = Vec::new();
    let mut i: usize = 0;
    while i < n
        invariant
            n == s@.len(),
            i <= n,
            r@ == s@.subrange(0, i as int),
        decreases n - i,
    {
        r.push(s.get_char(i));
        i = i + 1;
        assert(r@ =~= s@.subrange(0, i as int));
    }
    assert(r@ =~= s@);
    r
}

/// An owned copy of the characters `a..b` of `s`.
pub fn text_slice(s: &str, a: usize, b: usize) -> (r: String)
    requires
        a <= b <= s@.len(),
    ensures
        r@ == s@.subrange(a as int, b as int),
{
    String::from_str(s.substring_char(a, b))
}

/// First position of `c` in `t[from..to]`, or `to` when it holds none.
pub fn find_in(t: &Vec<char>, c: char, from: usize, to: usize) -> (r: usize)
    requires
        from <= to <= t@.len(),
    ensures
        from <= r <= to,
        r == from + index_of(t@.subrange(from as int, to as int), c),
{
    let mut k = from;
    while k < to && t[k] != c
        invariant
            from <= k <= to <= t@.len(),
            forall|j: int| from <= j < k ==> t@[j] != c,
        decreases to - k,
    {
        k = k + 1;
    }
    proof {
        let u = t@.subrange(from as int, to as int);
        lemma_index_of(u, c, k - from);
    }
    k
}

/// The bounds `(a, b)` of `trim(t[from..to])` inside `t`.
pub fn trim_bounds(t: &Vec<char>, from: usize, to: usize) -> (r: (usize, usize))
    requires
        from <= to <= t@.len(),
    ensures
        from <= r.0 <= r.1 <= to,
        t@.subrange(r.0 as int, r.1 as int) == trim(t@.subrange(from as int, to as int)),
{
    let ghost u = t@.subrange(from as int, to as int);
    let mut a = from;
    while a < to && is_white_char(t[a])
        invariant
            from <= a <= to <= t@.len(),
            forall|j: int| from <= j < a ==> is_white(#[trigger] t@[j]),
        decreases to - a,
    {
        a = a + 1;
    }
    proof {
        assert forall|j: int| 0 <= j < a - from implies is_white(#[trigger] u[j]) by {
            assert(u[j] == t@[from + j]);
        }
        lemma_lead(u, a - from);
    }
    if a == to {
        assert(trim(u) =~= t@.subrange(a as int, a as int));
        return (a, a);
    }
    let mut b = to;
    while b > a && is_white_char(t[b - 1])
        invariant
            a < to,
            from <= a <= b <= to <= t@.len(),
            !is_white(t@[a as int]),
            forall|j: int| b <= j < to ==> is_white(#[trigger] t@[j]),
        decreases b,
    {
        b = b - 1;
    }
    proof {
        assert forall|j: int| u.len() - (to - b) <= j < u.len() implies is_white(
            #[trigger] u[j],
        ) by {
            assert(u[j] == t@[from + j]);
        }
        if b > a {
            assert(u[u.len() - (to - b) - 1] == t@[b - 1]);
        } else {
            assert(u[u.len() - (to - b) - 1] == t@[a as int]);
        }
        lemma_trail(u, to - b);
        assert(trim(u) =~= t@.subrange(a as int, b as int));
    }
    (a, b)
}

/// Relies on `String::push`: appends one character.
#[verifier::external_body]
fn push_char(s: &mut String, c: char)
    ensures
        final(s)@ == old(s)@.push(c),
{
    s.push(c)
}

/// A string of the given characters.
pub fn string_of(v: &Vec<char>) -> (r: String)
    ensures
        r@ == v@,
{
    let mut r = String::new();
    let mut i: usize = 0;
    while i < v.len()
        invariant
            i <= v@.len(),
            r@ == v@.subrange(0, i as int),
        decreases v@.len() - i,
    {
        push_char(&mut r, v[i]);
        i = i + 1;
        assert(r@ =~= v@.subrange(0, i as int));
    }
    assert(v@.subrange(0, v@.len() as int) =~= v@);
    r
}

/// Appends the characters of `s` to `out`.
pub fn push_str(out: &mut Vec<char>, s: &str)
    ensures
        final(out)@ == old(out)@ + s@,
{
    let n = s.unicode_len();
    let mut i: usize = 0;
    while i < n
        invariant
            n == s@.len(),
            i <= n,
            out@ == old(out)@ + s@.subrange(0, i as int),
        decreases n - i,
    {
        out.push(s.get_char(i));
        i = i + 1;
        assert(out@ =~= old(out)@ + s@.subrange(0, i as int));
    }
    assert(s@.subrange(0, n as int) =~= s@);
}

/// Whether the characters `a..b` of `t` are exactly `lit`.
pub fn same_text(t: &Vec<char>, a: usize, b: usize, lit: &str) -> (r: bool)
    requires
        a <= b <= t@.len(),
    ensures
        r == (t@.subrange(a as int, b as int) == lit@),
{
    let n = lit.unicode_len();
    if b - a != n {
        return false;
    }
    let mut i: usize = 0;
    while i < n
        invariant
            n == lit@.len(),
            b - a == n,
            a <= b <= t@.len(),
            i <= n,
            forall|j: int| 0 <= j < i ==> t@[a + j] == lit@[j],
        decreases n - i,
    {
        if t[a + i] != lit.get_char(i) {
            assert(t@.subrange(a as int, b as int)[i as int] != lit@[i as int]);
            return false;
        }
        i = i + 1;
    }
    assert(t@.subrange(a as int, b as int) =~= lit@);
    true
}

/// The texts of a list of strings.
pub open spec fn texts_of(v: Seq<String>) -> Seq<Seq<char>> {
    v.map_values(|s: String| s@)
}

/// The parts joined with `sep` between each two, as `[String]::join` does.
pub open spec fn join_with(parts: Seq<Seq<char>>, sep: Seq<char>) -> Seq<char>
    decreases parts.len(),
{
    if parts.len() == 0 {
        Seq::empty()
    } else if parts.len() == 1 {
        parts[0]
    } else {
        join_with(parts.drop_last(), sep) + sep + parts.last()
    }
}

/// The parts of `v` joined with `sep`.
pub fn join(v: &Vec<String>, sep: &str) -> (r: String)
    ensures
        r@ == join_with(texts_of(v@), sep@),
{
    let mut out: Vec<char> = Vec::new();
    let mut i: usize = 0;
    while i < v.len()
        invariant
            i <= v@.len(),
            out@ == join_with(texts_of(v@).subrange(0, i as int), sep@),
        decreases v@.len() - i,
    {
        let ghost before = out@;
        if i > 0 {
            push_str(&mut out, sep);
        }
        push_str(&mut out, v[i].as_str());
        proof {
            let p = texts_of(v@).subrange(0, i + 1);
            assert(p.drop_last() =~= texts_of(v@).subrange(0, i as int));
            if i == 0 {
                assert(join_with(Seq::<Seq<char>>::empty(), sep@) == Seq::<char>::empty());
                assert(out@ =~= p[0]);
            } else {
                assert(out@ =~= before + sep@ + p.last());
            }
        }
        i = i + 1;
    }
    assert(texts_of(v@).subrange(0, v@.len() as int) =~= texts_of(v@));
    string_of(&out)
}

} // verus!
