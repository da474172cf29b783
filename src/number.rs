//! Decimal numerals: page counts as `u32` reads and writes them, and prices
//! as exact decimal numbers written as `f64` text is.
use vstd::prelude::*;
use crate::text::{char_vec, find_in, index_of, lemma_index_of, string_of};

verus! {

pub open spec fn is_digit(c: char) -> bool {
    '0' <= c <= '9'
}

pub open spec fn digit_value(c: char) -> nat {
    (c as int - '0' as int) as nat
}

pub open spec fn digit_char(d: nat) -> char {
    (d + '0' as int) as char
}

pub open spec fn all_digits(t: Seq<char>) -> bool {
    forall|i: int| 0 <= i < t.len() ==> is_digit(#[trigger] t[i])
}

/// The value of a string of decimal digits, most significant first.
pub open spec fn digits_value(t: Seq<char>) -> nat
    decreases t.len(),
{
    if t.len() == 0 {
        0
    } else {
        digits_value(t.drop_last()) * 10 + digit_value(t.last())
    }
}

/// The shortest decimal numeral of `n`.
pub open spec fn decimal(n: nat) -> Seq<char>
    decreases n,
{
    if n < 10 {
        seq![digit_char(n)]
    } else {
        decimal(n / 10).push(digit_char(n % 10))
    }
}

/// What `u32::from_str` accepts: an optional `+`, then one or more digits
/// whose value fits in a `u32`.
pub open spec fn parse_u32_spec(t: Seq<char>) -> Option<u32> {
    let d = if t.len() > 0 && t[0] == '+' {
        t.drop_first()
    } else {
        t
    };
    if d.len() > 0 && all_digits(d) && digits_value(d) <= u32::MAX {
        Some(digits_value(d) as u32)
    } else {
        None
    }
}

pub proof fn lemma_digits_value_monotone(t: Seq<char>, i: int)
    requires
        0 <= i <= t.len(),
    ensures
        digits_value(t.subrange(0, i)) <= digits_value(t),
    decreases t.len() - i,
{
    if i < t.len() {
        lemma_digits_value_monotone(t, i + 1);
        assert(t.subrange(0, i + 1).drop_last() =~= t.subrange(0, i));
        assert(digits_value(t.subrange(0, i + 1)) == digits_value(t.subrange(0, i)) * 10
            + digit_value(t[i]));
    } else {
        assert(t.subrange(0, i) =~= t);
    }
}

pub proof fn lemma_decimal(n: nat)
    ensures
        decimal(n).len() > 0,
        all_digits(decimal(n)),
        digits_value(decimal(n)) == n,
        decimal(n)[0] != '+',
        decimal(n).len() == 1 || decimal(n)[0] != '0',
    decreases n,
{
    if n >= 10 {
        lemma_decimal(n / 10);
        let d = decimal(n);
        assert(d.drop_last() =~= decimal(n / 10));
        assert(d[0] == decimal(n / 10)[0]);
        assert(digits_value(d) == digits_value(decimal(n / 10)) * 10 + digit_value(d.last()));
        assert((n / 10) * 10 + n % 10 == n && n / 10 >= 1 && n % 10 < 10) by (nonlinear_arith)
            requires n >= 10;
        assert(forall|i: int|
            0 <= i < d.len() - 1 ==> d[i] == #[trigger] decimal(n / 10)[i]);
        assert(digit_value(digit_char(n % 10)) == n % 10);
        assert(digits_value(decimal(n / 10)) * 10 == (n / 10) * 10);
        if n / 10 < 10 {
            assert(digit_char(n / 10) != '0');
        } else {
            assert(decimal(n / 10).len() == decimal(n / 100).len() + 1);
        }
    } else {
        assert(decimal(n).drop_last() =~= Seq::<char>::empty());
        assert(digits_value(Seq::<char>::empty()) == 0);
        assert(digit_value(digit_char(n)) == n);
        assert(digits_value(decimal(n)) == digits_value(decimal(n).drop_last()) * 10
            + digit_value(decimal(n).last()));
    }
}

pub fn digit_to_char(d: u64) -> (r: char)
    requires
        d < 10,
    ensures
        r == digit_char(d as nat),
        is_digit(r),
        digit_value(r) == d,
{
    if d == 0 { '0' }
    else if d == 1 { '1' }
    else if d == 2 { '2' }
    else if d == 3 { '3' }
    else if d == 4 { '4' }
    else if d == 5 { '5' }
    else if d == 6 { '6' }
    else if d == 7 { '7' }
    else if d == 8 { '8' }
    else { '9' }
}

/// Appends the decimal numeral of `n` to `out`.
pub fn push_decimal(n: u64, out: &mut Vec<char>)
    ensures
        final(out)@ == old(out)@ + decimal(n as nat),
    decreases n,
{
    if n >= 10 {
        push_decimal(n / 10, out);
    }
    out.push(digit_to_char(n % 10));
    proof {
        if n >= 10 {
            assert(decimal(n as nat) == decimal((n / 10) as nat).push(digit_char((n % 10) as nat)));
        }
    }
    assert(final(out)@ =~= old(out)@ + decimal(n as nat));
}

/// The value of the digits `t[a..b]` when all are digits and the value is at
/// most `limit`.
pub fn digits_upto(t: &Vec<char>, a: usize, b: usize, limit: u128) -> (r: Option<u128>)
    requires
        a <= b <= t@.len(),
    ensures
        r == (if all_digits(t@.subrange(a as int, b as int)) && digits_value(
            t@.subrange(a as int, b as int),
        ) <= limit {
            Some(digits_value(t@.subrange(a as int, b as int)) as u128)
        } else {
            None::<u128>
        }),
{
    let ghost u = t@.subrange(a as int, b as int);
    let mut v: u128 = 0;
    let mut i: usize = a;
    while i < b
        invariant
            a <= i <= b <= t@.len(),
            u == t@.subrange(a as int, b as int),
            v <= limit,
            all_digits(u.subrange(0, i - a)),
            v == digits_value(u.subrange(0, i - a)),
        decreases b - i,
    {
        let c = t[i];
        proof {
            assert(u[i - a] == c);
        }
        if !('0' <= c && c <= '9') {
            return None;
        }
        let d = (c as u32 - '0' as u32) as u128;
        proof {
            assert(u.subrange(0, i - a + 1).drop_last() =~= u.subrange(0, i - a));
        }
        if v > limit / 10 {
            proof {
                assert(v * 10 > limit) by (nonlinear_arith)
                    requires v > limit / 10;
                lemma_digits_value_monotone(u, i - a + 1);
                assert(u.subrange(0, u.len() as int) =~= u);
            }
            return None;
        }
        assert(v * 10 <= limit) by (nonlinear_arith)
            requires v <= limit / 10;
        if d > limit - v * 10 {
            proof {
                lemma_digits_value_monotone(u, i - a + 1);
                assert(u.subrange(0, u.len() as int) =~= u);
            }
            return None;
        }
        v = v * 10 + d;
        i = i + 1;
        assert forall|j: int| 0 <= j < i - a implies is_digit(
            #[trigger] u.subrange(0, i - a)[j],
        ) by {
            if j < i - a - 1 {
                assert(u.subrange(0, i - a)[j] == u.subrange(0, i - a - 1)[j]);
            }
        }
    }
    assert(u.subrange(0, b - a) =~= u);
    Some(v)
}

/// The numeral of a `u32` reads back as the same number.
pub proof fn lemma_u32_round_trip(n: u32)
    ensures
        parse_u32_spec(decimal(n as nat)) == Some(n),
{
    lemma_decimal(n as nat);
}

/// Reads a page count as `u32::from_str` does.
pub fn parse_u32(t: &Vec<char>) -> (r: Option<u32>)
    ensures
        r == parse_u32_spec(t@),
{
    let mut s: usize = 0;
    if t.len() > 0 && t[0] == '+' {
        s = 1;
        assert(t@.drop_first() =~= t@.subrange(1, t@.len() as int));
    } else {
        assert(t@ =~= t@.subrange(0, t@.len() as int));
    }
    if s == t.len() {
        return None;
    }
    match digits_upto(t, s, t.len(), 4294967295u128) {
        Some(v) => Some(v as u32),
        None => None,
    }
}

/// A price as an exact decimal number: `(-1)^negative × digits × 10^exponent`,
/// where `digits` has no leading or trailing zero and is empty for zero.
#[derive(Debug)]
pub struct Price {
    negative: bool,
    digits: String,
    exponent: i64,
}

/// A `Price` as values.
pub struct PriceView {
    pub negative: bool,
    pub digits: Seq<char>,
    pub exponent: int,
}

impl View for Price {
    type V = PriceView;

    closed spec fn view(&self) -> PriceView {
        PriceView { negative: self.negative, digits: self.digits@, exponent: self.exponent as int }
    }
}

impl PartialEq for Price {
    fn eq(&self, o: &Price) -> (r: bool)
        ensures
            r == (self@ == o@),
    {
        self.negative == o.negative && self.digits == o.digits && self.exponent == o.exponent
    }
}

impl vstd::std_specs::cmp::PartialEqSpecImpl for Price {
    open spec fn obeys_eq_spec() -> bool {
        true
    }

    open spec fn eq_spec(&self, o: &Price) -> bool {
        self@ == o@
    }
}

/// The length of a leading `+` or `-`.
pub open spec fn sign_len(t: Seq<char>) -> int {
    if t.len() > 0 && (t[0] == '+' || t[0] == '-') {
        1
    } else {
        0
    }
}

/// Position of the first `e` or `E` in `t`, or `t.len()`.
pub open spec fn exp_index(t: Seq<char>) -> nat
    decreases t.len(),
{
    if t.len() == 0 {
        0
    } else if t[0] == 'e' || t[0] == 'E' {
        0
    } else {
        1 + exp_index(t.drop_first())
    }
}

/// Number of leading `0` of `t`.
pub open spec fn lead_zeros(t: Seq<char>) -> nat
    decreases t.len(),
{
    if t.len() > 0 && t[0] == '0' {
        1 + lead_zeros(t.drop_first())
    } else {
        0
    }
}

/// Number of trailing `0` of `t`.
pub open spec fn trail_zeros(t: Seq<char>) -> nat
    decreases t.len(),
{
    if t.len() > 0 && t.last() == '0' {
        1 + trail_zeros(t.drop_last())
    } else {
        0
    }
}

/// The value of an exponent: an optional sign, then one or more digits.
pub open spec fn exponent_value(x: Seq<char>) -> Option<int> {
    let d = x.subrange(sign_len(x), x.len() as int);
    if d.len() > 0 && all_digits(d) {
        Some(
            if sign_len(x) == 1 && x[0] == '-' {
                -digits_value(d)
            } else {
                digits_value(d) as int
            },
        )
    } else {
        None
    }
}

/// Whether a price text starts with `-`.
pub open spec fn is_negative(t: Seq<char>) -> bool {
    sign_len(t) == 1 && t[0] == '-'
}

/// The parts of a number text after its sign: the digits before the `.`,
/// the digits after it, and the value of the exponent (`0` when there is
/// none, `None` when it is malformed).
pub open spec fn float_parts(t: Seq<char>) -> (Seq<char>, Seq<char>, Option<int>) {
    let body = t.subrange(sign_len(t), t.len() as int);
    let e = exp_index(body);
    let mant = body.subrange(0, e as int);
    let k = index_of(mant, '.');
    let fp = if k < mant.len() {
        mant.subrange(k as int + 1, mant.len() as int)
    } else {
        Seq::empty()
    };
    let ev = if e < body.len() {
        exponent_value(body.subrange(e as int + 1, body.len() as int))
    } else {
        Some(0int)
    };
    (mant.subrange(0, k as int), fp, ev)
}

/// The price `(-1)^negative × d × 10^shift` for a string of digits `d`, in
/// its canonical form; `None` when its exponent does not fit an `i64`.
pub open spec fn exact_value(negative: bool, d: Seq<char>, shift: int) -> Option<PriceView> {
    let d1 = d.subrange(lead_zeros(d) as int, d.len() as int);
    let tz = trail_zeros(d1);
    let sig = d1.subrange(0, d1.len() - tz);
    let x = shift + tz;
    if sig.len() == 0 {
        Some(PriceView { negative: false, digits: Seq::empty(), exponent: 0 })
    } else if i64::MIN <= x <= i64::MAX {
        Some(PriceView { negative, digits: sig, exponent: x })
    } else {
        None
    }
}

/// What a price text reads as. The text is what `f64::from_str` takes for a
/// decimal number: an optional sign, digits with at most one `.` among them
/// (at least one digit in all), then optionally `e` or `E`, an optional sign
/// and digits. The value is kept exactly; its exponent must fit an `i64`.
#[verifier::opaque]
pub open spec fn parse_price_spec(t: Seq<char>) -> Option<PriceView> {
    let p = float_parts(t);
    if all_digits(p.0) && all_digits(p.1) && p.0.len() + p.1.len() > 0 && p.2 is Some {
        exact_value(is_negative(t), p.0 + p.1, p.2->0 - p.1.len())
    } else {
        None
    }
}

/// `n` zeros.
pub open spec fn zeros(n: nat) -> Seq<char> {
    Seq::new(n, |i: int| '0')
}

/// The plain decimal text of a price, as `f64`'s `Display` writes such a
/// value: `20`, `19.99`, `0.125`, `100`.
pub open spec fn price_text(v: PriceView) -> Seq<char> {
    let sign = if v.negative {
        seq!['-']
    } else {
        Seq::empty()
    };
    let n = v.digits.len();
    if n == 0 {
        seq!['0']
    } else if v.exponent >= 0 {
        sign + v.digits + zeros(v.exponent as nat)
    } else if -v.exponent < n {
        let p = n + v.exponent;
        sign + v.digits.subrange(0, p) + seq!['.'] + v.digits.subrange(p, n as int)
    } else {
        sign + seq!['0', '.'] + zeros((-v.exponent - n) as nat) + v.digits
    }
}

proof fn lemma_count_lead(t: Seq<char>, k: int)
    requires
        0 <= k <= t.len(),
        forall|j: int| 0 <= j < k ==> t[j] == '0',
        k == t.len() || t[k] != '0',
    ensures
        lead_zeros(t) == k,
    decreases t.len(),
{
    if k > 0 {
        lemma_count_lead(t.drop_first(), k - 1);
    }
}

proof fn lemma_count_trail(t: Seq<char>, k: int)
    requires
        0 <= k <= t.len(),
        forall|j: int| t.len() - k <= j < t.len() ==> t[j] == '0',
        k == t.len() || t[t.len() - k - 1] != '0',
    ensures
        trail_zeros(t) == k,
    decreases t.len(),
{
    if k > 0 {
        lemma_count_trail(t.drop_last(), k - 1);
    }
}

proof fn lemma_exp_index(t: Seq<char>, k: int)
    requires
        0 <= k <= t.len(),
        forall|j: int| 0 <= j < k ==> t[j] != 'e' && t[j] != 'E',
        k == t.len() || t[k] == 'e' || t[k] == 'E',
    ensures
        exp_index(t) == k,
    decreases t.len(),
{
    if k > 0 {
        lemma_exp_index(t.drop_first(), k - 1);
    }
}

/// Whether `t[a..b]` are all digits.
fn digits_in(t: &Vec<char>, a: usize, b: usize) -> (r: bool)
    requires
        a <= b <= t@.len(),
    ensures
        r == all_digits(t@.subrange(a as int, b as int)),
{
    let mut i = a;
    while i < b
        invariant
            a <= i <= b <= t@.len(),
            forall|j: int| a <= j < i ==> is_digit(t@[j]),
        decreases b - i,
    {
        if !('0' <= t[i] && t[i] <= '9') {
            assert(!is_digit(t@.subrange(a as int, b as int)[i - a]));
            return false;
        }
        i = i + 1;
    }
    assert forall|j: int| 0 <= j < b - a implies is_digit(
        #[trigger] t@.subrange(a as int, b as int)[j],
    ) by {
        assert(t@.subrange(a as int, b as int)[j] == t@[a + j]);
    }
    true
}

/// The position of the first `e` or `E` in `t[from..to]`, or `to`.
fn find_exp(t: &Vec<char>, from: usize, to: usize) -> (r: usize)
    requires
        from <= to <= t@.len(),
    ensures
        r == from + exp_index(t@.subrange(from as int, to as int)),
        from <= r <= to,
{
    let mut k = from;
    while k < to && t[k] != 'e' && t[k] != 'E'
        invariant
            from <= k <= to <= t@.len(),
            forall|j: int| from <= j < k ==> t@[j] != 'e' && t@[j] != 'E',
        decreases to - k,
    {
        k = k + 1;
    }
    proof {
        lemma_exp_index(t@.subrange(from as int, to as int), k - from);
    }
    k
}

/// The bounds `(s, k, fs, e)` of the parts of a number text: its digits
/// before the `.` are `t[s..k]`, after it `t[fs..e]`, and an exponent, if
/// any, follows position `e`.
fn locate(t: &Vec<char>) -> (r: (usize, usize, usize, usize))
    ensures
        r.0 == sign_len(t@),
        r.0 <= r.1 <= r.2 <= r.3 <= t@.len(),
        float_parts(t@).0 == t@.subrange(r.0 as int, r.1 as int),
        float_parts(t@).1 == t@.subrange(r.2 as int, r.3 as int),
        r.3 < t@.len() ==> float_parts(t@).2 == exponent_value(
            t@.subrange(r.3 + 1, t@.len() as int),
        ),
        r.3 == t@.len() ==> float_parts(t@).2 == Some(0int),
{
    let n = t.len();
    let s: usize = if n > 0 && (t[0] == '+' || t[0] == '-') {
        1
    } else {
        0
    };
    let ghost body = t@.subrange(s as int, n as int);
    let e = find_exp(t, s, n);
    let k = find_in(t, '.', s, e);
    let fs = if k < e {
        k + 1
    } else {
        e
    };
    proof {
        let mant = body.subrange(0, e - s);
        assert(mant =~= t@.subrange(s as int, e as int));
        assert(mant.subrange(0, k - s) =~= t@.subrange(s as int, k as int));
        if k < e {
            assert(mant.subrange(k - s + 1, mant.len() as int) =~= t@.subrange(fs as int, e as int));
        } else {
            assert(t@.subrange(fs as int, e as int) =~= Seq::<char>::empty());
        }
        if e < n {
            assert(body.subrange(e - s + 1, body.len() as int) =~= t@.subrange(e + 1, n as int));
        }
    }
    (s, k, fs, e)
}

/// The exponent written in `t[from..]`, with a value beyond `limit` on
/// either side brought to `limit + 1` of that sign.
fn read_exponent(t: &Vec<char>, from: usize, limit: u128) -> (r: Option<i128>)
    requires
        from <= t@.len(),
        limit < 0x1_0000_0000_0000_0000_0000_0000,
    ensures
        match exponent_value(t@.subrange(from as int, t@.len() as int)) {
            None => r is None,
            Some(v) => r matches Some(c) && (if v > limit {
                c == limit + 1
            } else if v < -limit {
                c == -(limit + 1)
            } else {
                c == v
            }),
        },
{
    let n = t.len();
    let neg = from < n && t[from] == '-';
    let ds: usize = if from < n && (t[from] == '+' || t[from] == '-') {
        from + 1
    } else {
        from
    };
    proof {
        let x = t@.subrange(from as int, n as int);
        assert(x.subrange(sign_len(x), x.len() as int) =~= t@.subrange(ds as int, n as int));
    }
    if ds == n {
        return None;
    }
    match digits_upto(t, ds, n, limit) {
        Some(v) => if neg {
            Some(-(v as i128))
        } else {
            Some(v as i128)
        },
        None => if digits_in(t, ds, n) {
            if neg {
                Some(-(limit as i128 + 1))
            } else {
                Some(limit as i128 + 1)
            }
        } else {
            None
        },
    }
}

/// `t[s..k]` followed by `t[fs..e]`.
fn concat_ranges(t: &Vec<char>, s: usize, k: usize, fs: usize, e: usize) -> (d: Vec<char>)
    requires
        s <= k <= t@.len(),
        fs <= e <= t@.len(),
    ensures
        d@ == t@.subrange(s as int, k as int) + t@.subrange(fs as int, e as int),
{
    let mut d: Vec<char> = Vec::new();
    push_range(t, s, k, &mut d);
    push_range(t, fs, e, &mut d);
    d
}

/// Both shifts put the exponent of any non-zero value out of range the same
/// way, so the exact value is the same.
proof fn lemma_far_shifts(negative: bool, d: Seq<char>, s1: int, s2: int)
    requires
        (s1 > i64::MAX && s2 > i64::MAX) || (s1 + d.len() < i64::MIN && s2 + d.len() < i64::MIN),
    ensures
        exact_value(negative, d, s1) == exact_value(negative, d, s2),
{
    lemma_lead_bound(d);
    let d1 = d.subrange(lead_zeros(d) as int, d.len() as int);
    lemma_trail_bound(d1);
}

/// The canonical price `(-1)^negative × d × 10^shift`.
fn exact(negative: bool, d: &Vec<char>, shift: i128) -> (r: Option<Price>)
    requires
        -0x1_0000_0000_0000_0000_0000_0000 < shift < 0x1_0000_0000_0000_0000_0000_0000,
    ensures
        match exact_value(negative, d@, shift as int) {
            Some(v) => r matches Some(p) && p@ == v,
            None => r is None,
        },
{
    let dn = d.len();
    let mut lz: usize = 0;
    while lz < dn && d[lz] == '0'
        invariant
            lz <= dn == d@.len(),
            forall|j: int| 0 <= j < lz ==> d@[j] == '0',
        decreases dn - lz,
    {
        lz = lz + 1;
    }
    proof {
        lemma_count_lead(d@, lz as int);
    }
    let mut hi: usize = dn;
    while hi > lz && d[hi - 1] == '0'
        invariant
            lz <= hi <= dn == d@.len(),
            forall|j: int| hi <= j < dn ==> d@[j] == '0',
        decreases hi,
    {
        hi = hi - 1;
    }
    let ghost d1 = d@.subrange(lz as int, dn as int);
    proof {
        assert forall|j: int| d1.len() - (dn - hi) <= j < d1.len() implies d1[j] == '0' by {
            assert(d1[j] == d@[lz + j]);
        }
        if hi > lz {
            assert(d1[d1.len() - (dn - hi) - 1] == d@[hi - 1]);
        }
        lemma_count_trail(d1, (dn - hi) as int);
        assert(d1.subrange(0, d1.len() - (dn - hi)) =~= d@.subrange(lz as int, hi as int));
    }
    if hi == lz {
        return Some(Price { negative: false, digits: String::new(), exponent: 0 });
    }
    let x: i128 = shift + (dn - hi) as i128;
    if x < -9223372036854775808i128 || x > 9223372036854775807i128 {
        return None;
    }
    let mut sig: Vec<char> = Vec::new();
    push_range(d, lz, hi, &mut sig);
    Some(Price { negative, digits: string_of(&sig), exponent: x as i64 })
}

/// Reads a price from its text.
pub fn parse_price(t: &Vec<char>) -> (r: Option<Price>)
    ensures
        match parse_price_spec(t@) {
            Some(v) => r is Some && r->0@ == v,
            None => r is None,
        },
{
    reveal(parse_price_spec);
    let n = t.len();
    let (s, k, fs, e) = locate(t);
    if !digits_in(t, s, k) || !digits_in(t, fs, e) || (k == s && fs == e) {
        return None;
    }
    let limit: u128 = 9223372036854775808u128 + n as u128;
    let ev: i128 = if e < n {
        match read_exponent(t, e + 1, limit) {
            Some(c) => c,
            None => return None,
        }
    } else {
        0
    };
    let negative = s == 1 && t[0] == '-';
    let d = concat_ranges(t, s, k, fs, e);
    let shift = ev - (e - fs) as i128;
    proof {
        let p = float_parts(t@);
        let v = p.2->0;
        let true_shift = v - p.1.len();
        if v > limit || v < -(limit as int) {
            lemma_far_shifts(negative, d@, true_shift, shift as int);
        }
    }
    exact(negative, &d, shift)
}

proof fn lemma_lead_bound(t: Seq<char>)
    ensures
        lead_zeros(t) <= t.len(),
    decreases t.len(),
{
    if t.len() > 0 && t[0] == '0' {
        lemma_lead_bound(t.drop_first());
    }
}

proof fn lemma_trail_bound(t: Seq<char>)
    ensures
        trail_zeros(t) <= t.len(),
    decreases t.len(),
{
    if t.len() > 0 && t.last() == '0' {
        lemma_trail_bound(t.drop_last());
    }
}

fn push_zeros(count: u64, out: &mut Vec<char>)
    ensures
        final(out)@ == old(out)@ + zeros(count as nat),
{
    let mut i: u64 = 0;
    while i < count
        invariant
            i <= count,
            out@ == old(out)@ + zeros(i as nat),
        decreases count - i,
    {
        out.push('0');
        i = i + 1;
        assert(out@ =~= old(out)@ + zeros(i as nat));
    }
}

fn push_range(d: &Vec<char>, a: usize, b: usize, out: &mut Vec<char>)
    requires
        a <= b <= d@.len(),
    ensures
        final(out)@ == old(out)@ + d@.subrange(a as int, b as int),
{
    let mut i = a;
    while i < b
        invariant
            a <= i <= b <= d@.len(),
            out@ == old(out)@ + d@.subrange(a as int, i as int),
        decreases b - i,
    {
        out.push(d[i]);
        i = i + 1;
        assert(out@ =~= old(out)@ + d@.subrange(a as int, i as int));
    }
}

/// Appends the text of a price to `out`.
pub fn push_price(p: &Price, out: &mut Vec<char>)
    ensures
        final(out)@ == old(out)@ + price_text(p@),
{
    let d = char_vec(p.digits.as_str());
    let n = d.len();
    if n == 0 {
        out.push('0');
        assert(final(out)@ =~= old(out)@ + price_text(p@));
        return;
    }
    if p.negative {
        out.push('-');
    }
    if p.exponent >= 0 {
        push_range(&d, 0, n, out);
        push_zeros(p.exponent as u64, out);
    } else {
        let m: u64 = (-(p.exponent as i128)) as u64;
        if (m as u128) < (n as u128) {
            let q = n - m as usize;
            push_range(&d, 0, q, out);
            out.push('.');
            push_range(&d, q, n, out);
        } else {
            out.push('0');
            out.push('.');
            push_zeros(m - n as u64, out);
            push_range(&d, 0, n, out);
        }
    }
    assert(d@.subrange(0, n as int) =~= d@);
    assert(final(out)@ =~= old(out)@ + price_text(p@));
}

impl Price {
    /// Reads a price from text such as `20`, `19.99`, `0.125` or `1e2`.
    pub fn parse(s: &str) -> (r: Option<Price>)
        ensures
            match parse_price_spec(s@) {
                Some(v) => r is Some && r->0@ == v,
                None => r is None,
            },
    {
        parse_price(&char_vec(s))
    }

    /// The price in plain decimal text.
    pub fn to_text(&self) -> (r: String)
        ensures
            r@ == price_text(self@),
    {
        let mut out: Vec<char> = Vec::new();
        push_price(self, &mut out);
        string_of(&out)
    }
}

} // verus!
