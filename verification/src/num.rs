//! Exact decimal numbers: the numeric values that fills and validation
//! rules carry, held as a sign, a digit mantissa and a decimal scale.
//!
//! A value is `(-1)^neg * mant / 10^scale`. Comparisons cross-multiply,
//! so they are exact; rendering and parsing are verified inverses of the
//! canonical decimal grammar.

use vstd::prelude::*;

verus! {

/// Largest admitted decimal scale. Keeping the scale at or below this
/// bound lets every cross-multiplied comparison fit in a machine word.
pub const MAX_SCALE: u32 = 9;

/// Largest admitted count of mantissa digits: 19 decimal digits always
/// fit in a `u64`.
pub const MAX_DIGITS: usize = 19;

/// An exact decimal number: `(-1)^neg * mant / 10^scale`.
///
/// A value parsed or built without a fractional part has `scale == 0`;
/// that is what the whole-number validation predicate tests.
#[derive(Clone, Copy, Debug)]
pub struct Number {
    /// True for negative values.
    pub neg: bool,
    /// All decimal digits, fractional digits included.
    pub mant: u64,
    /// How many of the mantissa's low digits are fractional.
    pub scale: u32,
}

/// 10^e.
pub open spec fn pow10(e: nat) -> nat
    decreases e,
{
    if e == 0 {
        1
    } else {
        10 * pow10((e - 1) as nat)
    }
}

pub proof fn lemma_pow10_positive(e: nat)
    ensures
        pow10(e) >= 1,
    decreases e,
{
    if e > 0 {
        lemma_pow10_positive((e - 1) as nat);
    }
}

pub proof fn lemma_pow10_increases(a: nat, b: nat)
    requires
        a <= b,
    ensures
        pow10(a) <= pow10(b),
    decreases b,
{
    if a < b {
        lemma_pow10_increases(a, (b - 1) as nat);
        lemma_pow10_positive((b - 1) as nat);
    }
}

pub proof fn lemma_pow10_9()
    ensures
        pow10(9) == 1000000000,
{
    reveal_with_fuel(pow10, 11);
}

pub proof fn lemma_pow10_19()
    ensures
        pow10(19) == 10000000000000000000,
{
    reveal_with_fuel(pow10, 21);
}

impl Number {
    /// The signed mantissa: this value times `10^scale`.
    pub open spec fn signed_mant(self) -> int {
        if self.neg {
            -(self.mant as int)
        } else {
            self.mant as int
        }
    }

    /// Well-formed: the scale is small enough for exact comparison,
    /// and zero carries no sign.
    pub open spec fn wf(self) -> bool {
        &&& self.scale <= MAX_SCALE
        &&& (self.mant == 0 ==> !self.neg)
    }

    /// A whole number: no fractional digits were given.
    pub open spec fn spec_is_whole(self) -> bool {
        self.scale == 0
    }

    /// Whether this value was given without a fractional part.
    pub fn is_whole(&self) -> (r: bool)
        ensures
            r == self.spec_is_whole(),
    {
        self.scale == 0
    }

    /// Build a whole number from a machine integer.
    pub fn from_i64(v: i64) -> (r: Number)
        ensures
            r.wf(),
            r.scale == 0,
            r.signed_mant() == v as int,
    {
        if v >= 0 {
            Number { neg: false, mant: v as u64, scale: 0 }
        } else {
            let wide: i128 = v as i128;
            let positive: i128 = -wide;
            assert(0 < positive <= u64::MAX);
            Number { neg: true, mant: positive as u64, scale: 0 }
        }
    }
}

/// `a == b` as mathematical numbers: cross-multiplied exact comparison.
pub open spec fn num_eq(a: Number, b: Number) -> bool {
    a.signed_mant() * pow10(b.scale as nat) == b.signed_mant() * pow10(a.scale as nat)
}

/// `a < b` as mathematical numbers.
pub open spec fn num_lt(a: Number, b: Number) -> bool {
    a.signed_mant() * pow10(b.scale as nat) < b.signed_mant() * pow10(a.scale as nat)
}

/// `a <= b` as mathematical numbers.
pub open spec fn num_le(a: Number, b: Number) -> bool {
    a.signed_mant() * pow10(b.scale as nat) <= b.signed_mant() * pow10(a.scale as nat)
}

/// 10^e as a machine integer, for cross-multiplication.
fn pow10_i128(e: u32) -> (r: i128)
    requires
        e <= MAX_SCALE,
    ensures
        r == pow10(e as nat),
        1 <= r <= 1000000000,
{
    proof {
        lemma_pow10_increases(e as nat, 9);
        lemma_pow10_9();
    }
    let mut r: i128 = 1;
    let mut i: u32 = 0;
    while i < e
        invariant
            i <= e <= MAX_SCALE,
            r == pow10(i as nat),
            1 <= r <= 1000000000,
        decreases e - i,
    {
        proof {
            lemma_pow10_increases((i + 1) as nat, 9);
            lemma_pow10_9();
        }
        r = r * 10;
        i = i + 1;
    }
    r
}

/// The signed mantissa as a machine integer.
fn signed_mant_i128(n: &Number) -> (r: i128)
    ensures
        r == n.signed_mant(),
{
    if n.neg {
        -(n.mant as i128)
    } else {
        n.mant as i128
    }
}

/// The two cross products whose comparison decides every ordering query.
fn cross(a: &Number, b: &Number) -> (r: (i128, i128))
    requires
        a.wf(),
        b.wf(),
    ensures
        r.0 == a.signed_mant() * pow10(b.scale as nat),
        r.1 == b.signed_mant() * pow10(a.scale as nat),
{
    let sa = signed_mant_i128(a);
    let sb = signed_mant_i128(b);
    let pa = pow10_i128(a.scale);
    let pb = pow10_i128(b.scale);
    proof {
        assert(-(u64::MAX as i128) <= sa <= u64::MAX as i128);
        assert(-(u64::MAX as i128) <= sb <= u64::MAX as i128);
        assert((-(u64::MAX as i128)) * 1000000000 <= sa * pb <= (u64::MAX as i128) * 1000000000
            && (-(u64::MAX as i128)) * 1000000000 <= sb * pa <= (u64::MAX as i128) * 1000000000)
            by (nonlinear_arith)
            requires
                -(u64::MAX as i128) <= sa <= u64::MAX as i128,
                -(u64::MAX as i128) <= sb <= u64::MAX as i128,
                1 <= pa <= 1000000000,
                1 <= pb <= 1000000000,
        ;
    }
    (sa * pb, sb * pa)
}

/// `a < b` on values.
pub fn num_lt_exec(a: &Number, b: &Number) -> (r: bool)
    requires
        a.wf(),
        b.wf(),
    ensures
        r == num_lt(*a, *b),
{
    let (x, y) = cross(a, b);
    x < y
}

/// `a <= b` on values.
pub fn num_le_exec(a: &Number, b: &Number) -> (r: bool)
    requires
        a.wf(),
        b.wf(),
    ensures
        r == num_le(*a, *b),
{
    let (x, y) = cross(a, b);
    x <= y
}

/// `a == b` on values.
pub fn num_eq_exec(a: &Number, b: &Number) -> (r: bool)
    requires
        a.wf(),
        b.wf(),
    ensures
        r == num_eq(*a, *b),
{
    let (x, y) = cross(a, b);
    x == y
}

/// The character for one decimal digit.
pub open spec fn digit_char(d: int) -> char {
    if d == 0 {
        '0'
    } else if d == 1 {
        '1'
    } else if d == 2 {
        '2'
    } else if d == 3 {
        '3'
    } else if d == 4 {
        '4'
    } else if d == 5 {
        '5'
    } else if d == 6 {
        '6'
    } else if d == 7 {
        '7'
    } else if d == 8 {
        '8'
    } else {
        '9'
    }
}

/// The decimal digits of `n`, most significant first, no leading zero.
pub open spec fn dec_digits(n: nat) -> Seq<char>
    decreases n,
{
    if n < 10 {
        seq![digit_char(n as int)]
    } else {
        dec_digits(n / 10).push(digit_char((n % 10) as int))
    }
}

/// The low `width` decimal digits of `f`, most significant first,
/// zero-padded on the left to exactly `width` characters.
pub open spec fn padded_digits(f: nat, width: nat) -> Seq<char>
    decreases width,
{
    if width == 0 {
        Seq::empty()
    } else {
        padded_digits(f / 10, (width - 1) as nat).push(digit_char((f % 10) as int))
    }
}

/// The shortest form of a mantissa and scale: trailing zero fraction
/// digits are dropped, down to one fraction digit for a value that
/// was written with a fraction at all.
pub open spec fn spec_reduce(mant: nat, scale: nat) -> (nat, nat)
    decreases scale,
{
    if scale <= 1 || mant % 10 != 0 {
        (mant, scale)
    } else {
        spec_reduce(mant / 10, (scale - 1) as nat)
    }
}

impl Number {
    /// This value with its fraction reduced to the shortest form.
    pub open spec fn reduced(self) -> Number {
        Number {
            neg: self.neg,
            mant: spec_reduce(self.mant as nat, self.scale as nat).0 as u64,
            scale: spec_reduce(self.mant as nat, self.scale as nat).1 as u32,
        }
    }
}

/// The canonical decimal string of a number: an optional minus sign,
/// the integer digits without leading zeros, and, for a fractional
/// value, a point and the shortest exact run of fraction digits.
pub open spec fn spec_render(n: Number) -> Seq<char> {
    let sign: Seq<char> = if n.neg {
        seq!['-']
    } else {
        Seq::empty()
    };
    let mant = spec_reduce(n.mant as nat, n.scale as nat).0;
    let scale = spec_reduce(n.mant as nat, n.scale as nat).1;
    let ip = mant / pow10(scale);
    let fp = mant % pow10(scale);
    if scale == 0 {
        sign + dec_digits(mant)
    } else {
        sign + dec_digits(ip) + seq!['.'] + padded_digits(fp, scale)
    }
}

/// A decimal digit character.
pub open spec fn is_digit(c: char) -> bool {
    c == '0' || c == '1' || c == '2' || c == '3' || c == '4' || c == '5' || c == '6' || c == '7'
        || c == '8' || c == '9'
}

/// The value of a decimal digit character.
pub open spec fn digit_val(c: char) -> int {
    if c == '0' {
        0
    } else if c == '1' {
        1
    } else if c == '2' {
        2
    } else if c == '3' {
        3
    } else if c == '4' {
        4
    } else if c == '5' {
        5
    } else if c == '6' {
        6
    } else if c == '7' {
        7
    } else if c == '8' {
        8
    } else {
        9
    }
}

/// Every character is a decimal digit.
pub open spec fn all_digits(s: Seq<char>) -> bool {
    forall|i: int| 0 <= i < s.len() ==> is_digit(#[trigger] s[i])
}

/// The value of a digit string, most significant digit first.
pub open spec fn digits_val(s: Seq<char>) -> int
    decreases s.len(),
{
    if s.len() == 0 {
        0
    } else {
        digits_val(s.drop_last()) * 10 + digit_val(s.last())
    }
}

/// The index of the first decimal point, or the length if there is none.
pub open spec fn find_dot(s: Seq<char>) -> int
    decreases s.len(),
{
    if s.len() == 0 {
        0
    } else if s[0] == '.' {
        0
    } else {
        1 + find_dot(s.subrange(1, s.len() as int))
    }
}

/// A run of digits that stands for an integer: nonempty, and with no
/// leading zero unless it is the single digit zero.
pub open spec fn int_token(s: Seq<char>) -> bool {
    s.len() > 0 && all_digits(s) && (s.len() > 1 ==> s[0] != '0')
}

/// The characters after an optional leading minus sign.
pub open spec fn body_of(s: Seq<char>) -> Seq<char> {
    if s.len() > 0 && s[0] == '-' {
        s.subrange(1, s.len() as int)
    } else {
        s
    }
}

/// The strings the decimal parser accepts: an optional minus sign, an
/// integer token, and optionally a point followed by one or more digit
/// characters — within the machine bounds on digit count and scale.
pub open spec fn parseable(s: Seq<char>) -> bool {
    let b = body_of(s);
    let k = find_dot(b);
    if k == b.len() {
        int_token(b) && b.len() <= MAX_DIGITS
    } else {
        let ip = b.subrange(0, k);
        let fp = b.subrange(k + 1, b.len() as int);
        int_token(ip) && fp.len() > 0 && all_digits(fp) && ip.len() + fp.len() <= MAX_DIGITS
            && fp.len() <= MAX_SCALE
    }
}

/// The number a parseable string stands for. A negative zero is
/// normalized to plain zero.
pub open spec fn parsed_number(s: Seq<char>) -> Number {
    let b = body_of(s);
    let k = find_dot(b);
    let digits = if k == b.len() {
        b
    } else {
        b.subrange(0, k) + b.subrange(k + 1, b.len() as int)
    };
    let scale = if k == b.len() {
        0
    } else {
        b.len() - k - 1
    };
    let v = digits_val(digits);
    Number {
        neg: s.len() > b.len() && v != 0,
        mant: v as u64,
        scale: scale as u32,
    }
}

proof fn lemma_find_dot_is(b: Seq<char>, j: int)
    requires
        0 <= j <= b.len(),
        forall|i: int| 0 <= i < j ==> b[i] != '.',
        j < b.len() ==> b[j] == '.',
    ensures
        find_dot(b) == j,
    decreases b.len(),
{
    if b.len() == 0 {
    } else if b[0] == '.' {
        assert(j == 0);
    } else {
        let t = b.subrange(1, b.len() as int);
        assert(forall|i: int| 0 <= i < j - 1 ==> t[i] != '.');
        lemma_find_dot_is(t, j - 1);
    }
}

proof fn lemma_find_dot_props(b: Seq<char>)
    ensures
        0 <= find_dot(b) <= b.len(),
        find_dot(b) < b.len() ==> b[find_dot(b)] == '.',
        forall|i: int| 0 <= i < find_dot(b) ==> b[i] != '.',
    decreases b.len(),
{
    if b.len() == 0 {
    } else if b[0] == '.' {
    } else {
        let t = b.subrange(1, b.len() as int);
        lemma_find_dot_props(t);
        assert(forall|i: int| 1 <= i < find_dot(b) ==> b[i] == t[i - 1]);
    }
}

proof fn lemma_find_dot_ge(b: Seq<char>, j: int)
    requires
        0 <= j <= b.len(),
        forall|i: int| 0 <= i < j ==> b[i] != '.',
    ensures
        find_dot(b) >= j,
{
    lemma_find_dot_props(b);
    if find_dot(b) < j {
        assert(b[find_dot(b)] == '.');
    }
}

pub(crate) proof fn lemma_digits_val_push(t: Seq<char>, c: char)
    ensures
        digits_val(t.push(c)) == digits_val(t) * 10 + digit_val(c),
{
    assert(t.push(c).drop_last() =~= t);
    assert(t.push(c).last() == c);
}

pub(crate) proof fn lemma_digits_val_nonneg(t: Seq<char>)
    ensures
        digits_val(t) >= 0,
    decreases t.len(),
{
    if t.len() > 0 {
        lemma_digits_val_nonneg(t.drop_last());
        assert(0 <= digit_val(t.last()) <= 9);
    }
}

proof fn lemma_digits_val_bound(t: Seq<char>)
    requires
        all_digits(t),
    ensures
        0 <= digits_val(t) < pow10(t.len()),
    decreases t.len(),
{
    if t.len() == 0 {
    } else {
        assert(all_digits(t.drop_last()));
        lemma_digits_val_bound(t.drop_last());
        assert(0 <= digit_val(t.last()) <= 9);
    }
}

/// One decimal digit as a string.
fn digit_string(d: u64) -> (s: String)
    requires
        d < 10,
    ensures
        s@ =~= seq![digit_char(d as int)],
{
    proof {
        reveal_strlit("0");
        reveal_strlit("1");
        reveal_strlit("2");
        reveal_strlit("3");
        reveal_strlit("4");
        reveal_strlit("5");
        reveal_strlit("6");
        reveal_strlit("7");
        reveal_strlit("8");
        reveal_strlit("9");
    }
    let s: &str = match d {
        0 => "0",
        1 => "1",
        2 => "2",
        3 => "3",
        4 => "4",
        5 => "5",
        6 => "6",
        7 => "7",
        8 => "8",
        _ => "9",
    };
    s.to_owned()
}

/// The decimal digits of `n`, without leading zeros.
fn u64_digits(n: u64) -> (s: String)
    ensures
        s@ == dec_digits(n as nat),
    decreases n,
{
    if n < 10 {
        let s = digit_string(n);
        assert(s@ =~= dec_digits(n as nat));
        s
    } else {
        let mut s = u64_digits(n / 10);
        let last = digit_string(n % 10);
        s.append(last.as_str());
        assert(s@ =~= dec_digits(n as nat));
        s
    }
}

/// The low `width` decimal digits of `f`, zero-padded to `width`.
pub(crate) fn u64_padded_digits(f: u64, width: u32) -> (s: String)
    ensures
        s@ == padded_digits(f as nat, width as nat),
    decreases width,
{
    if width == 0 {
        let s = String::new();
        assert(s@ =~= padded_digits(f as nat, 0));
        s
    } else {
        let mut s = u64_padded_digits(f / 10, width - 1);
        let last = digit_string(f % 10);
        s.append(last.as_str());
        assert(s@ =~= padded_digits(f as nat, width as nat));
        s
    }
}

proof fn lemma_digit_char_val(d: int)
    requires
        0 <= d <= 9,
    ensures
        is_digit(digit_char(d)),
        digit_val(digit_char(d)) == d,
{
}

proof fn lemma_dec_digits_props(m: nat)
    ensures
        dec_digits(m).len() >= 1,
        all_digits(dec_digits(m)),
        digits_val(dec_digits(m)) == m,
        dec_digits(m).len() > 1 ==> dec_digits(m)[0] != '0',
        m >= 1 ==> dec_digits(m)[0] != '0',
    decreases m,
{
    if m < 10 {
        lemma_digit_char_val(m as int);
        assert(digits_val(dec_digits(m)) == digits_val(
            dec_digits(m).drop_last(),
        ) * 10 + digit_val(dec_digits(m).last()));
        assert(dec_digits(m).drop_last() =~= Seq::<char>::empty());
    } else {
        lemma_dec_digits_props(m / 10);
        lemma_digit_char_val((m % 10) as int);
        let t = dec_digits(m / 10);
        lemma_digits_val_push(t, digit_char((m % 10) as int));
        assert(dec_digits(m)[0] == t[0]);
        assert(forall|i: int|
            0 <= i < dec_digits(m).len() ==> dec_digits(m)[i] == (if i < t.len() {
                t[i]
            } else {
                digit_char((m % 10) as int)
            }));
    }
}

proof fn lemma_dec_digits_len(m: nat, k: nat)
    requires
        k >= 1,
        m < pow10(k),
    ensures
        dec_digits(m).len() <= k,
    decreases m,
{
    if m < 10 {
    } else {
        if k == 1 {
            assert(pow10(1) == 10) by {
                reveal_with_fuel(pow10, 2);
            }
        }
        lemma_dec_digits_len(m / 10, (k - 1) as nat);
    }
}

proof fn lemma_padded_digits_props(f: nat, w: nat)
    requires
        f < pow10(w),
    ensures
        padded_digits(f, w).len() == w,
        all_digits(padded_digits(f, w)),
        digits_val(padded_digits(f, w)) == f,
    decreases w,
{
    if w == 0 {
    } else {
        lemma_pow10_positive((w - 1) as nat);
        assert(f / 10 < pow10((w - 1) as nat)) by (nonlinear_arith)
            requires
                f < pow10(w),
                pow10(w) == 10 * pow10((w - 1) as nat),
                pow10((w - 1) as nat) >= 1,
        ;
        lemma_padded_digits_props(f / 10, (w - 1) as nat);
        lemma_digit_char_val((f % 10) as int);
        let t = padded_digits(f / 10, (w - 1) as nat);
        let c = digit_char((f % 10) as int);
        lemma_digits_val_push(t, c);
        assert(padded_digits(f, w) =~= t.push(c));
        assert(forall|i: int|
            0 <= i < w ==> padded_digits(f, w)[i] == (if i < w - 1 {
                t[i]
            } else {
                c
            }));
    }
}

pub(crate) proof fn lemma_digits_val_concat(a: Seq<char>, b: Seq<char>)
    ensures
        digits_val(a + b) == digits_val(a) * pow10(b.len()) + digits_val(b),
    decreases b.len(),
{
    if b.len() == 0 {
        assert(a + b =~= a);
        assert(pow10(b.len()) == 1);
        assert(digits_val(b) == 0);
    } else {
        lemma_digits_val_concat(a, b.drop_last());
        assert((a + b).drop_last() =~= a + b.drop_last());
        assert((a + b).last() == b.last());
        let x = digits_val(a);
        let y = digits_val(b.drop_last());
        let d = digit_val(b.last());
        let q = pow10((b.len() - 1) as nat);
        assert(digits_val(a + b) == (x * q + y) * 10 + d);
        assert(pow10(b.len()) == 10 * q);
        assert((x * q + y) * 10 + d == x * (10 * q) + (y * 10 + d)) by (nonlinear_arith);
        assert(x * (10 * q) == x * pow10(b.len())) by (nonlinear_arith)
            requires
                pow10(b.len()) == 10 * q,
        ;
        assert(digits_val(b) == y * 10 + d);
    }
}

proof fn lemma_pow10_adds(a: nat, b: nat)
    ensures
        pow10(a + b) == pow10(a) * pow10(b),
    decreases b,
{
    if b == 0 {
        assert(pow10(a + 0) == pow10(a) * 1);
    } else {
        lemma_pow10_adds(a, (b - 1) as nat);
        assert(a + b == (a + (b - 1) as nat) + 1);
        assert(pow10(a + b) == 10 * pow10(a + (b - 1) as nat));
        assert(pow10(a) * pow10(b) == pow10(a) * (10 * pow10((b - 1) as nat)));
        assert(pow10(a) * (10 * pow10((b - 1) as nat)) == 10 * (pow10(a) * pow10(
            (b - 1) as nat,
        ))) by (nonlinear_arith);
    }
}

proof fn lemma_reduce_props(mant: nat, scale: nat)
    ensures
        spec_reduce(mant, scale).0 <= mant,
        spec_reduce(mant, scale).1 <= scale,
        scale >= 1 ==> spec_reduce(mant, scale).1 >= 1,
        scale == 0 ==> spec_reduce(mant, scale) == (mant, scale),
        mant == 0 ==> spec_reduce(mant, scale).0 == 0,
        mant >= 1 ==> spec_reduce(mant, scale).0 >= 1,
    decreases scale,
{
    if scale <= 1 || mant % 10 != 0 {
    } else {
        lemma_reduce_props(mant / 10, (scale - 1) as nat);
    }
}

/// Parsing inverts rendering: the canonical decimal string of a
/// well-formed value whose mantissa stays within the parser's digit
/// budget is parseable, and parses back to that value in its
/// shortest form.
pub proof fn lemma_parse_inverts_render(n: Number)
    requires
        n.wf(),
        n.mant < pow10(MAX_DIGITS as nat),
    ensures
        parseable(spec_render(n)),
        parsed_number(spec_render(n)) == n.reduced(),
{
    let s = spec_render(n);
    lemma_reduce_props(n.mant as nat, n.scale as nat);
    let mant = spec_reduce(n.mant as nat, n.scale as nat).0;
    let scale = spec_reduce(n.mant as nat, n.scale as nat).1;
    let p = pow10(scale);
    lemma_pow10_positive(scale);
    let ip = mant / p;
    let fp = mant % p;
    lemma_dec_digits_props(ip);
    lemma_dec_digits_props(mant);
    let sign: Seq<char> = if n.neg {
        seq!['-']
    } else {
        Seq::empty()
    };
    if scale == 0 {
        let digits = dec_digits(mant);
        assert(s =~= sign + digits);
        let b = body_of(s);
        assert(b =~= digits);
        lemma_find_dot_is(b, b.len() as int);
        lemma_dec_digits_len(mant, MAX_DIGITS as nat);
        assert(parseable(s));
        assert(parsed_number(s) =~= n.reduced());
    } else {
        let idig = dec_digits(ip);
        let fdig = padded_digits(fp, scale);
        assert(s =~= sign + idig + seq!['.'] + fdig);
        let b = body_of(s);
        assert(b =~= idig + seq!['.'] + fdig);
        let k = idig.len() as int;
        assert(forall|i: int| 0 <= i < k ==> b[i] == idig[i]);
        assert(b[k] == '.');
        lemma_find_dot_is(b, k);
        assert(b.subrange(0, k) =~= idig);
        assert(b.subrange(k + 1, b.len() as int) =~= fdig);
        assert(fp < p);
        lemma_padded_digits_props(fp, scale);
        // the integer part fits in the digits the fraction leaves free
        lemma_pow10_adds((MAX_DIGITS - scale) as nat, scale);
        assert(ip < pow10((MAX_DIGITS - scale) as nat)) by (nonlinear_arith)
            requires
                mant < pow10(MAX_DIGITS as nat),
                pow10(MAX_DIGITS as nat) == pow10((MAX_DIGITS - scale) as nat) * pow10(scale),
                ip == mant / pow10(scale),
                pow10(scale) >= 1,
                pow10((MAX_DIGITS - scale) as nat) >= 1,
        ;
        lemma_dec_digits_len(ip, (MAX_DIGITS - scale) as nat);
        assert(parseable(s));
        let digits = idig + fdig;
        lemma_digits_val_concat(idig, fdig);
        assert(digits_val(digits) == ip * p + fp);
        assert(ip * p + fp == mant) by (nonlinear_arith)
            requires
                ip == mant / p,
                fp == mant % p,
                p >= 1,
        ;
        assert(parsed_number(s) =~= n.reduced());
    }
}

/// Whether a character is a decimal digit.
fn is_digit_exec(c: char) -> (r: bool)
    ensures
        r == is_digit(c),
{
    match c {
        '0' | '1' | '2' | '3' | '4' | '5' | '6' | '7' | '8' | '9' => true,
        _ => false,
    }
}

/// The value of a decimal digit character.
pub(crate) fn digit_value(c: char) -> (r: Option<u64>)
    ensures
        match r {
            Some(d) => is_digit(c) && d == digit_val(c),
            None => !is_digit(c),
        },
{
    match c {
        '0' => Some(0),
        '1' => Some(1),
        '2' => Some(2),
        '3' => Some(3),
        '4' => Some(4),
        '5' => Some(5),
        '6' => Some(6),
        '7' => Some(7),
        '8' => Some(8),
        '9' => Some(9),
        _ => None,
    }
}

/// Parse the canonical decimal grammar: an optional minus sign, an
/// integer token, and optionally a point and one or more digits.
/// Exactly the parseable strings are accepted; a negative zero is
/// normalized to plain zero.
pub fn parse_number(s: &str) -> (r: Option<Number>)
    ensures
        parseable(s@) ==> r == Some(parsed_number(s@)) && parsed_number(s@).wf(),
        !parseable(s@) ==> r is None,
{
    let len = s.unicode_len();
    let neg = len > 0 && s.get_char(0) == '-';
    let bs: usize = if neg {
        1
    } else {
        0
    };
    let ghost b = s@.subrange(bs as int, len as int);
    proof {
        assert(b =~= body_of(s@));
        lemma_find_dot_props(b);
    }
    let mut i: usize = bs;
    let mut acc: u64 = 0;
    while i < len && is_digit_exec(s.get_char(i))
        invariant
            len == s@.len(),
            bs <= i <= len,
            bs == 1 <==> (s@.len() > 0 && s@[0] == '-'),
            bs <= 1,
            b == body_of(s@),
            b == s@.subrange(bs as int, len as int),
            forall|j: int| 0 <= j < i - bs ==> is_digit(#[trigger] b[j]),
            acc == digits_val(b.subrange(0, i - bs)),
            i - bs <= MAX_DIGITS,
            acc < pow10((i - bs) as nat),
        decreases len - i,
    {
        let c = s.get_char(i);
        let d = match digit_value(c) {
            Some(d) => d,
            None => {
                proof {
                    assert(false);
                }
                return None;
            },
        };
        if i - bs == MAX_DIGITS {
            proof {
                lemma_find_dot_ge(b, (i - bs + 1) as int);
                lemma_find_dot_props(b);
                let k = find_dot(b);
                if k < b.len() {
                    assert(b.subrange(0, k).len() > MAX_DIGITS);
                }
            }
            return None;
        }
        proof {
            let prefix = b.subrange(0, i - bs);
            lemma_digits_val_push(prefix, c);
            assert(b.subrange(0, i - bs + 1) =~= prefix.push(b[(i - bs) as int]));
            lemma_pow10_19();
            lemma_pow10_increases((i - bs + 1) as nat, 19);
        }
        acc = acc * 10 + d;
        i = i + 1;
    }
    let count = i - bs;
    let ghost prefix_digits = b.subrange(0, count as int);
    proof {
        lemma_find_dot_ge(b, count as int);
        lemma_find_dot_props(b);
    }
    if count == 0 {
        proof {
            let k = find_dot(b);
            if k < b.len() && k > 0 {
                assert(!is_digit(b.subrange(0, k)[0]));
            }
        }
        return None;
    }
    if count > 1 && s.get_char(bs) == '0' {
        proof {
            let k = find_dot(b);
            if k < b.len() {
                assert(b.subrange(0, k)[0] == '0');
                assert(b.subrange(0, k).len() > 1);
            }
        }
        return None;
    }
    if i == len {
        proof {
            assert(b.len() == count);
            lemma_find_dot_is(b, b.len() as int);
            assert(prefix_digits =~= b);
        }
        return Some(Number { neg: neg && acc != 0, mant: acc, scale: 0 });
    }
    // a character stopped the digit run
    let c = s.get_char(i);
    if !is_digit_exec(c) && c != '.' {
        proof {
            let k = find_dot(b);
            assert(b[count as int] != '.');
            if k < b.len() {
                assert(k > count);
                assert(!is_digit(b.subrange(0, k)[count as int]));
            }
        }
        return None;
    }
    proof {
        assert(b[count as int] == '.');
        lemma_find_dot_is(b, count as int);
    }
    let ghost ip = b.subrange(0, count as int);
    let ghost fp = b.subrange(count as int + 1, b.len() as int);
    i = i + 1;
    let mut fcount: usize = 0;
    proof {
        assert(ip + fp.subrange(0, 0) =~= prefix_digits);
    }
    while i < len && is_digit_exec(s.get_char(i))
        invariant
            len == s@.len(),
            bs <= 1,
            bs == 1 <==> (s@.len() > 0 && s@[0] == '-'),
            b == body_of(s@),
            b == s@.subrange(bs as int, len as int),
            1 <= count,
            count + bs < len,
            i == bs + count + 1 + fcount,
            i <= len,
            find_dot(b) == count,
            ip == b.subrange(0, count as int),
            fp == b.subrange(count as int + 1, b.len() as int),
            int_token(ip),
            fcount <= fp.len(),
            forall|j: int| 0 <= j < fcount ==> is_digit(#[trigger] fp[j]),
            acc == digits_val(ip + fp.subrange(0, fcount as int)),
            count + fcount <= MAX_DIGITS,
            fcount <= MAX_SCALE,
            acc < pow10((count + fcount) as nat),
        decreases len - i,
    {
        let c2 = s.get_char(i);
        let d = match digit_value(c2) {
            Some(d) => d,
            None => {
                proof {
                    assert(false);
                }
                return None;
            },
        };
        if fcount == MAX_SCALE as usize {
            proof {
                assert(fp.len() >= fcount + 1);
            }
            return None;
        }
        if count + fcount == MAX_DIGITS {
            proof {
                assert(fp.len() >= fcount + 1);
            }
            return None;
        }
        proof {
            let whole = ip + fp.subrange(0, fcount as int);
            lemma_digits_val_push(whole, c2);
            assert(fp[fcount as int] == c2);
            assert(ip + fp.subrange(0, fcount as int + 1) =~= whole.push(c2));
            lemma_pow10_19();
            lemma_pow10_increases((count + fcount + 1) as nat, 19);
        }
        acc = acc * 10 + d;
        fcount = fcount + 1;
        i = i + 1;
    }
    if i < len {
        proof {
            assert(!is_digit(fp[fcount as int]));
        }
        return None;
    }
    if fcount == 0 {
        proof {
            assert(fp.len() == 0);
        }
        return None;
    }
    proof {
        assert(fp.subrange(0, fcount as int) =~= fp);
        assert(fp.len() == fcount);
    }
    Some(Number { neg: neg && acc != 0, mant: acc, scale: fcount as u32 })
}

impl Number {
    /// The canonical decimal string of this value, with the fraction
    /// in its shortest exact form.
    pub fn render(&self) -> (s: String)
        requires
            self.wf(),
        ensures
            s@ == spec_render(*self),
    {
        let mut mant: u64 = self.mant;
        let mut scale: u32 = self.scale;
        while scale > 1 && mant % 10 == 0
            invariant
                scale <= self.scale,
                spec_reduce(mant as nat, scale as nat) == spec_reduce(
                    self.mant as nat,
                    self.scale as nat,
                ),
            decreases scale,
        {
            mant = mant / 10;
            scale = scale - 1;
        }
        assert(spec_reduce(mant as nat, scale as nat) == (mant as nat, scale as nat));
        let mut s = String::new();
        if self.neg {
            proof {
                reveal_strlit("-");
            }
            s.append("-");
            assert(s@ =~= seq!['-']);
        }
        if scale == 0 {
            proof {
                assert(pow10(0) == 1);
                assert((mant as nat) / 1 == mant as nat);
                assert((mant as nat) % 1 == 0);
            }
            let digits = u64_digits(mant);
            s.append(digits.as_str());
            assert(s@ =~= spec_render(*self));
        } else {
            let p = pow10_i128(scale);
            let p64: u64 = p as u64;
            assert(p64 == pow10(scale as nat));
            let ip = mant / p64;
            let fp = mant % p64;
            let int_digits = u64_digits(ip);
            s.append(int_digits.as_str());
            proof {
                reveal_strlit(".");
            }
            s.append(".");
            let frac = u64_padded_digits(fp, scale);
            s.append(frac.as_str());
            assert(s@ =~= spec_render(*self));
        }
        s
    }
}

} // verus!
