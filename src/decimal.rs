//! Exact decimal numbers: the numeric values of the fact bag and of rule
//! thresholds, their comparison, and the reading of decimal text.

use vstd::prelude::*;

verus! {

/// The number `mantissa / 10^scale`.
#[derive(Clone, Copy, Debug, PartialEq, Eq, Structural)]
pub struct Decimal {
    pub mantissa: i64,
    pub scale: u8,
}

pub open spec fn pow10(n: nat) -> int
    decreases n,
{
    if n == 0 {
        1
    } else {
        10 * pow10((n - 1) as nat)
    }
}

/// `a > b` as rational numbers.
pub open spec fn dec_gt(a: Decimal, b: Decimal) -> bool {
    a.mantissa * pow10(b.scale as nat) > b.mantissa * pow10(a.scale as nat)
}

/// `a == b` as rational numbers: `1.0` and `1.00` are the same number.
pub open spec fn dec_eq(a: Decimal, b: Decimal) -> bool {
    a.mantissa * pow10(b.scale as nat) == b.mantissa * pow10(a.scale as nat)
}

proof fn lemma_pow10_positive(n: nat)
    ensures
        pow10(n) >= 1,
    decreases n,
{
    if n > 0 {
        lemma_pow10_positive((n - 1) as nat);
    }
}

proof fn lemma_pow10_add(a: nat, b: nat)
    ensures
        pow10(a + b) == pow10(a) * pow10(b),
    decreases a,
{
    if a > 0 {
        lemma_pow10_add((a - 1) as nat, b);
        assert(pow10(a + b) == 10 * pow10((a - 1 + b) as nat));
        assert(pow10(a) * pow10(b) == 10 * pow10((a - 1) as nat) * pow10(b)) by (nonlinear_arith)
            requires
                pow10(a) == 10 * pow10((a - 1) as nat),
        ;
        assert(10 * pow10((a - 1) as nat) * pow10(b) == 10 * (pow10((a - 1) as nat) * pow10(b)))
            by (nonlinear_arith);
    }
}

/// `y * 10^k`, or a value just outside the `i64` range on the same side when the
/// product leaves it.
fn scale_up(y: i64, k: u8) -> (r: i128)
    ensures
        r == y * pow10(k as nat) || (r == i64::MAX + 1 && y * pow10(k as nat) > i64::MAX) || (
        r == i64::MIN - 1 && y * pow10(k as nat) < i64::MIN),
{
    let mut acc: i128 = y as i128;
    let mut j: u8 = 0;
    while j < k
        invariant
            j <= k,
            acc == y * pow10(j as nat),
            i64::MIN <= acc <= i64::MAX,
        decreases k - j,
    {
        let next = acc * 10;
        proof {
            assert(pow10((j + 1) as nat) == 10 * pow10(j as nat));
            assert(next == y * pow10((j + 1) as nat)) by (nonlinear_arith)
                requires
                    next == acc * 10,
                    acc == y * pow10(j as nat),
                    pow10((j + 1) as nat) == 10 * pow10(j as nat),
            ;
            let rest = (k - j - 1) as nat;
            lemma_pow10_add((j + 1) as nat, rest);
            lemma_pow10_positive(rest);
            assert((j + 1) as nat + rest == k as nat);
            let p = pow10(rest);
            assert(y * pow10(k as nat) == next * p) by (nonlinear_arith)
                requires
                    pow10(k as nat) == pow10((j + 1) as nat) * p,
                    next == y * pow10((j + 1) as nat),
            ;
            if next > i64::MAX {
                assert(next * p >= next) by (nonlinear_arith)
                    requires
                        next > 0,
                        p >= 1,
                ;
            }
            if next < i64::MIN {
                assert(next * p <= next) by (nonlinear_arith)
                    requires
                        next < 0,
                        p >= 1,
                ;
            }
        }
        if next > i64::MAX as i128 {
            return i64::MAX as i128 + 1;
        }
        if next < i64::MIN as i128 {
            return i64::MIN as i128 - 1;
        }
        acc = next;
        j = j + 1;
    }
    acc
}

/// Whether `a` is strictly greater than `b`.
pub fn greater_than(a: Decimal, b: Decimal) -> (r: bool)
    ensures
        r == dec_gt(a, b),
{
    if a.scale >= b.scale {
        let d: u8 = a.scale - b.scale;
        let t = scale_up(b.mantissa, d);
        proof {
            lemma_pow10_add(b.scale as nat, d as nat);
            lemma_pow10_positive(b.scale as nat);
            let pb = pow10(b.scale as nat);
            let pd = pow10(d as nat);
            assert(a.mantissa * pb > b.mantissa * (pb * pd) <==> a.mantissa > b.mantissa * pd)
                by (nonlinear_arith)
                requires
                    pb >= 1,
            ;
        }
        (a.mantissa as i128) > t
    } else {
        let d: u8 = b.scale - a.scale;
        let t = scale_up(a.mantissa, d);
        proof {
            lemma_pow10_add(a.scale as nat, d as nat);
            lemma_pow10_positive(a.scale as nat);
            let pa = pow10(a.scale as nat);
            let pd = pow10(d as nat);
            assert(a.mantissa * (pa * pd) > b.mantissa * pa <==> a.mantissa * pd > b.mantissa)
                by (nonlinear_arith)
                requires
                    pa >= 1,
            ;
        }
        t > (b.mantissa as i128)
    }
}

/// Whether `a` and `b` are the same number.
pub fn same_value(a: Decimal, b: Decimal) -> (r: bool)
    ensures
        r == dec_eq(a, b),
{
    !greater_than(a, b) && !greater_than(b, a)
}

pub open spec fn is_digit(c: char) -> bool {
    '0' <= c && c <= '9'
}

pub open spec fn all_digits(s: Seq<char>) -> bool {
    forall|i: int| 0 <= i < s.len() ==> is_digit(#[trigger] s[i])
}

/// The value of a run of decimal digits, most significant first.
pub open spec fn digits_value(s: Seq<char>) -> int
    decreases s.len(),
{
    if s.len() == 0 {
        0
    } else {
        digits_value(s.drop_last()) * 10 + (s.last() as int - 48)
    }
}

/// How many decimal digits `s` starts with.
pub open spec fn lead_digits(s: Seq<char>) -> nat
    decreases s.len(),
{
    if s.len() > 0 && is_digit(s[0]) {
        1 + lead_digits(s.drop_first())
    } else {
        0
    }
}

/// `s` without a leading `+` or `-`.
pub open spec fn unsigned_part(s: Seq<char>) -> Seq<char> {
    if s.len() > 0 && (s[0] == '-' || s[0] == '+') {
        s.drop_first()
    } else {
        s
    }
}

/// Decimal text: an optional sign, one or more digits, then optionally a dot
/// followed by one or more digits.
pub open spec fn decimal_shape(s: Seq<char>) -> bool {
    let b = unsigned_part(s);
    let k = lead_digits(b) as int;
    k >= 1 && (k == b.len() || (b[k] == '.' && k + 1 < b.len() && lead_digits(
        b.subrange(k + 1, b.len() as int),
    ) == b.len() - k - 1))
}

/// The digits of decimal text with the dot left out.
pub open spec fn text_digits(s: Seq<char>) -> Seq<char> {
    let b = unsigned_part(s);
    let k = lead_digits(b) as int;
    if k == b.len() {
        b
    } else {
        b.subrange(0, k) + b.subrange(k + 1, b.len() as int)
    }
}

/// The number of digits after the dot of decimal text.
pub open spec fn text_scale(s: Seq<char>) -> int {
    let b = unsigned_part(s);
    let k = lead_digits(b) as int;
    if k == b.len() {
        0
    } else {
        b.len() - k - 1
    }
}

pub open spec fn text_mantissa(s: Seq<char>) -> int {
    if s.len() > 0 && s[0] == '-' {
        -digits_value(text_digits(s))
    } else {
        digits_value(text_digits(s))
    }
}

/// The decimal that text denotes, when it has the decimal shape and its digits
/// fit an `i64` mantissa and a `u8` scale.
pub open spec fn decimal_of_text(s: Seq<char>) -> Option<Decimal> {
    if decimal_shape(s) && text_scale(s) <= 255 && i64::MIN <= text_mantissa(s) <= i64::MAX {
        Some(Decimal { mantissa: text_mantissa(s) as i64, scale: text_scale(s) as u8 })
    } else {
        None
    }
}

proof fn lemma_digits_concat(x: Seq<char>, y: Seq<char>)
    ensures
        digits_value(x + y) == digits_value(x) * pow10(y.len()) + digits_value(y),
    decreases y.len(),
{
    if y.len() == 0 {
        assert(x + y =~= x);
    } else {
        let y2 = y.drop_last();
        assert((x + y).drop_last() =~= x + y2);
        assert((x + y).last() == y.last());
        lemma_digits_concat(x, y2);
        let d = y.last() as int - 48;
        assert(pow10(y.len()) == 10 * pow10(y2.len()));
        assert(digits_value(x + y) == (digits_value(x) * pow10(y2.len()) + digits_value(y2)) * 10
            + d);
        assert((digits_value(x) * pow10(y2.len()) + digits_value(y2)) * 10 + d == digits_value(x)
            * (10 * pow10(y2.len())) + (digits_value(y2) * 10 + d)) by (nonlinear_arith);
    }
}

proof fn lemma_digits_nonneg(x: Seq<char>)
    requires
        all_digits(x),
    ensures
        digits_value(x) >= 0,
    decreases x.len(),
{
    if x.len() > 0 {
        assert(is_digit(x[x.len() - 1]));
        lemma_digits_nonneg(x.drop_last());
    }
}

proof fn lemma_lead_digits(b: Seq<char>, k: int)
    requires
        0 <= k <= b.len(),
        all_digits(b.subrange(0, k)),
        k == b.len() || !is_digit(b[k]),
    ensures
        lead_digits(b) == k,
    decreases k,
{
    if k > 0 {
        assert(is_digit(b.subrange(0, k)[0]));
        let t = b.drop_first();
        assert forall|i: int| 0 <= i < k - 1 implies is_digit(#[trigger] t.subrange(0, k - 1)[i]) by {
            assert(t.subrange(0, k - 1)[i] == b.subrange(0, k)[i + 1]);
        }
        lemma_lead_digits(t, k - 1);
    }
}

fn char_is_digit(c: char) -> (r: bool)
    ensures
        r == is_digit(c),
{
    '0' <= c && c <= '9'
}

/// Index of the first non-digit of `s` at or after `from`.
fn scan_digits(s: &str, from: usize, n: usize) -> (k: usize)
    requires
        n == s@.len(),
        from <= n,
    ensures
        from <= k <= n,
        all_digits(s@.subrange(from as int, k as int)),
        k == n || !is_digit(s@[k as int]),
{
    let mut k = from;
    while k < n && char_is_digit(s.get_char(k))
        invariant
            n == s@.len(),
            from <= k <= n,
            all_digits(s@.subrange(from as int, k as int)),
        decreases n - k,
    {
        proof {
            assert forall|i: int| 0 <= i < k + 1 - from implies is_digit(
                #[trigger] s@.subrange(from as int, k + 1)[i],
            ) by {
                if i < k - from {
                    assert(s@.subrange(from as int, k + 1)[i] == s@.subrange(
                        from as int,
                        k as int,
                    )[i]);
                }
            }
        }
        k = k + 1;
    }
    k
}

pub const MAGNITUDE_LIMIT: i128 = 0x8000_0000_0000_0000;

pub const EXPONENT_LIMIT: i128 = 0x4_0000_0000_0000_0000;

/// `acc0 * 10^(to - from)` plus the value of the digits `s[from..to]`, or `None`
/// when that exceeds `limit`.
fn accumulate_digits(s: &str, from: usize, to: usize, acc0: i128, limit: i128) -> (r: Option<i128>)
    requires
        from <= to <= s@.len(),
        all_digits(s@.subrange(from as int, to as int)),
        0 < limit <= EXPONENT_LIMIT,
        0 <= acc0 <= limit,
    ensures
        ({
            let v = acc0 * pow10((to - from) as nat) + digits_value(
                s@.subrange(from as int, to as int),
            );
            match r {
                Some(x) => x == v && 0 <= x <= limit,
                None => v > limit,
            }
        }),
{
    let ghost full = s@.subrange(from as int, to as int);
    let mut acc = acc0;
    let mut i = from;
    proof {
        assert(s@.subrange(from as int, from as int) =~= Seq::<char>::empty());
    }
    while i < to
        invariant
            from <= i <= to <= s@.len(),
            full == s@.subrange(from as int, to as int),
            all_digits(full),
            0 < limit <= EXPONENT_LIMIT,
            0 <= acc <= limit,
            acc == acc0 * pow10((i - from) as nat) + digits_value(
                s@.subrange(from as int, i as int),
            ),
        decreases to - i,
    {
        let c = s.get_char(i);
        assert(is_digit(full[i - from]));
        let d = (c as u32 - '0' as u32) as i128;
        let next = acc * 10 + d;
        proof {
            let pre = s@.subrange(from as int, i as int + 1);
            assert(pre.drop_last() =~= s@.subrange(from as int, i as int));
            assert(pre.last() == c);
            assert(pow10((i + 1 - from) as nat) == 10 * pow10((i - from) as nat));
            assert(next == acc0 * pow10((i + 1 - from) as nat) + digits_value(pre))
                by (nonlinear_arith)
                requires
                    next == acc * 10 + d,
                    d == c as int - 48,
                    acc == acc0 * pow10((i - from) as nat) + digits_value(s@.subrange(from as int, i as int)),
                    digits_value(pre) == digits_value(s@.subrange(from as int, i as int)) * 10 + (c as int - 48),
                    pow10((i + 1 - from) as nat) == 10 * pow10((i - from) as nat),
            ;
            if next > limit {
                let rest = s@.subrange(i as int + 1, to as int);
                assert(full =~= pre + rest);
                lemma_digits_concat(pre, rest);
                assert(all_digits(rest)) by {
                    assert forall|j: int| 0 <= j < rest.len() implies is_digit(#[trigger] rest[j]) by {
                        assert(rest[j] == full[j + i + 1 - from]);
                    }
                }
                lemma_digits_nonneg(rest);
                lemma_pow10_add((i + 1 - from) as nat, rest.len());
                lemma_pow10_positive(rest.len());
                assert((to - from) as nat == (i + 1 - from) as nat + rest.len());
                let p = pow10(rest.len());
                assert(acc0 * pow10((to - from) as nat) + digits_value(full) == next * p
                    + digits_value(rest)) by (nonlinear_arith)
                    requires
                        pow10((to - from) as nat) == pow10((i + 1 - from) as nat) * p,
                        next == acc0 * pow10((i + 1 - from) as nat) + digits_value(pre),
                        digits_value(full) == digits_value(pre) * p + digits_value(rest),
                ;
                assert(next * p >= next) by (nonlinear_arith)
                    requires
                        next > 0,
                        p >= 1,
                ;
            }
        }
        if next > limit {
            return None;
        }
        acc = next;
        i = i + 1;
    }
    Some(acc)
}

/// Reads decimal text such as `10`, `-3.25` or `+0.5`.
pub fn parse_decimal(s: &str) -> (r: Option<Decimal>)
    ensures
        r == decimal_of_text(s@),
{
    let n = s.unicode_len();
    let mut st: usize = 0;
    let mut neg = false;
    if n > 0 {
        let c0 = s.get_char(0);
        if c0 == '-' {
            st = 1;
            neg = true;
        } else if c0 == '+' {
            st = 1;
        }
    }
    let ghost b = unsigned_part(s@);
    assert(b =~= s@.subrange(st as int, n as int));
    let k = scan_digits(s, st, n);
    proof {
        assert(b.subrange(0, k - st) =~= s@.subrange(st as int, k as int));
        lemma_lead_digits(b, k - st);
    }
    if k == st {
        return None;
    }
    let mut scale: usize = 0;
    if k < n {
        if s.get_char(k) != '.' {
            return None;
        }
        let j = scan_digits(s, k + 1, n);
        proof {
            let f = b.subrange(k - st + 1, b.len() as int);
            assert(f =~= s@.subrange(k + 1, n as int));
            assert(f.subrange(0, j - k - 1) =~= s@.subrange(k + 1, j as int));
            lemma_lead_digits(f, j - k - 1);
        }
        if j == k + 1 || j < n {
            return None;
        }
        scale = n - k - 1;
    }
    if scale > 255 {
        return None;
    }
    let first = accumulate_digits(s, st, k, 0, MAGNITUDE_LIMIT);
    proof {
        assert(s@.subrange(st as int, k as int) =~= b.subrange(0, k - st));
    }
    let total = match first {
        None => {
            proof {
                assert(pow10((k - st) as nat) >= 1) by { lemma_pow10_positive((k - st) as nat); }
                if k < n {
                    let x = s@.subrange(st as int, k as int);
                    let y = s@.subrange(k + 1, n as int);
                    assert(text_digits(s@) =~= x + y);
                    lemma_digits_concat(x, y);
                    lemma_digits_nonneg(y);
                    lemma_pow10_positive(y.len());
                    assert(digits_value(x) * pow10(y.len()) >= digits_value(x)) by (nonlinear_arith)
                        requires
                            digits_value(x) > 0,
                            pow10(y.len()) >= 1,
                    ;
                } else {
                    assert(text_digits(s@) =~= s@.subrange(st as int, k as int));
                }
            }
            return None;
        },
        Some(v) => {
            if k < n {
                let second = accumulate_digits(s, k + 1, n, v, MAGNITUDE_LIMIT);
                proof {
                    let x = s@.subrange(st as int, k as int);
                    let y = s@.subrange(k + 1, n as int);
                    assert(text_digits(s@) =~= x + y);
                    lemma_digits_concat(x, y);
                }
                match second {
                    None => {
                        return None;
                    },
                    Some(w) => w,
                }
            } else {
                proof {
                    assert(text_digits(s@) =~= s@.subrange(st as int, k as int));
                }
                v
            }
        },
    };
    if neg {
        Some(Decimal { mantissa: (0 - total) as i64, scale: scale as u8 })
    } else if total > i64::MAX as i128 {
        None
    } else {
        Some(Decimal { mantissa: total as i64, scale: scale as u8 })
    }
}

/// `s` spells the word whose lower-case form is `lo` and upper-case form is
/// `up`, each letter in either case.
pub open spec fn word_ci(s: Seq<char>, lo: Seq<char>, up: Seq<char>) -> bool {
    s.len() == lo.len() && s.len() == up.len() && forall|i: int|
        0 <= i < s.len() ==> #[trigger] s[i] == lo[i] || s[i] == up[i]
}

pub open spec fn inf_word(b: Seq<char>) -> bool {
    word_ci(b, "inf"@, "INF"@) || word_ci(b, "infinity"@, "INFINITY"@)
}

pub open spec fn nan_word(b: Seq<char>) -> bool {
    word_ci(b, "nan"@, "NAN"@)
}

/// Digits before the dot.
pub open spec fn int_len(b: Seq<char>) -> int {
    lead_digits(b) as int
}

pub open spec fn has_dot(b: Seq<char>) -> bool {
    int_len(b) < b.len() && b[int_len(b)] == '.'
}

/// Digits after the dot.
pub open spec fn frac_len(b: Seq<char>) -> int {
    if has_dot(b) {
        lead_digits(b.subrange(int_len(b) + 1, b.len() as int)) as int
    } else {
        0
    }
}

/// Where the digits and the dot end.
pub open spec fn mant_end(b: Seq<char>) -> int {
    if has_dot(b) {
        int_len(b) + 1 + frac_len(b)
    } else {
        int_len(b)
    }
}

/// The text after the exponent mark.
pub open spec fn exp_text(b: Seq<char>) -> Seq<char> {
    b.subrange(mant_end(b) + 1, b.len() as int)
}

/// Float text without its sign: digits with an optional dot (at least one
/// digit on either side), then optionally `e` or `E`, an optional sign and one
/// or more digits.
pub open spec fn number_shape(b: Seq<char>) -> bool {
    let p = mant_end(b);
    let x = unsigned_part(exp_text(b));
    int_len(b) + frac_len(b) >= 1 && (p == b.len() || ((b[p] == 'e' || b[p] == 'E') && x.len()
        >= 1 && lead_digits(x) == x.len()))
}

/// All digits of the mantissa, the dot left out.
pub open spec fn mant_digits(b: Seq<char>) -> Seq<char> {
    b.subrange(0, int_len(b)) + b.subrange(mant_end(b) - frac_len(b), mant_end(b))
}

pub open spec fn exp_value(b: Seq<char>) -> int {
    if mant_end(b) == b.len() {
        0
    } else {
        let x = exp_text(b);
        if x.len() > 0 && x[0] == '-' {
            -digits_value(unsigned_part(x))
        } else {
            digits_value(unsigned_part(x))
        }
    }
}

proof fn lemma_pow10_big(n: nat)
    requires
        n >= 19,
    ensures
        pow10(n) >= 10_000_000_000_000_000_000int,
{
    reveal_with_fuel(pow10, 20);
    lemma_pow10_add(19, (n - 19) as nat);
    lemma_pow10_positive((n - 19) as nat);
    assert(pow10(19) == 10_000_000_000_000_000_000int);
    let q = pow10((n - 19) as nat);
    assert(pow10(19) * q >= pow10(19)) by (nonlinear_arith)
        requires
            q >= 1,
            pow10(19) > 0,
    ;
}

/// Whether `s[from..n]` spells the word, in either case.
fn word_at(s: &str, from: usize, n: usize, lo: &str, up: &str) -> (r: bool)
    requires
        n == s@.len(),
        from <= n,
    ensures
        r == word_ci(s@.subrange(from as int, n as int), lo@, up@),
{
    let len = lo.unicode_len();
    if n - from != len || up.unicode_len() != len {
        return false;
    }
    let ghost t = s@.subrange(from as int, n as int);
    let mut i: usize = 0;
    while i < len
        invariant
            n == s@.len(),
            from <= n,
            t == s@.subrange(from as int, n as int),
            len == lo@.len() == up@.len() == n - from,
            i <= len,
            forall|j: int| 0 <= j < i ==> #[trigger] t[j] == lo@[j] || t[j] == up@[j],
        decreases len - i,
    {
        let c = s.get_char(from + i);
        assert(t[i as int] == c);
        if c != lo.get_char(i) && c != up.get_char(i) {
            return false;
        }
        i = i + 1;
    }
    true
}

proof fn lemma_beyond(m: int, p: int)
    requires
        m != 0,
        p >= 10_000_000_000_000_000_000int,
    ensures
        m > 0 ==> m * p > i64::MAX,
        m < 0 ==> m * p < i64::MIN,
{
    if m > 0 {
        assert(m * p >= p) by (nonlinear_arith)
            requires
                m >= 1,
                p >= 0,
        ;
    } else {
        assert(m * p <= -p) by (nonlinear_arith)
            requires
                m <= -1,
                p >= 0,
        ;
    }
}

/// The exponent after the mark at `p`: its sign and its value (`None` when it
/// exceeds the limit); nothing when the rest is not an optionally signed run of
/// digits.
fn exponent_at(s: &str, p: usize, n: usize) -> (r: Option<(bool, Option<i128>)>)
    requires
        n == s@.len(),
        p < n,
    ensures
        ({
            let x = s@.subrange(p + 1, n as int);
            let u = unsigned_part(x);
            &&& r is Some <==> (u.len() >= 1 && lead_digits(u) == u.len())
            &&& r matches Some((eneg, e)) ==> {
                &&& eneg == (x.len() > 0 && x[0] == '-')
                &&& all_digits(u)
                &&& match e {
                    Some(v) => v == digits_value(u) && 0 <= v <= EXPONENT_LIMIT,
                    None => digits_value(u) > EXPONENT_LIMIT,
                }
            }
        }),
{
    let ghost x = s@.subrange(p + 1, n as int);
    let mut q = p + 1;
    let mut eneg = false;
    if q < n {
        let c1 = s.get_char(q);
        if c1 == '-' {
            eneg = true;
            q = q + 1;
        } else if c1 == '+' {
            q = q + 1;
        }
    }
    assert(unsigned_part(x) =~= s@.subrange(q as int, n as int));
    let t = scan_digits(s, q, n);
    proof {
        let u = s@.subrange(q as int, n as int);
        assert(u.subrange(0, t - q) =~= s@.subrange(q as int, t as int));
        if t < n {
            assert(u[t - q] == s@[t as int]);
        }
        lemma_lead_digits(u, t - q);
    }
    if t == q || t < n {
        return None;
    }
    let e = accumulate_digits(s, q, n, 0, EXPONENT_LIMIT);
    proof {
        assert(0 * pow10((n - q) as nat) == 0);
    }
    Some((eneg, e))
}

/// A number as a value of the fact bag reads: an exact decimal; float text
/// kept whole as its sign, all its mantissa digits and its power of ten; an
/// infinity; or a nonzero value so close to zero (an exponent beyond any
/// text length) that only its sign matters against a decimal.
#[derive(Debug, PartialEq, Eq)]
pub enum Reading {
    Finite(Decimal),
    Digits { negative: bool, digits: String, exponent: i128 },
    Infinite { negative: bool },
    Tiny { negative: bool },
}

/// The mathematical number a value stands for: a decimal, `±d * 10^n`, or an
/// infinity.
pub enum NumView {
    Dec(Decimal),
    Val { neg: bool, d: int, n: int },
    Inf { neg: bool },
}

/// `x > t`, exactly (in decimal: `"5.000000000000000001" > 5` holds, although
/// the two are the same `f64`).
pub open spec fn num_gt(x: NumView, t: Decimal) -> bool {
    match x {
        NumView::Dec(d) => dec_gt(d, t),
        NumView::Val { neg, d, n } => {
            let sv = if neg {
                -d
            } else {
                d
            };
            let e = n + t.scale;
            if e >= 0 {
                sv * pow10(e as nat) > t.mantissa
            } else {
                sv > t.mantissa * pow10((-e) as nat)
            }
        },
        NumView::Inf { neg } => !neg,
    }
}

/// Text read as Rust reads a floating-point literal: an optional sign, then
/// `inf`, `infinity` or `nan` in any case, or float text; `nan` and anything
/// else are not numbers.
pub open spec fn text_num(s: Seq<char>) -> Option<NumView> {
    let b = unsigned_part(s);
    let neg = s.len() > 0 && s[0] == '-';
    if inf_word(b) {
        Some(NumView::Inf { neg })
    } else if nan_word(b) {
        None
    } else if number_shape(b) {
        Some(NumView::Val { neg, d: digits_value(mant_digits(b)), n: exp_value(b) - frac_len(b) })
    } else {
        None
    }
}

/// A reading whose digits are digits and whose exponent is of a size that
/// text produces.
pub open spec fn reading_wf(r: Reading) -> bool {
    match r {
        Reading::Digits { digits, exponent, .. } => all_digits(digits@) && -EXPONENT_LIMIT * 4
            <= exponent <= EXPONENT_LIMIT * 4,
        _ => true,
    }
}

pub open spec fn reading_gt(r: Reading, t: Decimal) -> bool {
    match r {
        Reading::Finite(d) => dec_gt(d, t),
        Reading::Digits { negative, digits, exponent } => num_gt(
            NumView::Val { neg: negative, d: digits_value(digits@), n: exponent as int },
            t,
        ),
        Reading::Infinite { negative } => !negative,
        Reading::Tiny { negative } => t.mantissa < 0 || (t.mantissa == 0 && !negative),
    }
}

/// The sign of `d * 10^e - tt`.
pub open spec fn scaled_cmp(d: int, e: int, tt: int) -> int {
    let l = if e >= 0 {
        d * pow10(e as nat)
    } else {
        d
    };
    let r = if e >= 0 {
        tt
    } else {
        tt * pow10((-e) as nat)
    };
    if l > r {
        1
    } else if l < r {
        -1
    } else {
        0
    }
}

proof fn lemma_pow10_mono(a: nat, b: nat)
    requires
        a <= b,
    ensures
        pow10(a) <= pow10(b),
{
    lemma_pow10_add(a, (b - a) as nat);
    lemma_pow10_positive(a);
    lemma_pow10_positive((b - a) as nat);
    assert(pow10(a) * pow10((b - a) as nat) >= pow10(a)) by (nonlinear_arith)
        requires
            pow10(a) >= 1,
            pow10((b - a) as nat) >= 1,
    ;
}

proof fn lemma_digits_below(s: Seq<char>)
    requires
        all_digits(s),
    ensures
        0 <= digits_value(s) < pow10(s.len()),
    decreases s.len(),
{
    if s.len() > 0 {
        assert(is_digit(s[s.len() - 1]));
        lemma_digits_below(s.drop_last());
        let v = digits_value(s.drop_last());
        let p = pow10(s.drop_last().len());
        assert(v * 10 + 9 < 10 * p) by (nonlinear_arith)
            requires
                v < p,
                v >= 0,
        ;
    }
}

/// Whether every character of `s[from..to]` is `0`.
fn all_zero(s: &str, from: usize, to: usize) -> (r: bool)
    requires
        from <= to <= s@.len(),
    ensures
        r == forall|i: int| from <= i < to ==> s@[i] == '0',
{
    let mut i = from;
    while i < to
        invariant
            from <= i <= to <= s@.len(),
            forall|j: int| from <= j < i ==> s@[j] == '0',
        decreases to - i,
    {
        if s.get_char(i) != '0' {
            return false;
        }
        i = i + 1;
    }
    true
}

proof fn lemma_digits_zero(s: Seq<char>)
    requires
        all_digits(s),
    ensures
        (forall|i: int| 0 <= i < s.len() ==> s[i] == '0') ==> digits_value(s) == 0,
        (exists|i: int| 0 <= i < s.len() && s[i] != '0') ==> digits_value(s) >= 1,
    decreases s.len(),
{
    if s.len() > 0 {
        let t = s.drop_last();
        assert(is_digit(s[s.len() - 1]));
        assert forall|i: int| 0 <= i < t.len() implies is_digit(#[trigger] t[i]) by {
            assert(t[i] == s[i]);
        }
        lemma_digits_zero(t);
        lemma_digits_nonneg(t);
        if exists|i: int| 0 <= i < s.len() && s[i] != '0' {
            let i = choose|i: int| 0 <= i < s.len() && s[i] != '0';
            if i < s.len() - 1 {
                assert(t[i] != '0');
            }
        }
        if forall|i: int| 0 <= i < s.len() ==> s[i] == '0' {
            assert forall|i: int| 0 <= i < t.len() implies t[i] == '0' by {
                assert(t[i] == s[i]);
            }
        }
    }
}

/// Compares `d * 10^e` with `tt`, `d` being the value of `digits` (at least
/// one) and `tt` a magnitude of at most `2^63`.
fn magnitude_cmp(digits: &str, e: i128, tt: i128) -> (r: i8)
    requires
        all_digits(digits@),
        digits_value(digits@) >= 1,
        0 <= tt <= MAGNITUDE_LIMIT,
        -EXPONENT_LIMIT * 8 <= e <= EXPONENT_LIMIT * 8,
    ensures
        r as int == scaled_cmp(digits_value(digits@), e as int, tt as int),
{
    let ghost d = digits_value(digits@);
    let len = digits.unicode_len();
    assert(digits@.subrange(0, len as int) =~= digits@);
    if e >= 0 {
        if e >= 19 {
            proof {
                lemma_pow10_big(e as nat);
                assert(d * pow10(e as nat) >= pow10(e as nat)) by (nonlinear_arith)
                    requires
                        d >= 1,
                        pow10(e as nat) >= 1,
                ;
            }
            return 1;
        }
        match accumulate_digits(digits, 0, len, 0, MAGNITUDE_LIMIT) {
            None => {
                proof {
                    lemma_pow10_positive(e as nat);
                    assert(d * pow10(e as nat) >= d) by (nonlinear_arith)
                        requires
                            d >= 1,
                            pow10(e as nat) >= 1,
                    ;
                    assert(0 * pow10(len as nat) == 0);
                }
                1
            },
            Some(v) => {
                proof {
                    assert(0 * pow10(len as nat) == 0);
                }
                let mut x: i128 = v;
                let mut k: i128 = 0;
                while k < e
                    invariant
                        0 <= k <= e < 19,
                        0 <= v <= MAGNITUDE_LIMIT,
                        x == v * pow10(k as nat),
                        0 <= x <= MAGNITUDE_LIMIT * pow10(k as nat),
                    decreases e - k,
                {
                    proof {
                        assert(pow10((k + 1) as nat) == 10 * pow10(k as nat));
                        lemma_pow10_mono(k as nat, 18);
                        reveal_with_fuel(pow10, 19);
                        assert(x * 10 <= MAGNITUDE_LIMIT * pow10((k + 1) as nat)) by (nonlinear_arith)
                            requires
                                x <= MAGNITUDE_LIMIT * pow10(k as nat),
                                pow10((k + 1) as nat) == 10 * pow10(k as nat),
                        ;
                        assert(MAGNITUDE_LIMIT * pow10(k as nat) <= MAGNITUDE_LIMIT * 1_000_000_000_000_000_000) by (nonlinear_arith)
                            requires
                                pow10(k as nat) <= 1_000_000_000_000_000_000int,
                        ;
                        assert(x * 10 == v * pow10((k + 1) as nat)) by (nonlinear_arith)
                            requires
                                x == v * pow10(k as nat),
                                pow10((k + 1) as nat) == 10 * pow10(k as nat),
                        ;
                    }
                    x = x * 10;
                    k = k + 1;
                }
                if x > tt {
                    1
                } else if x < tt {
                    -1
                } else {
                    0
                }
            },
        }
    } else {
        let m: i128 = 0 - e;
        if m >= len as i128 {
            proof {
                lemma_digits_below(digits@);
                lemma_pow10_mono(len as nat, m as nat);
                lemma_pow10_positive(m as nat);
                if tt >= 1 {
                    assert(tt * pow10(m as nat) >= pow10(m as nat)) by (nonlinear_arith)
                        requires
                            tt >= 1,
                            pow10(m as nat) >= 1,
                    ;
                }
            }
            if tt == 0 {
                return 1;
            }
            return -1;
        }
        let h: usize = len - m as usize;
        let ghost head = digits@.subrange(0, h as int);
        let ghost tail = digits@.subrange(h as int, len as int);
        proof {
            assert(digits@ =~= head + tail);
            assert(all_digits(head)) by {
                assert forall|i: int| 0 <= i < head.len() implies is_digit(#[trigger] head[i]) by {
                    assert(head[i] == digits@[i]);
                }
            }
            assert(all_digits(tail)) by {
                assert forall|i: int| 0 <= i < tail.len() implies is_digit(#[trigger] tail[i]) by {
                    assert(tail[i] == digits@[i + h]);
                }
            }
            lemma_digits_concat(head, tail);
            lemma_digits_below(tail);
            lemma_digits_nonneg(head);
            assert(tail.len() == m);
            assert(0 * pow10(h as nat) == 0);
        }
        let ghost p = pow10(m as nat);
        match accumulate_digits(digits, 0, h, 0, MAGNITUDE_LIMIT) {
            None => {
                proof {
                    let hv = digits_value(head);
                    assert(hv * p >= (tt + 1) * p) by (nonlinear_arith)
                        requires
                            hv >= tt + 1,
                            p >= 0,
                    ;
                    assert((tt + 1) * p == tt * p + p) by (nonlinear_arith);
                }
                1
            },
            Some(hv) => {
                if hv > tt {
                    proof {
                        assert(hv * p >= (tt + 1) * p) by (nonlinear_arith)
                            requires
                                hv >= tt + 1,
                                p >= 0,
                        ;
                        assert((tt + 1) * p == tt * p + p) by (nonlinear_arith);
                    }
                    1
                } else if hv < tt {
                    proof {
                        assert(hv * p + p <= tt * p) by (nonlinear_arith)
                            requires
                                hv + 1 <= tt,
                                p >= 0,
                        ;
                    }
                    -1
                } else {
                    let zero = all_zero(digits, h, len);
                    proof {
                        assert forall|i: int| 0 <= i < tail.len() implies (tail[i] == '0') == (digits@[
                            i + h
                        ] == '0') by {}
                        lemma_digits_zero(tail);
                        if !zero {
                            let i = choose|i: int| h <= i < len && digits@[i] != '0';
                            assert(tail[i - h] != '0');
                        } else {
                            assert forall|i: int| 0 <= i < tail.len() implies tail[i] == '0' by {
                                assert(tail[i] == digits@[i + h]);
                            }
                        }
                    }
                    if zero {
                        0
                    } else {
                        1
                    }
                }
            },
        }
    }
}

/// Whether the reading is greater than `t`.
pub fn reading_greater_than(r: &Reading, t: Decimal) -> (res: bool)
    requires
        reading_wf(*r),
    ensures
        res == reading_gt(*r, t),
{
    match r {
        Reading::Finite(d) => greater_than(*d, t),
        Reading::Infinite { negative } => !*negative,
        Reading::Tiny { negative } => t.mantissa < 0 || (t.mantissa == 0 && !*negative),
        Reading::Digits { negative, digits, exponent } => {
            let ghost d = digits_value(digits@);
            let e: i128 = *exponent + t.scale as i128;
            let len = digits.as_str().unicode_len();
            let ghost sv = if *negative {
                -d
            } else {
                d
            };
            let ghost tm = t.mantissa as int;
            proof {
                lemma_digits_nonneg(digits@);
                lemma_pow10_positive(e as nat);
                lemma_pow10_positive((-e) as nat);
                let pe = pow10(e as nat);
                let pn = pow10((-e) as nat);
                assert((-d) * pe == -(d * pe)) by (nonlinear_arith);
                assert((-tm) * pn == -(tm * pn)) by (nonlinear_arith);
                assert(0 * pe == 0);
                if tm < 0 {
                    assert(tm * pn < 0) by (nonlinear_arith)
                        requires
                            tm < 0,
                            pn >= 1,
                    ;
                }
                if tm >= 0 {
                    assert(tm * pn >= 0) by (nonlinear_arith)
                        requires
                            tm >= 0,
                            pn >= 1,
                    ;
                }
                if d >= 1 {
                    assert(d * pe >= 1) by (nonlinear_arith)
                        requires
                            d >= 1,
                            pe >= 1,
                    ;
                }
            }
            assert(digits@.subrange(0, len as int) =~= digits@);
            if all_zero(digits.as_str(), 0, len) {
                proof {
                    lemma_digits_zero(digits@);
                }
                return t.mantissa < 0;
            }
            proof {
                lemma_digits_zero(digits@);
            }
            if !*negative {
                if t.mantissa < 0 {
                    return true;
                }
                magnitude_cmp(digits.as_str(), e, t.mantissa as i128) == 1
            } else {
                if t.mantissa >= 0 {
                    return false;
                }
                magnitude_cmp(digits.as_str(), e, 0 - t.mantissa as i128) == -1
            }
        },
    }
}

/// For a nonzero `d`, a huge positive power of ten puts the value beyond
/// every decimal.
proof fn lemma_huge(neg: bool, d: int, n: int, t: Decimal)
    requires
        d >= 1,
        n >= 19,
    ensures
        num_gt(NumView::Val { neg, d, n }, t) == !neg,
{
    let e = n + t.scale;
    lemma_pow10_big(e as nat);
    let p = pow10(e as nat);
    assert(d * p >= p) by (nonlinear_arith)
        requires
            d >= 1,
            p >= 1,
    ;
    assert((-d) * p == -(d * p)) by (nonlinear_arith);
}

/// For a nonzero `d` of at most `len` digits and a power of ten below
/// `-(len + 255)`, only the signs decide against a decimal.
proof fn lemma_tiny(neg: bool, d: int, len: int, n: int, t: Decimal)
    requires
        1 <= d < pow10(len as nat),
        len >= 0,
        n + 255 < -len,
    ensures
        num_gt(NumView::Val { neg, d, n }, t) == (t.mantissa < 0 || (t.mantissa == 0 && !neg)),
{
    let e = n + t.scale;
    let m = (-e) as nat;
    lemma_pow10_mono(len as nat, m);
    let p = pow10(m);
    let tm = t.mantissa as int;
    if tm >= 1 {
        assert(tm * p >= p) by (nonlinear_arith)
            requires
                tm >= 1,
                p >= 1,
        ;
    }
    if tm <= -1 {
        assert(tm * p <= -p) by (nonlinear_arith)
            requires
                tm <= -1,
                p >= 1,
        ;
    }
    if tm == 0 {
        assert(tm * p == 0) by (nonlinear_arith)
            requires
                tm == 0,
        ;
    }
}

/// Reads text as Rust reads a floating-point literal: every text of that
/// shape, and every infinity, reads as a number whose comparisons with any
/// decimal are exactly those of the text's value.
pub fn read_number(s: &str) -> (r: Option<Reading>)
    ensures
        r is Some <==> text_num(s@) is Some,
        r matches Some(x) ==> reading_wf(x) && forall|t: Decimal| #[trigger]
            reading_gt(x, t) == num_gt(text_num(s@)->Some_0, t),
{
    let n = s.unicode_len();
    let mut st: usize = 0;
    let mut neg = false;
    if n > 0 {
        let c0 = s.get_char(0);
        if c0 == '-' {
            st = 1;
            neg = true;
        } else if c0 == '+' {
            st = 1;
        }
    }
    assert(unsigned_part(s@) =~= s@.subrange(st as int, n as int));
    assert(neg == (s@.len() > 0 && s@[0] == '-'));
    if word_at(s, st, n, "inf", "INF") || word_at(s, st, n, "infinity", "INFINITY") {
        return Some(Reading::Infinite { negative: neg });
    }
    if word_at(s, st, n, "nan", "NAN") {
        return None;
    }
    read_unsigned(s, st, n, neg)
}

/// Float text without its sign, at `s[st..n]`.
#[verifier::rlimit(60)]
fn read_unsigned(s: &str, st: usize, n: usize, neg: bool) -> (r: Option<Reading>)
    requires
        n == s@.len(),
        st <= n,
    ensures
        ({
            let b = s@.subrange(st as int, n as int);
            let v = NumView::Val { neg, d: digits_value(mant_digits(b)), n: exp_value(b) - frac_len(b) };
            &&& r is Some <==> number_shape(b)
            &&& r matches Some(x) ==> reading_wf(x) && forall|t: Decimal| #[trigger]
                reading_gt(x, t) == num_gt(v, t)
        }),
{
    let ghost b = s@.subrange(st as int, n as int);
    let k = scan_digits(s, st, n);
    proof {
        assert(b.subrange(0, k - st) =~= s@.subrange(st as int, k as int));
        if k < n {
            assert(b[k - st] == s@[k as int]);
        }
        lemma_lead_digits(b, k - st);
    }
    let dot = k < n && s.get_char(k) == '.';
    assert(has_dot(b) == dot);
    let mut j: usize = k;
    if dot {
        j = scan_digits(s, k + 1, n);
        proof {
            let f = b.subrange(k - st + 1, b.len() as int);
            assert(f =~= s@.subrange(k + 1, n as int));
            assert(f.subrange(0, j - k - 1) =~= s@.subrange(k + 1, j as int));
            if j < n {
                assert(f[j - k - 1] == s@[j as int]);
            }
            lemma_lead_digits(f, j - k - 1);
        }
    }
    let fl: usize = if dot {
        j - k - 1
    } else {
        0
    };
    let fs: usize = if dot {
        k + 1
    } else {
        k
    };
    proof {
        assert(frac_len(b) == fl);
        assert(mant_end(b) == j - st);
        assert(mant_digits(b) =~= s@.subrange(st as int, k as int) + s@.subrange(fs as int, j as int));
    }
    if k - st + fl == 0 {
        return None;
    }
    let mut digits = String::from_str(s.substring_char(st, k));
    digits.append(s.substring_char(fs, j));
    assert(digits@ == mant_digits(b));
    let ghost md = mant_digits(b);
    proof {
        assert(all_digits(md)) by {
            assert forall|i: int| 0 <= i < md.len() implies is_digit(#[trigger] md[i]) by {
                if i < k - st {
                    assert(md[i] == s@[st + i]);
                } else {
                    assert(md[i] == s@[fs + i - (k - st)]);
                }
            }
        }
        lemma_digits_nonneg(md);
        lemma_digits_below(md);
    }
    let mut eneg = false;
    let mut e: Option<i128> = Some(0);
    let ghost mut ex: int = 0;
    if j < n {
        let c = s.get_char(j);
        assert(b[j - st] == c);
        if c != 'e' && c != 'E' {
            return None;
        }
        assert(exp_text(b) =~= s@.subrange(j + 1, n as int));
        match exponent_at(s, j, n) {
            None => {
                return None;
            },
            Some((sign, value)) => {
                eneg = sign;
                e = value;
                proof {
                    ex = digits_value(unsigned_part(exp_text(b)));
                    lemma_digits_nonneg(unsigned_part(exp_text(b)));
                }
            },
        }
    }
    let ghost nn = exp_value(b) - frac_len(b);
    let ghost d = digits_value(md);
    proof {
        assert(number_shape(b));
        assert(exp_value(b) == if eneg {
            -ex
        } else {
            ex
        });
    }
    let dlen = digits.as_str().unicode_len();
    assert(digits@.subrange(0, dlen as int) =~= digits@);
    if all_zero(digits.as_str(), 0, dlen) {
        proof {
            lemma_digits_zero(md);
            assert forall|t: Decimal| #[trigger]
                reading_gt(Reading::Finite(Decimal { mantissa: 0, scale: 0 }), t) == num_gt(
                    NumView::Val { neg, d, n: nn },
                    t,
                ) by {
                let e2 = nn + t.scale;
                lemma_pow10_positive(t.scale as nat);
                lemma_pow10_positive((-e2) as nat);
                let tm = t.mantissa as int;
                let pn = pow10((-e2) as nat);
                assert(0 * pow10(e2 as nat) == 0);
                assert(0 * pow10(t.scale as nat) == 0);
                assert(tm * 1 == tm);
                assert(pow10(0) == 1);
                if tm < 0 {
                    assert(tm * pn < 0) by (nonlinear_arith)
                        requires
                            tm < 0,
                            pn >= 1,
                    ;
                }
                if tm >= 0 {
                    assert(tm * pn >= 0) by (nonlinear_arith)
                        requires
                            tm >= 0,
                            pn >= 1,
                    ;
                }
            }
        }
        return Some(Reading::Finite(Decimal { mantissa: 0, scale: 0 }));
    }
    proof {
        lemma_digits_zero(md);
    }
    match e {
        None => {
            if eneg {
                proof {
                    assert forall|t: Decimal| #[trigger]
                        reading_gt(Reading::Tiny { negative: neg }, t) == num_gt(
                            NumView::Val { neg, d, n: nn },
                            t,
                        ) by {
                        lemma_tiny(neg, d, md.len() as int, nn, t);
                    }
                }
                Some(Reading::Tiny { negative: neg })
            } else {
                proof {
                    assert forall|t: Decimal| #[trigger]
                        reading_gt(Reading::Infinite { negative: neg }, t) == num_gt(
                            NumView::Val { neg, d, n: nn },
                            t,
                        ) by {
                        lemma_huge(neg, d, nn, t);
                    }
                }
                Some(Reading::Infinite { negative: neg })
            }
        },
        Some(ev) => {
            let exponent: i128 = if eneg {
                0 - ev - fl as i128
            } else {
                ev - fl as i128
            };
            assert(exponent == nn);
            Some(Reading::Digits { negative: neg, digits, exponent })
        },
    }
}

} // verus!
