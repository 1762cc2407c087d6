use vstd::prelude::*;
use crate::text::{first_index, find_char, lemma_first_index};

verus! {

/// Largest number of fractional digits a `Decimal` may carry.
pub const MAX_SCALE: u32 = 18;

/// `10^n`.
pub open spec fn pow10(n: nat) -> int
    decreases n,
{
    if n == 0 {
        1
    } else {
        10 * pow10((n - 1) as nat)
    }
}

/// `n / d` rounded to the nearest integer, halves away from zero (`d > 0`).
pub open spec fn round_div(n: int, d: int) -> int {
    if n >= 0 {
        (2 * n + d) / (2 * d)
    } else {
        -((-2 * n + d) / (2 * d))
    }
}

/// `n / d` truncated toward zero (`d > 0`).
pub open spec fn trunc_div(n: int, d: int) -> int {
    if n >= 0 {
        n / d
    } else {
        -((-n) / d)
    }
}

/// Saturation into the range of `i64`, as a float-to-integer cast does.
pub open spec fn clamp_i64(x: int) -> int {
    if x < i64::MIN {
        i64::MIN as int
    } else if x > i64::MAX {
        i64::MAX as int
    } else {
        x
    }
}

/// An exact decimal number: `mantissa / 10^scale`.
#[derive(Clone, Copy, Debug, PartialEq, Eq)]
pub struct Decimal {
    mantissa: i64,
    scale: u32,
}

proof fn lemma_pow10_pos(n: nat)
    ensures
        pow10(n) >= 1,
    decreases n,
{
    if n > 0 {
        lemma_pow10_pos((n - 1) as nat);
    }
}

proof fn lemma_pow10_mono(a: nat, b: nat)
    requires
        a <= b,
    ensures
        pow10(a) <= pow10(b),
    decreases b,
{
    if a < b {
        lemma_pow10_mono(a, (b - 1) as nat);
        lemma_pow10_pos((b - 1) as nat);
    }
}

proof fn lemma_pow10_18()
    ensures
        pow10(18) == 1000000000000000000,
{
    reveal_with_fuel(pow10, 19);
}

/// `10^n` computed exactly.
fn pow10_exec(n: u32) -> (r: u128)
    requires
        n <= MAX_SCALE,
    ensures
        r as int == pow10(n as nat),
{
    let mut p: u128 = 1;
    let mut i: u32 = 0;
    while i < n
        invariant
            i <= n <= MAX_SCALE,
            p as int == pow10(i as nat),
        decreases n - i,
    {
        proof {
            lemma_pow10_mono((i + 1) as nat, 18);
            lemma_pow10_18();
        }
        p = p * 10;
        i = i + 1;
    }
    p
}

/// `round_div` on a non-negative numerator, with both operands as machine words.
fn round_div_unsigned(n: u128, d: u128) -> (r: u128)
    requires
        d > 0,
        n < 0x1_0000_0000_0000_0000_0000_0000_0000,
        d < 0x1_0000_0000_0000_0000_0000_0000_0000,
    ensures
        r as int == round_div(n as int, d as int),
{
    (2 * n + d) / (2 * d)
}

/// Saturating conversion of a signed magnitude into `i64`.
fn clamp_signed(neg: bool, m: u128) -> (r: i64)
    ensures
        r as int == clamp_i64(if neg { -(m as int) } else { m as int }),
{
    if neg {
        if m >= 0x8000_0000_0000_0000 {
            i64::MIN
        } else {
            -(m as i64)
        }
    } else if m > 0x7fff_ffff_ffff_ffff {
        i64::MAX
    } else {
        m as i64
    }
}

impl Decimal {
    #[verifier::type_invariant]
    spec fn wf(self) -> bool {
        self.scale <= MAX_SCALE
    }

    /// The digits of the number, without its decimal point.
    pub closed spec fn spec_mantissa(self) -> int {
        self.mantissa as int
    }

    /// How many of those digits stand after the decimal point.
    pub closed spec fn spec_scale(self) -> nat {
        self.scale as nat
    }

    /// The number times `num / den`, rounded to the nearest integer (halves away from
    /// zero) and saturated into `i64`.
    pub closed spec fn spec_round_ratio(self, num: int, den: int) -> int {
        clamp_i64(round_div(self.mantissa * num, pow10(self.scale as nat) * den))
    }

    /// The number times `num / den`, truncated toward zero and saturated into `i64`.
    pub closed spec fn spec_trunc_ratio(self, num: int, den: int) -> int {
        clamp_i64(trunc_div(self.mantissa * num, pow10(self.scale as nat) * den))
    }

    /// `mantissa / 10^scale`; nothing when the scale exceeds `MAX_SCALE`.
    pub fn new(mantissa: i64, scale: u32) -> (r: Option<Decimal>)
        ensures
            r is Some <==> scale <= MAX_SCALE,
            r matches Some(d) ==> d.spec_mantissa() == mantissa && d.spec_scale() == scale,
    {
        if scale <= MAX_SCALE {
            Some(Decimal { mantissa, scale })
        } else {
            None
        }
    }

    /// `mantissa / 10^scale`, for a scale within `MAX_SCALE`.
    pub fn with_scale(mantissa: i64, scale: u32) -> (r: Decimal)
        requires
            scale <= MAX_SCALE,
        ensures
            r.spec_mantissa() == mantissa,
            r.spec_scale() == scale,
    {
        Decimal { mantissa, scale }
    }

    /// Whole integers are decimals of scale zero.
    pub fn from_int(n: i64) -> (r: Decimal)
        ensures
            r.spec_mantissa() == n,
            r.spec_scale() == 0,
    {
        Decimal { mantissa: n, scale: 0 }
    }

    pub fn mantissa(&self) -> (r: i64)
        ensures
            r == self.spec_mantissa(),
    {
        self.mantissa
    }

    pub fn scale(&self) -> (r: u32)
        ensures
            r == self.spec_scale(),
    {
        self.scale
    }

    /// The quotient `self * num / (10^scale * den)` as sign, numerator magnitude and
    /// denominator, all within `u128`.
    fn ratio_parts(&self, num: u32, den: u32) -> (r: (bool, u128, u128))
        requires
            den > 0,
        ensures
            r.0 == (self.spec_mantissa() < 0),
            (if r.0 { -(r.1 as int) } else { r.1 as int }) == self.spec_mantissa() * num,
            r.2 as int == pow10(self.spec_scale()) * den,
            r.2 > 0,
            r.1 < 0x1_0000_0000_0000_0000_0000_0000_0000,
            r.2 < 0x1_0000_0000_0000_0000_0000_0000_0000,
    {
        proof {
            use_type_invariant(self);
        }
        let neg = self.mantissa < 0;
        let mag: u128 = if neg {
            (-(self.mantissa as i128)) as u128
        } else {
            self.mantissa as u128
        };
        let p = pow10_exec(self.scale);
        proof {
            lemma_pow10_mono(self.scale as nat, 18);
            lemma_pow10_18();
            lemma_pow10_pos(self.scale as nat);
            assert(mag * (num as int) <= 0x8000_0000_0000_0000 * 0xffff_ffff) by (nonlinear_arith)
                requires
                    mag <= 0x8000_0000_0000_0000,
                    num <= 0xffff_ffff,
            ;
            assert(p * (den as int) <= 1000000000000000000 * 0xffff_ffff) by (nonlinear_arith)
                requires
                    p <= 1000000000000000000,
                    den <= 0xffff_ffff,
            ;
            assert(p * (den as int) > 0) by (nonlinear_arith)
                requires
                    p >= 1,
                    den >= 1,
            ;
        }
        let n = mag * (num as u128);
        let d = p * (den as u128);
        proof {
            let sn = self.mantissa * num;
            if neg {
                assert(sn == -(n as int)) by (nonlinear_arith)
                    requires
                        sn == self.mantissa * num,
                        mag == -self.mantissa,
                        n == mag * num,
                ;
            } else {
                assert(sn == n as int) by (nonlinear_arith)
                    requires
                        sn == self.mantissa * num,
                        mag == self.mantissa,
                        n == mag * num,
                ;
            }
        }
        (neg, n, d)
    }

    /// `self * num / den`, rounded half away from zero.
    pub fn round_ratio(&self, num: u32, den: u32) -> (r: i64)
        requires
            den > 0,
        ensures
            r as int == self.spec_round_ratio(num as int, den as int),
    {
        let (neg, n, d) = self.ratio_parts(num, den);
        let q = round_div_unsigned(n, d);
        proof {
            if neg && n == 0 {
                assert((d as int) / (2 * d) == 0) by (nonlinear_arith)
                    requires
                        d > 0,
                ;
            }
        }
        clamp_signed(neg, q)
    }

    /// `self * num / den`, truncated toward zero.
    pub fn trunc_ratio(&self, num: u32, den: u32) -> (r: i64)
        requires
            den > 0,
        ensures
            r as int == self.spec_trunc_ratio(num as int, den as int),
    {
        let (neg, n, d) = self.ratio_parts(num, den);
        clamp_signed(neg, n / d)
    }
}

pub open spec fn is_digit(c: char) -> bool {
    '0' <= c && c <= '9'
}

pub open spec fn all_digits(s: Seq<char>) -> bool {
    forall|i: int| 0 <= i < s.len() ==> is_digit(#[trigger] s[i])
}

/// The number that a string of decimal digits writes.
pub open spec fn digits_value(s: Seq<char>) -> int
    decreases s.len(),
{
    if s.len() == 0 {
        0
    } else {
        10 * digits_value(s.drop_last()) + (s.last() as int - 48)
    }
}

/// The text after an optional leading sign.
pub open spec fn unsigned_part(s: Seq<char>) -> Seq<char> {
    if s.len() > 0 && (s[0] == '-' || s[0] == '+') {
        s.drop_first()
    } else {
        s
    }
}

/// The digits before the decimal point.
pub open spec fn int_digits(b: Seq<char>) -> Seq<char> {
    b.take(first_index(b, '.') as int)
}

/// The digits after the decimal point; none where there is no point.
pub open spec fn frac_digits(b: Seq<char>) -> Seq<char> {
    if first_index(b, '.') < b.len() {
        b.skip(first_index(b, '.') + 1 as int)
    } else {
        Seq::empty()
    }
}

/// Where the exponent marker stands in an unsigned number text (its length if none).
pub open spec fn exp_index(b: Seq<char>) -> nat {
    if first_index(b, 'e') <= first_index(b, 'E') {
        first_index(b, 'e')
    } else {
        first_index(b, 'E')
    }
}

/// The digits and point before the exponent marker.
pub open spec fn mantissa_part(b: Seq<char>) -> Seq<char> {
    b.take(exp_index(b) as int)
}

/// The exponent: 0 without a marker; after one, a signed digit string whose value
/// fits in `i64`.
pub open spec fn exponent_of(b: Seq<char>) -> Option<int> {
    if exp_index(b) >= b.len() {
        Some(0)
    } else {
        let x = b.skip(exp_index(b) + 1 as int);
        let d = unsigned_part(x);
        if d.len() >= 1 && all_digits(d) && digits_value(d) <= i64::MAX {
            Some(
                if x[0] == '-' {
                    -digits_value(d)
                } else {
                    digits_value(d)
                },
            )
        } else {
            None
        }
    }
}

/// The mantissa, at `MAX_SCALE` digits at most, of the number `digits / 10^s`: exact
/// up to that scale, rounded half away from zero beyond it.
pub open spec fn mantissa_at(digits: int, s: int) -> int {
    if s < 0 {
        digits * pow10((-s) as nat)
    } else if s <= MAX_SCALE {
        digits
    } else {
        round_div(digits, pow10((s - MAX_SCALE) as nat))
    }
}

/// The scale a number `digits / 10^s` is held at.
pub open spec fn scale_at(s: int) -> nat {
    if s < 0 {
        0
    } else if s <= MAX_SCALE {
        s as nat
    } else {
        MAX_SCALE as nat
    }
}

/// Mantissa and scale of a number text `[+-]digits[.digits][(e|E)[+-]digits]` with at
/// least one mantissa digit. Fraction digits beyond `MAX_SCALE` are rounded half away
/// from zero; the text is refused where the mantissa does not fit in `i64`.
pub open spec fn decimal_text(s: Seq<char>) -> Option<(int, nat)> {
    let b = unsigned_part(s);
    let m = mantissa_part(b);
    let ds = int_digits(m) + frac_digits(m);
    match exponent_of(b) {
        None => None,
        Some(e) => {
            let sc = frac_digits(m).len() - e;
            let mm = mantissa_at(digits_value(ds), sc);
            if ds.len() >= 1 && all_digits(ds) && mm <= i64::MAX {
                Some(
                    (
                        if s.len() > 0 && s[0] == '-' {
                            -mm
                        } else {
                            mm
                        },
                        scale_at(sc),
                    ),
                )
            } else {
                None
            }
        },
    }
}

proof fn lemma_digits_nonneg(s: Seq<char>)
    requires
        all_digits(s),
    ensures
        digits_value(s) >= 0,
    decreases s.len(),
{
    if s.len() > 0 {
        assert(all_digits(s.drop_last()) ) by {
            assert forall|i: int| 0 <= i < s.drop_last().len() implies is_digit(
                #[trigger] s.drop_last()[i],
            ) by {
                assert(s.drop_last()[i] == s[i]);
            }
        }
        lemma_digits_nonneg(s.drop_last());
        assert(is_digit(s[s.len() - 1]));
    }
}

proof fn lemma_digits_prefix(x: Seq<char>, y: Seq<char>)
    requires
        all_digits(x + y),
    ensures
        digits_value(x + y) >= digits_value(x),
    decreases y.len(),
{
    if y.len() > 0 {
        let xy = x + y;
        assert(xy.drop_last() =~= x + y.drop_last());
        assert(all_digits(x + y.drop_last())) by {
            assert forall|i: int| 0 <= i < (x + y.drop_last()).len() implies is_digit(
                #[trigger] (x + y.drop_last())[i],
            ) by {
                assert((x + y.drop_last())[i] == xy[i]);
            }
        }
        lemma_digits_prefix(x, y.drop_last());
        lemma_digits_nonneg(x + y.drop_last());
        assert(is_digit(xy[xy.len() - 1]));
    }
}

/// Appends the digits of `s` to the number `acc` that `prev` writes; nothing where `s`
/// holds a non-digit or the result would not fit in `i64`.
fn push_digits(acc: u64, s: &str, Ghost(prev): Ghost<Seq<char>>) -> (r: Option<u64>)
    requires
        all_digits(prev),
        acc == digits_value(prev),
        acc <= i64::MAX,
    ensures
        r matches Some(v) ==> all_digits(prev + s@) && v == digits_value(prev + s@) && v
            <= i64::MAX,
        r is None ==> !(all_digits(prev + s@) && digits_value(prev + s@) <= i64::MAX),
{
    let n = s.unicode_len();
    let mut v = acc;
    let mut i: usize = 0;
    assert(prev + s@.take(0) =~= prev);
    while i < n
        invariant
            i <= n,
            n == s@.len(),
            all_digits(prev + s@.take(i as int)),
            v == digits_value(prev + s@.take(i as int)),
            v <= i64::MAX,
        decreases n - i,
    {
        let c = s.get_char(i);
        let ghost done = prev + s@.take(i as int);
        let ghost next = prev + s@.take(i + 1);
        assert(next =~= done.push(c));
        assert(prev + s@ =~= next + s@.skip(i + 1));
        if !('0' <= c && c <= '9') {
            assert((prev + s@)[prev.len() + i] == c);
            return None;
        }
        let d = (c as u32 - 48) as u64;
        assert(next.drop_last() =~= done);
        if v > (0x7fff_ffff_ffff_ffff - d) / 10 {
            assert(digits_value(next) > i64::MAX);
            proof {
                if all_digits(prev + s@) {
                    lemma_digits_prefix(next, s@.skip(i + 1));
                }
            }
            return None;
        }
        v = v * 10 + d;
        i = i + 1;
        assert(all_digits(next)) by {
            assert forall|j: int| 0 <= j < next.len() implies is_digit(#[trigger] next[j]) by {
                if j < done.len() {
                    assert(next[j] == done[j]);
                }
            }
        }
    }
    assert(s@.take(n as int) =~= s@);
    Some(v)
}

proof fn lemma_digits_concat(a: Seq<char>, b: Seq<char>)
    ensures
        digits_value(a + b) == digits_value(a) * pow10(b.len()) + digits_value(b),
    decreases b.len(),
{
    if b.len() == 0 {
        assert(a + b =~= a);
    } else {
        let ab = a + b;
        assert(ab.drop_last() =~= a + b.drop_last());
        lemma_digits_concat(a, b.drop_last());
        let x = digits_value(a);
        let p = pow10((b.len() - 1) as nat);
        let y = digits_value(b.drop_last());
        assert(10 * (x * p + y) == x * (10 * p) + 10 * y) by (nonlinear_arith);
    }
}

proof fn lemma_digits_bound(s: Seq<char>)
    requires
        all_digits(s),
    ensures
        0 <= digits_value(s) < pow10(s.len()),
    decreases s.len(),
{
    if s.len() > 0 {
        assert(all_digits(s.drop_last())) by {
            assert forall|i: int| 0 <= i < s.drop_last().len() implies is_digit(
                #[trigger] s.drop_last()[i],
            ) by {
                assert(s.drop_last()[i] == s[i]);
            }
        }
        lemma_digits_bound(s.drop_last());
        assert(is_digit(s[s.len() - 1]));
    }
}

proof fn lemma_round_split(p: int, d0: int, rest: int, q: int)
    requires
        p >= 0,
        0 <= d0 <= 9,
        0 <= rest < q,
    ensures
        round_div(p * (10 * q) + (d0 * q + rest), 10 * q) == p + (if d0 >= 5 { 1int } else { 0 }),
{
    let x = p * (10 * q) + (d0 * q + rest);
    let up: int = if d0 >= 5 { 1 } else { 0 };
    assert(x >= 0) by (nonlinear_arith)
        requires
            p >= 0,
            d0 >= 0,
            rest >= 0,
            q > 0,
            x == p * (10 * q) + (d0 * q + rest),
    ;
    let r = 2 * x + 10 * q - (p + up) * (20 * q);
    assert(r == 2 * d0 * q + 2 * rest + 10 * q - up * 20 * q) by (nonlinear_arith)
        requires
            x == p * (10 * q) + (d0 * q + rest),
            r == 2 * x + 10 * q - (p + up) * (20 * q),
    ;
    assert(0 <= r < 20 * q) by (nonlinear_arith)
        requires
            r == 2 * d0 * q + 2 * rest + 10 * q - up * 20 * q,
            0 <= d0 <= 9,
            0 <= rest < q,
            up == (if d0 >= 5 { 1int } else { 0 }),
    ;
    vstd::arithmetic::div_mod::lemma_fundamental_div_mod_converse(
        2 * x + 10 * q,
        20 * q,
        p + up,
        r,
    );
}

/// Whether every character of `s` is a decimal digit.
fn all_digits_exec(s: &str) -> (r: bool)
    ensures
        r == all_digits(s@),
{
    let n = s.unicode_len();
    let mut i: usize = 0;
    while i < n
        invariant
            i <= n,
            n == s@.len(),
            forall|j: int| 0 <= j < i ==> is_digit(#[trigger] s@[j]),
        decreases n - i,
    {
        let c = s.get_char(i);
        if !('0' <= c && c <= '9') {
            assert(!is_digit(s@[i as int]));
            return false;
        }
        i = i + 1;
    }
    true
}

/// `v * 10^k`, where that fits in `i64`.
fn scale_up(v: u64, k: u128) -> (r: Option<u64>)
    requires
        v <= i64::MAX,
    ensures
        r matches Some(w) ==> w == v * pow10(k as nat) && w <= i64::MAX,
        r is None ==> v * pow10(k as nat) > i64::MAX,
{
    if v == 0 {
        assert(v * pow10(k as nat) == 0);
        return Some(0);
    }
    let mut w = v;
    let mut i: u128 = 0;
    while i < k
        invariant
            i <= k,
            v >= 1,
            w == v * pow10(i as nat),
            w <= i64::MAX,
        decreases k - i,
    {
        if w > 922_337_203_685_477_580 {
            proof {
                lemma_pow10_mono((i + 1) as nat, k as nat);
                let p1 = pow10((i + 1) as nat);
                let pk = pow10(k as nat);
                assert(v * p1 == 10 * w) by (nonlinear_arith)
                    requires
                        w == v * pow10(i as nat),
                        p1 == 10 * pow10(i as nat),
                ;
                assert(v * pk >= v * p1) by (nonlinear_arith)
                    requires
                        pk >= p1,
                        v >= 1,
                ;
            }
            return None;
        }
        proof {
            assert(v * pow10((i + 1) as nat) == 10 * w) by (nonlinear_arith)
                requires
                    w == v * pow10(i as nat),
                    pow10((i + 1) as nat) == 10 * pow10(i as nat),
            ;
        }
        w = w * 10;
        i = i + 1;
    }
    Some(w)
}

/// `digits / 10^k` rounded half away from zero, where that fits in `i64`.
fn round_drop(d: &str, k: u128) -> (r: Option<u64>)
    requires
        all_digits(d@),
        k >= 1,
    ensures
        r matches Some(w) ==> w == round_div(digits_value(d@), pow10(k as nat)) && w <= i64::MAX,
        r is None ==> round_div(digits_value(d@), pow10(k as nat)) > i64::MAX,
{
    let n = d.unicode_len();
    let ghost q = pow10((k - 1) as nat);
    proof {
        lemma_pow10_pos((k - 1) as nat);
        assert(pow10(k as nat) == 10 * q);
    }
    if k > n as u128 {
        proof {
            lemma_digits_bound(d@);
            lemma_pow10_mono(d@.len(), (k - 1) as nat);
            lemma_round_split(0, 0, digits_value(d@), q);
        }
        return Some(0);
    }
    let j = n - k as usize;
    let keep = d.substring_char(0, j);
    let ghost tail = d@.skip(j as int);
    proof {
        assert(d@ =~= keep@ + tail);
        lemma_digits_concat(keep@, tail);
        assert(tail =~= tail.take(1) + tail.skip(1));
        lemma_digits_concat(tail.take(1), tail.skip(1));
        reveal_with_fuel(digits_value, 2);
        assert(tail.take(1).drop_last() =~= Seq::<char>::empty());
        assert(all_digits(tail.skip(1))) by {
            assert forall|i: int| 0 <= i < tail.skip(1).len() implies is_digit(
                #[trigger] tail.skip(1)[i],
            ) by {
                assert(tail.skip(1)[i] == d@[j + 1 + i]);
            }
        }
        lemma_digits_bound(tail.skip(1));
        assert(all_digits(keep@)) by {
            assert forall|i: int| 0 <= i < keep@.len() implies is_digit(#[trigger] keep@[i]) by {
                assert(keep@[i] == d@[i]);
            }
        }
        lemma_digits_nonneg(keep@);
        assert(is_digit(d@[j as int]));
        assert(tail.take(1).last() == d@[j as int]);
        lemma_round_split(
            digits_value(keep@),
            d@[j as int] as int - 48,
            digits_value(tail.skip(1)),
            q,
        );
    }
    assert(Seq::<char>::empty() + keep@ =~= keep@);
    let p = match push_digits(0, keep, Ghost(Seq::empty())) {
        Some(v) => v,
        None => {
            return None;
        },
    };
    let up = d.get_char(j) >= '5';
    if up {
        if p == 0x7fff_ffff_ffff_ffff {
            return None;
        }
        Some(p + 1)
    } else {
        Some(p)
    }
}

/// The exponent after the marker: a signed digit string whose value fits in `i64`.
fn parse_exponent(x: &str) -> (r: Option<i64>)
    ensures
        ({
            let d = unsigned_part(x@);
            &&& r is Some <==> (d.len() >= 1 && all_digits(d) && digits_value(d) <= i64::MAX)
            &&& r matches Some(e) ==> e == (if x@[0] == '-' {
                -digits_value(d)
            } else {
                digits_value(d)
            })
        }),
{
    let n = x.unicode_len();
    let signed = n > 0 && (x.get_char(0) == '-' || x.get_char(0) == '+');
    let neg = n > 0 && x.get_char(0) == '-';
    let d = if signed {
        x.substring_char(1, n)
    } else {
        x
    };
    if d.unicode_len() == 0 {
        return None;
    }
    assert(Seq::<char>::empty() + d@ =~= d@);
    match push_digits(0, d, Ghost(Seq::empty())) {
        Some(v) => Some(
            if neg {
                -(v as i64)
            } else {
                v as i64
            },
        ),
        None => None,
    }
}

/// Parses a number text such as `-116.397428` or `1.5e-3`.
pub fn parse_decimal(s: &str) -> (r: Option<Decimal>)
    ensures
        match decimal_text(s@) {
            None => r is None,
            Some((m, k)) => r matches Some(d) && d.spec_mantissa() == m && d.spec_scale() == k,
        },
{
    let n = s.unicode_len();
    let signed = n > 0 && (s.get_char(0) == '-' || s.get_char(0) == '+');
    let neg = n > 0 && s.get_char(0) == '-';
    let b = if signed {
        s.substring_char(1, n)
    } else {
        s
    };
    assert(b@ == unsigned_part(s@));
    let bn = b.unicode_len();
    let ke1 = find_char(b, 'e');
    let ke2 = find_char(b, 'E');
    proof {
        lemma_first_index(b@, 'e');
        lemma_first_index(b@, 'E');
    }
    let ke = if ke1 <= ke2 {
        ke1
    } else {
        ke2
    };
    let m = b.substring_char(0, ke);
    assert(m@ == mantissa_part(b@));
    let e: i64 = if ke < bn {
        let x = b.substring_char(ke + 1, bn);
        assert(x@ =~= b@.skip(ke + 1 as int));
        match parse_exponent(x) {
            Some(v) => v,
            None => {
                return None;
            },
        }
    } else {
        0
    };
    assert(exponent_of(b@) == Some(e as int));
    let mn = m.unicode_len();
    let k = find_char(m, '.');
    proof {
        lemma_first_index(m@, '.');
        reveal_strlit("");
    }
    let ip = m.substring_char(0, k);
    let fp = if k < mn {
        m.substring_char(k + 1, mn)
    } else {
        ""
    };
    assert(ip@ == int_digits(m@));
    assert(fp@ =~= frac_digits(m@));
    let mut ds = String::from_str(ip);
    ds.append(fp);
    let d = ds.as_str();
    assert(d@ == int_digits(m@) + frac_digits(m@));
    if d.unicode_len() == 0 || !all_digits_exec(d) {
        return None;
    }
    let sc: i128 = fp.unicode_len() as i128 - e as i128;
    let mag: u64 = if sc <= MAX_SCALE as i128 {
        assert(Seq::<char>::empty() + d@ =~= d@);
        let v = match push_digits(0, d, Ghost(Seq::empty())) {
            Some(v) => v,
            None => {
                proof {
                    if sc < 0 {
                        lemma_pow10_pos((-sc) as nat);
                        let dv = digits_value(d@);
                        let pk = pow10((-sc) as nat);
                        assert(dv * pk >= dv) by (nonlinear_arith)
                            requires
                                dv > 0,
                                pk >= 1,
                        ;
                    }
                }
                return None;
            },
        };
        if sc < 0 {
            match scale_up(v, (-sc) as u128) {
                Some(w) => w,
                None => {
                    return None;
                },
            }
        } else {
            v
        }
    } else {
        match round_drop(d, (sc - MAX_SCALE as i128) as u128) {
            Some(w) => w,
            None => {
                return None;
            },
        }
    };
    let scale: u32 = if sc < 0 {
        0
    } else if sc > MAX_SCALE as i128 {
        MAX_SCALE
    } else {
        sc as u32
    };
    let mantissa: i64 = if neg {
        -(mag as i64)
    } else {
        mag as i64
    };
    Some(Decimal { mantissa, scale })
}

/// Rounding takes halves away from zero: `k + 1/2` becomes `k + 1` for `k >= 0`,
/// and `k - 1/2` becomes `k - 1` for `k <= 0`.
pub proof fn round_ties_away_from_zero(k: int)
    ensures
        k >= 0 ==> round_div(2 * k + 1, 2) == k + 1,
        k <= 0 ==> round_div(2 * k - 1, 2) == k - 1,
{
    if k >= 0 {
        assert((2 * (2 * k + 1) + 2) / 4 == k + 1) by (nonlinear_arith);
    }
    if k <= 0 {
        assert((-2 * (2 * k - 1) + 2) / 4 == -k + 1) by (nonlinear_arith)
            requires
                k <= 0,
        ;
    }
}

/// A decimal rounds through the exact quotient of its digits: `self * num / den`
/// rounded half away from zero, saturated into `i64`.
pub proof fn round_ratio_is_exact(d: Decimal, num: int, den: int)
    ensures
        d.spec_round_ratio(num, den) == clamp_i64(
            round_div(d.spec_mantissa() * num, pow10(d.spec_scale()) * den),
        ),
        d.spec_trunc_ratio(num, den) == clamp_i64(
            trunc_div(d.spec_mantissa() * num, pow10(d.spec_scale()) * den),
        ),
{
}

} // verus!
