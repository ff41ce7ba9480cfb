//! Fixed-point decimal numbers.
//!
//! A [`Decimal`] is an integer mantissa and a power-of-ten scale; its value is
//! `mantissa / 10^scale`. Addition, subtraction, multiplication, division, ordering,
//! rounding, printing and parsing are those of the `rust_decimal` crate, reached
//! through the private wrappers at the end of this file. A zero carries no sign.
//!
//! Where an exact result needs no rounding, the contracts give its mantissa and scale.
//! Where the crate rounds, they equate the result with a name for what it returns, say
//! when there is one, and say that rounding passes no number that can be written.

use crate::text::{digits, padded, zeros};
use vstd::prelude::*;
use vstd::std_specs::cmp::PartialEqSpecImpl;

verus! {

/// The largest magnitude of a mantissa: ninety-six bits.
pub const MAX_MANTISSA: i128 = 79_228_162_514_264_337_593_543_950_335;

/// The largest scale.
pub const MAX_SCALE: u32 = 28;

/// Ten to the power `e`.
pub open spec fn pow10(e: nat) -> nat
    decreases e,
{
    if e == 0 {
        1
    } else {
        10 * pow10((e - 1) as nat)
    }
}

/// Whether a mantissa fits in ninety-six bits.
pub open spec fn fits(m: int) -> bool {
    -MAX_MANTISSA <= m <= MAX_MANTISSA
}

/// Whether a mantissa and a scale are those of a decimal.
pub open spec fn in_range(m: int, s: nat) -> bool {
    fits(m) && s <= MAX_SCALE
}

/// The mathematical content of a decimal: `m / 10^s`.
pub struct Num {
    pub m: int,
    pub s: nat,
}

/// The number `m / 10^s`.
pub open spec fn num(m: int, s: nat) -> Num {
    Num { m, s }
}

/// The number zero, with no decimal places.
pub open spec fn num_zero() -> Num {
    Num { m: 0, s: 0 }
}

/// Whether the value of `a` is below the value of `b`.
pub open spec fn num_lt(a: Num, b: Num) -> bool {
    a.m * pow10(b.s) < b.m * pow10(a.s)
}

/// Whether the value of `a` is at most the value of `b`.
pub open spec fn num_le(a: Num, b: Num) -> bool {
    a.m * pow10(b.s) <= b.m * pow10(a.s)
}

/// A power of ten is positive.
pub proof fn lemma_pow10_positive(e: nat)
    ensures
        pow10(e) > 0,
    decreases e,
{
    if e > 0 {
        lemma_pow10_positive((e - 1) as nat);
    }
}

/// The order of values is transitive.
pub proof fn lemma_le_transitive(a: Num, b: Num, c: Num)
    requires
        num_le(a, b),
        num_le(b, c),
    ensures
        num_le(a, c),
{
    lemma_pow10_positive(a.s);
    lemma_pow10_positive(b.s);
    lemma_pow10_positive(c.s);
    let (x, y, z) = (pow10(a.s) as int, pow10(b.s) as int, pow10(c.s) as int);
    let (am, bm, cm) = (a.m, b.m, c.m);
    assert(am * z <= cm * x) by (nonlinear_arith)
        requires
            am * y <= bm * x,
            bm * z <= cm * y,
            x > 0,
            y > 0,
            z > 0,
    {
        assert((am * y) * z <= (bm * x) * z);
        assert((bm * z) * x <= (cm * y) * x);
        assert((am * z) * y == (am * y) * z);
        assert((bm * x) * z == (bm * z) * x);
        assert((cm * x) * y == (cm * y) * x);
        assert((am * z) * y <= (cm * x) * y);
    }
}

/// Powers of ten multiply by adding their exponents.
pub proof fn lemma_pow10_sum(a: nat, b: nat)
    ensures
        pow10(a + b) == pow10(a) * pow10(b),
    decreases a,
{
    if a == 0 {
        assert(pow10(0) == 1);
    } else {
        let less = (a - 1) as nat;
        lemma_pow10_sum(less, b);
        assert((a + b - 1) as nat == less + b);
        let (x, y) = (pow10(less), pow10(b));
        assert(10 * (x * y) == (10 * x) * y) by (nonlinear_arith);
    }
}

/// Whether `c` is the product of `a` and `b`, with nothing rounded.
pub open spec fn is_exact_product(a: Num, b: Num, c: Num) -> bool {
    c.m * pow10(a.s + b.s) == a.m * b.m * pow10(c.s)
}

/// Of two exact products with a positive number, the smaller has the smaller factor.
pub proof fn lemma_smaller_product(a: Num, b: Num, unit: Num, x: Num, y: Num)
    requires
        unit.m > 0,
        is_exact_product(a, unit, x),
        is_exact_product(b, unit, y),
        num_lt(x, y),
    ensures
        num_lt(a, b),
{
    lemma_pow10_sum(a.s, unit.s);
    lemma_pow10_sum(b.s, unit.s);
    lemma_pow10_positive(a.s);
    lemma_pow10_positive(b.s);
    lemma_pow10_positive(unit.s);
    lemma_pow10_positive(x.s);
    lemma_pow10_positive(y.s);
    let (am, bm, um, xm, ym) = (a.m, b.m, unit.m, x.m, y.m);
    let (pa, pb, pu) = (pow10(a.s) as int, pow10(b.s) as int, pow10(unit.s) as int);
    let (px, py) = (pow10(x.s) as int, pow10(y.s) as int);
    let k = pa * pb * pu;
    let n = um * px * py;
    assert(k > 0 && n > 0) by (nonlinear_arith)
        requires
            k == pa * pb * pu,
            n == um * px * py,
            pa > 0,
            pb > 0,
            pu > 0,
            px > 0,
            py > 0,
            um > 0,
    ;
    let (u, v) = (xm * (pa * pu), ym * (pb * pu));
    assert((xm * py) * k == u * (py * pb)) by (nonlinear_arith)
        requires
            u == xm * (pa * pu),
            k == pa * pb * pu,
    ;
    assert((ym * px) * k == v * (px * pa)) by (nonlinear_arith)
        requires
            v == ym * (pb * pu),
            k == pa * pb * pu,
    ;
    assert(u * (py * pb) == (am * pb) * n) by (nonlinear_arith)
        requires
            u == am * um * px,
            n == um * px * py,
    ;
    assert(v * (px * pa) == (bm * pa) * n) by (nonlinear_arith)
        requires
            v == bm * um * py,
            n == um * px * py,
    ;
    let (low, high) = (xm * py, ym * px);
    assert(low * k < high * k) by (nonlinear_arith)
        requires
            low < high,
            k > 0,
    ;
    let (left, right) = (am * pb, bm * pa);
    assert(left < right) by (nonlinear_arith)
        requires
            left * n < right * n,
            n > 0,
    ;
}

/// A factor of a positive exact product with a positive number is positive.
pub proof fn lemma_positive_factor(a: Num, unit: Num, x: Num)
    requires
        unit.m > 0,
        is_exact_product(a, unit, x),
        x.m > 0,
    ensures
        a.m > 0,
{
    lemma_pow10_positive(a.s + unit.s);
    lemma_pow10_positive(x.s);
    let (am, um, xm) = (a.m, unit.m, x.m);
    let (p, q) = (pow10(a.s + unit.s) as int, pow10(x.s) as int);
    assert(am > 0) by (nonlinear_arith)
        requires
            xm * p == am * um * q,
            xm > 0,
            p > 0,
            q > 0,
            um > 0,
    ;
}

/// Whether `a` and `b` have the same value, at whatever scale each is written.
pub open spec fn num_eq(a: Num, b: Num) -> bool {
    a.m * pow10(b.s) == b.m * pow10(a.s)
}

/// The number with its sign flipped.
pub open spec fn num_neg(a: Num) -> Num {
    Num { m: -a.m, s: a.s }
}

/// The magnitude of an integer.
pub open spec fn magnitude(m: int) -> int {
    if m < 0 {
        -m
    } else {
        m
    }
}

/// The smaller of two integers.
pub open spec fn least(a: int, b: int) -> int {
    if b < a {
        b
    } else {
        a
    }
}

/// A magnitude with a sign.
pub open spec fn signed(m: int, negative: bool) -> int {
    if negative {
        -m
    } else {
        m
    }
}

/// The absolute value.
pub open spec fn num_abs(a: Num) -> Num {
    Num { m: magnitude(a.m), s: a.s }
}

/// The smaller of two numbers; the first where they are equal.
pub open spec fn num_min(a: Num, b: Num) -> Num {
    if num_lt(b, a) {
        b
    } else {
        a
    }
}

/// The number with its trailing fractional zeros removed.
pub open spec fn num_normalized(a: Num) -> Num
    decreases a.s,
{
    if a.m == 0 {
        num_zero()
    } else if a.s > 0 && a.m % 10 == 0 {
        num_normalized(Num { m: a.m / 10, s: (a.s - 1) as nat })
    } else {
        a
    }
}

/// The mantissa of `m / 10^s` written at the scale `t`, where `t >= s`.
pub open spec fn aligned(m: int, s: nat, t: nat) -> int {
    m * pow10((t - s) as nat)
}

/// The larger of two scales.
pub open spec fn wider(s1: nat, s2: nat) -> nat {
    if s1 < s2 {
        s2
    } else {
        s1
    }
}

/// What `rust_decimal::Decimal::checked_add` returns, as mantissa and scale.
pub uninterp spec fn decimal_sum(m1: int, s1: nat, m2: int, s2: nat) -> Option<(int, nat)>;

/// What `rust_decimal::Decimal::checked_sub` returns, as mantissa and scale.
pub uninterp spec fn decimal_difference(m1: int, s1: nat, m2: int, s2: nat) -> Option<(int, nat)>;

/// What `rust_decimal::Decimal::checked_mul` returns, as mantissa and scale.
pub uninterp spec fn decimal_product(m1: int, s1: nat, m2: int, s2: nat) -> Option<(int, nat)>;

/// What `rust_decimal::Decimal::checked_div` returns, as mantissa and scale.
pub uninterp spec fn decimal_quotient(m1: int, s1: nat, m2: int, s2: nat) -> Option<(int, nat)>;

/// What parsing a text as `rust_decimal::Decimal` returns: mantissa and scale, or the
/// text of the error.
pub uninterp spec fn decimal_parsed(s: Seq<char>) -> Result<(int, nat), Seq<char>>;

/// A pair of mantissa and scale as a number.
pub open spec fn as_num(parts: Option<(int, nat)>) -> Option<Num> {
    match parts {
        Some((m, s)) => Some(Num { m, s }),
        None => None,
    }
}

/// The sum; `None` where it exceeds the range.
pub open spec fn num_add(a: Num, b: Num) -> Option<Num> {
    as_num(decimal_sum(a.m, a.s, b.m, b.s))
}

/// The difference; `None` where it exceeds the range.
pub open spec fn num_sub(a: Num, b: Num) -> Option<Num> {
    as_num(decimal_difference(a.m, a.s, b.m, b.s))
}

/// The product; `None` where it exceeds the range.
pub open spec fn num_mul(a: Num, b: Num) -> Option<Num> {
    as_num(decimal_product(a.m, a.s, b.m, b.s))
}

/// The quotient; `None` where the divisor is zero or the result exceeds the range.
pub open spec fn num_div(a: Num, b: Num) -> Option<Num> {
    as_num(decimal_quotient(a.m, a.s, b.m, b.s))
}

/// The sum of two numbers that may be missing.
pub open spec fn o_add(a: Option<Num>, b: Option<Num>) -> Option<Num> {
    match (a, b) {
        (Some(x), Some(y)) => num_add(x, y),
        _ => None,
    }
}

/// The difference of two numbers that may be missing.
pub open spec fn o_sub(a: Option<Num>, b: Option<Num>) -> Option<Num> {
    match (a, b) {
        (Some(x), Some(y)) => num_sub(x, y),
        _ => None,
    }
}

/// The product of two numbers that may be missing.
pub open spec fn o_mul(a: Option<Num>, b: Option<Num>) -> Option<Num> {
    match (a, b) {
        (Some(x), Some(y)) => num_mul(x, y),
        _ => None,
    }
}

/// The quotient of two numbers that may be missing.
pub open spec fn o_div(a: Option<Num>, b: Option<Num>) -> Option<Num> {
    match (a, b) {
        (Some(x), Some(y)) => num_div(x, y),
        _ => None,
    }
}

/// Whether a sum is exact: there is one, and nothing is rounded.
pub open spec fn adds_exactly(a: Num, b: Num) -> bool {
    num_add(a, b) matches Some(c) && units(c) == units(a) + units(b)
}

/// Whether a difference is exact: there is one, and nothing is rounded.
pub open spec fn subtracts_exactly(a: Num, b: Num) -> bool {
    num_sub(a, b) matches Some(c) && units(c) == units(a) - units(b)
}

/// Whether a product is exact: there is one, and nothing is rounded.
pub open spec fn multiplies_exactly(a: Num, b: Num) -> bool {
    num_mul(a, b) matches Some(c) && units(c) * units_in_one() == units(a) * units(b)
}

/// Whether a quotient is exact: there is one, and nothing is rounded.
pub open spec fn divides_exactly(a: Num, b: Num) -> bool {
    num_div(a, b) matches Some(c) && units(c) * units(b) == units(a) * units_in_one()
}

/// The exact sum where neither operand nor the sum needs more than ninety-six bits at
/// the larger scale. Adding to zero gives the other operand as it is written.
pub open spec fn exact_sum(a: Num, b: Num) -> Option<Num> {
    let t = wider(a.s, b.s);
    let x = aligned(a.m, a.s, t);
    let y = aligned(b.m, b.s, t);
    if a.m == 0 {
        Some(b)
    } else if b.m == 0 {
        Some(a)
    } else if fits(x) && fits(y) && fits(x + y) {
        Some(Num { m: x + y, s: t })
    } else {
        None
    }
}

/// The exact difference, under the conditions of [`exact_sum`].
pub open spec fn exact_difference(a: Num, b: Num) -> Option<Num> {
    exact_sum(a, num_neg(b))
}

/// The value in units of the finest scale, where the scale is in range.
pub open spec fn units(a: Num) -> int {
    aligned(a.m, a.s, MAX_SCALE as nat)
}

/// The number of units in one.
pub open spec fn units_in_one() -> int {
    pow10(MAX_SCALE as nat) as int
}

/// Whether `n / d` units, with `d` positive, are too large to be written: even with no
/// decimal places they do not round to a mantissa in range.
pub open spec fn overflows(n: int, d: int) -> bool {
    2 * magnitude(n) >= (2 * MAX_MANTISSA + 1) * units_in_one() * d
}

/// Whether `r` is a rounding of `n / d` units, with `d` positive: every number in range that
/// is at least that much is at least `r`, and every one that is at most that much is at most
/// `r`.
#[verifier::opaque]
pub open spec fn is_rounding(n: int, d: int, r: Num) -> bool {
    forall|c: Num| #[trigger]
        in_range(c.m, c.s) ==> {
            &&& n <= units(c) * d ==> units(r) <= units(c)
            &&& units(c) * d <= n ==> units(c) <= units(r)
        }
}

/// Whether a result is what `n / d` units round to: nothing where they overflow, and
/// otherwise a rounding of them.
pub open spec fn is_rounded(n: int, d: int, r: Option<Num>) -> bool {
    match r {
        Some(x) => !overflows(n, d) && is_rounding(n, d, x),
        None => overflows(n, d),
    }
}

/// Whether `n / d` units can be written without rounding.
pub open spec fn is_writable(n: int, d: int) -> bool {
    exists|c: Num| #[trigger] in_range(c.m, c.s) && units(c) * d == n
}

/// The exact sum, in units.
pub open spec fn sum_units(a: Num, b: Num) -> int {
    units(a) + units(b)
}

/// The exact difference, in units.
pub open spec fn difference_units(a: Num, b: Num) -> int {
    units(a) - units(b)
}

/// The exact product, in units, times the number of units in one.
pub open spec fn product_units(a: Num, b: Num) -> int {
    units(a) * units(b)
}

/// The exact quotient, in units, times the magnitude of the divisor's units.
pub open spec fn quotient_units(a: Num, b: Num) -> int {
    signed(units(a), b.m < 0) * units_in_one()
}

/// Numbers are ordered as their units are.
pub proof fn lemma_units_order(a: Num, b: Num)
    requires
        a.s <= MAX_SCALE,
        b.s <= MAX_SCALE,
    ensures
        num_le(a, b) <==> units(a) <= units(b),
        num_lt(a, b) <==> units(a) < units(b),
        num_eq(a, b) <==> units(a) == units(b),
{
    lemma_units_compare(a, b);
    lemma_units_compare(b, a);
}

/// One number is at most another where its units are.
proof fn lemma_units_compare(a: Num, b: Num)
    requires
        a.s <= MAX_SCALE,
        b.s <= MAX_SCALE,
    ensures
        num_le(a, b) <==> units(a) <= units(b),
{
    let (p, q) = (pow10(a.s) as int, pow10(b.s) as int);
    let (x, y) = (pow10((MAX_SCALE - a.s) as nat) as int, pow10((MAX_SCALE - b.s) as nat) as int);
    let k = units_in_one();
    lemma_pow10_sum(a.s, (MAX_SCALE - a.s) as nat);
    lemma_pow10_sum(b.s, (MAX_SCALE - b.s) as nat);
    lemma_pow10_positive(a.s);
    lemma_pow10_positive(b.s);
    lemma_pow10_positive(MAX_SCALE as nat);
    let (am, bm) = (a.m, b.m);
    assert((am * x) * (p * q) == (am * q) * k) by (nonlinear_arith)
        requires
            p * x == k,
    ;
    assert((bm * y) * (p * q) == (bm * p) * k) by (nonlinear_arith)
        requires
            q * y == k,
    ;
    let (u, v, w, z, n) = (am * x, bm * y, am * q, bm * p, p * q);
    assert(n > 0) by (nonlinear_arith)
        requires
            n == p * q,
            p > 0,
            q > 0,
    ;
    assert(w <= z <==> u <= v) by (nonlinear_arith)
        requires
            u * n == w * k,
            v * n == z * k,
            n > 0,
            k > 0,
    ;
}

/// Units have the sign of the mantissa.
pub proof fn lemma_units_sign(a: Num)
    ensures
        units(a) > 0 <==> a.m > 0,
        units(a) < 0 <==> a.m < 0,
{
    let (m, p) = (a.m, pow10((MAX_SCALE - a.s) as nat) as int);
    lemma_pow10_positive((MAX_SCALE - a.s) as nat);
    assert((m * p > 0 <==> m > 0) && (m * p < 0 <==> m < 0)) by (nonlinear_arith)
        requires
            p > 0,
    ;
}

/// The units of an absolute value and of a negation are those of the number, without their
/// sign and with the other one.
pub proof fn lemma_units_of_signed(a: Num)
    ensures
        units(num_abs(a)) == magnitude(units(a)),
        units(num_neg(a)) == -units(a),
{
    let (m, p) = (a.m, pow10((MAX_SCALE - a.s) as nat) as int);
    lemma_units_sign(a);
    assert((-m) * p == -(m * p)) by (nonlinear_arith);
}

/// What a rounding says of one number in range.
pub proof fn lemma_rounding_at(n: int, d: int, r: Num, c: Num)
    requires
        is_rounding(n, d, r),
        in_range(c.m, c.s),
    ensures
        n <= units(c) * d ==> units(r) <= units(c),
        units(c) * d <= n ==> units(c) <= units(r),
{
    reveal(is_rounding);
}

/// A rounding has the sign of what is rounded, or is zero.
pub proof fn lemma_rounding_sign(n: int, d: int, r: Num)
    requires
        is_rounding(n, d, r),
    ensures
        n >= 0 ==> r.m >= 0,
        n <= 0 ==> r.m <= 0,
{
    let zero = num_zero();
    lemma_units_sign(zero);
    lemma_units_sign(r);
    assert(0 * d == 0);
    lemma_rounding_at(n, d, r, zero);
}

/// A number in range does not overflow.
proof fn lemma_in_range_fits(c: Num, d: int)
    requires
        in_range(c.m, c.s),
        d > 0,
    ensures
        !overflows(units(c) * d, d),
{
    let (p, q) = (pow10(c.s) as int, pow10((MAX_SCALE - c.s) as nat) as int);
    let k = units_in_one();
    lemma_pow10_sum(c.s, (MAX_SCALE - c.s) as nat);
    lemma_pow10_positive(c.s);
    lemma_pow10_positive((MAX_SCALE - c.s) as nat);
    let (m, most) = (magnitude(c.m), MAX_MANTISSA as int);
    assert(q <= k) by (nonlinear_arith)
        requires
            p * q == k,
            p >= 1,
            q > 0,
    ;
    let (n, size) = (units(c) * d, m * q);
    assert(magnitude(n) == size * d) by (nonlinear_arith)
        requires
            n == (c.m * q) * d,
            size == m * q,
            q > 0,
            d > 0,
            c.m < 0 ==> m == -c.m,
            c.m >= 0 ==> m == c.m,
            n < 0 ==> magnitude(n) == -n,
            n >= 0 ==> magnitude(n) == n,
    ;
    assert(size <= most * k) by (nonlinear_arith)
        requires
            size == m * q,
            0 <= m <= most,
            0 < q <= k,
    ;
    assert(2 * (size * d) < (2 * most + 1) * k * d) by (nonlinear_arith)
        requires
            size <= most * k,
            d > 0,
            k > 0,
    ;
}

/// What can be written is not rounded.
pub proof fn lemma_writable_is_exact(n: int, d: int, r: Option<Num>)
    requires
        is_rounded(n, d, r),
        d > 0,
        is_writable(n, d),
    ensures
        r matches Some(x) && units(x) * d == n,
{
    let c = choose|c: Num| #[trigger] in_range(c.m, c.s) && units(c) * d == n;
    lemma_in_range_fits(c, d);
    lemma_rounding_at(n, d, r->0, c);
}

/// A number in range that is the exact quotient has as many units as the quotient.
proof fn lemma_exact_quotient_units(a: Num, b: Num, c: Num)
    requires
        a.s <= MAX_SCALE,
        b.s <= MAX_SCALE,
        b.m != 0,
        in_range(c.m, c.s),
        is_exact_product(c, b, a),
    ensures
        quotient_units(a, b) == units(c) * magnitude(units(b)),
        magnitude(units(b)) > 0,
{
    let (pa, pb, pc) = (pow10(a.s) as int, pow10(b.s) as int, pow10(c.s) as int);
    let (qa, qb, qc) = (
        pow10((MAX_SCALE - a.s) as nat) as int,
        pow10((MAX_SCALE - b.s) as nat) as int,
        pow10((MAX_SCALE - c.s) as nat) as int,
    );
    let k = units_in_one();
    lemma_pow10_sum(a.s, (MAX_SCALE - a.s) as nat);
    lemma_pow10_sum(b.s, (MAX_SCALE - b.s) as nat);
    lemma_pow10_sum(c.s, (MAX_SCALE - c.s) as nat);
    lemma_pow10_sum(c.s, b.s);
    lemma_pow10_positive(MAX_SCALE as nat);
    let (am, bm, cm) = (a.m, b.m, c.m);
    let (ua, ub, uc) = (units(a), units(b), units(c));
    let all = qa * qb * qc;
    assert((am * (pc * pb)) * all == (ua * k) * k) by (nonlinear_arith)
        requires
            ua == am * qa,
            pb * qb == k,
            pc * qc == k,
            all == qa * qb * qc,
    ;
    assert((cm * bm * pa) * all == ((cm * qc) * (bm * qb)) * (pa * qa)) by (nonlinear_arith)
        requires
            all == qa * qb * qc,
    ;
    let (left, right) = (ua * k, uc * ub);
    assert(left == right) by (nonlinear_arith)
        requires
            left * k == right * k,
            k > 0,
    ;
    lemma_units_sign(b);
    let d = magnitude(ub);
    let n = quotient_units(a, b);
    assert(n == uc * d) by (nonlinear_arith)
        requires
            ua * k == uc * ub,
            ub < 0 ==> d == -ub && n == -ua * k,
            ub >= 0 ==> d == ub && n == ua * k,
    ;
}

/// The exact product where its mantissa and scale are in range.
pub open spec fn exact_product(a: Num, b: Num) -> Option<Num> {
    if a.m == 0 || b.m == 0 {
        Some(num_zero())
    } else if fits(a.m * b.m) && a.s + b.s <= MAX_SCALE {
        Some(Num { m: a.m * b.m, s: a.s + b.s })
    } else {
        None
    }
}

/// The exact quotient where the mantissas divide evenly and the scale does not become
/// negative.
pub open spec fn exact_quotient(a: Num, b: Num) -> Option<Num> {
    if b.m == 0 {
        None
    } else if a.m == 0 {
        Some(num_zero())
    } else if a.m % b.m == 0 && a.s >= b.s {
        Some(Num { m: a.m / b.m, s: (a.s - b.s) as nat })
    } else {
        None
    }
}

/// Rounding to at most `dp` decimal places, midpoints to the even neighbour.
pub open spec fn num_rounded(a: Num, dp: nat) -> Num {
    if a.s <= dp {
        a
    } else {
        let unit = pow10((a.s - dp) as nat) as int;
        let q = magnitude(a.m) / unit;
        let r = magnitude(a.m) % unit;
        let up = 2 * r > unit || (2 * r == unit && q % 2 == 1);
        let n = if up {
            q + 1
        } else {
            q
        };
        Num { m: signed(n, a.m < 0), s: dp }
    }
}

/// The sign as text: a minus for a negative mantissa.
pub open spec fn sign_text(m: int) -> Seq<char> {
    if m < 0 {
        seq!['-']
    } else {
        seq![]
    }
}

/// The fractional digits of a mantissa at scale `s`, all `s` of them.
pub open spec fn fraction_digits(m: int, s: nat) -> Seq<char> {
    if s == 0 {
        seq![]
    } else {
        padded((magnitude(m) % (pow10(s) as int)) as nat, s)
    }
}

/// The integer digits of a mantissa at scale `s`.
pub open spec fn whole_digits(m: int, s: nat) -> Seq<char> {
    digits((magnitude(m) / (pow10(s) as int)) as nat)
}

/// The decimal text: sign, integer digits and, where the scale is positive, a point and
/// exactly that many fractional digits.
pub open spec fn num_text(a: Num) -> Seq<char> {
    if a.s == 0 {
        sign_text(a.m) + whole_digits(a.m, a.s)
    } else {
        sign_text(a.m) + whole_digits(a.m, a.s) + seq!['.'] + fraction_digits(a.m, a.s)
    }
}

/// The decimal text with exactly `places` fractional digits: longer fractions are cut,
/// shorter ones are filled with zeros.
pub open spec fn num_text_to(a: Num, places: nat) -> Seq<char> {
    let fraction = fraction_digits(a.m, a.s);
    let shown = if a.s < places {
        fraction + zeros((places - a.s) as nat)
    } else {
        fraction.take(places as int)
    };
    sign_text(a.m) + whole_digits(a.m, a.s) + seq!['.'] + shown
}

/// A fixed-point decimal number.
#[derive(Clone, Copy, Debug)]
pub struct Decimal {
    mantissa: i128,
    scale: u32,
}

impl View for Decimal {
    type V = Num;

    closed spec fn view(&self) -> Num {
        Num { m: self.mantissa as int, s: self.scale as nat }
    }
}

/// The number held by an optional decimal.
pub open spec fn opt_num(d: Option<Decimal>) -> Option<Num> {
    match d {
        Some(x) => Some(x@),
        None => None,
    }
}

/// A pair of exec mantissa and scale as mathematical values.
pub open spec fn parts_view(parts: Option<(i128, u32)>) -> Option<(int, nat)> {
    match parts {
        Some((m, s)) => Some((m as int, s as nat)),
        None => None,
    }
}

impl Decimal {
    #[verifier::type_invariant]
    closed spec fn well_formed(self) -> bool {
        in_range(self.mantissa as int, self.scale as nat)
    }

    /// The number zero.
    pub fn zero() -> (r: Decimal)
        ensures
            r@ == num_zero(),
    {
        Decimal { mantissa: 0, scale: 0 }
    }

    /// The number one.
    pub fn one() -> (r: Decimal)
        ensures
            r@ == num(1, 0),
    {
        Decimal { mantissa: 1, scale: 0 }
    }

    /// The number `num / 10^scale`.
    pub fn new(num: i64, scale: u32) -> (r: Decimal)
        requires
            scale <= MAX_SCALE,
        ensures
            r@ == (Num { m: num as int, s: scale as nat }),
    {
        Decimal { mantissa: num as i128, scale }
    }

    /// The number `mantissa / 10^scale`, if both are in range.
    pub fn from_parts(mantissa: i128, scale: u32) -> (r: Option<Decimal>)
        ensures
            r is Some <==> in_range(mantissa as int, scale as nat),
            r matches Some(d) ==> d@ == num(mantissa as int, scale as nat),
    {
        if scale <= MAX_SCALE && mantissa <= MAX_MANTISSA && mantissa >= -MAX_MANTISSA {
            Some(Decimal { mantissa, scale })
        } else {
            None
        }
    }

    /// The whole number `n`.
    pub fn from_u32(n: u32) -> (r: Decimal)
        ensures
            r@ == num(n as int, 0),
    {
        Decimal { mantissa: n as i128, scale: 0 }
    }

    /// The mantissa.
    pub fn mantissa(self) -> (r: i128)
        ensures
            r == self@.m,
            fits(r as int),
    {
        proof {
            use_type_invariant(&self);
        }
        self.mantissa
    }

    /// The scale: the number of decimal places.
    pub fn scale(self) -> (r: u32)
        ensures
            r == self@.s,
            r <= MAX_SCALE,
    {
        proof {
            use_type_invariant(&self);
        }
        self.scale
    }

    /// Whether the value is zero.
    pub fn is_zero(self) -> (r: bool)
        ensures
            r == (self@.m == 0),
    {
        self.mantissa == 0
    }

    /// Whether the value is below that of `other`.
    pub fn is_less(self, other: Decimal) -> (r: bool)
        ensures
            r == num_lt(self@, other@),
    {
        proof {
            use_type_invariant(&self);
            use_type_invariant(&other);
        }
        parts_less(self.mantissa, self.scale, other.mantissa, other.scale)
    }

    /// Whether the value is at most that of `other`.
    pub fn is_at_most(self, other: Decimal) -> (r: bool)
        ensures
            r == num_le(self@, other@),
    {
        !other.is_less(self)
    }

    /// Whether the value equals that of `other`.
    pub fn same_value(self, other: Decimal) -> (r: bool)
        ensures
            r == num_eq(self@, other@),
    {
        !self.is_less(other) && !other.is_less(self)
    }

    /// Whether the value is above zero.
    pub fn is_positive(self) -> (r: bool)
        ensures
            r == (self@.m > 0),
    {
        self.mantissa > 0
    }

    /// Whether the value is below zero.
    pub fn is_negative(self) -> (r: bool)
        ensures
            r == (self@.m < 0),
    {
        self.mantissa < 0
    }

    /// The number with its sign flipped.
    pub fn negated(self) -> (r: Decimal)
        ensures
            r@ == num_neg(self@),
    {
        proof {
            use_type_invariant(&self);
        }
        Decimal { mantissa: -self.mantissa, scale: self.scale }
    }

    /// The absolute value.
    pub fn abs(self) -> (r: Decimal)
        ensures
            r@ == num_abs(self@),
            units(r@) == magnitude(units(self@)),
    {
        proof {
            let (m, p) = (self@.m, pow10((MAX_SCALE - self@.s) as nat) as int);
            lemma_units_sign(self@);
            assert((-m) * p == -(m * p)) by (nonlinear_arith);
        }
        if self.mantissa < 0 {
            self.negated()
        } else {
            self
        }
    }

    /// The smaller of two numbers; `self` where they are equal.
    pub fn min(self, other: Decimal) -> (r: Decimal)
        ensures
            r@ == num_min(self@, other@),
            r == self || r == other,
            units(r@) == least(units(self@), units(other@)),
    {
        proof {
            use_type_invariant(&self);
            use_type_invariant(&other);
            lemma_units_order(other@, self@);
        }
        if other.is_less(self) {
            other
        } else {
            self
        }
    }

    /// The sum; `None` where it exceeds the range.
    pub fn checked_add(self, other: Decimal) -> (r: Option<Decimal>)
        ensures
            opt_num(r) == num_add(self@, other@),
            exact_sum(self@, other@) matches Some(x) ==> opt_num(r) == Some(x),
            is_rounded(sum_units(self@, other@), 1, opt_num(r)),
            is_writable(sum_units(self@, other@), 1) ==> r is Some && units(r->0@) == sum_units(
                self@,
                other@,
            ),
            r matches Some(d) ==> (sum_units(self@, other@) >= 0 ==> d@.m >= 0),
            r matches Some(d) ==> (sum_units(self@, other@) <= 0 ==> d@.m <= 0),
    {
        proof {
            use_type_invariant(&self);
            use_type_invariant(&other);
        }
        let r = match parts_add(self.mantissa, self.scale, other.mantissa, other.scale) {
            Some((mantissa, scale)) => Some(Decimal { mantissa, scale }),
            None => None,
        };
        proof {
            let n = sum_units(self@, other@);
            if r is Some {
                lemma_rounding_sign(n, 1, r->0@);
            }
            if is_writable(n, 1) {
                lemma_writable_is_exact(n, 1, opt_num(r));
            }
        }
        r
    }

    /// The difference; `None` where it exceeds the range.
    pub fn checked_sub(self, other: Decimal) -> (r: Option<Decimal>)
        ensures
            opt_num(r) == num_sub(self@, other@),
            exact_difference(self@, other@) matches Some(x) ==> opt_num(r) == Some(x),
            is_rounded(difference_units(self@, other@), 1, opt_num(r)),
            is_writable(difference_units(self@, other@), 1) ==> r is Some && units(r->0@)
                == difference_units(self@, other@),
            r matches Some(d) ==> (difference_units(self@, other@) >= 0 ==> d@.m >= 0),
            r matches Some(d) ==> (difference_units(self@, other@) <= 0 ==> d@.m <= 0),
    {
        proof {
            use_type_invariant(&self);
            use_type_invariant(&other);
        }
        let r = match parts_sub(self.mantissa, self.scale, other.mantissa, other.scale) {
            Some((mantissa, scale)) => Some(Decimal { mantissa, scale }),
            None => None,
        };
        proof {
            let n = difference_units(self@, other@);
            if r is Some {
                lemma_rounding_sign(n, 1, r->0@);
            }
            if is_writable(n, 1) {
                lemma_writable_is_exact(n, 1, opt_num(r));
            }
        }
        r
    }

    /// The product; `None` where it exceeds the range.
    pub fn checked_mul(self, other: Decimal) -> (r: Option<Decimal>)
        ensures
            opt_num(r) == num_mul(self@, other@),
            exact_product(self@, other@) matches Some(x) ==> opt_num(r) == Some(x),
            is_rounded(product_units(self@, other@), units_in_one(), opt_num(r)),
            is_writable(product_units(self@, other@), units_in_one()) ==> r is Some && units(r->0@)
                * units_in_one() == product_units(self@, other@),
            in_range(self@.m, self@.s),
            in_range(other@.m, other@.s),
            r matches Some(d) ==> in_range(d@.m, d@.s),
            r matches Some(d) ==> (self@.m * other@.m >= 0 ==> d@.m >= 0),
            r matches Some(d) ==> (self@.m * other@.m <= 0 ==> d@.m <= 0),
    {
        proof {
            use_type_invariant(&self);
            use_type_invariant(&other);
        }
        let r = match parts_mul(self.mantissa, self.scale, other.mantissa, other.scale) {
            Some((mantissa, scale)) => Some(Decimal { mantissa, scale }),
            None => None,
        };
        proof {
            let n = product_units(self@, other@);
            lemma_pow10_positive(MAX_SCALE as nat);
            if is_writable(n, units_in_one()) {
                lemma_writable_is_exact(n, units_in_one(), opt_num(r));
            }
        }
        r
    }

    /// The quotient; `None` where the divisor is zero or the result exceeds the range.
    pub fn checked_div(self, other: Decimal) -> (r: Option<Decimal>)
        ensures
            opt_num(r) == num_div(self@, other@),
            other@.m == 0 ==> r is None,
            exact_quotient(self@, other@) matches Some(x) ==> opt_num(r) == Some(x),
            forall|x: Num| #[trigger]
                is_exact_product(x, other@, self@) && in_range(x.m, x.s) && other@.m != 0 ==> (
                r matches Some(d) && num_eq(d@, x)),
            r matches Some(d) ==> in_range(d@.m, d@.s),
            other@.m != 0 ==> is_rounded(
                quotient_units(self@, other@),
                magnitude(units(other@)),
                opt_num(r),
            ),
            other@.m != 0 && is_writable(quotient_units(self@, other@), magnitude(units(other@)))
                ==> r is Some && units(r->0@) * magnitude(units(other@)) == quotient_units(
                self@,
                other@,
            ),
            r matches Some(d) ==> (self@.m * other@.m >= 0 ==> d@.m >= 0),
            r matches Some(d) ==> (self@.m * other@.m <= 0 ==> d@.m <= 0),
    {
        proof {
            use_type_invariant(&self);
            use_type_invariant(&other);
        }
        let r = match parts_div(self.mantissa, self.scale, other.mantissa, other.scale) {
            Some((mantissa, scale)) => Some(Decimal { mantissa, scale }),
            None => None,
        };
        assert forall|x: Num| #[trigger]
            is_exact_product(x, other@, self@) && in_range(x.m, x.s) && other@.m != 0 implies (
        r matches Some(d) && num_eq(d@, x)) by {
            lemma_exact_quotient_units(self@, other@, x);
            let (n, d) = (quotient_units(self@, other@), magnitude(units(other@)));
            lemma_in_range_fits(x, d);
            lemma_rounding_at(n, d, r->0@, x);
            lemma_units_order(r->0@, x);
        }
        proof {
            let (n, d) = (quotient_units(self@, other@), magnitude(units(other@)));
            lemma_units_sign(other@);
            if other@.m != 0 && is_writable(n, d) {
                lemma_writable_is_exact(n, d, opt_num(r));
            }
        }
        r
    }

    /// The number with its trailing fractional zeros removed.
    pub fn normalize(self) -> (r: Decimal)
        ensures
            r@ == num_normalized(self@),
    {
        proof {
            use_type_invariant(&self);
        }
        if self.mantissa == 0 {
            return Decimal { mantissa: 0, scale: 0 };
        }
        let negative = self.mantissa < 0;
        let mut m: i128 = if negative {
            -self.mantissa
        } else {
            self.mantissa
        };
        let mut s: u32 = self.scale;
        while s > 0 && m % 10 == 0
            invariant
                0 < m <= MAX_MANTISSA,
                s <= MAX_SCALE,
                num_normalized(Num { m: signed(m as int, negative), s: s as nat })
                    == num_normalized(self@),
            decreases s,
        {
            assert(signed(m as int, negative) % 10 == 0);
            assert(signed(m as int, negative) / 10 == signed(m as int / 10, negative));
            m = m / 10;
            s = s - 1;
        }
        assert(signed(m as int, negative) % 10 == 0 ==> m as int % 10 == 0);
        Decimal {
            mantissa: if negative {
                -m
            } else {
                m
            },
            scale: s,
        }
    }

    /// The number rounded to at most `dp` decimal places, midpoints to even.
    pub fn round_dp(self, dp: u32) -> (r: Decimal)
        ensures
            r@ == num_rounded(self@, dp as nat),
    {
        proof {
            use_type_invariant(&self);
        }
        let (mantissa, scale) = parts_round(self.mantissa, self.scale, dp);
        Decimal { mantissa, scale }
    }

    /// The decimal text.
    pub fn text(self) -> (r: String)
        ensures
            r@ == num_text(self@),
    {
        proof {
            use_type_invariant(&self);
        }
        parts_text(self.mantissa, self.scale)
    }

    /// The decimal text with exactly `places` fractional digits.
    pub fn text_to(self, places: usize) -> (r: String)
        requires
            1 <= places <= 2,
        ensures
            r@ == num_text_to(self@, places as nat),
    {
        proof {
            use_type_invariant(&self);
        }
        parts_text_to(self.mantissa, self.scale, places)
    }

    /// The number that a text denotes, or the text of the error.
    pub fn parse(s: &str) -> (r: Result<Decimal, String>)
        ensures
            match (r, decimal_parsed(s@)) {
                (Ok(d), Ok((m, e))) => d@ == num(m, e),
                (Err(e), Err(text)) => e@ == text,
                _ => false,
            },
    {
        match parts_parse(s) {
            Ok((mantissa, scale)) => Ok(Decimal { mantissa, scale }),
            Err(e) => Err(e),
        }
    }
}

impl PartialEq for Decimal {
    fn eq(&self, other: &Decimal) -> (r: bool) {
        (*self).same_value(*other)
    }
}

impl PartialEqSpecImpl for Decimal {
    open spec fn obeys_eq_spec() -> bool {
        true
    }

    open spec fn eq_spec(&self, other: &Decimal) -> bool {
        num_eq(self@, other@)
    }
}

/// `<` on `rust_decimal::Decimal`: compares the values that the mantissas and scales
/// denote.
#[verifier::external_body]
fn parts_less(m1: i128, s1: u32, m2: i128, s2: u32) -> (r: bool)
    requires
        in_range(m1 as int, s1 as nat),
        in_range(m2 as int, s2 as nat),
    ensures
        r == num_lt(num(m1 as int, s1 as nat), num(m2 as int, s2 as nat)),
{
    rust_decimal::Decimal::from_i128_with_scale(m1, s1)
        < rust_decimal::Decimal::from_i128_with_scale(m2, s2)
}

/// `rust_decimal::Decimal::checked_add`: a result is in range, and it is the exact sum
/// where that needs no rounding. A longer sum is rounded past no number in range, and there
/// is no result where it exceeds the range. Which neighbour it is rounded to is left to the
/// name.
#[verifier::external_body]
fn parts_add(m1: i128, s1: u32, m2: i128, s2: u32) -> (r: Option<(i128, u32)>)
    requires
        in_range(m1 as int, s1 as nat),
        in_range(m2 as int, s2 as nat),
    ensures
        parts_view(r) == decimal_sum(m1 as int, s1 as nat, m2 as int, s2 as nat),
        r matches Some((m, s)) ==> in_range(m as int, s as nat),
        exact_sum(num(m1 as int, s1 as nat), num(m2 as int, s2 as nat)) matches Some(x)
            ==> as_num(parts_view(r)) == Some(x),
        is_rounded(
            sum_units(num(m1 as int, s1 as nat), num(m2 as int, s2 as nat)),
            1,
            as_num(parts_view(r)),
        ),
{
    rust_decimal::Decimal::from_i128_with_scale(m1, s1)
        .checked_add(rust_decimal::Decimal::from_i128_with_scale(m2, s2))
        .map(|d| (d.mantissa(), d.scale()))
}

/// `rust_decimal::Decimal::checked_sub`: a result is in range, and it is the exact
/// difference where that needs no rounding. A longer one is rounded past no number in range,
/// and there is no result where it exceeds the range. Which neighbour it is rounded to is
/// left to the name.
#[verifier::external_body]
fn parts_sub(m1: i128, s1: u32, m2: i128, s2: u32) -> (r: Option<(i128, u32)>)
    requires
        in_range(m1 as int, s1 as nat),
        in_range(m2 as int, s2 as nat),
    ensures
        parts_view(r) == decimal_difference(m1 as int, s1 as nat, m2 as int, s2 as nat),
        r matches Some((m, s)) ==> in_range(m as int, s as nat),
        exact_difference(num(m1 as int, s1 as nat), num(m2 as int, s2 as nat)) matches Some(x)
            ==> as_num(parts_view(r)) == Some(x),
        is_rounded(
            difference_units(num(m1 as int, s1 as nat), num(m2 as int, s2 as nat)),
            1,
            as_num(parts_view(r)),
        ),
{
    rust_decimal::Decimal::from_i128_with_scale(m1, s1)
        .checked_sub(rust_decimal::Decimal::from_i128_with_scale(m2, s2))
        .map(|d| (d.mantissa(), d.scale()))
}

/// `rust_decimal::Decimal::checked_mul`: a result is in range and has the sign of the
/// product, and it is the exact product where that needs no rounding. A longer one is
/// rounded past no number in range, and there is no result where it exceeds the range. Which
/// neighbour it is rounded to is left to the name.
#[verifier::external_body]
fn parts_mul(m1: i128, s1: u32, m2: i128, s2: u32) -> (r: Option<(i128, u32)>)
    requires
        in_range(m1 as int, s1 as nat),
        in_range(m2 as int, s2 as nat),
    ensures
        parts_view(r) == decimal_product(m1 as int, s1 as nat, m2 as int, s2 as nat),
        r matches Some((m, s)) ==> in_range(m as int, s as nat),
        r matches Some((m, s)) ==> (m1 * m2 >= 0 ==> m >= 0),
        r matches Some((m, s)) ==> (m1 * m2 <= 0 ==> m <= 0),
        exact_product(num(m1 as int, s1 as nat), num(m2 as int, s2 as nat)) matches Some(x)
            ==> as_num(parts_view(r)) == Some(x),
        is_rounded(
            product_units(num(m1 as int, s1 as nat), num(m2 as int, s2 as nat)),
            units_in_one(),
            as_num(parts_view(r)),
        ),
{
    rust_decimal::Decimal::from_i128_with_scale(m1, s1)
        .checked_mul(rust_decimal::Decimal::from_i128_with_scale(m2, s2))
        .map(|d| (d.mantissa(), d.scale()))
}

/// `rust_decimal::Decimal::checked_div`: nothing for a zero divisor; a result is in
/// range and has the sign of the quotient, and it is the exact quotient, at the difference
/// of the scales, where the mantissas divide evenly. Another one is rounded past no number in
/// range, so that one that can be written is not rounded at all, and there is no result
/// where it exceeds the range. Which neighbour it is rounded to, and at which scale it is
/// written, is left to the name.
#[verifier::external_body]
fn parts_div(m1: i128, s1: u32, m2: i128, s2: u32) -> (r: Option<(i128, u32)>)
    requires
        in_range(m1 as int, s1 as nat),
        in_range(m2 as int, s2 as nat),
    ensures
        parts_view(r) == decimal_quotient(m1 as int, s1 as nat, m2 as int, s2 as nat),
        m2 == 0 ==> r is None,
        r matches Some((m, s)) ==> in_range(m as int, s as nat),
        r matches Some((m, s)) ==> (m1 * m2 >= 0 ==> m >= 0),
        r matches Some((m, s)) ==> (m1 * m2 <= 0 ==> m <= 0),
        exact_quotient(num(m1 as int, s1 as nat), num(m2 as int, s2 as nat)) matches Some(x)
            ==> as_num(parts_view(r)) == Some(x),
        m2 != 0 ==> is_rounded(
            quotient_units(num(m1 as int, s1 as nat), num(m2 as int, s2 as nat)),
            magnitude(units(num(m2 as int, s2 as nat))),
            as_num(parts_view(r)),
        ),
{
    rust_decimal::Decimal::from_i128_with_scale(m1, s1)
        .checked_div(rust_decimal::Decimal::from_i128_with_scale(m2, s2))
        .map(|d| (d.mantissa(), d.scale()))
}

/// `rust_decimal::Decimal::round_dp`: rounds to at most `dp` places, midpoints to even.
#[verifier::external_body]
fn parts_round(m: i128, s: u32, dp: u32) -> (r: (i128, u32))
    requires
        in_range(m as int, s as nat),
    ensures
        in_range(r.0 as int, r.1 as nat),
        num(r.0 as int, r.1 as nat) == num_rounded(num(m as int, s as nat), dp as nat),
{
    let d = rust_decimal::Decimal::from_i128_with_scale(m, s).round_dp(dp);
    (d.mantissa(), d.scale())
}

/// The `Display` text of `rust_decimal::Decimal`: sign, integer digits and as many
/// fractional digits as the scale says.
#[verifier::external_body]
fn parts_text(m: i128, s: u32) -> (r: String)
    requires
        in_range(m as int, s as nat),
    ensures
        r@ == num_text(num(m as int, s as nat)),
{
    rust_decimal::Decimal::from_i128_with_scale(m, s).to_string()
}

/// The `Display` text of `rust_decimal::Decimal` with a precision: the fraction is cut
/// or filled with zeros to that many digits. The call has room for thirty-two characters
/// besides the sign, which twenty-nine digits, the point and two places fill.
#[verifier::external_body]
fn parts_text_to(m: i128, s: u32, places: usize) -> (r: String)
    requires
        in_range(m as int, s as nat),
        1 <= places <= 2,
    ensures
        r@ == num_text_to(num(m as int, s as nat), places as nat),
{
    format!("{:.*}", places, rust_decimal::Decimal::from_i128_with_scale(m, s))
}

/// `str::parse` into `rust_decimal::Decimal`: a result is in range; which texts it
/// accepts and how it rounds them is left to the name.
#[verifier::external_body]
fn parts_parse(s: &str) -> (r: Result<(i128, u32), String>)
    ensures
        match (r, decimal_parsed(s@)) {
            (Ok((m, e)), Ok((pm, pe))) => m == pm && e == pe && in_range(m as int, e as nat),
            (Err(e), Err(text)) => e@ == text,
            _ => false,
        },
{
    match s.parse::<rust_decimal::Decimal>() {
        Ok(d) => Ok((d.mantissa(), d.scale())),
        Err(e) => Err(e.to_string()),
    }
}

} // verus!
