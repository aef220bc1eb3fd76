//! Exact rational arithmetic for the interpreter's numeric values.
//!
//! Every number the language manipulates is an arbitrary-precision rational,
//! held as `num_rational::Ratio<num_bigint::BigInt>`. Verus sees that type as
//! opaque, so this module gives it a mathematical reading: `rat_num` and
//! `rat_den` are the (reduced, positive-denominator) numerator and denominator
//! of a value, and every arithmetic call is wrapped in a trusted function
//! whose contract states the exact rational produced.

use vstd::prelude::*;

verus! {

/// The executable rational number type: an arbitrary-precision fraction.
pub type Rat = num_rational::Ratio<num_bigint::BigInt>;

#[verifier::external_type_specification]
#[verifier::external_body]
#[verifier::reject_recursive_types(T)]
pub struct ExRatio<T>(num_rational::Ratio<T>);

#[verifier::external_type_specification]
#[verifier::external_body]
pub struct ExBigInt(num_bigint::BigInt);

/// A mathematical fraction: the spec-level model of a rational number.
/// `num / den` with `den > 0` for well-formed values; two fractions denote
/// the same rational exactly when `frac_eq` holds.
pub struct Frac {
    pub num: int,
    pub den: int,
}

/// The mathematical numerator of a `Rat`. `num_rational` keeps every value
/// in lowest terms with a positive denominator, so this is a function of the
/// rational value; it names what `Ratio::numer` returns, read as an integer.
pub uninterp spec fn rat_num(r: Rat) -> int;

/// The mathematical denominator of a `Rat`; names what `Ratio::denom`
/// returns, read as an integer. Always positive for values built here.
pub uninterp spec fn rat_den(r: Rat) -> int;

/// The canonical (lowest-terms, positive-denominator) form of `n / d`:
/// names the result of `num_rational`'s internal reduction, which every
/// arithmetic operation applies to its result.
pub uninterp spec fn reduced_frac(n: int, d: int) -> Frac;

/// The fraction a `Rat` denotes.
pub open spec fn rat_frac(r: Rat) -> Frac {
    Frac { num: rat_num(r), den: rat_den(r) }
}

pub open spec fn frac_wf(a: Frac) -> bool {
    a.den > 0
}

/// Equality of the rationals two fractions denote (cross multiplication).
pub open spec fn frac_eq(a: Frac, b: Frac) -> bool {
    a.num * b.den == b.num * a.den
}

/// Strict order of the denoted rationals; meaningful when both denominators
/// are positive.
pub open spec fn frac_lt(a: Frac, b: Frac) -> bool {
    a.num * b.den < b.num * a.den
}

pub open spec fn frac_int(i: int) -> Frac {
    Frac { num: i, den: 1 }
}

pub open spec fn frac_is_zero(a: Frac) -> bool {
    a.num == 0
}

pub open spec fn frac_add(a: Frac, b: Frac) -> Frac {
    Frac { num: a.num * b.den + b.num * a.den, den: a.den * b.den }
}

pub open spec fn frac_sub(a: Frac, b: Frac) -> Frac {
    Frac { num: a.num * b.den - b.num * a.den, den: a.den * b.den }
}

pub open spec fn frac_mul(a: Frac, b: Frac) -> Frac {
    Frac { num: a.num * b.num, den: a.den * b.den }
}

pub open spec fn frac_div(a: Frac, b: Frac) -> Frac {
    Frac { num: a.num * b.den, den: a.den * b.num }
}

/// Truncation of a fraction toward zero, as an integer.
pub open spec fn frac_trunc(a: Frac) -> int {
    if a.num >= 0 {
        a.num / a.den
    } else {
        -((-a.num) / a.den)
    }
}

/// Relies on `Ratio::<BigInt>::from_integer` and `BigInt::from(i64)`:
/// builds the rational `n / 1` with that exact numerator and denominator.
#[verifier::external_body]
pub(crate) fn rat_from_i64(n: i64) -> (r: Rat)
    ensures
        rat_num(r) == n as int,
        rat_den(r) == 1,
{
    num_rational::Ratio::from_integer(num_bigint::BigInt::from(n))
}

/// Relies on `Ratio::<BigInt>::to_usize` (via `to_integer`, which rounds
/// toward zero, then `BigInt::to_usize`, which fails outside `usize` range).
#[verifier::external_body]
pub(crate) fn rat_trunc_usize(a: &Rat) -> (r: Option<usize>)
    requires
        rat_den(*a) > 0,
    ensures
        match r {
            Some(k) => k as int == frac_trunc(rat_frac(*a)),
            None => frac_trunc(rat_frac(*a)) < 0 || frac_trunc(rat_frac(*a)) > usize::MAX as int,
        },
{
    num_traits::ToPrimitive::to_usize(a)
}

/// Relies on `Clone for Ratio<BigInt>`: the copy denotes the same rational,
/// held as the same numerator/denominator pair. The positive denominator
/// relies on `num_rational`'s canonical-form invariant: every value built
/// by its constructors and arithmetic keeps its denominator positive, and
/// nothing here builds one any other way.
#[verifier::external_body]
pub(crate) fn rat_clone(a: &Rat) -> (r: Rat)
    ensures
        rat_num(r) == rat_num(*a),
        rat_den(r) == rat_den(*a),
        rat_den(r) > 0,
{
    a.clone()
}

/// Relies on `Add for Ratio<BigInt>`: the exact sum, reduced to canonical
/// form with a positive denominator.
#[verifier::external_body]
pub(crate) fn rat_add(a: &Rat, b: &Rat) -> (r: Rat)
    requires
        rat_den(*a) > 0,
        rat_den(*b) > 0,
    ensures
        rat_den(r) > 0,
        rat_frac(r) == reduced_frac(
            rat_num(*a) * rat_den(*b) + rat_num(*b) * rat_den(*a),
            rat_den(*a) * rat_den(*b),
        ),
        frac_eq(rat_frac(r), frac_add(rat_frac(*a), rat_frac(*b))),
{
    a + b
}

/// Relies on `Sub for Ratio<BigInt>`: the exact difference, reduced to
/// canonical form with a positive denominator.
#[verifier::external_body]
pub(crate) fn rat_sub(a: &Rat, b: &Rat) -> (r: Rat)
    requires
        rat_den(*a) > 0,
        rat_den(*b) > 0,
    ensures
        rat_den(r) > 0,
        rat_frac(r) == reduced_frac(
            rat_num(*a) * rat_den(*b) - rat_num(*b) * rat_den(*a),
            rat_den(*a) * rat_den(*b),
        ),
        frac_eq(rat_frac(r), frac_sub(rat_frac(*a), rat_frac(*b))),
{
    a - b
}

/// Relies on `Mul for Ratio<BigInt>`: the exact product, reduced to
/// canonical form with a positive denominator.
#[verifier::external_body]
pub(crate) fn rat_mul(a: &Rat, b: &Rat) -> (r: Rat)
    requires
        rat_den(*a) > 0,
        rat_den(*b) > 0,
    ensures
        rat_den(r) > 0,
        rat_frac(r) == reduced_frac(rat_num(*a) * rat_num(*b), rat_den(*a) * rat_den(*b)),
        frac_eq(rat_frac(r), frac_mul(rat_frac(*a), rat_frac(*b))),
{
    a * b
}

/// Relies on `Div for Ratio<BigInt>`: the exact quotient, reduced to
/// canonical form with a positive denominator. Division by zero panics in
/// `num_rational`, so a nonzero divisor is required.
#[verifier::external_body]
pub(crate) fn rat_div(a: &Rat, b: &Rat) -> (r: Rat)
    requires
        rat_den(*a) > 0,
        rat_den(*b) > 0,
        rat_num(*b) != 0,
    ensures
        rat_den(r) > 0,
        rat_frac(r) == reduced_frac(rat_num(*a) * rat_den(*b), rat_den(*a) * rat_num(*b)),
        frac_eq(rat_frac(r), frac_div(rat_frac(*a), rat_frac(*b))),
{
    a / b
}

/// Relies on `Ord for Ratio<BigInt>` (`lt`): an exact value comparison.
#[verifier::external_body]
pub(crate) fn rat_lt(a: &Rat, b: &Rat) -> (r: bool)
    requires
        rat_den(*a) > 0,
        rat_den(*b) > 0,
    ensures
        r == frac_lt(rat_frac(*a), rat_frac(*b)),
{
    a < b
}

/// Relies on `PartialEq for Ratio<BigInt>`: an exact value comparison.
#[verifier::external_body]
pub(crate) fn rat_eq(a: &Rat, b: &Rat) -> (r: bool)
    requires
        rat_den(*a) > 0,
        rat_den(*b) > 0,
    ensures
        r == frac_eq(rat_frac(*a), rat_frac(*b)),
{
    a == b
}

/// The decimal rendering of the rational `n / d` (for `n`, `d` the canonical
/// pair of a value): the shortest decimal form of the nearest
/// double-precision number. Names what `Ratio::to_f64` followed by `f64`'s
/// `Display` produces; both are exact, deterministic functions of the value.
pub uninterp spec fn decimal_rendering(n: int, d: int) -> Seq<char>;

/// Relies on `Ratio::<BigInt>::to_f64` (exact, correctly rounded conversion;
/// `None` only for the 0/0 form, which a positive denominator excludes) and
/// on `f64`'s `Display`.
#[verifier::external_body]
pub(crate) fn rat_to_decimal_string(a: &Rat) -> (r: String)
    requires
        rat_den(*a) > 0,
    ensures
        r@ == decimal_rendering(rat_num(*a), rat_den(*a)),
{
    match num_traits::ToPrimitive::to_f64(a) {
        Some(x) => format!("{}", x),
        None => String::new(),
    }
}

/// The rational approximation of the natural logarithm of `n / d` (for the
/// canonical pair of a value), computed through double precision; `None`
/// where the logarithm is not finite (argument at most zero, or out of
/// double range). `f64::ln` goes through the platform's math library, so
/// this is a fixed function of its arguments within any one build of the
/// program; different platforms may differ in the last unit of precision.
pub uninterp spec fn ln_approx(n: int, d: int) -> Option<Frac>;

/// Relies on `Ratio::<BigInt>::to_f64`, `f64::ln` and
/// `BigRational::from_float`: `from_float` returns the exact rational of a
/// finite double and `None` otherwise.
#[verifier::external_body]
pub(crate) fn rat_ln(a: &Rat) -> (r: Option<Rat>)
    requires
        rat_den(*a) > 0,
    ensures
        match (r, ln_approx(rat_num(*a), rat_den(*a))) {
            (Some(x), Some(f)) => rat_den(x) > 0 && rat_frac(x) == f,
            (None, None) => true,
            _ => false,
        },
{
    match num_traits::ToPrimitive::to_f64(a) {
        Some(x) => num_rational::BigRational::from_float(x.ln()),
        None => None,
    }
}

/// The product of two positive integers is positive.
pub proof fn lemma_pos_mul(a: int, b: int)
    requires
        a > 0,
        b > 0,
    ensures
        a * b > 0,
{
    assert(a * b > 0) by (nonlinear_arith)
        requires
            a > 0,
            b > 0,
    ;
}

/// `frac_eq` is transitive across a well-formed middle fraction.
pub proof fn lemma_frac_eq_trans(a: Frac, b: Frac, c: Frac)
    requires
        b.den != 0,
        frac_eq(a, b),
        frac_eq(b, c),
    ensures
        frac_eq(a, c),
{
    assert((a.num * c.den) * b.den == (c.num * a.den) * b.den) by (nonlinear_arith)
        requires
            a.num * b.den == b.num * a.den,
            b.num * c.den == c.num * b.den,
    ;
    assert(a.num * c.den == c.num * a.den) by (nonlinear_arith)
        requires
            (a.num * c.den) * b.den == (c.num * a.den) * b.den,
            b.den != 0,
    ;
}

pub proof fn lemma_frac_eq_sym(a: Frac, b: Frac)
    requires
        frac_eq(a, b),
    ensures
        frac_eq(b, a),
{
}

/// Addition respects `frac_eq`.
#[verifier::rlimit(50)]
pub proof fn lemma_add_congruence(a: Frac, a2: Frac, b: Frac, b2: Frac)
    requires
        frac_eq(a, a2),
        frac_eq(b, b2),
    ensures
        frac_eq(frac_add(a, b), frac_add(a2, b2)),
{
    assert(a.num * b.den * (a2.den * b2.den) == a2.num * b2.den * (a.den * b.den))
        by (nonlinear_arith)
        requires
            a.num * a2.den == a2.num * a.den,
    ;
    assert(b.num * a.den * (a2.den * b2.den) == b2.num * a2.den * (a.den * b.den))
        by (nonlinear_arith)
        requires
            b.num * b2.den == b2.num * b.den,
    ;
    assert((a.num * b.den + b.num * a.den) * (a2.den * b2.den) == a.num * b.den * (a2.den
        * b2.den) + b.num * a.den * (a2.den * b2.den)) by (nonlinear_arith);
    assert((a2.num * b2.den + b2.num * a2.den) * (a.den * b.den) == a2.num * b2.den * (a.den
        * b.den) + b2.num * a2.den * (a.den * b.den)) by (nonlinear_arith);
}

/// Subtraction respects `frac_eq`.
#[verifier::rlimit(50)]
pub proof fn lemma_sub_congruence(a: Frac, a2: Frac, b: Frac, b2: Frac)
    requires
        frac_eq(a, a2),
        frac_eq(b, b2),
    ensures
        frac_eq(frac_sub(a, b), frac_sub(a2, b2)),
{
    assert(a.num * b.den * (a2.den * b2.den) == a2.num * b2.den * (a.den * b.den))
        by (nonlinear_arith)
        requires
            a.num * a2.den == a2.num * a.den,
    ;
    assert(b.num * a.den * (a2.den * b2.den) == b2.num * a2.den * (a.den * b.den))
        by (nonlinear_arith)
        requires
            b.num * b2.den == b2.num * b.den,
    ;
    assert((a.num * b.den - b.num * a.den) * (a2.den * b2.den) == a.num * b.den * (a2.den
        * b2.den) - b.num * a.den * (a2.den * b2.den)) by (nonlinear_arith);
    assert((a2.num * b2.den - b2.num * a2.den) * (a.den * b.den) == a2.num * b2.den * (a.den
        * b.den) - b2.num * a2.den * (a.den * b.den)) by (nonlinear_arith);
}

/// Multiplication respects `frac_eq`.
pub proof fn lemma_mul_congruence(a: Frac, a2: Frac, b: Frac, b2: Frac)
    requires
        frac_eq(a, a2),
        frac_eq(b, b2),
    ensures
        frac_eq(frac_mul(a, b), frac_mul(a2, b2)),
{
    assert((a.num * b.num) * (a2.den * b2.den) == (a2.num * b2.num) * (a.den * b.den))
        by (nonlinear_arith)
        requires
            a.num * a2.den == a2.num * a.den,
            b.num * b2.den == b2.num * b.den,
    ;
}

/// Division respects `frac_eq`.
pub proof fn lemma_div_congruence(a: Frac, a2: Frac, b: Frac, b2: Frac)
    requires
        frac_eq(a, a2),
        frac_eq(b, b2),
    ensures
        frac_eq(frac_div(a, b), frac_div(a2, b2)),
{
    assert((a.num * b.den) * (a2.den * b2.num) == (a2.num * b2.den) * (a.den * b.num))
        by (nonlinear_arith)
        requires
            a.num * a2.den == a2.num * a.den,
            b.num * b2.den == b2.num * b.den,
    ;
}

/// Two `frac_eq`-related well-formed fractions have numerators positive
/// together.
pub proof fn lemma_eq_pos(a: Frac, b: Frac)
    requires
        a.den > 0,
        b.den > 0,
        frac_eq(a, b),
    ensures
        (a.num > 0) == (b.num > 0),
{
    assert((a.num > 0) == (b.num > 0)) by (nonlinear_arith)
        requires
            a.num * b.den == b.num * a.den,
            a.den > 0,
            b.den > 0,
    ;
}

/// Two `frac_eq`-related fractions have numerators zero together.
pub proof fn lemma_eq_zero(a: Frac, b: Frac)
    requires
        a.den != 0,
        b.den != 0,
        frac_eq(a, b),
    ensures
        (a.num == 0) == (b.num == 0),
{
    assert((a.num == 0) == (b.num == 0)) by (nonlinear_arith)
        requires
            a.num * b.den == b.num * a.den,
            a.den != 0,
            b.den != 0,
    ;
}

} // verus!
