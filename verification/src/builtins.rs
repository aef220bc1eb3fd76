//! Builtin operations: temperature conversions, dew point, and the scalar
//! gate gadgets.
//!
//! Each builtin computes a closed-form formula over exact rationals. The
//! `*_f` spec functions state the textbook formula over fractions, and the
//! `s_*` spec functions give the canonical-form arithmetic of each
//! operation. The toy register operations here are boolean-algebra
//! gadgets over single scalar values, not amplitude-vector quantum state;
//! callers must not expect quantum-mechanical behavior from them.

use vstd::prelude::*;

use crate::constants::{kelvin_constant, kelvin_frac, s_kelvin};
use crate::errors::{Error, ErrV};
use crate::rat::{
    Frac, Rat, frac_add, frac_sub, frac_mul, frac_eq, frac_int, frac_wf, lemma_add_congruence,
    lemma_sub_congruence, lemma_mul_congruence, lemma_frac_eq_trans, lemma_pos_mul, rat_add,
    rat_sub, rat_mul, rat_div, rat_eq, rat_clone, rat_from_i64, rat_frac, rat_den, rat_num,
    rat_ln, reduced_frac, ln_approx,
};
use crate::value::{
    CF, Value, cf_int, cf_is_int, cf_wf, s_fadd, s_fsub, s_fmul, s_fdiv, s_cadd, s_csub, s_cmul,
    s_cdiv, value_add, value_div, value_int, value_is_int, value_mul, value_sub, value_clone,
};

verus! {

/// The scale factor 5/9, as the executable code holds it.
pub open spec fn s59() -> Frac {
    reduced_frac(5, 9)
}

/// The scale factor 9/5, as the executable code holds it.
pub open spec fn s95() -> Frac {
    reduced_frac(9, 5)
}

/// Fahrenheit to Celsius: `(f - 32) * 5/9`.
pub open spec fn ftoc_f(x: Frac) -> Frac {
    frac_mul(frac_sub(x, frac_int(32)), Frac { num: 5, den: 9 })
}

/// Celsius to Fahrenheit: `c * 9/5 + 32`.
pub open spec fn ctof_f(x: Frac) -> Frac {
    frac_add(frac_mul(x, Frac { num: 9, den: 5 }), frac_int(32))
}

/// Celsius to Kelvin: `c + 273.15`.
pub open spec fn ctok_f(x: Frac) -> Frac {
    frac_add(x, kelvin_frac())
}

/// Kelvin to Celsius: `k - 273.15`.
pub open spec fn ktoc_f(x: Frac) -> Frac {
    frac_sub(x, kelvin_frac())
}

/// Fahrenheit to Kelvin: the Celsius conversion shifted by 273.15.
pub open spec fn ftok_f(x: Frac) -> Frac {
    frac_add(ftoc_f(x), kelvin_frac())
}

/// Kelvin to Fahrenheit: `(k - 273.15) * 9/5 + 32`.
pub open spec fn ktof_f(x: Frac) -> Frac {
    ctof_f(ktoc_f(x))
}

/// What the executable Fahrenheit-to-Celsius conversion produces: the real
/// part converted, the imaginary part scaled by 5/9.
pub open spec fn s_ftoc(v: CF) -> CF {
    CF { re: s_fmul(s_fsub(v.re, frac_int(32)), s59()), im: s_fmul(v.im, s59()) }
}

pub open spec fn s_ctof(v: CF) -> CF {
    CF { re: s_fadd(s_fmul(v.re, s95()), frac_int(32)), im: s_fmul(v.im, s95()) }
}

pub open spec fn s_ctok(v: CF) -> CF {
    CF { re: s_fadd(v.re, s_kelvin()), im: v.im }
}

pub open spec fn s_ktoc(v: CF) -> CF {
    CF { re: s_fsub(v.re, s_kelvin()), im: v.im }
}

pub open spec fn s_ftok(v: CF) -> CF {
    CF {
        re: s_fadd(s_fmul(s_fsub(v.re, frac_int(32)), s59()), s_kelvin()),
        im: s_fmul(v.im, s59()),
    }
}

pub open spec fn s_ktof(v: CF) -> CF {
    CF {
        re: s_fadd(s_fmul(s_fsub(v.re, s_kelvin()), s95()), frac_int(32)),
        im: s_fmul(v.im, s95()),
    }
}

/// Converting to Fahrenheit and back to Celsius returns the argument
/// exactly: `ftoc_f(ctof_f(x))` denotes the same rational as `x`.
pub proof fn lemma_ftoc_ctof_round_trip(x: Frac)
    requires
        frac_wf(x),
    ensures
        frac_eq(ftoc_f(ctof_f(x)), x),
{
    assert(frac_eq(ftoc_f(ctof_f(x)), x)) by (nonlinear_arith)
        requires
            x.den > 0,
    ;
}

/// Converting to Celsius and back to Fahrenheit returns the argument
/// exactly.
pub proof fn lemma_ctof_ftoc_round_trip(x: Frac)
    requires
        frac_wf(x),
    ensures
        frac_eq(ctof_f(ftoc_f(x)), x),
{
    assert(frac_eq(ctof_f(ftoc_f(x)), x)) by (nonlinear_arith)
        requires
            x.den > 0,
    ;
}

/// Fahrenheit to Celsius, exactly.
pub fn ftoc_value(v: &Value) -> (r: Value)
    requires
        cf_wf(v@),
    ensures
        cf_wf(r@),
        r@ == s_ftoc(v@),
        frac_eq(r@.re, ftoc_f(v@.re)),
        frac_eq(r@.im, frac_mul(v@.im, Frac { num: 5, den: 9 })),
{
    let c32 = rat_from_i64(32);
    let five = rat_from_i64(5);
    let nine = rat_from_i64(9);
    let f59 = rat_div(&five, &nine);
    let diff = rat_sub(&v.re, &c32);
    let re = rat_mul(&diff, &f59);
    let im = rat_mul(&v.im, &f59);
    proof {
        lemma_pos_mul(rat_den(diff), rat_den(f59));
        lemma_mul_congruence(
            rat_frac(diff),
            frac_sub(v@.re, frac_int(32)),
            rat_frac(f59),
            Frac { num: 5, den: 9 },
        );
        lemma_frac_eq_trans(
            rat_frac(re),
            frac_mul(rat_frac(diff), rat_frac(f59)),
            ftoc_f(v@.re),
        );
        lemma_pos_mul(rat_den(v.im), rat_den(f59));
        lemma_mul_congruence(
            rat_frac(v.im),
            rat_frac(v.im),
            rat_frac(f59),
            Frac { num: 5, den: 9 },
        );
        lemma_frac_eq_trans(
            rat_frac(im),
            frac_mul(rat_frac(v.im), rat_frac(f59)),
            frac_mul(v@.im, Frac { num: 5, den: 9 }),
        );
    }
    Value { re, im }
}

/// Celsius to Fahrenheit, exactly.
pub fn ctof_value(v: &Value) -> (r: Value)
    requires
        cf_wf(v@),
    ensures
        cf_wf(r@),
        r@ == s_ctof(v@),
        frac_eq(r@.re, ctof_f(v@.re)),
        frac_eq(r@.im, frac_mul(v@.im, Frac { num: 9, den: 5 })),
{
    let c32 = rat_from_i64(32);
    let nine = rat_from_i64(9);
    let five = rat_from_i64(5);
    let f95 = rat_div(&nine, &five);
    let scaled = rat_mul(&v.re, &f95);
    let re = rat_add(&scaled, &c32);
    let im = rat_mul(&v.im, &f95);
    proof {
        lemma_pos_mul(rat_den(v.re), rat_den(f95));
        lemma_mul_congruence(
            rat_frac(v.re),
            rat_frac(v.re),
            rat_frac(f95),
            Frac { num: 9, den: 5 },
        );
        lemma_frac_eq_trans(
            rat_frac(scaled),
            frac_mul(rat_frac(v.re), rat_frac(f95)),
            frac_mul(v@.re, Frac { num: 9, den: 5 }),
        );
        lemma_add_congruence(
            rat_frac(scaled),
            frac_mul(v@.re, Frac { num: 9, den: 5 }),
            frac_int(32),
            frac_int(32),
        );
        lemma_pos_mul(rat_den(scaled), 1);
        lemma_frac_eq_trans(
            rat_frac(re),
            frac_add(rat_frac(scaled), frac_int(32)),
            ctof_f(v@.re),
        );
        lemma_pos_mul(rat_den(v.im), rat_den(f95));
        lemma_mul_congruence(
            rat_frac(v.im),
            rat_frac(v.im),
            rat_frac(f95),
            Frac { num: 9, den: 5 },
        );
        lemma_frac_eq_trans(
            rat_frac(im),
            frac_mul(rat_frac(v.im), rat_frac(f95)),
            frac_mul(v@.im, Frac { num: 9, den: 5 }),
        );
    }
    Value { re, im }
}

/// Celsius to Kelvin, exactly: the real part shifted by 273.15.
pub fn ctok_value(v: &Value) -> (r: Value)
    requires
        cf_wf(v@),
    ensures
        cf_wf(r@),
        r@ == s_ctok(v@),
        frac_eq(r@.re, ctok_f(v@.re)),
        r@.im == v@.im,
{
    let k = kelvin_constant();
    let re = rat_add(&v.re, &k);
    proof {
        lemma_add_congruence(rat_frac(v.re), v@.re, rat_frac(k), kelvin_frac());
        lemma_pos_mul(rat_den(v.re), rat_den(k));
        lemma_frac_eq_trans(
            rat_frac(re),
            frac_add(rat_frac(v.re), rat_frac(k)),
            ctok_f(v@.re),
        );
    }
    Value { re, im: rat_clone(&v.im) }
}

/// Kelvin to Celsius, exactly: the real part shifted by 273.15.
pub fn ktoc_value(v: &Value) -> (r: Value)
    requires
        cf_wf(v@),
    ensures
        cf_wf(r@),
        r@ == s_ktoc(v@),
        frac_eq(r@.re, ktoc_f(v@.re)),
        r@.im == v@.im,
{
    let k = kelvin_constant();
    let re = rat_sub(&v.re, &k);
    proof {
        lemma_sub_congruence(rat_frac(v.re), v@.re, rat_frac(k), kelvin_frac());
        lemma_pos_mul(rat_den(v.re), rat_den(k));
        lemma_frac_eq_trans(
            rat_frac(re),
            frac_sub(rat_frac(v.re), rat_frac(k)),
            ktoc_f(v@.re),
        );
    }
    Value { re, im: rat_clone(&v.im) }
}

/// Fahrenheit to Kelvin, exactly.
pub fn ftok_value(v: &Value) -> (r: Value)
    requires
        cf_wf(v@),
    ensures
        cf_wf(r@),
        r@ == s_ftok(v@),
        frac_eq(r@.re, ftok_f(v@.re)),
{
    let c32 = rat_from_i64(32);
    let five = rat_from_i64(5);
    let nine = rat_from_i64(9);
    let f59 = rat_div(&five, &nine);
    let k = kelvin_constant();
    let diff = rat_sub(&v.re, &c32);
    let scaled = rat_mul(&diff, &f59);
    let re = rat_add(&scaled, &k);
    let im = rat_mul(&v.im, &f59);
    proof {
        lemma_pos_mul(rat_den(diff), rat_den(f59));
        lemma_mul_congruence(
            rat_frac(diff),
            frac_sub(v@.re, frac_int(32)),
            rat_frac(f59),
            Frac { num: 5, den: 9 },
        );
        lemma_frac_eq_trans(
            rat_frac(scaled),
            frac_mul(rat_frac(diff), rat_frac(f59)),
            ftoc_f(v@.re),
        );
        lemma_add_congruence(rat_frac(scaled), ftoc_f(v@.re), rat_frac(k), kelvin_frac());
        lemma_pos_mul(rat_den(scaled), rat_den(k));
        lemma_frac_eq_trans(
            rat_frac(re),
            frac_add(rat_frac(scaled), rat_frac(k)),
            ftok_f(v@.re),
        );
    }
    Value { re, im }
}

/// Kelvin to Fahrenheit, exactly.
pub fn ktof_value(v: &Value) -> (r: Value)
    requires
        cf_wf(v@),
    ensures
        cf_wf(r@),
        r@ == s_ktof(v@),
        frac_eq(r@.re, ktof_f(v@.re)),
{
    let c32 = rat_from_i64(32);
    let nine = rat_from_i64(9);
    let five = rat_from_i64(5);
    let f95 = rat_div(&nine, &five);
    let k = kelvin_constant();
    let diff = rat_sub(&v.re, &k);
    let scaled = rat_mul(&diff, &f95);
    let re = rat_add(&scaled, &c32);
    let im = rat_mul(&v.im, &f95);
    proof {
        lemma_sub_congruence(rat_frac(v.re), v@.re, rat_frac(k), kelvin_frac());
        lemma_pos_mul(rat_den(v.re), rat_den(k));
        lemma_frac_eq_trans(
            rat_frac(diff),
            frac_sub(rat_frac(v.re), rat_frac(k)),
            ktoc_f(v@.re),
        );
        lemma_pos_mul(rat_den(diff), rat_den(f95));
        lemma_mul_congruence(
            rat_frac(diff),
            ktoc_f(v@.re),
            rat_frac(f95),
            Frac { num: 9, den: 5 },
        );
        lemma_frac_eq_trans(
            rat_frac(scaled),
            frac_mul(rat_frac(diff), rat_frac(f95)),
            frac_mul(ktoc_f(v@.re), Frac { num: 9, den: 5 }),
        );
        lemma_add_congruence(
            rat_frac(scaled),
            frac_mul(ktoc_f(v@.re), Frac { num: 9, den: 5 }),
            frac_int(32),
            frac_int(32),
        );
        lemma_pos_mul(rat_den(scaled), 1);
        lemma_frac_eq_trans(
            rat_frac(re),
            frac_add(rat_frac(scaled), frac_int(32)),
            ktof_f(v@.re),
        );
    }
    Value { re, im }
}

/// The dew point coefficient `a = 17.27`, as the executable code holds it.
pub open spec fn dew_a() -> Frac {
    reduced_frac(1727, 100)
}

/// The dew point coefficient `b = 237.7`, as the executable code holds it.
pub open spec fn dew_b() -> Frac {
    reduced_frac(2377, 10)
}

/// What the executable dew point computation produces, step for step:
/// `alpha = (a*T)/(b+T) + ln(h)`, `dew = (b*alpha)/(a - alpha)`, with each
/// failure case reported as an error.
pub open spec fn s_dew_point(t: CF, h: CF) -> Result<CF, ErrV> {
    if !frac_eq(h.im, frac_int(0)) {
        Err(ErrV::InvalidOperand)
    } else {
        match ln_approx(h.re.num, h.re.den) {
            None => Err(ErrV::LogDomain),
            Some(l) => {
                let bpt = s_fadd(dew_b(), t.re);
                if frac_eq(bpt, frac_int(0)) {
                    Err(ErrV::DivisionByZero)
                } else {
                    let alpha = s_fadd(s_fdiv(s_fmul(dew_a(), t.re), bpt), l);
                    let amal = s_fsub(dew_a(), alpha);
                    if frac_eq(amal, frac_int(0)) {
                        Err(ErrV::DivisionByZero)
                    } else {
                        Ok(CF { re: s_fdiv(s_fmul(dew_b(), alpha), amal), im: frac_int(0) })
                    }
                }
            }
        }
    }
}

/// The dew point of a temperature and relative humidity, by the
/// fixed-coefficient approximation; the humidity must be a real value with
/// a positive logarithm domain, and the two divisors must be nonzero.
pub fn dew_point_value(t: &Value, h: &Value) -> (r: Result<Value, Error>)
    requires
        cf_wf(t@),
        cf_wf(h@),
    ensures
        match (r, s_dew_point(t@, h@)) {
            (Ok(v), Ok(cv)) => v@ == cv && cf_wf(v@),
            (Err(e), Err(ev)) => e@ == ev,
            _ => false,
        },
{
    let zero = rat_from_i64(0);
    if !rat_eq(&h.im, &zero) {
        return Err(Error::InvalidOperand);
    }
    let l = match rat_ln(&h.re) {
        Some(l) => l,
        None => {
            return Err(Error::LogDomain);
        },
    };
    let n1727 = rat_from_i64(1727);
    let n100 = rat_from_i64(100);
    let a = rat_div(&n1727, &n100);
    let n2377 = rat_from_i64(2377);
    let n10 = rat_from_i64(10);
    let b = rat_div(&n2377, &n10);
    let bpt = rat_add(&b, &t.re);
    if rat_eq(&bpt, &zero) {
        return Err(Error::DivisionByZero);
    }
    let at = rat_mul(&a, &t.re);
    let q1 = rat_div(&at, &bpt);
    let alpha = rat_add(&q1, &l);
    let amal = rat_sub(&a, &alpha);
    if rat_eq(&amal, &zero) {
        return Err(Error::DivisionByZero);
    }
    let balpha = rat_mul(&b, &alpha);
    let dew = rat_div(&balpha, &amal);
    Ok(Value { re: dew, im: rat_from_i64(0) })
}

/// The bit-flip gadget: 1 for a zero value, else 0.
pub open spec fn s_paulix(q: CF) -> CF {
    if cf_is_int(q, 0) {
        cf_int(1)
    } else {
        cf_int(0)
    }
}

pub fn paulix_value(q: &Value) -> (r: Value)
    requires
        cf_wf(q@),
    ensures
        cf_wf(r@),
        r@ == s_paulix(q@),
{
    if value_is_int(q, 0) {
        value_int(1)
    } else {
        value_int(0)
    }
}

/// The signed bit-flip gadget: 1 for a zero value, else -1.
pub open spec fn s_pauliy(q: CF) -> CF {
    if cf_is_int(q, 0) {
        cf_int(1)
    } else {
        cf_int(-1)
    }
}

pub fn pauliy_value(q: &Value) -> (r: Value)
    requires
        cf_wf(q@),
    ensures
        cf_wf(r@),
        r@ == s_pauliy(q@),
{
    if value_is_int(q, 0) {
        value_int(1)
    } else {
        value_int(-1)
    }
}

/// The identity gadget: the value unchanged.
pub fn pauliz_value(q: &Value) -> (r: Value)
    requires
        cf_wf(q@),
    ensures
        cf_wf(r@),
        r@ == q@,
{
    value_clone(q)
}

/// The averaging gadget: `(q + 1) / 2`.
pub open spec fn s_hadamard(q: CF) -> CF {
    s_cdiv(s_cadd(q, cf_int(1)), cf_int(2))
}

pub fn hadamard_value(q: &Value) -> (r: Value)
    requires
        cf_wf(q@),
    ensures
        cf_wf(r@),
        r@ == s_hadamard(q@),
{
    let one = value_int(1);
    let two = value_int(2);
    let sum = value_add(q, &one);
    value_div(&sum, &two)
}

/// The controlled-flip gadget: flips the target when the control is 1.
pub open spec fn s_cnot(c: CF, t: CF) -> CF {
    if cf_is_int(c, 1) {
        if cf_is_int(t, 0) {
            cf_int(1)
        } else {
            cf_int(0)
        }
    } else {
        t
    }
}

pub fn cnot_value(c: &Value, t: &Value) -> (r: Value)
    requires
        cf_wf(c@),
        cf_wf(t@),
    ensures
        cf_wf(r@),
        r@ == s_cnot(c@, t@),
{
    if value_is_int(c, 1) {
        if value_is_int(t, 0) {
            value_int(1)
        } else {
            value_int(0)
        }
    } else {
        value_clone(t)
    }
}

/// The doubly controlled flip gadget.
pub open spec fn s_toffoli(c1: CF, c2: CF, t: CF) -> CF {
    if cf_is_int(c1, 1) && cf_is_int(c2, 1) {
        if cf_is_int(t, 0) {
            cf_int(1)
        } else {
            cf_int(0)
        }
    } else {
        t
    }
}

pub fn toffoli_value(c1: &Value, c2: &Value, t: &Value) -> (r: Value)
    requires
        cf_wf(c1@),
        cf_wf(c2@),
        cf_wf(t@),
    ensures
        cf_wf(r@),
        r@ == s_toffoli(c1@, c2@, t@),
{
    if value_is_int(c1, 1) && value_is_int(c2, 1) {
        if value_is_int(t, 0) {
            value_int(1)
        } else {
            value_int(0)
        }
    } else {
        value_clone(t)
    }
}

/// The exchange gadget on scalar bits: `a + b - 2ab`.
pub open spec fn s_swap(a: CF, b: CF) -> CF {
    s_csub(s_cadd(a, b), s_cmul(s_cmul(a, b), cf_int(2)))
}

pub fn swap_value(a: &Value, b: &Value) -> (r: Value)
    requires
        cf_wf(a@),
        cf_wf(b@),
    ensures
        cf_wf(r@),
        r@ == s_swap(a@, b@),
{
    let two = value_int(2);
    let sum = value_add(a, b);
    let prod = value_mul(a, b);
    let prod2 = value_mul(&prod, &two);
    value_sub(&sum, &prod2)
}

/// The sign-flip gadget: `q * (-1)`.
pub open spec fn s_phase(q: CF) -> CF {
    s_cmul(q, cf_int(-1))
}

pub fn phase_value(q: &Value) -> (r: Value)
    requires
        cf_wf(q@),
    ensures
        cf_wf(r@),
        r@ == s_phase(q@),
{
    let m1 = value_int(-1);
    value_mul(q, &m1)
}

/// The quarter-turn gadget: multiplication by the imaginary unit.
pub open spec fn s_sgate(q: CF) -> CF {
    s_cmul(q, CF { re: frac_int(0), im: frac_int(1) })
}

pub fn sgate_value(q: &Value) -> (r: Value)
    requires
        cf_wf(q@),
    ensures
        cf_wf(r@),
        r@ == s_sgate(q@),
{
    let iunit = Value { re: rat_from_i64(0), im: rat_from_i64(1) };
    value_mul(q, &iunit)
}

/// The eighth-turn phase constant: the double-precision approximation of
/// `1 / sqrt(2)`, fixed as the dyadic rational `2^52 / 6369051672525773`.
pub open spec fn t_phase() -> Frac {
    reduced_frac(4503599627370496, 6369051672525773)
}

/// The eighth-turn gadget: multiplication by `t_phase * (1 + i)`.
pub open spec fn s_tgate(q: CF) -> CF {
    s_cmul(q, CF { re: t_phase(), im: t_phase() })
}

pub fn tgate_value(q: &Value) -> (r: Value)
    requires
        cf_wf(q@),
    ensures
        cf_wf(r@),
        r@ == s_tgate(q@),
{
    let n = rat_from_i64(4503599627370496);
    let d = rat_from_i64(6369051672525773);
    let s = rat_div(&n, &d);
    let ph = Value { re: rat_clone(&s), im: s };
    value_mul(q, &ph)
}

/// Reading a scalar bit: 0 for a zero value, else 1.
pub open spec fn s_measure(q: CF) -> CF {
    if cf_is_int(q, 0) {
        cf_int(0)
    } else {
        cf_int(1)
    }
}

pub fn measure_value(q: &Value) -> (r: Value)
    requires
        cf_wf(q@),
    ensures
        cf_wf(r@),
        r@ == s_measure(q@),
{
    if value_is_int(q, 0) {
        value_int(0)
    } else {
        value_int(1)
    }
}

/// The controlled exchange gadget: the second target when the control is 1,
/// else the first.
pub open spec fn s_fredkin(c: CF, t1: CF, t2: CF) -> CF {
    if cf_is_int(c, 1) {
        t2
    } else {
        t1
    }
}

pub fn fredkin_value(c: &Value, t1: &Value, t2: &Value) -> (r: Value)
    requires
        cf_wf(c@),
        cf_wf(t1@),
        cf_wf(t2@),
    ensures
        cf_wf(r@),
        r@ == s_fredkin(c@, t1@, t2@),
{
    if value_is_int(c, 1) {
        value_clone(t2)
    } else {
        value_clone(t1)
    }
}

/// The register fill: `k` steps of `acc = acc * 2 + s`, starting from 0.
pub open spec fn s_qubit_fill(s: Frac, k: nat) -> Frac
    decreases k,
{
    if k == 0 {
        frac_int(0)
    } else {
        s_fadd(s_fmul(s_qubit_fill(s, (k - 1) as nat), frac_int(2)), s)
    }
}

/// Fills a register of `k` scalar bits with the state `s`.
pub fn qubit_fill_value(s: &Rat, k: usize) -> (r: Rat)
    requires
        rat_den(*s) > 0,
    ensures
        rat_den(r) > 0,
        rat_frac(r) == s_qubit_fill(rat_frac(*s), k as nat),
{
    let two = rat_from_i64(2);
    let mut acc = rat_from_i64(0);
    let mut i: usize = 0;
    while i < k
        invariant
            rat_den(*s) > 0,
            rat_den(acc) > 0,
            rat_den(two) == 1,
            rat_num(two) == 2,
            i <= k,
            rat_frac(acc) == s_qubit_fill(rat_frac(*s), i as nat),
        decreases k - i,
    {
        let doubled = rat_mul(&acc, &two);
        acc = rat_add(&doubled, s);
        i = i + 1;
    }
    acc
}

} // verus!
