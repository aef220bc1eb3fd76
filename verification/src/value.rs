//! Runtime values of the language.
//!
//! A value is an exact complex rational: a real and an imaginary part, each
//! an arbitrary-precision fraction. Ordinary arithmetic stays entirely in
//! the real part; only the phase-shift gate operations ever produce a
//! nonzero imaginary part. `CF` is the mathematical view of a value.
//!
//! The `s_*` spec functions mirror, step for step, the canonical-form
//! arithmetic the executable operations perform, so that the result of every
//! operation is pinned exactly; the accompanying `frac_eq` clauses relate
//! each result to the plain textbook formula.

use vstd::prelude::*;

use crate::rat::{
    Frac, Rat, frac_add, frac_sub, frac_mul, frac_div, frac_eq, frac_int, frac_wf,
    lemma_add_congruence, lemma_mul_congruence, lemma_frac_eq_trans, lemma_eq_zero,
    rat_add, rat_sub, rat_mul, rat_div, rat_eq, rat_clone, rat_from_i64, rat_frac, rat_num,
    rat_den, reduced_frac,
};

verus! {

/// An exact complex rational value.
pub struct Value {
    pub re: Rat,
    pub im: Rat,
}

/// The mathematical view of a value: a pair of fractions.
pub struct CF {
    pub re: Frac,
    pub im: Frac,
}

impl View for Value {
    type V = CF;

    open spec fn view(&self) -> CF {
        CF { re: rat_frac(self.re), im: rat_frac(self.im) }
    }
}

pub open spec fn cf_wf(v: CF) -> bool {
    frac_wf(v.re) && frac_wf(v.im)
}

/// The complex value of the integer `k`.
pub open spec fn cf_int(k: int) -> CF {
    CF { re: frac_int(k), im: frac_int(0) }
}

/// Whether a value equals the integer `k` (real part `k`, imaginary part 0).
pub open spec fn cf_is_int(v: CF, k: int) -> bool {
    frac_eq(v.re, frac_int(k)) && frac_eq(v.im, frac_int(0))
}

/// The canonical form of a sum, as the executable addition produces it.
pub open spec fn s_fadd(a: Frac, b: Frac) -> Frac {
    reduced_frac(a.num * b.den + b.num * a.den, a.den * b.den)
}

/// The canonical form of a difference.
pub open spec fn s_fsub(a: Frac, b: Frac) -> Frac {
    reduced_frac(a.num * b.den - b.num * a.den, a.den * b.den)
}

/// The canonical form of a product.
pub open spec fn s_fmul(a: Frac, b: Frac) -> Frac {
    reduced_frac(a.num * b.num, a.den * b.den)
}

/// The canonical form of a quotient.
pub open spec fn s_fdiv(a: Frac, b: Frac) -> Frac {
    reduced_frac(a.num * b.den, a.den * b.num)
}

/// Componentwise complex addition.
pub open spec fn s_cadd(a: CF, b: CF) -> CF {
    CF { re: s_fadd(a.re, b.re), im: s_fadd(a.im, b.im) }
}

/// Componentwise complex subtraction.
pub open spec fn s_csub(a: CF, b: CF) -> CF {
    CF { re: s_fsub(a.re, b.re), im: s_fsub(a.im, b.im) }
}

/// Complex multiplication: `(ac - bd) + (ad + bc)i`.
pub open spec fn s_cmul(a: CF, b: CF) -> CF {
    CF {
        re: s_fsub(s_fmul(a.re, b.re), s_fmul(a.im, b.im)),
        im: s_fadd(s_fmul(a.re, b.im), s_fmul(a.im, b.re)),
    }
}

/// The squared magnitude of a complex value, `c*c + d*d`.
pub open spec fn s_cnorm(b: CF) -> Frac {
    s_fadd(s_fmul(b.re, b.re), s_fmul(b.im, b.im))
}

/// Complex division: `((ac + bd) + (bc - ad)i) / (c*c + d*d)`.
pub open spec fn s_cdiv(a: CF, b: CF) -> CF {
    CF {
        re: s_fdiv(s_fadd(s_fmul(a.re, b.re), s_fmul(a.im, b.im)), s_cnorm(b)),
        im: s_fdiv(s_fsub(s_fmul(a.im, b.re), s_fmul(a.re, b.im)), s_cnorm(b)),
    }
}

/// The views of a sequence of values, element by element.
pub open spec fn cf_views(s: Seq<Value>) -> Seq<CF>
    decreases s.len(),
{
    if s.len() == 0 {
        Seq::empty()
    } else {
        cf_views(s.drop_last()).push(s.last()@)
    }
}

/// A value-view sequence is as long as its values.
pub broadcast proof fn lemma_cf_views_len(s: Seq<Value>)
    ensures
        (#[trigger] cf_views(s)).len() == s.len(),
    decreases s.len(),
{
    if s.len() > 0 {
        lemma_cf_views_len(s.drop_last());
    }
}

/// A value-view sequence holds the views of its values, in order.
pub broadcast proof fn lemma_cf_views_index(s: Seq<Value>, i: int)
    requires
        0 <= i < s.len(),
    ensures
        #[trigger] cf_views(s)[i] == s[i]@,
    decreases s.len(),
{
    lemma_cf_views_len(s);
    if i < s.len() - 1 {
        lemma_cf_views_index(s.drop_last(), i);
        assert(s.drop_last()[i] == s[i]);
        lemma_cf_views_len(s.drop_last());
    }
}

/// The contents of value-view sequences, as one group.
pub broadcast group group_value_views {
    lemma_cf_views_len,
    lemma_cf_views_index,
}

/// Appending a value appends its view.
pub proof fn lemma_cf_views_push(s: Seq<Value>, x: Value, sp: Seq<Value>)
    requires
        sp == s.push(x),
    ensures
        cf_views(sp) == cf_views(s).push(x@),
{
    assert(sp.drop_last() =~= s);
    assert(sp.last() == x);
}

/// The value `k + 0i`.
pub fn value_int(k: i64) -> (r: Value)
    ensures
        r@ == cf_int(k as int),
        cf_wf(r@),
{
    Value { re: rat_from_i64(k), im: rat_from_i64(0) }
}

/// A copy with the same view.
pub fn value_clone(v: &Value) -> (r: Value)
    ensures
        r@ == v@,
{
    Value { re: rat_clone(&v.re), im: rat_clone(&v.im) }
}

impl Clone for Value {
    /// The copy has the view of the original.
    fn clone(&self) -> (r: Self)
        ensures
            r@ == self@,
    {
        value_clone(self)
    }
}

/// Whether the value equals the integer `k` exactly.
pub fn value_is_int(v: &Value, k: i64) -> (r: bool)
    requires
        cf_wf(v@),
    ensures
        r == cf_is_int(v@, k as int),
{
    let kr = rat_from_i64(k);
    let zero = rat_from_i64(0);
    rat_eq(&v.re, &kr) && rat_eq(&v.im, &zero)
}

/// Exact complex addition.
pub fn value_add(a: &Value, b: &Value) -> (r: Value)
    requires
        cf_wf(a@),
        cf_wf(b@),
    ensures
        cf_wf(r@),
        r@ == s_cadd(a@, b@),
        frac_eq(r@.re, frac_add(a@.re, b@.re)),
        frac_eq(r@.im, frac_add(a@.im, b@.im)),
{
    Value { re: rat_add(&a.re, &b.re), im: rat_add(&a.im, &b.im) }
}

/// Exact complex subtraction.
pub fn value_sub(a: &Value, b: &Value) -> (r: Value)
    requires
        cf_wf(a@),
        cf_wf(b@),
    ensures
        cf_wf(r@),
        r@ == s_csub(a@, b@),
        frac_eq(r@.re, frac_sub(a@.re, b@.re)),
        frac_eq(r@.im, frac_sub(a@.im, b@.im)),
{
    Value { re: rat_sub(&a.re, &b.re), im: rat_sub(&a.im, &b.im) }
}

/// Exact complex multiplication.
pub fn value_mul(a: &Value, b: &Value) -> (r: Value)
    requires
        cf_wf(a@),
        cf_wf(b@),
    ensures
        cf_wf(r@),
        r@ == s_cmul(a@, b@),
{
    let ac = rat_mul(&a.re, &b.re);
    let bd = rat_mul(&a.im, &b.im);
    let ad = rat_mul(&a.re, &b.im);
    let bc = rat_mul(&a.im, &b.re);
    Value { re: rat_sub(&ac, &bd), im: rat_add(&ad, &bc) }
}

/// The squared magnitude of a nonzero well-formed value has a nonzero
/// numerator, wherever a fraction `frac_eq` to the textbook form is at hand.
proof fn lemma_norm_nonzero(b: CF, norm: Frac)
    requires
        cf_wf(b),
        !(frac_eq(b.re, frac_int(0)) && frac_eq(b.im, frac_int(0))),
        frac_wf(norm),
        frac_eq(norm, frac_add(frac_mul(b.re, b.re), frac_mul(b.im, b.im))),
    ensures
        norm.num != 0,
{
    let x = frac_add(frac_mul(b.re, b.re), frac_mul(b.im, b.im));
    assert(frac_eq(b.re, frac_int(0)) == (b.re.num == 0));
    assert(frac_eq(b.im, frac_int(0)) == (b.im.num == 0));
    assert(x.num != 0 && x.den != 0) by (nonlinear_arith)
        requires
            x == frac_add(frac_mul(b.re, b.re), frac_mul(b.im, b.im)),
            b.re.den > 0,
            b.im.den > 0,
            !(b.re.num == 0 && b.im.num == 0),
    ;
    lemma_eq_zero(norm, x);
}

/// Exact complex division; the divisor must be nonzero.
pub fn value_div(a: &Value, b: &Value) -> (r: Value)
    requires
        cf_wf(a@),
        cf_wf(b@),
        !(frac_eq(b@.re, frac_int(0)) && frac_eq(b@.im, frac_int(0))),
    ensures
        cf_wf(r@),
        r@ == s_cdiv(a@, b@),
{
    let cc = rat_mul(&b.re, &b.re);
    let dd = rat_mul(&b.im, &b.im);
    let norm = rat_add(&cc, &dd);
    proof {
        lemma_add_congruence(
            rat_frac(cc),
            frac_mul(b@.re, b@.re),
            rat_frac(dd),
            frac_mul(b@.im, b@.im),
        );
        assert(frac_add(rat_frac(cc), rat_frac(dd)).den != 0) by (nonlinear_arith)
            requires
                rat_den(cc) > 0,
                rat_den(dd) > 0,
        ;
        lemma_frac_eq_trans(
            rat_frac(norm),
            frac_add(rat_frac(cc), rat_frac(dd)),
            frac_add(frac_mul(b@.re, b@.re), frac_mul(b@.im, b@.im)),
        );
        lemma_norm_nonzero(b@, rat_frac(norm));
    }
    let ac = rat_mul(&a.re, &b.re);
    let bd = rat_mul(&a.im, &b.im);
    let bc = rat_mul(&a.im, &b.re);
    let ad = rat_mul(&a.re, &b.im);
    let re_num = rat_add(&ac, &bd);
    let im_num = rat_sub(&bc, &ad);
    Value { re: rat_div(&re_num, &norm), im: rat_div(&im_num, &norm) }
}

} // verus!
