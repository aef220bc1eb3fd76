//! The tree-walking evaluator.
//!
//! The interpreter walks the syntax tree, maintaining a variable
//! environment and a function table, collecting printed lines, and
//! producing exact rational values. Expression evaluation is a pure
//! computation over the current environment: it never adds or changes a
//! binding (a proved lemma states this), and a braced statement block in
//! expression position is a reported error, never a silent mutation. A
//! statement's value is the value it computes (an assignment's bound
//! value, a printed value, an executed branch's value); a block
//! statement's value is its last statement's value, so a function call
//! returns the value of the last statement of its body, run in its own
//! frame.
//!
//! A call frame copies the caller's environment and binds the declared
//! parameters positionally to the call's argument values, extra arguments
//! or parameters silently dropped; the callee never sees bindings the
//! caller creates later, and the caller never sees the callee's bindings.
//!
//! An import runs the whole pipeline over the named module's source text
//! in a fresh, isolated environment, appends the module's printed lines,
//! and then merges only its function definitions into the importer.
//!
//! Evaluation depth is bounded by an explicit budget; exceeding it is a
//! reported error, and every failure propagates as a structured `Error`.
//!
//! The `*_s` spec functions define evaluation mathematically; each method
//! is proved to realize them exactly.

use vstd::prelude::*;

use crate::ast::{ASTNode, AstV, views_of, names_of};
use crate::builtins::{
    s_ftoc, s_ctof, s_ctok, s_ktoc, s_ftok, s_ktof, s_dew_point, s_paulix, s_pauliy, s_hadamard,
    s_cnot, s_toffoli, s_swap, s_phase, s_sgate, s_tgate, s_measure, s_fredkin, s_qubit_fill,
    ftoc_value, ctof_value, ctok_value, ktoc_value, ftok_value, ktof_value, dew_point_value,
    paulix_value, pauliy_value, pauliz_value, hadamard_value, cnot_value, toffoli_value,
    swap_value, phase_value, sgate_value, tgate_value, measure_value, fredkin_value,
    qubit_fill_value,
};
use crate::constants::{
    kelvin_constant, pi_constant, rd_constant, cp_constant, p0_constant, lv_constant, cw_constant,
    rho_air_constant, rho_water_constant, g_constant, s_kelvin, s_pi, s_rd, cp_frac, p0_frac,
    lv_frac, cw_frac, rho_air_frac, rho_water_frac, s_g,
};
use crate::env::{StringMap, assoc_find, assoc_has};
use crate::errors::{Error, ErrV};
use crate::lexer::{Lexer, LexAllRes, lex_src};
use crate::parser::{Parser, parse_toks};
use crate::rat::{
    Frac, frac_eq, frac_int, frac_lt, frac_trunc, frac_wf, decimal_rendering, rat_clone, rat_eq,
    rat_from_i64, rat_lt, rat_trunc_usize, rat_frac, rat_den, rat_to_decimal_string,
};
use crate::token::{Token, TokenV};
use crate::value::{
    CF, Value, cf_int, cf_views, cf_wf, value_add, value_sub, value_mul, value_div, value_int,
    value_is_int, value_clone, lemma_cf_views_push, group_value_views,
};

verus! {

broadcast use crate::ast::group_ast_views, group_value_views;

/// A function table entry: declared parameter names and the body.
pub struct FunDef {
    pub params: Vec<String>,
    pub body: ASTNode,
}

/// The mathematical view of a function table entry.
pub struct FunV {
    pub params: Seq<Seq<char>>,
    pub body: AstV,
}

impl View for FunDef {
    type V = FunV;

    open spec fn view(&self) -> FunV {
        FunV { params: names_of(self.params@), body: self.body@ }
    }
}

impl Clone for FunDef {
    /// The copy has the view of the original.
    fn clone(&self) -> (r: Self)
        ensures
            r@ == self@,
    {
        FunDef { params: clone_strings(&self.params), body: self.body.clone() }
    }
}

/// A deep copy of a name list with the same views.
fn clone_strings(v: &Vec<String>) -> (r: Vec<String>)
    ensures
        names_of(r@) == names_of(v@),
        r@.len() == v@.len(),
{
    let mut out: Vec<String> = Vec::new();
    let n = v.len();
    let mut i: usize = 0;
    while i < n
        invariant
            n == v@.len(),
            i <= n,
            out@.len() == i,
            forall|j: int| 0 <= j < i ==> out@[j]@ == v@[j]@,
        decreases n - i,
    {
        out.push(v[i].clone());
        i = i + 1;
    }
    proof {
        assert forall|j: int| 0 <= j < n implies names_of(out@)[j] == names_of(v@)[j] by {
            crate::ast::lemma_names_of_index(out@, j);
            crate::ast::lemma_names_of_index(v@, j);
        }
        crate::ast::lemma_names_of_len(out@);
        crate::ast::lemma_names_of_len(v@);
        assert(names_of(out@) =~= names_of(v@));
    }
    out
}

/// The mathematical evaluation state: variable bindings, function table,
/// and the lines printed so far.
pub struct StV {
    pub vars: Seq<(Seq<char>, CF)>,
    pub funcs: Seq<(Seq<char>, FunV)>,
    pub outp: Seq<Seq<char>>,
}

/// The fixed file extension import names resolve through.
pub open spec fn ext_s() -> Seq<char> {
    "met"@
}

/// Any nonzero value is truthy.
pub open spec fn truthy(v: CF) -> bool {
    !(frac_eq(v.re, frac_int(0)) && frac_eq(v.im, frac_int(0)))
}

/// Positional parameter binding: the caller's bindings extended pairwise,
/// the shorter list deciding how many bindings are made.
pub open spec fn bind_from(
    params: Seq<Seq<char>>,
    vals: Seq<CF>,
    vars: Seq<(Seq<char>, CF)>,
    i: int,
) -> Seq<(Seq<char>, CF)>
    decreases params.len() - i,
{
    if i >= params.len() || i >= vals.len() {
        vars
    } else {
        bind_from(params, vals, vars.push((params[i], vals[i])), i + 1)
    }
}

/// One binary operator applied to two evaluated operands.
pub open spec fn eval_binop_s(op: TokenV, a: CF, b: CF) -> Result<CF, ErrV> {
    match op {
        TokenV::Plus => Ok(crate::value::s_cadd(a, b)),
        TokenV::Minus => Ok(crate::value::s_csub(a, b)),
        TokenV::Star => Ok(crate::value::s_cmul(a, b)),
        TokenV::Slash => if frac_eq(b.re, frac_int(0)) && frac_eq(b.im, frac_int(0)) {
            Err(ErrV::DivisionByZero)
        } else {
            Ok(crate::value::s_cdiv(a, b))
        },
        TokenV::GreaterThan => Ok(
            if frac_lt(b.re, a.re) {
                cf_int(1)
            } else {
                cf_int(0)
            },
        ),
        TokenV::LessThan => Ok(
            if frac_lt(a.re, b.re) {
                cf_int(1)
            } else {
                cf_int(0)
            },
        ),
        _ => Err(ErrV::InvalidOperand),
    }
}

/// A register fill from an evaluated state and bit count; the count must
/// be a real value whose truncation is a representable width.
pub open spec fn eval_qubit_s(state: CF, count: CF) -> Result<CF, ErrV> {
    if !frac_eq(count.im, frac_int(0)) {
        Err(ErrV::InvalidOperand)
    } else {
        let k = frac_trunc(count.re);
        if k < 0 || k > usize::MAX as int {
            Err(ErrV::InvalidOperand)
        } else {
            Ok(CF { re: s_qubit_fill(state.re, k as nat), im: frac_int(0) })
        }
    }
}

/// Expression evaluation: the state after (printed lines may grow through
/// calls) and the value or first failure.
pub open spec fn eval_s(e: AstV, st: StV, mods: Seq<(Seq<char>, Seq<char>)>, fuel: nat) -> (
    StV,
    Result<CF, ErrV>,
)
    decreases fuel, e, 0int,
{
    match e {
        AstV::Num(f) => (st, Ok(CF { re: f, im: frac_int(0) })),
        AstV::Identifier(name) => match assoc_find(st.vars, name) {
            Some(v) => (st, Ok(v)),
            None => (st, Err(ErrV::UndefinedVariable { name })),
        },
        AstV::BinaryOp(l, op, r) => {
            let (st1, r1) = eval_s(*l, st, mods, fuel);
            match r1 {
                Err(e1) => (st1, Err(e1)),
                Ok(a) => {
                    let (st2, r2) = eval_s(*r, st1, mods, fuel);
                    match r2 {
                        Err(e2) => (st2, Err(e2)),
                        Ok(b) => (st2, eval_binop_s(op, a, b)),
                    }
                },
            }
        },
        AstV::GreaterThan(l, r) => {
            let (st1, r1) = eval_s(*l, st, mods, fuel);
            match r1 {
                Err(e1) => (st1, Err(e1)),
                Ok(a) => {
                    let (st2, r2) = eval_s(*r, st1, mods, fuel);
                    match r2 {
                        Err(e2) => (st2, Err(e2)),
                        Ok(b) => (st2, eval_binop_s(TokenV::GreaterThan, a, b)),
                    }
                },
            }
        },
        AstV::LessThan(l, r) => {
            let (st1, r1) = eval_s(*l, st, mods, fuel);
            match r1 {
                Err(e1) => (st1, Err(e1)),
                Ok(a) => {
                    let (st2, r2) = eval_s(*r, st1, mods, fuel);
                    match r2 {
                        Err(e2) => (st2, Err(e2)),
                        Ok(b) => (st2, eval_binop_s(TokenV::LessThan, a, b)),
                    }
                },
            }
        },
        AstV::DewPoint(t, h) => {
            let (st1, r1) = eval_s(*t, st, mods, fuel);
            match r1 {
                Err(e1) => (st1, Err(e1)),
                Ok(a) => {
                    let (st2, r2) = eval_s(*h, st1, mods, fuel);
                    match r2 {
                        Err(e2) => (st2, Err(e2)),
                        Ok(b) => (st2, s_dew_point(a, b)),
                    }
                },
            }
        },
        AstV::FToC(x) => {
            let (st1, r1) = eval_s(*x, st, mods, fuel);
            match r1 {
                Err(e1) => (st1, Err(e1)),
                Ok(v) => (st1, Ok(s_ftoc(v))),
            }
        },
        AstV::CToF(x) => {
            let (st1, r1) = eval_s(*x, st, mods, fuel);
            match r1 {
                Err(e1) => (st1, Err(e1)),
                Ok(v) => (st1, Ok(s_ctof(v))),
            }
        },
        AstV::CToK(x) => {
            let (st1, r1) = eval_s(*x, st, mods, fuel);
            match r1 {
                Err(e1) => (st1, Err(e1)),
                Ok(v) => (st1, Ok(s_ctok(v))),
            }
        },
        AstV::KToC(x) => {
            let (st1, r1) = eval_s(*x, st, mods, fuel);
            match r1 {
                Err(e1) => (st1, Err(e1)),
                Ok(v) => (st1, Ok(s_ktoc(v))),
            }
        },
        AstV::FToK(x) => {
            let (st1, r1) = eval_s(*x, st, mods, fuel);
            match r1 {
                Err(e1) => (st1, Err(e1)),
                Ok(v) => (st1, Ok(s_ftok(v))),
            }
        },
        AstV::KToF(x) => {
            let (st1, r1) = eval_s(*x, st, mods, fuel);
            match r1 {
                Err(e1) => (st1, Err(e1)),
                Ok(v) => (st1, Ok(s_ktof(v))),
            }
        },
        AstV::PauliX(x) => {
            let (st1, r1) = eval_s(*x, st, mods, fuel);
            match r1 {
                Err(e1) => (st1, Err(e1)),
                Ok(v) => (st1, Ok(s_paulix(v))),
            }
        },
        AstV::PauliY(x) => {
            let (st1, r1) = eval_s(*x, st, mods, fuel);
            match r1 {
                Err(e1) => (st1, Err(e1)),
                Ok(v) => (st1, Ok(s_pauliy(v))),
            }
        },
        AstV::PauliZ(x) => {
            let (st1, r1) = eval_s(*x, st, mods, fuel);
            match r1 {
                Err(e1) => (st1, Err(e1)),
                Ok(v) => (st1, Ok(v)),
            }
        },
        AstV::Hadamard(x) => {
            let (st1, r1) = eval_s(*x, st, mods, fuel);
            match r1 {
                Err(e1) => (st1, Err(e1)),
                Ok(v) => (st1, Ok(s_hadamard(v))),
            }
        },
        AstV::CNot(c, t) => {
            let (st1, r1) = eval_s(*c, st, mods, fuel);
            match r1 {
                Err(e1) => (st1, Err(e1)),
                Ok(a) => {
                    let (st2, r2) = eval_s(*t, st1, mods, fuel);
                    match r2 {
                        Err(e2) => (st2, Err(e2)),
                        Ok(b) => (st2, Ok(s_cnot(a, b))),
                    }
                },
            }
        },
        AstV::Qubit(s0, n) => {
            let (st1, r1) = eval_s(*s0, st, mods, fuel);
            match r1 {
                Err(e1) => (st1, Err(e1)),
                Ok(a) => {
                    let (st2, r2) = eval_s(*n, st1, mods, fuel);
                    match r2 {
                        Err(e2) => (st2, Err(e2)),
                        Ok(b) => (st2, eval_qubit_s(a, b)),
                    }
                },
            }
        },
        AstV::MeasureQubit(x) => {
            let (st1, r1) = eval_s(*x, st, mods, fuel);
            match r1 {
                Err(e1) => (st1, Err(e1)),
                Ok(v) => (st1, Ok(s_measure(v))),
            }
        },
        AstV::ResetQubit(x) => {
            let (st1, r1) = eval_s(*x, st, mods, fuel);
            match r1 {
                Err(e1) => (st1, Err(e1)),
                Ok(v) => (st1, Ok(cf_int(0))),
            }
        },
        AstV::Toffoli(a0, b0, c0) => {
            let (st1, r1) = eval_s(*a0, st, mods, fuel);
            match r1 {
                Err(e1) => (st1, Err(e1)),
                Ok(a) => {
                    let (st2, r2) = eval_s(*b0, st1, mods, fuel);
                    match r2 {
                        Err(e2) => (st2, Err(e2)),
                        Ok(b) => {
                            let (st3, r3) = eval_s(*c0, st2, mods, fuel);
                            match r3 {
                                Err(e3) => (st3, Err(e3)),
                                Ok(c) => (st3, Ok(s_toffoli(a, b, c))),
                            }
                        },
                    }
                },
            }
        },
        AstV::SWAP(l, r) => {
            let (st1, r1) = eval_s(*l, st, mods, fuel);
            match r1 {
                Err(e1) => (st1, Err(e1)),
                Ok(a) => {
                    let (st2, r2) = eval_s(*r, st1, mods, fuel);
                    match r2 {
                        Err(e2) => (st2, Err(e2)),
                        Ok(b) => (st2, Ok(s_swap(a, b))),
                    }
                },
            }
        },
        AstV::Phase(x) => {
            let (st1, r1) = eval_s(*x, st, mods, fuel);
            match r1 {
                Err(e1) => (st1, Err(e1)),
                Ok(v) => (st1, Ok(s_phase(v))),
            }
        },
        AstV::TGate(x) => {
            let (st1, r1) = eval_s(*x, st, mods, fuel);
            match r1 {
                Err(e1) => (st1, Err(e1)),
                Ok(v) => (st1, Ok(s_tgate(v))),
            }
        },
        AstV::SGate(x) => {
            let (st1, r1) = eval_s(*x, st, mods, fuel);
            match r1 {
                Err(e1) => (st1, Err(e1)),
                Ok(v) => (st1, Ok(s_sgate(v))),
            }
        },
        AstV::Fredkin(a0, b0, c0) => {
            let (st1, r1) = eval_s(*a0, st, mods, fuel);
            match r1 {
                Err(e1) => (st1, Err(e1)),
                Ok(a) => {
                    let (st2, r2) = eval_s(*b0, st1, mods, fuel);
                    match r2 {
                        Err(e2) => (st2, Err(e2)),
                        Ok(b) => {
                            let (st3, r3) = eval_s(*c0, st2, mods, fuel);
                            match r3 {
                                Err(e3) => (st3, Err(e3)),
                                Ok(c) => (st3, Ok(s_fredkin(a, b, c))),
                            }
                        },
                    }
                },
            }
        },
        AstV::Pi => (st, Ok(CF { re: s_pi(), im: frac_int(0) })),
        AstV::Kelvin => (st, Ok(CF { re: s_kelvin(), im: frac_int(0) })),
        AstV::RD => (st, Ok(CF { re: s_rd(), im: frac_int(0) })),
        AstV::CP => (st, Ok(CF { re: cp_frac(), im: frac_int(0) })),
        AstV::P0 => (st, Ok(CF { re: p0_frac(), im: frac_int(0) })),
        AstV::LV => (st, Ok(CF { re: lv_frac(), im: frac_int(0) })),
        AstV::CW => (st, Ok(CF { re: cw_frac(), im: frac_int(0) })),
        AstV::RhoAir => (st, Ok(CF { re: rho_air_frac(), im: frac_int(0) })),
        AstV::RhoWater => (st, Ok(CF { re: rho_water_frac(), im: frac_int(0) })),
        AstV::G => (st, Ok(CF { re: s_g(), im: frac_int(0) })),
        AstV::Call(name, args) => match assoc_find(st.funcs, name) {
            None => (st, Err(ErrV::UndefinedFunction { name })),
            Some(f) => {
                let (st1, r1) = eval_args_s(args, st, mods, fuel, Seq::empty());
                match r1 {
                    Err(e1) => (st1, Err(e1)),
                    Ok(vals) => {
                        if fuel == 0 {
                            (st1, Err(ErrV::DepthExceeded))
                        } else {
                            let frame = StV {
                                vars: bind_from(f.params, vals, st1.vars, 0),
                                funcs: st1.funcs,
                                outp: st1.outp,
                            };
                            let (st2, r2) = match f.body {
                                AstV::Block(items) => exec_list_s(
                                    items,
                                    frame,
                                    mods,
                                    (fuel - 1) as nat,
                                    cf_int(0),
                                ),
                                other => eval_s(other, frame, mods, (fuel - 1) as nat),
                            };
                            (StV { vars: st1.vars, funcs: st1.funcs, outp: st2.outp }, r2)
                        }
                    },
                }
            },
        },
        _ => (st, Err(ErrV::InvalidOperand)),
    }
}

/// Argument evaluation, left to right, in the caller's environment.
pub open spec fn eval_args_s(
    es: Seq<AstV>,
    st: StV,
    mods: Seq<(Seq<char>, Seq<char>)>,
    fuel: nat,
    acc: Seq<CF>,
) -> (StV, Result<Seq<CF>, ErrV>)
    decreases fuel, es, 0int,
{
    if es.len() == 0 {
        (st, Ok(acc))
    } else {
        let (st1, r1) = eval_s(es[0], st, mods, fuel);
        match r1 {
            Err(e1) => (st1, Err(e1)),
            Ok(v) => eval_args_s(es.drop_first(), st1, mods, fuel, acc.push(v)),
        }
    }
}

/// Statement execution: the state after and the statement's value or
/// first failure.
pub open spec fn exec_s(e: AstV, st: StV, mods: Seq<(Seq<char>, Seq<char>)>, fuel: nat) -> (
    StV,
    Result<CF, ErrV>,
)
    decreases fuel, e, 1int,
{
    match e {
        AstV::Assignment(name, rhs) => {
            let (st1, r1) = eval_s(*rhs, st, mods, fuel);
            match r1 {
                Err(e1) => (st1, Err(e1)),
                Ok(v) => (
                    StV { vars: st1.vars.push((name, v)), funcs: st1.funcs, outp: st1.outp },
                    Ok(v),
                ),
            }
        },
        AstV::Print(inner) => match *inner {
            AstV::StringLiteral(sv) => (
                StV { vars: st.vars, funcs: st.funcs, outp: st.outp.push(sv) },
                Ok(cf_int(0)),
            ),
            other => {
                let (st1, r1) = eval_s(other, st, mods, fuel);
                match r1 {
                    Err(e1) => (st1, Err(e1)),
                    Ok(v) => if !frac_eq(v.im, frac_int(0)) {
                        (st1, Err(ErrV::InvalidOperand))
                    } else {
                        (
                            StV {
                                vars: st1.vars,
                                funcs: st1.funcs,
                                outp: st1.outp.push(decimal_rendering(v.re.num, v.re.den)),
                            },
                            Ok(v),
                        )
                    },
                }
            },
        },
        AstV::If(c, th, els) => {
            let (st1, r1) = eval_s(*c, st, mods, fuel);
            match r1 {
                Err(e1) => (st1, Err(e1)),
                Ok(cv) => if truthy(cv) {
                    exec_s(*th, st1, mods, fuel)
                } else {
                    match els {
                        Some(eb) => exec_s(*eb, st1, mods, fuel),
                        None => (st1, Ok(cf_int(0))),
                    }
                },
            }
        },
        AstV::Block(items) => exec_list_s(items, st, mods, fuel, cf_int(0)),
        AstV::Function(name, params, body) => (
            StV {
                vars: st.vars,
                funcs: st.funcs.push((name, FunV { params, body: *body })),
                outp: st.outp,
            },
            Ok(cf_int(0)),
        ),
        AstV::Import(name) => {
            if fuel == 0 {
                (st, Err(ErrV::DepthExceeded))
            } else {
                let resolved = name + "."@ + ext_s();
                match assoc_find(mods, resolved) {
                    None => (st, Err(ErrV::ImportError { name: resolved })),
                    Some(src) => match lex_src(src) {
                        LexAllRes::Fail(ch) => (st, Err(ErrV::LexError { ch })),
                        LexAllRes::Short => (st, Err(ErrV::DepthExceeded)),
                        LexAllRes::Toks(ts) => match parse_toks(ts) {
                            Err(pe) => (st, Err(pe)),
                            Ok(items) => {
                                let (mst, mres) = exec_list_s(
                                    items,
                                    StV { vars: Seq::empty(), funcs: Seq::empty(), outp: st.outp },
                                    mods,
                                    (fuel - 1) as nat,
                                    cf_int(0),
                                );
                                match mres {
                                    Err(me) => (
                                        StV { vars: st.vars, funcs: st.funcs, outp: mst.outp },
                                        Err(me),
                                    ),
                                    Ok(u) => (
                                        StV {
                                            vars: st.vars,
                                            funcs: st.funcs + mst.funcs,
                                            outp: mst.outp,
                                        },
                                        Ok(cf_int(0)),
                                    ),
                                }
                            },
                        },
                    },
                }
            }
        },
        other => eval_s(other, st, mods, fuel),
    }
}

/// Sequential statement execution; the value carried is the last
/// statement's, starting from zero for an empty run.
pub open spec fn exec_list_s(
    es: Seq<AstV>,
    st: StV,
    mods: Seq<(Seq<char>, Seq<char>)>,
    fuel: nat,
    last: CF,
) -> (StV, Result<CF, ErrV>)
    decreases fuel, es, 2int,
{
    if es.len() == 0 {
        (st, Ok(last))
    } else {
        let (st1, r1) = exec_s(es[0], st, mods, fuel);
        match r1 {
            Err(e1) => (st1, Err(e1)),
            Ok(v) => exec_list_s(es.drop_first(), st1, mods, fuel, v),
        }
    }
}

/// The whole pipeline over one source text: tokenize, parse, execute.
pub open spec fn run_s(src: Seq<char>, st: StV, mods: Seq<(Seq<char>, Seq<char>)>, fuel: nat) -> (
    StV,
    Result<CF, ErrV>,
) {
    match lex_src(src) {
        LexAllRes::Fail(ch) => (st, Err(ErrV::LexError { ch })),
        LexAllRes::Short => (st, Err(ErrV::DepthExceeded)),
        LexAllRes::Toks(ts) => match parse_toks(ts) {
            Err(pe) => (st, Err(pe)),
            Ok(items) => exec_list_s(items, st, mods, fuel, cf_int(0)),
        },
    }
}

/// Every bound value is a well-formed fraction pair.
pub open spec fn vars_wf(vs: Seq<(Seq<char>, CF)>) -> bool {
    forall|i: int| 0 <= i < vs.len() ==> cf_wf((#[trigger] vs[i]).1)
}

/// A found binding in a well-formed environment is well formed.
pub proof fn lemma_assoc_find_wf(vs: Seq<(Seq<char>, CF)>, k: Seq<char>)
    requires
        vars_wf(vs),
        assoc_find(vs, k) is Some,
    ensures
        cf_wf(assoc_find(vs, k)->Some_0),
    decreases vs.len(),
{
    if vs.len() > 0 {
        if vs.last().0 == k {
            assert(vs[vs.len() - 1].1 == vs.last().1);
        } else {
            assert(vars_wf(vs.drop_last())) by {
                assert forall|i: int| 0 <= i < vs.len() - 1 implies cf_wf(
                    (#[trigger] vs.drop_last()[i]).1,
                ) by {
                    assert(vs.drop_last()[i] == vs[i]);
                }
            }
            lemma_assoc_find_wf(vs.drop_last(), k);
        }
    }
}

/// All values of a sequence are well formed.
pub open spec fn cfs_wf(vs: Seq<CF>) -> bool {
    forall|i: int| 0 <= i < vs.len() ==> cf_wf(#[trigger] vs[i])
}

/// The evaluator: variable environment, function table, module sources,
/// and the printed lines.
pub struct Interpreter {
    variables: StringMap<Value>,
    functions: StringMap<FunDef>,
    modules: StringMap<String>,
    output: Vec<String>,
}

impl Interpreter {
    /// The mathematical evaluation state.
    pub closed spec fn stv(&self) -> StV {
        StV { vars: self.variables@, funcs: self.functions@, outp: names_of(self.output@) }
    }

    /// The module sources available to imports.
    pub closed spec fn mods(&self) -> Seq<(Seq<char>, Seq<char>)> {
        self.modules@
    }

    pub open spec fn wf(&self) -> bool {
        vars_wf(self.stv().vars)
    }

    /// A fresh evaluator: nothing bound, nothing defined, nothing printed.
    pub fn new() -> (r: Self)
        ensures
            r.stv() == (StV {
                vars: Seq::<(Seq<char>, CF)>::empty(),
                funcs: Seq::<(Seq<char>, FunV)>::empty(),
                outp: Seq::<Seq<char>>::empty(),
            }),
            r.mods() == Seq::<(Seq<char>, Seq<char>)>::empty(),
            r.wf(),
    {
        let r = Interpreter {
            variables: StringMap::new(),
            functions: StringMap::new(),
            modules: StringMap::new(),
            output: Vec::new(),
        };
        proof {
            assert(names_of(r.output@) =~= Seq::<Seq<char>>::empty());
        }
        r
    }

    /// Makes a module's source text available under the given file name.
    pub fn add_module(&mut self, name: String, source: String)
        ensures
            final(self).mods() == old(self).mods().push((name@, source@)),
            final(self).stv() == old(self).stv(),
            final(self).wf() == old(self).wf(),
    {
        self.modules.insert(name, source);
    }

    /// The lines printed so far, in order.
    pub fn output_lines(&self) -> (r: &Vec<String>)
        ensures
            names_of(r@) == self.stv().outp,
    {
        &self.output
    }

    /// Whether a variable is bound.
    pub fn has_variable(&self, name: &String) -> (r: bool)
        ensures
            r == assoc_has(self.stv().vars, name@),
    {
        match self.variables.find(name) {
            Some(v) => true,
            None => false,
        }
    }

    /// Whether a function is defined.
    pub fn has_function(&self, name: &String) -> (r: bool)
        ensures
            r == assoc_has(self.stv().funcs, name@),
    {
        match self.functions.find(name) {
            Some(f) => true,
            None => false,
        }
    }

    /// The value bound to a variable, if any.
    pub fn get_variable(&self, name: &String) -> (r: Option<Value>)
        requires
            self.wf(),
        ensures
            match r {
                Some(v) => assoc_find(self.stv().vars, name@) == Some(v@) && cf_wf(v@),
                None => assoc_find(self.stv().vars, name@) is None,
            },
    {
        match self.variables.find(name) {
            Some(v) => {
                proof {
                    lemma_assoc_find_wf(self.stv().vars, name@);
                }
                Some(value_clone(v))
            },
            None => None,
        }
    }

    /// A copy of the variable environment with the same bindings.
    fn copy_vars(&self) -> (r: StringMap<Value>)
        ensures
            r@ == self.variables@,
    {
        let mut out: StringMap<Value> = StringMap::new();
        let n = self.variables.len();
        let mut i: usize = 0;
        while i < n
            invariant
                n == self.variables@.len(),
                i <= n,
                out@ == self.variables@.take(i as int),
            decreases n - i,
        {
            let p = self.variables.pair_at(i);
            out.insert(p.0.clone(), value_clone(p.1));
            proof {
                assert(self.variables@.take(i + 1) =~= self.variables@.take(i as int).push(
                    self.variables@[i as int],
                ));
            }
            i = i + 1;
        }
        proof {
            assert(self.variables@.take(n as int) =~= self.variables@);
        }
        out
    }

    /// A copy of the function table with the same definitions.
    fn copy_funcs(&self) -> (r: StringMap<FunDef>)
        ensures
            r@ == self.functions@,
    {
        let mut out: StringMap<FunDef> = StringMap::new();
        let n = self.functions.len();
        let mut i: usize = 0;
        while i < n
            invariant
                n == self.functions@.len(),
                i <= n,
                out@ == self.functions@.take(i as int),
            decreases n - i,
        {
            let p = self.functions.pair_at(i);
            out.insert(p.0.clone(), p.1.clone());
            proof {
                assert(self.functions@.take(i + 1) =~= self.functions@.take(i as int).push(
                    self.functions@[i as int],
                ));
            }
            i = i + 1;
        }
        proof {
            assert(self.functions@.take(n as int) =~= self.functions@);
        }
        out
    }

    /// Evaluates a leaf expression: a literal, a variable reference, or
    /// a named constant.
    fn eval_leaf(&mut self, node: &ASTNode, fuel: u64) -> (r: Result<Value, Error>)
        requires
            old(self).wf(),
            (*node) matches ASTNode::Float(_) || (*node) matches ASTNode::Identifier(_) || (*node)
                matches ASTNode::StringLiteral(_) || (*node) matches ASTNode::Pi || (*node)
                matches ASTNode::Kelvin || (*node) matches ASTNode::RD || (*node)
                matches ASTNode::CP || (*node) matches ASTNode::P0 || (*node)
                matches ASTNode::LV || (*node) matches ASTNode::CW || (*node)
                matches ASTNode::RhoAir || (*node) matches ASTNode::RhoWater || (*node)
                matches ASTNode::G,
        ensures
            final(self).wf(),
            final(self).mods() == old(self).mods(),
            final(self).stv() == eval_s(node@, old(self).stv(), old(self).mods(), fuel as nat).0,
            match (r, eval_s(node@, old(self).stv(), old(self).mods(), fuel as nat).1) {
                (Ok(v), Ok(cv)) => v@ == cv && cf_wf(v@),
                (Err(e), Err(ev)) => e@ == ev,
                _ => false,
            },
    {
        match node {
            ASTNode::Float(v) => Ok(Value { re: rat_clone(v), im: rat_from_i64(0) }),
            ASTNode::Identifier(name) => match self.variables.find(name) {
                Some(v) => {
                    proof {
                        lemma_assoc_find_wf(self.stv().vars, name@);
                    }
                    Ok(value_clone(v))
                },
                None => Err(Error::UndefinedVariable { name: name.clone() }),
            },
            ASTNode::Pi => Ok(Value { re: pi_constant(), im: rat_from_i64(0) }),
            ASTNode::Kelvin => Ok(Value { re: kelvin_constant(), im: rat_from_i64(0) }),
            ASTNode::RD => Ok(Value { re: rd_constant(), im: rat_from_i64(0) }),
            ASTNode::CP => Ok(Value { re: cp_constant(), im: rat_from_i64(0) }),
            ASTNode::P0 => Ok(Value { re: p0_constant(), im: rat_from_i64(0) }),
            ASTNode::LV => Ok(Value { re: lv_constant(), im: rat_from_i64(0) }),
            ASTNode::CW => Ok(Value { re: cw_constant(), im: rat_from_i64(0) }),
            ASTNode::RhoAir => Ok(Value { re: rho_air_constant(), im: rat_from_i64(0) }),
            ASTNode::RhoWater => Ok(Value { re: rho_water_constant(), im: rat_from_i64(0) }),
            ASTNode::G => Ok(Value { re: g_constant(), im: rat_from_i64(0) }),
            _ => Err(Error::InvalidOperand),
        }
    }

    /// Evaluates a temperature conversion builtin.
    #[verifier::rlimit(100)]
    #[verifier::spinoff_prover]
    fn eval_convert(&mut self, node: &ASTNode, fuel: u64) -> (r: Result<Value, Error>)
        requires
            old(self).wf(),
            (*node) matches ASTNode::FToC(_) || (*node) matches ASTNode::CToF(_) || (*node)
                matches ASTNode::CToK(_) || (*node) matches ASTNode::KToC(_) || (*node)
                matches ASTNode::FToK(_) || (*node) matches ASTNode::KToF(_),
        ensures
            final(self).wf(),
            final(self).mods() == old(self).mods(),
            final(self).stv() == eval_s(node@, old(self).stv(), old(self).mods(), fuel as nat).0,
            match (r, eval_s(node@, old(self).stv(), old(self).mods(), fuel as nat).1) {
                (Ok(v), Ok(cv)) => v@ == cv && cf_wf(v@),
                (Err(e), Err(ev)) => e@ == ev,
                _ => false,
            },
        decreases fuel, node, 0int,
    {
        match node {
            ASTNode::FToC(x) => {
                let v = match self.evaluate(x, fuel) {
                    Ok(v) => v,
                    Err(e) => {
                        return Err(e);
                    },
                };
                Ok(ftoc_value(&v))
            },
            ASTNode::CToF(x) => {
                let v = match self.evaluate(x, fuel) {
                    Ok(v) => v,
                    Err(e) => {
                        return Err(e);
                    },
                };
                Ok(ctof_value(&v))
            },
            ASTNode::CToK(x) => {
                let v = match self.evaluate(x, fuel) {
                    Ok(v) => v,
                    Err(e) => {
                        return Err(e);
                    },
                };
                Ok(ctok_value(&v))
            },
            ASTNode::KToC(x) => {
                let v = match self.evaluate(x, fuel) {
                    Ok(v) => v,
                    Err(e) => {
                        return Err(e);
                    },
                };
                Ok(ktoc_value(&v))
            },
            ASTNode::FToK(x) => {
                let v = match self.evaluate(x, fuel) {
                    Ok(v) => v,
                    Err(e) => {
                        return Err(e);
                    },
                };
                Ok(ftok_value(&v))
            },
            ASTNode::KToF(x) => {
                let v = match self.evaluate(x, fuel) {
                    Ok(v) => v,
                    Err(e) => {
                        return Err(e);
                    },
                };
                Ok(ktof_value(&v))
            },
            _ => Err(Error::InvalidOperand),
        }
    }

    /// Evaluates a one-argument gate gadget.
    #[verifier::rlimit(100)]
    #[verifier::spinoff_prover]
    fn eval_unary(&mut self, node: &ASTNode, fuel: u64) -> (r: Result<Value, Error>)
        requires
            old(self).wf(),
            (*node) matches ASTNode::PauliX(_) || (*node) matches ASTNode::PauliY(_) || (*node)
                matches ASTNode::PauliZ(_) || (*node) matches ASTNode::Hadamard(_) || (*node)
                matches ASTNode::MeasureQubit(_) || (*node) matches ASTNode::ResetQubit(_) || (
            *node) matches ASTNode::Phase(_) || (*node) matches ASTNode::TGate(_) || (*node)
                matches ASTNode::SGate(_),
        ensures
            final(self).wf(),
            final(self).mods() == old(self).mods(),
            final(self).stv() == eval_s(node@, old(self).stv(), old(self).mods(), fuel as nat).0,
            match (r, eval_s(node@, old(self).stv(), old(self).mods(), fuel as nat).1) {
                (Ok(v), Ok(cv)) => v@ == cv && cf_wf(v@),
                (Err(e), Err(ev)) => e@ == ev,
                _ => false,
            },
        decreases fuel, node, 0int,
    {
        match node {
            ASTNode::PauliX(x) => {
                let v = match self.evaluate(x, fuel) {
                    Ok(v) => v,
                    Err(e) => {
                        return Err(e);
                    },
                };
                Ok(paulix_value(&v))
            },
            ASTNode::PauliY(x) => {
                let v = match self.evaluate(x, fuel) {
                    Ok(v) => v,
                    Err(e) => {
                        return Err(e);
                    },
                };
                Ok(pauliy_value(&v))
            },
            ASTNode::PauliZ(x) => {
                let v = match self.evaluate(x, fuel) {
                    Ok(v) => v,
                    Err(e) => {
                        return Err(e);
                    },
                };
                Ok(pauliz_value(&v))
            },
            ASTNode::Hadamard(x) => {
                let v = match self.evaluate(x, fuel) {
                    Ok(v) => v,
                    Err(e) => {
                        return Err(e);
                    },
                };
                Ok(hadamard_value(&v))
            },
            ASTNode::MeasureQubit(x) => {
                let v = match self.evaluate(x, fuel) {
                    Ok(v) => v,
                    Err(e) => {
                        return Err(e);
                    },
                };
                Ok(measure_value(&v))
            },
            ASTNode::ResetQubit(x) => {
                let v = match self.evaluate(x, fuel) {
                    Ok(v) => v,
                    Err(e) => {
                        return Err(e);
                    },
                };
                Ok(value_int(0))
            },
            ASTNode::Phase(x) => {
                let v = match self.evaluate(x, fuel) {
                    Ok(v) => v,
                    Err(e) => {
                        return Err(e);
                    },
                };
                Ok(phase_value(&v))
            },
            ASTNode::TGate(x) => {
                let v = match self.evaluate(x, fuel) {
                    Ok(v) => v,
                    Err(e) => {
                        return Err(e);
                    },
                };
                Ok(tgate_value(&v))
            },
            ASTNode::SGate(x) => {
                let v = match self.evaluate(x, fuel) {
                    Ok(v) => v,
                    Err(e) => {
                        return Err(e);
                    },
                };
                Ok(sgate_value(&v))
            },
            _ => Err(Error::InvalidOperand),
        }
    }

    /// Evaluates a two-argument builtin: the dew point, a relational
    /// comparison, or a two-argument gate gadget.
    #[verifier::rlimit(100)]
    #[verifier::spinoff_prover]
    fn eval_binary(&mut self, node: &ASTNode, fuel: u64) -> (r: Result<Value, Error>)
        requires
            old(self).wf(),
            (*node) matches ASTNode::DewPoint(_, _) || (*node) matches ASTNode::CNot(_, _) || (
            *node) matches ASTNode::Qubit(_, _) || (*node) matches ASTNode::SWAP(_, _) || (*node)
                matches ASTNode::GreaterThan(_, _) || (*node) matches ASTNode::LessThan(_, _),
        ensures
            final(self).wf(),
            final(self).mods() == old(self).mods(),
            final(self).stv() == eval_s(node@, old(self).stv(), old(self).mods(), fuel as nat).0,
            match (r, eval_s(node@, old(self).stv(), old(self).mods(), fuel as nat).1) {
                (Ok(v), Ok(cv)) => v@ == cv && cf_wf(v@),
                (Err(e), Err(ev)) => e@ == ev,
                _ => false,
            },
        decreases fuel, node, 0int,
    {
        match node {
            ASTNode::DewPoint(t, h) => {
                let a = match self.evaluate(t, fuel) {
                    Ok(a) => a,
                    Err(e) => {
                        return Err(e);
                    },
                };
                let b = match self.evaluate(h, fuel) {
                    Ok(b) => b,
                    Err(e) => {
                        return Err(e);
                    },
                };
                dew_point_value(&a, &b)
            },
            ASTNode::CNot(c, t) => {
                let a = match self.evaluate(c, fuel) {
                    Ok(a) => a,
                    Err(e) => {
                        return Err(e);
                    },
                };
                let b = match self.evaluate(t, fuel) {
                    Ok(b) => b,
                    Err(e) => {
                        return Err(e);
                    },
                };
                Ok(cnot_value(&a, &b))
            },
            ASTNode::Qubit(s0, n) => {
                let a = match self.evaluate(s0, fuel) {
                    Ok(a) => a,
                    Err(e) => {
                        return Err(e);
                    },
                };
                let b = match self.evaluate(n, fuel) {
                    Ok(b) => b,
                    Err(e) => {
                        return Err(e);
                    },
                };
                let zero = rat_from_i64(0);
                if !rat_eq(&b.im, &zero) {
                    return Err(Error::InvalidOperand);
                }
                match rat_trunc_usize(&b.re) {
                    None => Err(Error::InvalidOperand),
                    Some(k) => {
                        let res = Value { re: qubit_fill_value(&a.re, k), im: rat_from_i64(0) };
                        proof {
                            assert(frac_wf(res@.re));
                            assert(frac_wf(res@.im));
                        }
                        Ok(res)
                    },
                }
            },
            ASTNode::SWAP(l, r) => {
                let a = match self.evaluate(l, fuel) {
                    Ok(a) => a,
                    Err(e) => {
                        return Err(e);
                    },
                };
                let b = match self.evaluate(r, fuel) {
                    Ok(b) => b,
                    Err(e) => {
                        return Err(e);
                    },
                };
                Ok(swap_value(&a, &b))
            },
            ASTNode::GreaterThan(l, r) => {
                let a = match self.evaluate(l, fuel) {
                    Ok(a) => a,
                    Err(e) => {
                        return Err(e);
                    },
                };
                let b = match self.evaluate(r, fuel) {
                    Ok(b) => b,
                    Err(e) => {
                        return Err(e);
                    },
                };
                if rat_lt(&b.re, &a.re) {
                    Ok(value_int(1))
                } else {
                    Ok(value_int(0))
                }
            },
            ASTNode::LessThan(l, r) => {
                let a = match self.evaluate(l, fuel) {
                    Ok(a) => a,
                    Err(e) => {
                        return Err(e);
                    },
                };
                let b = match self.evaluate(r, fuel) {
                    Ok(b) => b,
                    Err(e) => {
                        return Err(e);
                    },
                };
                if rat_lt(&a.re, &b.re) {
                    Ok(value_int(1))
                } else {
                    Ok(value_int(0))
                }
            },
            _ => Err(Error::InvalidOperand),
        }
    }

    /// Evaluates a three-argument gate gadget.
    #[verifier::rlimit(100)]
    #[verifier::spinoff_prover]
    fn eval_ternary(&mut self, node: &ASTNode, fuel: u64) -> (r: Result<Value, Error>)
        requires
            old(self).wf(),
            (*node) matches ASTNode::Toffoli(_, _, _) || (*node) matches ASTNode::Fredkin(
                _,
                _,
                _,
            ),
        ensures
            final(self).wf(),
            final(self).mods() == old(self).mods(),
            final(self).stv() == eval_s(node@, old(self).stv(), old(self).mods(), fuel as nat).0,
            match (r, eval_s(node@, old(self).stv(), old(self).mods(), fuel as nat).1) {
                (Ok(v), Ok(cv)) => v@ == cv && cf_wf(v@),
                (Err(e), Err(ev)) => e@ == ev,
                _ => false,
            },
        decreases fuel, node, 0int,
    {
        match node {
            ASTNode::Toffoli(a0, b0, c0) => {
                let a = match self.evaluate(a0, fuel) {
                    Ok(a) => a,
                    Err(e) => {
                        return Err(e);
                    },
                };
                let b = match self.evaluate(b0, fuel) {
                    Ok(b) => b,
                    Err(e) => {
                        return Err(e);
                    },
                };
                let c = match self.evaluate(c0, fuel) {
                    Ok(c) => c,
                    Err(e) => {
                        return Err(e);
                    },
                };
                Ok(toffoli_value(&a, &b, &c))
            },
            ASTNode::Fredkin(a0, b0, c0) => {
                let a = match self.evaluate(a0, fuel) {
                    Ok(a) => a,
                    Err(e) => {
                        return Err(e);
                    },
                };
                let b = match self.evaluate(b0, fuel) {
                    Ok(b) => b,
                    Err(e) => {
                        return Err(e);
                    },
                };
                let c = match self.evaluate(c0, fuel) {
                    Ok(c) => c,
                    Err(e) => {
                        return Err(e);
                    },
                };
                Ok(fredkin_value(&a, &b, &c))
            },
            _ => Err(Error::InvalidOperand),
        }
    }

    /// Evaluates a user-defined function call: arguments in the caller's
    /// environment, then the body in a fresh frame.
    #[verifier::rlimit(100)]
    #[verifier::spinoff_prover]
    fn eval_call(&mut self, node: &ASTNode, fuel: u64) -> (r: Result<Value, Error>)
        requires
            old(self).wf(),
            (*node) matches ASTNode::Call(_, _),
        ensures
            final(self).wf(),
            final(self).mods() == old(self).mods(),
            final(self).stv() == eval_s(node@, old(self).stv(), old(self).mods(), fuel as nat).0,
            match (r, eval_s(node@, old(self).stv(), old(self).mods(), fuel as nat).1) {
                (Ok(v), Ok(cv)) => v@ == cv && cf_wf(v@),
                (Err(e), Err(ev)) => e@ == ev,
                _ => false,
            },
        decreases fuel, node, 0int,
    {
        match node {
            ASTNode::Call(name, args) => {
                let f = match self.functions.find(name) {
                    Some(f) => f.clone(),
                    None => {
                        return Err(Error::UndefinedFunction { name: name.clone() });
                    },
                };
                proof {
                    assert(decreases_to!(*node => *args));
                    assert(args@.skip(0) =~= args@);
                    assert(views_of(args@).skip(0) =~= views_of(args@));
                    assert(cf_views(Seq::<Value>::empty()) =~= Seq::<CF>::empty());
                }
                let vals = match self.eval_args(args, 0, Vec::new(), fuel) {
                    Ok(v) => v,
                    Err(e) => {
                        return Err(e);
                    },
                };
                if fuel == 0 {
                    return Err(Error::DepthExceeded);
                }
                let mut frame_vars = self.copy_vars();
                let plen = f.params.len();
                let vlen = vals.len();
                let ghost pn = names_of(f.params@);
                let ghost vv = cf_views(vals@);
                let ghost base = self.variables@;
                let mut k: usize = 0;
                while k < plen && k < vlen
                    invariant
                        plen == f.params@.len(),
                        vlen == vals@.len(),
                        pn == names_of(f.params@),
                        vv == cf_views(vals@),
                        k <= plen,
                        k <= vlen,
                        vars_wf(base),
                        forall|j: int| 0 <= j < vals@.len() ==> cf_wf(#[trigger] vals@[j]@),
                        vars_wf(frame_vars@),
                        bind_from(pn, vv, base, 0) == bind_from(pn, vv, frame_vars@, k as int),
                    decreases plen - k,
                {
                    let ghost fv0 = frame_vars@;
                    frame_vars.insert(f.params[k].clone(), value_clone(&vals[k]));
                    proof {
                        assert(pn[k as int] == f.params@[k as int]@);
                        assert(vv[k as int] == vals@[k as int]@);
                        assert(frame_vars@ == fv0.push((pn[k as int], vv[k as int])));
                        assert forall|j: int|
                            0 <= j < frame_vars@.len() implies cf_wf(
                            (#[trigger] frame_vars@[j]).1,
                        ) by {
                            if j < fv0.len() {
                                assert(frame_vars@[j] == fv0[j]);
                            }
                        }
                    }
                    k = k + 1;
                }
                proof {
                    assert(bind_from(pn, vv, frame_vars@, k as int) == frame_vars@);
                }
                let mut sub = Interpreter {
                    variables: frame_vars,
                    functions: self.copy_funcs(),
                    modules: self.copy_mods(),
                    output: Vec::new(),
                };
                core::mem::swap(&mut self.output, &mut sub.output);
                let res = match &f.body {
                    ASTNode::Block(items) => {
                        proof {
                            assert(views_of(items@).skip(0) =~= views_of(items@));
                        }
                        sub.run_stmts(items, 0, value_int(0), fuel - 1)
                    },
                    other => sub.evaluate(other, fuel - 1),
                };
                core::mem::swap(&mut self.output, &mut sub.output);
                res
            },
            _ => Err(Error::InvalidOperand),
        }
    }

    /// Evaluates an expression in the current environment; only the
    /// printed lines of the state can change.
    #[verifier::rlimit(100)]
    #[verifier::spinoff_prover]
    pub fn evaluate(&mut self, node: &ASTNode, fuel: u64) -> (r: Result<Value, Error>)
        requires
            old(self).wf(),
        ensures
            final(self).wf(),
            final(self).mods() == old(self).mods(),
            final(self).stv() == eval_s(node@, old(self).stv(), old(self).mods(), fuel as nat).0,
            final(self).stv().vars == old(self).stv().vars,
            final(self).stv().funcs == old(self).stv().funcs,
            match (r, eval_s(node@, old(self).stv(), old(self).mods(), fuel as nat).1) {
                (Ok(v), Ok(cv)) => v@ == cv && cf_wf(v@),
                (Err(e), Err(ev)) => e@ == ev,
                _ => false,
            },
        decreases fuel, node, 1int,
    {
        proof {
            lemma_eval_pure(node@, self.stv(), self.mods(), fuel as nat);
        }
        match node {
            ASTNode::Float(_) => self.eval_leaf(node, fuel),
            ASTNode::Identifier(_) => self.eval_leaf(node, fuel),
            ASTNode::Pi => self.eval_leaf(node, fuel),
            ASTNode::Kelvin => self.eval_leaf(node, fuel),
            ASTNode::RD => self.eval_leaf(node, fuel),
            ASTNode::CP => self.eval_leaf(node, fuel),
            ASTNode::P0 => self.eval_leaf(node, fuel),
            ASTNode::LV => self.eval_leaf(node, fuel),
            ASTNode::CW => self.eval_leaf(node, fuel),
            ASTNode::RhoAir => self.eval_leaf(node, fuel),
            ASTNode::RhoWater => self.eval_leaf(node, fuel),
            ASTNode::G => self.eval_leaf(node, fuel),
            ASTNode::FToC(_) => self.eval_convert(node, fuel),
            ASTNode::CToF(_) => self.eval_convert(node, fuel),
            ASTNode::CToK(_) => self.eval_convert(node, fuel),
            ASTNode::KToC(_) => self.eval_convert(node, fuel),
            ASTNode::FToK(_) => self.eval_convert(node, fuel),
            ASTNode::KToF(_) => self.eval_convert(node, fuel),
            ASTNode::PauliX(_) => self.eval_unary(node, fuel),
            ASTNode::PauliY(_) => self.eval_unary(node, fuel),
            ASTNode::PauliZ(_) => self.eval_unary(node, fuel),
            ASTNode::Hadamard(_) => self.eval_unary(node, fuel),
            ASTNode::MeasureQubit(_) => self.eval_unary(node, fuel),
            ASTNode::ResetQubit(_) => self.eval_unary(node, fuel),
            ASTNode::Phase(_) => self.eval_unary(node, fuel),
            ASTNode::TGate(_) => self.eval_unary(node, fuel),
            ASTNode::SGate(_) => self.eval_unary(node, fuel),
            ASTNode::DewPoint(_, _) => self.eval_binary(node, fuel),
            ASTNode::CNot(_, _) => self.eval_binary(node, fuel),
            ASTNode::Qubit(_, _) => self.eval_binary(node, fuel),
            ASTNode::SWAP(_, _) => self.eval_binary(node, fuel),
            ASTNode::GreaterThan(_, _) => self.eval_binary(node, fuel),
            ASTNode::LessThan(_, _) => self.eval_binary(node, fuel),
            ASTNode::Toffoli(_, _, _) => self.eval_ternary(node, fuel),
            ASTNode::Fredkin(_, _, _) => self.eval_ternary(node, fuel),
            ASTNode::Call(_, _) => self.eval_call(node, fuel),
            ASTNode::BinaryOp(l, op, r) => {
                let a = match self.evaluate(l, fuel) {
                    Ok(a) => a,
                    Err(e) => {
                        return Err(e);
                    },
                };
                let b = match self.evaluate(r, fuel) {
                    Ok(b) => b,
                    Err(e) => {
                        return Err(e);
                    },
                };
                self.apply_binop(op, a, b)
            },
            _ => Err(Error::InvalidOperand),
        }
    }

    /// One binary operator applied to two evaluated operands.
    fn apply_binop(&mut self, op: &Token, a: Value, b: Value) -> (r: Result<Value, Error>)
        requires
            old(self).wf(),
            cf_wf(a@),
            cf_wf(b@),
        ensures
            *final(self) == *old(self),
            match (r, eval_binop_s(op@, a@, b@)) {
                (Ok(v), Ok(cv)) => v@ == cv && cf_wf(v@),
                (Err(e), Err(ev)) => e@ == ev,
                _ => false,
            },
    {
        match op {
            Token::Plus => Ok(value_add(&a, &b)),
            Token::Minus => Ok(value_sub(&a, &b)),
            Token::Star => Ok(value_mul(&a, &b)),
            Token::Slash => {
                if value_is_int(&b, 0) {
                    Err(Error::DivisionByZero)
                } else {
                    Ok(value_div(&a, &b))
                }
            },
            Token::GreaterThan => {
                if rat_lt(&b.re, &a.re) {
                    Ok(value_int(1))
                } else {
                    Ok(value_int(0))
                }
            },
            Token::LessThan => {
                if rat_lt(&a.re, &b.re) {
                    Ok(value_int(1))
                } else {
                    Ok(value_int(0))
                }
            },
            _ => Err(Error::InvalidOperand),
        }
    }

    /// Evaluates call arguments left to right in the caller's environment.
    fn eval_args(&mut self, args: &Vec<ASTNode>, i: usize, acc: Vec<Value>, fuel: u64) -> (r:
        Result<Vec<Value>, Error>)
        requires
            old(self).wf(),
            i <= args@.len(),
            forall|j: int| 0 <= j < acc@.len() ==> cf_wf(#[trigger] acc@[j]@),
        ensures
            final(self).wf(),
            final(self).mods() == old(self).mods(),
            final(self).stv() == eval_args_s(
                views_of(args@).skip(i as int),
                old(self).stv(),
                old(self).mods(),
                fuel as nat,
                cf_views(acc@),
            ).0,
            match (r, eval_args_s(
                views_of(args@).skip(i as int),
                old(self).stv(),
                old(self).mods(),
                fuel as nat,
                cf_views(acc@),
            ).1) {
                (Ok(v), Ok(cvs)) => cf_views(v@) == cvs && (forall|j: int|
                    0 <= j < v@.len() ==> cf_wf(#[trigger] v@[j]@)),
                (Err(e), Err(ev)) => e@ == ev,
                _ => false,
            },
        decreases fuel, args@.skip(i as int), 1int,
    {
        let mut acc = acc;
        let n = args.len();
        if i >= n {
            proof {
                assert(views_of(args@).skip(i as int) =~= Seq::<AstV>::empty());
            }
            return Ok(acc);
        }
        proof {
            assert(views_of(args@).skip(i as int)[0] == views_of(args@)[i as int]);
            assert(views_of(args@)[i as int] == args@[i as int]@);
            let sk = args@.skip(i as int);
            assert(sk[0] == args@[i as int]);
            assert(decreases_to!(sk => sk[0]));
            assert(sk.drop_first() =~= args@.skip(i as int + 1));
            assert(decreases_to!(sk => sk.drop_first()));
        }
        let v = match self.evaluate(&args[i], fuel) {
            Ok(v) => v,
            Err(e) => {
                return Err(e);
            },
        };
        let ghost acc0 = acc@;
        let ghost v0 = v;
        acc.push(v);
        proof {
            lemma_cf_views_push(acc0, v0, acc@);
            assert(views_of(args@).skip(i as int).drop_first() =~= views_of(args@).skip(
                i as int + 1,
            ));
            assert forall|j: int| 0 <= j < acc@.len() implies cf_wf(#[trigger] acc@[j]@) by {
                if j < acc0.len() {
                    assert(acc@[j] == acc0[j]);
                }
            }
        }
        self.eval_args(args, i + 1, acc, fuel)
    }

    /// Executes an import: runs the module's pipeline in a fresh
    /// environment, appends its printed lines, and merges only its
    /// function definitions.
    #[verifier::rlimit(100)]
    #[verifier::spinoff_prover]
    fn exec_import(&mut self, node: &ASTNode, fuel: u64) -> (r: Result<Value, Error>)
        requires
            old(self).wf(),
            (*node) matches ASTNode::Import(_),
        ensures
            final(self).wf(),
            final(self).mods() == old(self).mods(),
            final(self).stv() == exec_s(node@, old(self).stv(), old(self).mods(), fuel as nat).0,
            match (r, exec_s(node@, old(self).stv(), old(self).mods(), fuel as nat).1) {
                (Ok(v), Ok(cv)) => v@ == cv && cf_wf(v@),
                (Err(e), Err(ev)) => e@ == ev,
                _ => false,
            },
        decreases fuel, node, 0int,
    {
        match node {
            ASTNode::Import(name) => {
                if fuel == 0 {
                    return Err(Error::DepthExceeded);
                }
                let resolved = name.clone().concat(".").concat("met");
                let source = match self.modules.find(&resolved) {
                    Some(s) => s.clone(),
                    None => {
                        return Err(Error::ImportError { name: resolved });
                    },
                };
                let mut parser = match Parser::new(Lexer::new(source)) {
                    Ok(p) => p,
                    Err(e) => {
                        return Err(e);
                    },
                };
                let nodes = match parser.parse() {
                    Ok(ns) => ns,
                    Err(e) => {
                        return Err(e);
                    },
                };
                let mut sub = Interpreter {
                    variables: StringMap::new(),
                    functions: StringMap::new(),
                    modules: self.copy_mods(),
                    output: Vec::new(),
                };
                core::mem::swap(&mut self.output, &mut sub.output);
                proof {
                    assert(views_of(nodes@).skip(0) =~= views_of(nodes@));
                }
                let mres = sub.run_stmts(&nodes, 0, value_int(0), fuel - 1);
                core::mem::swap(&mut self.output, &mut sub.output);
                match mres {
                    Err(me) => Err(me),
                    Ok(u) => {
                        let ghost funcs0 = self.functions@;
                        let ghost mfuncs = sub.functions@;
                        let ghost vars1 = self.variables@;
                        let ghost mods1 = self.modules@;
                        let ghost out1 = self.output@;
                        let mn = sub.functions.len();
                        let mut mi: usize = 0;
                        while mi < mn
                            invariant
                                mn == sub.functions@.len(),
                                mi <= mn,
                                sub.functions@ == mfuncs,
                                self.functions@ == funcs0 + mfuncs.take(mi as int),
                                self.variables@ == vars1,
                                self.modules@ == mods1,
                                self.output@ == out1,
                                vars_wf(self.variables@),
                            decreases mn - mi,
                        {
                            let p = sub.functions.pair_at(mi);
                            self.functions.insert(p.0.clone(), p.1.clone());
                            proof {
                                assert((funcs0 + mfuncs.take(mi as int)).push(mfuncs[mi as int])
                                    =~= funcs0 + mfuncs.take(mi + 1));
                            }
                            mi = mi + 1;
                        }
                        proof {
                            assert(mfuncs.take(mn as int) =~= mfuncs);
                        }
                        Ok(value_int(0))
                    },
                }
            },
            _ => Err(Error::InvalidOperand),
        }
    }

    /// Executes one statement.
    #[verifier::rlimit(100)]
    #[verifier::spinoff_prover]
    pub fn execute(&mut self, node: &ASTNode, fuel: u64) -> (r: Result<Value, Error>)
        requires
            old(self).wf(),
        ensures
            final(self).wf(),
            final(self).mods() == old(self).mods(),
            final(self).stv() == exec_s(node@, old(self).stv(), old(self).mods(), fuel as nat).0,
            match (r, exec_s(node@, old(self).stv(), old(self).mods(), fuel as nat).1) {
                (Ok(v), Ok(cv)) => v@ == cv && cf_wf(v@),
                (Err(e), Err(ev)) => e@ == ev,
                _ => false,
            },
        decreases fuel, node, 2int,
    {
        match node {
            ASTNode::Assignment(name, rhs) => {
                let v = match self.evaluate(rhs, fuel) {
                    Ok(v) => v,
                    Err(e) => {
                        return Err(e);
                    },
                };
                self.variables.insert(name.clone(), value_clone(&v));
                proof {
                    assert forall|j: int|
                        0 <= j < self.variables@.len() implies cf_wf(
                        (#[trigger] self.variables@[j]).1,
                    ) by {}
                }
                Ok(v)
            },
            ASTNode::Print(inner) => {
                match &**inner {
                    ASTNode::StringLiteral(s) => {
                        let ghost out0 = self.output@;
                        let ghost s0 = s@;
                        self.output.push(s.clone());
                        proof {
                            assert(self.output@.drop_last() =~= out0);
                            assert(names_of(self.output@) == names_of(out0).push(s0));
                        }
                        Ok(value_int(0))
                    },
                    _ => {
                        let v = match self.evaluate(inner, fuel) {
                            Ok(v) => v,
                            Err(e) => {
                                return Err(e);
                            },
                        };
                        let zero = rat_from_i64(0);
                        if !rat_eq(&v.im, &zero) {
                            return Err(Error::InvalidOperand);
                        }
                        let line = rat_to_decimal_string(&v.re);
                        let ghost out0 = self.output@;
                        let ghost l0 = line@;
                        self.output.push(line);
                        proof {
                            assert(self.output@.drop_last() =~= out0);
                            assert(names_of(self.output@) == names_of(out0).push(l0));
                        }
                        Ok(v)
                    },
                }
            },
            ASTNode::If(c, th, els) => {
                let cv = match self.evaluate(c, fuel) {
                    Ok(v) => v,
                    Err(e) => {
                        return Err(e);
                    },
                };
                if !value_is_int(&cv, 0) {
                    self.execute(th, fuel)
                } else {
                    match els {
                        Some(eb) => self.execute(eb, fuel),
                        None => Ok(value_int(0)),
                    }
                }
            },
            ASTNode::Block(items) => {
                proof {
                    assert(decreases_to!(*node => *items));
                    assert(items@.skip(0) =~= items@);
                    assert(views_of(items@).skip(0) =~= views_of(items@));
                }
                self.run_stmts(items, 0, value_int(0), fuel)
            },
            ASTNode::Function(name, params, body) => {
                let def = FunDef { params: clone_strings(params), body: (**body).clone() };
                self.functions.insert(name.clone(), def);
                Ok(value_int(0))
            },
            ASTNode::Import(_) => self.exec_import(node, fuel),
            _ => self.evaluate(node, fuel),
        }
    }

    /// Executes the statements of a list from position `i`, carrying the
    /// last statement's value.
    fn run_stmts(&mut self, stmts: &Vec<ASTNode>, i: usize, last: Value, fuel: u64) -> (r: Result<
        Value,
        Error,
    >)
        requires
            old(self).wf(),
            i <= stmts@.len(),
            cf_wf(last@),
        ensures
            final(self).wf(),
            final(self).mods() == old(self).mods(),
            final(self).stv() == exec_list_s(
                views_of(stmts@).skip(i as int),
                old(self).stv(),
                old(self).mods(),
                fuel as nat,
                last@,
            ).0,
            match (r, exec_list_s(
                views_of(stmts@).skip(i as int),
                old(self).stv(),
                old(self).mods(),
                fuel as nat,
                last@,
            ).1) {
                (Ok(v), Ok(cv)) => v@ == cv && cf_wf(v@),
                (Err(e), Err(ev)) => e@ == ev,
                _ => false,
            },
        decreases fuel, stmts@.skip(i as int), 3int,
    {
        let n = stmts.len();
        if i >= n {
            proof {
                assert(views_of(stmts@).skip(i as int) =~= Seq::<AstV>::empty());
            }
            return Ok(last);
        }
        proof {
            assert(views_of(stmts@).skip(i as int)[0] == views_of(stmts@)[i as int]);
            assert(views_of(stmts@)[i as int] == stmts@[i as int]@);
            let sk = stmts@.skip(i as int);
            assert(sk[0] == stmts@[i as int]);
            assert(decreases_to!(sk => sk[0]));
            assert(sk.drop_first() =~= stmts@.skip(i as int + 1));
            assert(decreases_to!(sk => sk.drop_first()));
        }
        let v = match self.execute(&stmts[i], fuel) {
            Ok(v) => v,
            Err(e) => {
                return Err(e);
            },
        };
        proof {
            assert(views_of(stmts@).skip(i as int).drop_first() =~= views_of(stmts@).skip(
                i as int + 1,
            ));
        }
        self.run_stmts(stmts, i + 1, v, fuel)
    }

    /// Executes a whole program: each top-level statement in order.
    pub fn interpret(&mut self, nodes: Vec<ASTNode>, fuel: u64) -> (r: Result<Value, Error>)
        requires
            old(self).wf(),
        ensures
            final(self).wf(),
            final(self).mods() == old(self).mods(),
            final(self).stv() == exec_list_s(
                views_of(nodes@),
                old(self).stv(),
                old(self).mods(),
                fuel as nat,
                cf_int(0),
            ).0,
            match (r, exec_list_s(
                views_of(nodes@),
                old(self).stv(),
                old(self).mods(),
                fuel as nat,
                cf_int(0),
            ).1) {
                (Ok(v), Ok(cv)) => v@ == cv && cf_wf(v@),
                (Err(e), Err(ev)) => e@ == ev,
                _ => false,
            },
    {
        proof {
            assert(views_of(nodes@).skip(0) =~= views_of(nodes@));
        }
        self.run_stmts(&nodes, 0, value_int(0), fuel)
    }

    /// Runs the whole pipeline over a source text: tokenize, parse, then
    /// execute each statement in the current environment.
    pub fn run(&mut self, source: &String, fuel: u64) -> (r: Result<Value, Error>)
        requires
            old(self).wf(),
        ensures
            final(self).wf(),
            final(self).mods() == old(self).mods(),
            final(self).stv() == run_s(source@, old(self).stv(), old(self).mods(), fuel as nat).0,
            match (r, run_s(source@, old(self).stv(), old(self).mods(), fuel as nat).1) {
                (Ok(v), Ok(cv)) => v@ == cv && cf_wf(v@),
                (Err(e), Err(ev)) => e@ == ev,
                _ => false,
            },
    {
        let mut parser = match Parser::new(Lexer::new(source.clone())) {
            Ok(p) => p,
            Err(e) => {
                return Err(e);
            },
        };
        let nodes = match parser.parse() {
            Ok(ns) => ns,
            Err(e) => {
                return Err(e);
            },
        };
        self.interpret(nodes, fuel)
    }

    /// A copy of the module table with the same sources.
    fn copy_mods(&self) -> (r: StringMap<String>)
        ensures
            r@ == self.modules@,
    {
        let mut out: StringMap<String> = StringMap::new();
        let n = self.modules.len();
        let mut i: usize = 0;
        while i < n
            invariant
                n == self.modules@.len(),
                i <= n,
                out@ == self.modules@.take(i as int),
            decreases n - i,
        {
            let p = self.modules.pair_at(i);
            out.insert(p.0.clone(), p.1.clone());
            proof {
                assert(self.modules@.take(i + 1) =~= self.modules@.take(i as int).push(
                    self.modules@[i as int],
                ));
            }
            i = i + 1;
        }
        proof {
            assert(self.modules@.take(n as int) =~= self.modules@);
        }
        out
    }
}


/// Expression evaluation is pure over the environment: whatever the
/// expression and outcome, the variable bindings and the function table
/// come out unchanged; only the printed lines can grow (through calls).
/// A braced statement block in expression position is a reported error,
/// so no expression can smuggle a binding into the caller.
#[verifier::rlimit(100)]
#[verifier::spinoff_prover]
pub proof fn lemma_eval_pure(e: AstV, st: StV, mods: Seq<(Seq<char>, Seq<char>)>, fuel: nat)
    ensures
        eval_s(e, st, mods, fuel).0.vars == st.vars,
        eval_s(e, st, mods, fuel).0.funcs == st.funcs,
    decreases fuel, e, 0int,
{
    match e {
        AstV::BinaryOp(l, op, r) => {
            lemma_eval_pure(*l, st, mods, fuel);
            let (st1, r1) = eval_s(*l, st, mods, fuel);
            if r1 is Ok {
                lemma_eval_pure(*r, st1, mods, fuel);
            }
        },
        AstV::GreaterThan(l, r) => {
            lemma_eval_pure(*l, st, mods, fuel);
            let (st1, r1) = eval_s(*l, st, mods, fuel);
            if r1 is Ok {
                lemma_eval_pure(*r, st1, mods, fuel);
            }
        },
        AstV::LessThan(l, r) => {
            lemma_eval_pure(*l, st, mods, fuel);
            let (st1, r1) = eval_s(*l, st, mods, fuel);
            if r1 is Ok {
                lemma_eval_pure(*r, st1, mods, fuel);
            }
        },
        AstV::DewPoint(a, h) => {
            lemma_eval_pure(*a, st, mods, fuel);
            let (st1, r1) = eval_s(*a, st, mods, fuel);
            if r1 is Ok {
                lemma_eval_pure(*h, st1, mods, fuel);
            }
        },
        AstV::CNot(c, x) => {
            lemma_eval_pure(*c, st, mods, fuel);
            let (st1, r1) = eval_s(*c, st, mods, fuel);
            if r1 is Ok {
                lemma_eval_pure(*x, st1, mods, fuel);
            }
        },
        AstV::Qubit(s0, n) => {
            lemma_eval_pure(*s0, st, mods, fuel);
            let (st1, r1) = eval_s(*s0, st, mods, fuel);
            if r1 is Ok {
                lemma_eval_pure(*n, st1, mods, fuel);
            }
        },
        AstV::SWAP(l, r) => {
            lemma_eval_pure(*l, st, mods, fuel);
            let (st1, r1) = eval_s(*l, st, mods, fuel);
            if r1 is Ok {
                lemma_eval_pure(*r, st1, mods, fuel);
            }
        },
        AstV::Toffoli(a, b, c) => {
            lemma_eval_pure(*a, st, mods, fuel);
            let (st1, r1) = eval_s(*a, st, mods, fuel);
            if r1 is Ok {
                lemma_eval_pure(*b, st1, mods, fuel);
                let (st2, r2) = eval_s(*b, st1, mods, fuel);
                if r2 is Ok {
                    lemma_eval_pure(*c, st2, mods, fuel);
                }
            }
        },
        AstV::Fredkin(a, b, c) => {
            lemma_eval_pure(*a, st, mods, fuel);
            let (st1, r1) = eval_s(*a, st, mods, fuel);
            if r1 is Ok {
                lemma_eval_pure(*b, st1, mods, fuel);
                let (st2, r2) = eval_s(*b, st1, mods, fuel);
                if r2 is Ok {
                    lemma_eval_pure(*c, st2, mods, fuel);
                }
            }
        },
        AstV::FToC(x) => {
            lemma_eval_pure(*x, st, mods, fuel);
        },
        AstV::CToF(x) => {
            lemma_eval_pure(*x, st, mods, fuel);
        },
        AstV::CToK(x) => {
            lemma_eval_pure(*x, st, mods, fuel);
        },
        AstV::KToC(x) => {
            lemma_eval_pure(*x, st, mods, fuel);
        },
        AstV::FToK(x) => {
            lemma_eval_pure(*x, st, mods, fuel);
        },
        AstV::KToF(x) => {
            lemma_eval_pure(*x, st, mods, fuel);
        },
        AstV::PauliX(x) => {
            lemma_eval_pure(*x, st, mods, fuel);
        },
        AstV::PauliY(x) => {
            lemma_eval_pure(*x, st, mods, fuel);
        },
        AstV::PauliZ(x) => {
            lemma_eval_pure(*x, st, mods, fuel);
        },
        AstV::Hadamard(x) => {
            lemma_eval_pure(*x, st, mods, fuel);
        },
        AstV::MeasureQubit(x) => {
            lemma_eval_pure(*x, st, mods, fuel);
        },
        AstV::ResetQubit(x) => {
            lemma_eval_pure(*x, st, mods, fuel);
        },
        AstV::Phase(x) => {
            lemma_eval_pure(*x, st, mods, fuel);
        },
        AstV::TGate(x) => {
            lemma_eval_pure(*x, st, mods, fuel);
        },
        AstV::SGate(x) => {
            lemma_eval_pure(*x, st, mods, fuel);
        },
        AstV::Call(name, args) => {
            match assoc_find(st.funcs, name) {
                None => {},
                Some(f) => {
                    lemma_eval_args_pure(args, st, mods, fuel, Seq::empty());
                },
            }
        },
        _ => {},
    }
}

/// Argument evaluation is pure over the environment, like every other
/// expression evaluation.
pub proof fn lemma_eval_args_pure(
    es: Seq<AstV>,
    st: StV,
    mods: Seq<(Seq<char>, Seq<char>)>,
    fuel: nat,
    acc: Seq<CF>,
)
    ensures
        eval_args_s(es, st, mods, fuel, acc).0.vars == st.vars,
        eval_args_s(es, st, mods, fuel, acc).0.funcs == st.funcs,
    decreases fuel, es, 0int,
{
    if es.len() > 0 {
        lemma_eval_pure(es[0], st, mods, fuel);
        let (st1, r1) = eval_s(es[0], st, mods, fuel);
        match r1 {
            Ok(v) => {
                lemma_eval_args_pure(es.drop_first(), st1, mods, fuel, acc.push(v));
            },
            Err(e1) => {},
        }
    }
}

/// A call executed as a statement leaves the caller's variable bindings
/// and function table exactly as they were before the statement: the
/// callee saw a copy, and its assignments and definitions are invisible.
pub proof fn lemma_call_statement_isolated(
    name: Seq<char>,
    args: Seq<AstV>,
    st: StV,
    mods: Seq<(Seq<char>, Seq<char>)>,
    fuel: nat,
)
    ensures
        exec_s(AstV::Call(name, args), st, mods, fuel).0.vars == st.vars,
        exec_s(AstV::Call(name, args), st, mods, fuel).0.funcs == st.funcs,
{
    lemma_eval_pure(AstV::Call(name, args), st, mods, fuel);
}

/// When an import's module source is available, lexes, parses, and runs to
/// completion within the depth budget, the import succeeds: the module's
/// statements run to completion in a fresh environment (their printed
/// lines are kept, in order), every function the module defines is merged
/// into the importer (later definitions shadowing same-named entries), and
/// the importer's variable bindings are untouched.
pub proof fn lemma_import_success(
    name: Seq<char>,
    st: StV,
    mods: Seq<(Seq<char>, Seq<char>)>,
    fuel: nat,
    ts: Seq<TokenV>,
    items: Seq<AstV>,
)
    requires
        fuel >= 1,
        ({
            let resolved = name + "."@ + ext_s();
            &&& assoc_find(mods, resolved) matches Some(src) && lex_src(src)
                == LexAllRes::Toks(ts)
            &&& parse_toks(ts) == Ok::<Seq<AstV>, ErrV>(items)
            &&& exec_list_s(
                items,
                (StV { vars: Seq::empty(), funcs: Seq::empty(), outp: st.outp }),
                mods,
                (fuel - 1) as nat,
                cf_int(0),
            ).1 is Ok
        }),
    ensures
        ({
            let mst = exec_list_s(
                items,
                (StV { vars: Seq::empty(), funcs: Seq::empty(), outp: st.outp }),
                mods,
                (fuel - 1) as nat,
                cf_int(0),
            ).0;
            &&& exec_s(AstV::Import(name), st, mods, fuel).1 == Ok::<CF, ErrV>(cf_int(0))
            &&& exec_s(AstV::Import(name), st, mods, fuel).0.vars == st.vars
            &&& exec_s(AstV::Import(name), st, mods, fuel).0.funcs == st.funcs + mst.funcs
            &&& exec_s(AstV::Import(name), st, mods, fuel).0.outp == mst.outp
        }),
{
}

/// A relational comparison evaluates to exactly one or exactly zero,
/// never another value, for every pair of operands.
pub proof fn lemma_comparison_boolean(op: TokenV, a: CF, b: CF)
    requires
        op is GreaterThan || op is LessThan,
    ensures
        eval_binop_s(op, a, b) matches Ok(v) ==> v == cf_int(0) || v == cf_int(1),
{
}

/// An import statement never changes the importer's variable bindings:
/// whatever the module does, only printed lines and (on success) function
/// definitions reach the importing environment, and on failure even the
/// function table is untouched.
pub proof fn lemma_import_merges_only_functions(
    name: Seq<char>,
    st: StV,
    mods: Seq<(Seq<char>, Seq<char>)>,
    fuel: nat,
)
    ensures
        exec_s(AstV::Import(name), st, mods, fuel).0.vars == st.vars,
        exec_s(AstV::Import(name), st, mods, fuel).1 is Err ==> exec_s(
            AstV::Import(name),
            st,
            mods,
            fuel,
        ).0.funcs == st.funcs,
{
}

} // verus!
