//! The abstract syntax tree.
//!
//! Each node owns its children outright: the tree has no sharing, no cycles
//! and no back references. `AstV` is the mathematical view of a node, with
//! identifiers read as character sequences and numeric literals as exact
//! fractions.

use vstd::prelude::*;

use crate::rat::{Frac, Rat, rat_clone, rat_frac};
use crate::token::{Token, TokenV};

verus! {

/// One node of the syntax tree: a statement or expression form.
pub enum ASTNode {
    /// A sequence of statements, executed in order.
    Block(Vec<ASTNode>),
    /// A numeric literal, held as an exact rational.
    Float(Rat),
    /// A variable reference.
    Identifier(String),
    StringLiteral(String),
    /// Left operand, operator token, right operand.
    BinaryOp(Box<ASTNode>, Token, Box<ASTNode>),
    /// Variable name and the expression assigned to it.
    Assignment(String, Box<ASTNode>),
    /// A call of a user-defined function: name and argument expressions.
    Call(String, Vec<ASTNode>),
    /// A function definition: name, parameter names, body.
    Function(String, Vec<String>, Box<ASTNode>),
    /// An import of another module, by resolved file name.
    Import(String),
    Print(Box<ASTNode>),
    /// Condition, then branch, optional else branch.
    If(Box<ASTNode>, Box<ASTNode>, Option<Box<ASTNode>>),
    /// Temperature and relative humidity.
    DewPoint(Box<ASTNode>, Box<ASTNode>),
    FToC(Box<ASTNode>),
    CToF(Box<ASTNode>),
    CToK(Box<ASTNode>),
    KToC(Box<ASTNode>),
    FToK(Box<ASTNode>),
    KToF(Box<ASTNode>),
    PauliX(Box<ASTNode>),
    PauliY(Box<ASTNode>),
    PauliZ(Box<ASTNode>),
    Hadamard(Box<ASTNode>),
    CNot(Box<ASTNode>, Box<ASTNode>),
    /// A register of scalar bits: initial state and bit count.
    Qubit(Box<ASTNode>, Box<ASTNode>),
    MeasureQubit(Box<ASTNode>),
    ResetQubit(Box<ASTNode>),
    Toffoli(Box<ASTNode>, Box<ASTNode>, Box<ASTNode>),
    SWAP(Box<ASTNode>, Box<ASTNode>),
    Phase(Box<ASTNode>),
    TGate(Box<ASTNode>),
    SGate(Box<ASTNode>),
    Fredkin(Box<ASTNode>, Box<ASTNode>, Box<ASTNode>),
    Pi,
    Kelvin,
    RD,
    CP,
    P0,
    LV,
    CW,
    RhoAir,
    RhoWater,
    G,
    GreaterThan(Box<ASTNode>, Box<ASTNode>),
    LessThan(Box<ASTNode>, Box<ASTNode>),
}

/// The mathematical view of a syntax tree.
pub enum AstV {
    Block(Seq<AstV>),
    Num(Frac),
    Identifier(Seq<char>),
    StringLiteral(Seq<char>),
    BinaryOp(Box<AstV>, TokenV, Box<AstV>),
    Assignment(Seq<char>, Box<AstV>),
    Call(Seq<char>, Seq<AstV>),
    Function(Seq<char>, Seq<Seq<char>>, Box<AstV>),
    Import(Seq<char>),
    Print(Box<AstV>),
    If(Box<AstV>, Box<AstV>, Option<Box<AstV>>),
    DewPoint(Box<AstV>, Box<AstV>),
    FToC(Box<AstV>),
    CToF(Box<AstV>),
    CToK(Box<AstV>),
    KToC(Box<AstV>),
    FToK(Box<AstV>),
    KToF(Box<AstV>),
    PauliX(Box<AstV>),
    PauliY(Box<AstV>),
    PauliZ(Box<AstV>),
    Hadamard(Box<AstV>),
    CNot(Box<AstV>, Box<AstV>),
    Qubit(Box<AstV>, Box<AstV>),
    MeasureQubit(Box<AstV>),
    ResetQubit(Box<AstV>),
    Toffoli(Box<AstV>, Box<AstV>, Box<AstV>),
    SWAP(Box<AstV>, Box<AstV>),
    Phase(Box<AstV>),
    TGate(Box<AstV>),
    SGate(Box<AstV>),
    Fredkin(Box<AstV>, Box<AstV>, Box<AstV>),
    Pi,
    Kelvin,
    RD,
    CP,
    P0,
    LV,
    CW,
    RhoAir,
    RhoWater,
    G,
    GreaterThan(Box<AstV>, Box<AstV>),
    LessThan(Box<AstV>, Box<AstV>),
}

/// The mathematical view of a node.
pub open spec fn ast_view(n: ASTNode) -> AstV
    decreases n,
{
    match n {
        ASTNode::Block(stmts) => AstV::Block(views_of(stmts@)),
        ASTNode::Float(r) => AstV::Num(rat_frac(r)),
        ASTNode::Identifier(s) => AstV::Identifier(s@),
        ASTNode::StringLiteral(s) => AstV::StringLiteral(s@),
        ASTNode::BinaryOp(l, op, r) => AstV::BinaryOp(
            Box::new(ast_view(*l)),
            op@,
            Box::new(ast_view(*r)),
        ),
        ASTNode::Assignment(name, e) => AstV::Assignment(name@, Box::new(ast_view(*e))),
        ASTNode::Call(name, args) => AstV::Call(name@, views_of(args@)),
        ASTNode::Function(name, params, body) => AstV::Function(
            name@,
            names_of(params@),
            Box::new(ast_view(*body)),
        ),
        ASTNode::Import(name) => AstV::Import(name@),
        ASTNode::Print(e) => AstV::Print(Box::new(ast_view(*e))),
        ASTNode::If(c, th, e) => AstV::If(
            Box::new(ast_view(*c)),
            Box::new(ast_view(*th)),
            match e {
                Some(b) => Some(Box::new(ast_view(*b))),
                None => None,
            },
        ),
        ASTNode::DewPoint(a, h) => AstV::DewPoint(Box::new(ast_view(*a)), Box::new(ast_view(*h))),
        ASTNode::FToC(e) => AstV::FToC(Box::new(ast_view(*e))),
        ASTNode::CToF(e) => AstV::CToF(Box::new(ast_view(*e))),
        ASTNode::CToK(e) => AstV::CToK(Box::new(ast_view(*e))),
        ASTNode::KToC(e) => AstV::KToC(Box::new(ast_view(*e))),
        ASTNode::FToK(e) => AstV::FToK(Box::new(ast_view(*e))),
        ASTNode::KToF(e) => AstV::KToF(Box::new(ast_view(*e))),
        ASTNode::PauliX(e) => AstV::PauliX(Box::new(ast_view(*e))),
        ASTNode::PauliY(e) => AstV::PauliY(Box::new(ast_view(*e))),
        ASTNode::PauliZ(e) => AstV::PauliZ(Box::new(ast_view(*e))),
        ASTNode::Hadamard(e) => AstV::Hadamard(Box::new(ast_view(*e))),
        ASTNode::CNot(c, e) => AstV::CNot(Box::new(ast_view(*c)), Box::new(ast_view(*e))),
        ASTNode::Qubit(s, k) => AstV::Qubit(Box::new(ast_view(*s)), Box::new(ast_view(*k))),
        ASTNode::MeasureQubit(e) => AstV::MeasureQubit(Box::new(ast_view(*e))),
        ASTNode::ResetQubit(e) => AstV::ResetQubit(Box::new(ast_view(*e))),
        ASTNode::Toffoli(a, b, c) => AstV::Toffoli(
            Box::new(ast_view(*a)),
            Box::new(ast_view(*b)),
            Box::new(ast_view(*c)),
        ),
        ASTNode::SWAP(a, b) => AstV::SWAP(Box::new(ast_view(*a)), Box::new(ast_view(*b))),
        ASTNode::Phase(e) => AstV::Phase(Box::new(ast_view(*e))),
        ASTNode::TGate(e) => AstV::TGate(Box::new(ast_view(*e))),
        ASTNode::SGate(e) => AstV::SGate(Box::new(ast_view(*e))),
        ASTNode::Fredkin(a, b, c) => AstV::Fredkin(
            Box::new(ast_view(*a)),
            Box::new(ast_view(*b)),
            Box::new(ast_view(*c)),
        ),
        ASTNode::Pi => AstV::Pi,
        ASTNode::Kelvin => AstV::Kelvin,
        ASTNode::RD => AstV::RD,
        ASTNode::CP => AstV::CP,
        ASTNode::P0 => AstV::P0,
        ASTNode::LV => AstV::LV,
        ASTNode::CW => AstV::CW,
        ASTNode::RhoAir => AstV::RhoAir,
        ASTNode::RhoWater => AstV::RhoWater,
        ASTNode::G => AstV::G,
        ASTNode::GreaterThan(l, r) => AstV::GreaterThan(
            Box::new(ast_view(*l)),
            Box::new(ast_view(*r)),
        ),
        ASTNode::LessThan(l, r) => AstV::LessThan(Box::new(ast_view(*l)), Box::new(ast_view(*r))),
    }
}

/// The views of a sequence of nodes, element by element.
pub open spec fn views_of(s: Seq<ASTNode>) -> Seq<AstV>
    decreases s,
{
    if s.len() == 0 {
        Seq::empty()
    } else {
        views_of(s.drop_last()).push(ast_view(s.last()))
    }
}

/// The views of a sequence of names, element by element.
pub open spec fn names_of(s: Seq<String>) -> Seq<Seq<char>>
    decreases s.len(),
{
    if s.len() == 0 {
        Seq::empty()
    } else {
        names_of(s.drop_last()).push(s.last()@)
    }
}

impl View for ASTNode {
    type V = AstV;

    open spec fn view(&self) -> AstV {
        ast_view(*self)
    }
}

/// A node-view sequence is as long as its nodes.
pub broadcast proof fn lemma_views_of_len(s: Seq<ASTNode>)
    ensures
        (#[trigger] views_of(s)).len() == s.len(),
    decreases s.len(),
{
    if s.len() > 0 {
        lemma_views_of_len(s.drop_last());
    }
}

/// A node-view sequence holds the views of its nodes, in order.
pub broadcast proof fn lemma_views_of_index(s: Seq<ASTNode>, i: int)
    requires
        0 <= i < s.len(),
    ensures
        #[trigger] views_of(s)[i] == s[i]@,
    decreases s.len(),
{
    lemma_views_of_len(s);
    if i < s.len() - 1 {
        lemma_views_of_index(s.drop_last(), i);
        assert(s.drop_last()[i] == s[i]);
        lemma_views_of_len(s.drop_last());
    }
}

/// A name-view sequence is as long as its names.
pub broadcast proof fn lemma_names_of_len(s: Seq<String>)
    ensures
        (#[trigger] names_of(s)).len() == s.len(),
    decreases s.len(),
{
    if s.len() > 0 {
        lemma_names_of_len(s.drop_last());
    }
}

/// A name-view sequence holds the views of its names, in order.
pub broadcast proof fn lemma_names_of_index(s: Seq<String>, i: int)
    requires
        0 <= i < s.len(),
    ensures
        #[trigger] names_of(s)[i] == s[i]@,
    decreases s.len(),
{
    lemma_names_of_len(s);
    if i < s.len() - 1 {
        lemma_names_of_index(s.drop_last(), i);
        assert(s.drop_last()[i] == s[i]);
        lemma_names_of_len(s.drop_last());
    }
}

/// The contents of view sequences, as one group.
pub broadcast group group_ast_views {
    lemma_views_of_len,
    lemma_views_of_index,
    lemma_names_of_len,
    lemma_names_of_index,
}

/// Appending a node appends its view.
pub proof fn lemma_views_of_push(s: Seq<ASTNode>, x: ASTNode, sp: Seq<ASTNode>)
    requires
        sp == s.push(x),
    ensures
        views_of(sp) == views_of(s).push(x@),
{
    assert(sp.drop_last() =~= s);
    assert(sp.last() == x);
}

/// Appending a name appends its view.
pub proof fn lemma_names_of_push(s: Seq<String>, x: String, sp: Seq<String>)
    requires
        sp == s.push(x),
    ensures
        names_of(sp) == names_of(s).push(x@),
{
    assert(sp.drop_last() =~= s);
    assert(sp.last() == x);
}

/// A deep copy of a node sequence; every copy has the view of its original.
pub fn clone_nodes(v: &Vec<ASTNode>) -> (r: Vec<ASTNode>)
    ensures
        views_of(r@) == views_of(v@),
    decreases v,
{
    let mut out: Vec<ASTNode> = Vec::new();
    let n = v.len();
    let mut i: usize = 0;
    while i < n
        invariant
            n == v@.len(),
            i <= n,
            out@.len() == i,
            forall|j: int| 0 <= j < i ==> out@[j]@ == v@[j]@,
        decreases n - i,
    {
        out.push(v[i].clone());
        i = i + 1;
    }
    proof {
        broadcast use group_ast_views;
        assert(views_of(out@) =~= views_of(v@));
    }
    out
}

fn clone_names(v: &Vec<String>) -> (r: Vec<String>)
    ensures
        names_of(r@) == names_of(v@),
{
    let mut out: Vec<String> = Vec::new();
    let n = v.len();
    let mut i: usize = 0;
    while i < n
        invariant
            n == v@.len(),
            i <= n,
            out@.len() == i,
            forall|j: int| 0 <= j < i ==> out@[j]@ == v@[j]@,
        decreases n - i,
    {
        out.push(v[i].clone());
        i = i + 1;
    }
    proof {
        broadcast use group_ast_views;
        assert(names_of(out@) =~= names_of(v@));
    }
    out
}

impl Clone for ASTNode {
    /// The copy has the view of the original.
    fn clone(&self) -> (r: Self)
        ensures
            r@ == self@,
        decreases self,
    {
        proof {
            broadcast use group_ast_views;
        }
        match self {
            ASTNode::Block(stmts) => ASTNode::Block(clone_nodes(stmts)),
            ASTNode::Float(v) => ASTNode::Float(rat_clone(v)),
            ASTNode::Identifier(s) => ASTNode::Identifier(s.clone()),
            ASTNode::StringLiteral(s) => ASTNode::StringLiteral(s.clone()),
            ASTNode::BinaryOp(l, op, r) => ASTNode::BinaryOp(
                Box::new((**l).clone()),
                op.clone(),
                Box::new((**r).clone()),
            ),
            ASTNode::Assignment(name, e) => ASTNode::Assignment(
                name.clone(),
                Box::new((**e).clone()),
            ),
            ASTNode::Call(name, args) => ASTNode::Call(name.clone(), clone_nodes(args)),
            ASTNode::Function(name, params, body) => ASTNode::Function(
                name.clone(),
                clone_names(params),
                Box::new((**body).clone()),
            ),
            ASTNode::Import(name) => ASTNode::Import(name.clone()),
            ASTNode::Print(e) => ASTNode::Print(Box::new((**e).clone())),
            ASTNode::If(c, t, e) => ASTNode::If(
                Box::new((**c).clone()),
                Box::new((**t).clone()),
                match e {
                    Some(b) => Some(Box::new((**b).clone())),
                    None => None,
                },
            ),
            ASTNode::DewPoint(t, h) => ASTNode::DewPoint(
                Box::new((**t).clone()),
                Box::new((**h).clone()),
            ),
            ASTNode::FToC(e) => ASTNode::FToC(Box::new((**e).clone())),
            ASTNode::CToF(e) => ASTNode::CToF(Box::new((**e).clone())),
            ASTNode::CToK(e) => ASTNode::CToK(Box::new((**e).clone())),
            ASTNode::KToC(e) => ASTNode::KToC(Box::new((**e).clone())),
            ASTNode::FToK(e) => ASTNode::FToK(Box::new((**e).clone())),
            ASTNode::KToF(e) => ASTNode::KToF(Box::new((**e).clone())),
            ASTNode::PauliX(e) => ASTNode::PauliX(Box::new((**e).clone())),
            ASTNode::PauliY(e) => ASTNode::PauliY(Box::new((**e).clone())),
            ASTNode::PauliZ(e) => ASTNode::PauliZ(Box::new((**e).clone())),
            ASTNode::Hadamard(e) => ASTNode::Hadamard(Box::new((**e).clone())),
            ASTNode::CNot(c, t) => ASTNode::CNot(Box::new((**c).clone()), Box::new((**t).clone())),
            ASTNode::Qubit(s, n) => ASTNode::Qubit(Box::new((**s).clone()), Box::new((**n).clone())),
            ASTNode::MeasureQubit(e) => ASTNode::MeasureQubit(Box::new((**e).clone())),
            ASTNode::ResetQubit(e) => ASTNode::ResetQubit(Box::new((**e).clone())),
            ASTNode::Toffoli(a, b, c) => ASTNode::Toffoli(
                Box::new((**a).clone()),
                Box::new((**b).clone()),
                Box::new((**c).clone()),
            ),
            ASTNode::SWAP(a, b) => ASTNode::SWAP(Box::new((**a).clone()), Box::new((**b).clone())),
            ASTNode::Phase(e) => ASTNode::Phase(Box::new((**e).clone())),
            ASTNode::TGate(e) => ASTNode::TGate(Box::new((**e).clone())),
            ASTNode::SGate(e) => ASTNode::SGate(Box::new((**e).clone())),
            ASTNode::Fredkin(a, b, c) => ASTNode::Fredkin(
                Box::new((**a).clone()),
                Box::new((**b).clone()),
                Box::new((**c).clone()),
            ),
            ASTNode::Pi => ASTNode::Pi,
            ASTNode::Kelvin => ASTNode::Kelvin,
            ASTNode::RD => ASTNode::RD,
            ASTNode::CP => ASTNode::CP,
            ASTNode::P0 => ASTNode::P0,
            ASTNode::LV => ASTNode::LV,
            ASTNode::CW => ASTNode::CW,
            ASTNode::RhoAir => ASTNode::RhoAir,
            ASTNode::RhoWater => ASTNode::RhoWater,
            ASTNode::G => ASTNode::G,
            ASTNode::GreaterThan(l, r) => ASTNode::GreaterThan(
                Box::new((**l).clone()),
                Box::new((**r).clone()),
            ),
            ASTNode::LessThan(l, r) => ASTNode::LessThan(
                Box::new((**l).clone()),
                Box::new((**r).clone()),
            ),
        }
    }
}

} // verus!
