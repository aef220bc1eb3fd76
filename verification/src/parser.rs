//! The recursive-descent parser.
//!
//! A program is a flat list of statements; expressions are parsed by
//! precedence climbing, an additive/relational level over a multiplicative
//! level over atoms. The relational operators do not chain: a second `>`
//! or `<` at the same level is rejected. Any expected-token mismatch
//! aborts parsing with a structured `ParseError`; parsing is not
//! resumable.
//!
//! The `*_s` spec functions define the grammar as a mathematical
//! recursive-descent parser over the token views. They carry a fuel
//! parameter for termination; `p_need` gives a fuel bound under which the
//! outcome is never the out-of-fuel marker, and every executable method is
//! proved to realize its spec function exactly at any such fuel.

use vstd::prelude::*;

use crate::ast::{ASTNode, AstV, views_of, names_of};
use crate::errors::{Error, ErrV};
use crate::lexer::{Lexer, LexAllRes, lex_all_s, token_views};
use crate::token::{Token, TokenV, tok_code};

verus! {

/// The token at `i`, or the end-of-input token beyond the stream.
pub open spec fn tok_at(ts: Seq<TokenV>, i: int) -> TokenV {
    if 0 <= i < ts.len() {
        ts[i]
    } else {
        TokenV::EOF
    }
}

/// One token consumed: the position after it when the token at `i` is of
/// the expected kind, else the mismatch error.
pub open spec fn consume_s(ts: Seq<TokenV>, i: int, expected: TokenV) -> Result<int, ErrV> {
    if tok_code(tok_at(ts, i)) == tok_code(expected) {
        Ok(i + 1)
    } else {
        Err(ErrV::ParseError { expected: Some(expected), found: tok_at(ts, i) })
    }
}

/// The outcome of parsing one tree.
pub enum PRes {
    Parsed { ast: AstV, next: int },
    Failed(ErrV),
    Short,
}

/// The outcome of parsing a parenthesized pair of trees.
pub enum PPair {
    Parsed { a: AstV, b: AstV, next: int },
    Failed(ErrV),
    Short,
}

/// The outcome of parsing a parenthesized triple of trees.
pub enum PTriple {
    Parsed { a: AstV, b: AstV, c: AstV, next: int },
    Failed(ErrV),
    Short,
}

/// The outcome of parsing a list of trees.
pub enum PList {
    Parsed { items: Seq<AstV>, next: int },
    Failed(ErrV),
    Short,
}

/// The outcome of parsing a parameter-name list.
pub enum PNames {
    Parsed { names: Seq<Seq<char>>, next: int },
    Failed(ErrV),
    Short,
}

/// The fuel that suffices for any parse starting at `i` with the given
/// recursion rank.
pub open spec fn p_need(len: int, i: int, rank: int) -> int {
    16 * (len - i) + rank + 1
}

/// An expression: additive and relational operators, left associative,
/// over terms.
pub open spec fn parse_expr_s(ts: Seq<TokenV>, i: int, fuel: nat) -> PRes
    decreases fuel,
{
    if fuel == 0 {
        PRes::Short
    } else {
        match parse_term_s(ts, i, (fuel - 1) as nat) {
            PRes::Parsed { ast, next } => parse_expr_more_s(
                ts,
                next,
                ast,
                false,
                (fuel - 1) as nat,
            ),
            other => other,
        }
    }
}

/// The tail of an expression: further `+ - > <` operators. At most one
/// relational operator may appear at this level; `seen_rel` records
/// whether one was already consumed, and a second is rejected.
pub open spec fn parse_expr_more_s(
    ts: Seq<TokenV>,
    i: int,
    acc: AstV,
    seen_rel: bool,
    fuel: nat,
) -> PRes
    decreases fuel,
{
    if fuel == 0 {
        PRes::Short
    } else {
        let t = tok_at(ts, i);
        if t is Plus || t is Minus {
            match parse_term_s(ts, i + 1, (fuel - 1) as nat) {
                PRes::Parsed { ast, next } => parse_expr_more_s(
                    ts,
                    next,
                    AstV::BinaryOp(Box::new(acc), t, Box::new(ast)),
                    seen_rel,
                    (fuel - 1) as nat,
                ),
                other => other,
            }
        } else if t is GreaterThan || t is LessThan {
            if seen_rel {
                PRes::Failed(ErrV::ParseError { expected: None, found: t })
            } else {
                match parse_term_s(ts, i + 1, (fuel - 1) as nat) {
                    PRes::Parsed { ast, next } => parse_expr_more_s(
                        ts,
                        next,
                        AstV::BinaryOp(Box::new(acc), t, Box::new(ast)),
                        true,
                        (fuel - 1) as nat,
                    ),
                    other => other,
                }
            }
        } else {
            PRes::Parsed { ast: acc, next: i }
        }
    }
}

/// A term: multiplicative operators, left associative, over factors.
pub open spec fn parse_term_s(ts: Seq<TokenV>, i: int, fuel: nat) -> PRes
    decreases fuel,
{
    if fuel == 0 {
        PRes::Short
    } else {
        match parse_factor_s(ts, i, (fuel - 1) as nat) {
            PRes::Parsed { ast, next } => parse_term_more_s(ts, next, ast, (fuel - 1) as nat),
            other => other,
        }
    }
}

/// The tail of a term: further `* /` operators.
pub open spec fn parse_term_more_s(ts: Seq<TokenV>, i: int, acc: AstV, fuel: nat) -> PRes
    decreases fuel,
{
    if fuel == 0 {
        PRes::Short
    } else {
        let t = tok_at(ts, i);
        if t is Star || t is Slash {
            match parse_factor_s(ts, i + 1, (fuel - 1) as nat) {
                PRes::Parsed { ast, next } => parse_term_more_s(
                    ts,
                    next,
                    AstV::BinaryOp(Box::new(acc), t, Box::new(ast)),
                    (fuel - 1) as nat,
                ),
                other => other,
            }
        } else {
            PRes::Parsed { ast: acc, next: i }
        }
    }
}

/// A parenthesized single argument, for the unary builtins: `( expr )`
/// with the keyword at `i`.
pub open spec fn parse_unary_s(ts: Seq<TokenV>, i: int, fuel: nat) -> PRes
    decreases fuel,
{
    if fuel == 0 {
        PRes::Short
    } else {
        match consume_s(ts, i + 1, TokenV::LParen) {
            Err(e) => PRes::Failed(e),
            Ok(j) => match parse_expr_s(ts, j, (fuel - 1) as nat) {
                PRes::Parsed { ast, next } => match consume_s(ts, next, TokenV::RParen) {
                    Ok(k) => PRes::Parsed { ast, next: k },
                    Err(e) => PRes::Failed(e),
                },
                other => other,
            },
        }
    }
}

/// A parenthesized argument pair, for the two-argument builtins:
/// `( expr , expr )` with the keyword at `i`.
pub open spec fn parse_pair_s(ts: Seq<TokenV>, i: int, fuel: nat) -> PPair
    decreases fuel,
{
    if fuel == 0 {
        PPair::Short
    } else {
        match consume_s(ts, i + 1, TokenV::LParen) {
            Err(e) => PPair::Failed(e),
            Ok(j) => match parse_expr_s(ts, j, (fuel - 1) as nat) {
                PRes::Parsed { ast: a, next } => match consume_s(ts, next, TokenV::Comma) {
                    Err(e) => PPair::Failed(e),
                    Ok(j2) => match parse_expr_s(ts, j2, (fuel - 1) as nat) {
                        PRes::Parsed { ast: b, next: n2 } => match consume_s(ts, n2, TokenV::RParen) {
                            Ok(k) => PPair::Parsed { a, b, next: k },
                            Err(e) => PPair::Failed(e),
                        },
                        PRes::Failed(e) => PPair::Failed(e),
                        PRes::Short => PPair::Short,
                    },
                },
                PRes::Failed(e) => PPair::Failed(e),
                PRes::Short => PPair::Short,
            },
        }
    }
}

/// A parenthesized argument triple: `( expr , expr , expr )` with the
/// keyword at `i`.
pub open spec fn parse_triple_s(ts: Seq<TokenV>, i: int, fuel: nat) -> PTriple
    decreases fuel,
{
    if fuel == 0 {
        PTriple::Short
    } else {
        match consume_s(ts, i + 1, TokenV::LParen) {
            Err(e) => PTriple::Failed(e),
            Ok(j) => match parse_expr_s(ts, j, (fuel - 1) as nat) {
                PRes::Parsed { ast: a, next } => match consume_s(ts, next, TokenV::Comma) {
                    Err(e) => PTriple::Failed(e),
                    Ok(j2) => match parse_expr_s(ts, j2, (fuel - 1) as nat) {
                        PRes::Parsed { ast: b, next: n2 } => match consume_s(ts, n2, TokenV::Comma) {
                            Err(e) => PTriple::Failed(e),
                            Ok(j3) => match parse_expr_s(ts, j3, (fuel - 1) as nat) {
                                PRes::Parsed { ast: c, next: n3 } => match consume_s(
                                    ts,
                                    n3,
                                    TokenV::RParen,
                                ) {
                                    Ok(k) => PTriple::Parsed { a, b, c, next: k },
                                    Err(e) => PTriple::Failed(e),
                                },
                                PRes::Failed(e) => PTriple::Failed(e),
                                PRes::Short => PTriple::Short,
                            },
                        },
                        PRes::Failed(e) => PTriple::Failed(e),
                        PRes::Short => PTriple::Short,
                    },
                },
                PRes::Failed(e) => PTriple::Failed(e),
                PRes::Short => PTriple::Short,
            },
        }
    }
}

/// The arguments of a call written as an atom: expressions until the
/// closing parenthesis, commas consumed where present.
pub open spec fn parse_args_s(ts: Seq<TokenV>, i: int, acc: Seq<AstV>, fuel: nat) -> PList
    decreases fuel,
{
    if fuel == 0 {
        PList::Short
    } else if tok_at(ts, i) is RParen {
        PList::Parsed { items: acc, next: i + 1 }
    } else {
        match parse_expr_s(ts, i, (fuel - 1) as nat) {
            PRes::Parsed { ast, next } => {
                let next2 = if tok_at(ts, next) is Comma {
                    next + 1
                } else {
                    next
                };
                parse_args_s(ts, next2, acc.push(ast), (fuel - 1) as nat)
            },
            PRes::Failed(e) => PList::Failed(e),
            PRes::Short => PList::Short,
        }
    }
}

/// An atom: a literal, an identifier or call, a builtin invocation, a
/// named constant, or a parenthesized or braced sub-expression.
pub open spec fn parse_factor_s(ts: Seq<TokenV>, i: int, fuel: nat) -> PRes
    decreases fuel,
{
    if fuel == 0 {
        PRes::Short
    } else {
        match tok_at(ts, i) {
            TokenV::Num(v) => PRes::Parsed { ast: AstV::Num(v), next: i + 1 },
            TokenV::Identifier(name) => {
                if tok_at(ts, i + 1) is LParen {
                    match parse_args_s(ts, i + 2, Seq::empty(), (fuel - 1) as nat) {
                        PList::Parsed { items, next } => PRes::Parsed {
                            ast: AstV::Call(name, items),
                            next,
                        },
                        PList::Failed(e) => PRes::Failed(e),
                        PList::Short => PRes::Short,
                    }
                } else {
                    PRes::Parsed { ast: AstV::Identifier(name), next: i + 1 }
                }
            },
            TokenV::StringLiteral(v) => PRes::Parsed { ast: AstV::StringLiteral(v), next: i + 1 },
            TokenV::DewPoint => match parse_pair_s(ts, i, (fuel - 1) as nat) {
                PPair::Parsed { a, b, next } => PRes::Parsed {
                    ast: AstV::DewPoint(Box::new(a), Box::new(b)),
                    next,
                },
                PPair::Failed(e) => PRes::Failed(e),
                PPair::Short => PRes::Short,
            },
            TokenV::FToC => match parse_unary_s(ts, i, (fuel - 1) as nat) {
                PRes::Parsed { ast, next } => PRes::Parsed { ast: AstV::FToC(Box::new(ast)), next },
                other => other,
            },
            TokenV::CToF => match parse_unary_s(ts, i, (fuel - 1) as nat) {
                PRes::Parsed { ast, next } => PRes::Parsed { ast: AstV::CToF(Box::new(ast)), next },
                other => other,
            },
            TokenV::CToK => match parse_unary_s(ts, i, (fuel - 1) as nat) {
                PRes::Parsed { ast, next } => PRes::Parsed { ast: AstV::CToK(Box::new(ast)), next },
                other => other,
            },
            TokenV::KToC => match parse_unary_s(ts, i, (fuel - 1) as nat) {
                PRes::Parsed { ast, next } => PRes::Parsed { ast: AstV::KToC(Box::new(ast)), next },
                other => other,
            },
            TokenV::FToK => match parse_unary_s(ts, i, (fuel - 1) as nat) {
                PRes::Parsed { ast, next } => PRes::Parsed { ast: AstV::FToK(Box::new(ast)), next },
                other => other,
            },
            TokenV::KToF => match parse_unary_s(ts, i, (fuel - 1) as nat) {
                PRes::Parsed { ast, next } => PRes::Parsed { ast: AstV::KToF(Box::new(ast)), next },
                other => other,
            },
            TokenV::PauliX => match parse_unary_s(ts, i, (fuel - 1) as nat) {
                PRes::Parsed { ast, next } => PRes::Parsed { ast: AstV::PauliX(Box::new(ast)), next },
                other => other,
            },
            TokenV::PauliY => match parse_unary_s(ts, i, (fuel - 1) as nat) {
                PRes::Parsed { ast, next } => PRes::Parsed { ast: AstV::PauliY(Box::new(ast)), next },
                other => other,
            },
            TokenV::PauliZ => match parse_unary_s(ts, i, (fuel - 1) as nat) {
                PRes::Parsed { ast, next } => PRes::Parsed { ast: AstV::PauliZ(Box::new(ast)), next },
                other => other,
            },
            TokenV::Hadamard => match parse_unary_s(ts, i, (fuel - 1) as nat) {
                PRes::Parsed { ast, next } => PRes::Parsed { ast: AstV::Hadamard(Box::new(ast)), next },
                other => other,
            },
            TokenV::CNot => match parse_pair_s(ts, i, (fuel - 1) as nat) {
                PPair::Parsed { a, b, next } => PRes::Parsed {
                    ast: AstV::CNot(Box::new(a), Box::new(b)),
                    next,
                },
                PPair::Failed(e) => PRes::Failed(e),
                PPair::Short => PRes::Short,
            },
            TokenV::Qubit => match parse_pair_s(ts, i, (fuel - 1) as nat) {
                PPair::Parsed { a, b, next } => PRes::Parsed {
                    ast: AstV::Qubit(Box::new(a), Box::new(b)),
                    next,
                },
                PPair::Failed(e) => PRes::Failed(e),
                PPair::Short => PRes::Short,
            },
            TokenV::MeasureQubit => match parse_unary_s(ts, i, (fuel - 1) as nat) {
                PRes::Parsed { ast, next } => PRes::Parsed {
                    ast: AstV::MeasureQubit(Box::new(ast)),
                    next,
                },
                other => other,
            },
            TokenV::ResetQubit => match parse_unary_s(ts, i, (fuel - 1) as nat) {
                PRes::Parsed { ast, next } => PRes::Parsed { ast: AstV::ResetQubit(Box::new(ast)), next },
                other => other,
            },
            TokenV::Toffoli => match parse_triple_s(ts, i, (fuel - 1) as nat) {
                PTriple::Parsed { a, b, c, next } => PRes::Parsed {
                    ast: AstV::Toffoli(Box::new(a), Box::new(b), Box::new(c)),
                    next,
                },
                PTriple::Failed(e) => PRes::Failed(e),
                PTriple::Short => PRes::Short,
            },
            TokenV::SWAP => match parse_pair_s(ts, i, (fuel - 1) as nat) {
                PPair::Parsed { a, b, next } => PRes::Parsed {
                    ast: AstV::SWAP(Box::new(a), Box::new(b)),
                    next,
                },
                PPair::Failed(e) => PRes::Failed(e),
                PPair::Short => PRes::Short,
            },
            TokenV::Phase => match parse_unary_s(ts, i, (fuel - 1) as nat) {
                PRes::Parsed { ast, next } => PRes::Parsed { ast: AstV::Phase(Box::new(ast)), next },
                other => other,
            },
            TokenV::TGate => match parse_unary_s(ts, i, (fuel - 1) as nat) {
                PRes::Parsed { ast, next } => PRes::Parsed { ast: AstV::TGate(Box::new(ast)), next },
                other => other,
            },
            TokenV::SGate => match parse_unary_s(ts, i, (fuel - 1) as nat) {
                PRes::Parsed { ast, next } => PRes::Parsed { ast: AstV::SGate(Box::new(ast)), next },
                other => other,
            },
            TokenV::Fredkin => match parse_triple_s(ts, i, (fuel - 1) as nat) {
                PTriple::Parsed { a, b, c, next } => PRes::Parsed {
                    ast: AstV::Fredkin(Box::new(a), Box::new(b), Box::new(c)),
                    next,
                },
                PTriple::Failed(e) => PRes::Failed(e),
                PTriple::Short => PRes::Short,
            },
            TokenV::Pi => PRes::Parsed { ast: AstV::Pi, next: i + 1 },
            TokenV::Kelvin => PRes::Parsed { ast: AstV::Kelvin, next: i + 1 },
            TokenV::RD => PRes::Parsed { ast: AstV::RD, next: i + 1 },
            TokenV::CP => PRes::Parsed { ast: AstV::CP, next: i + 1 },
            TokenV::P0 => PRes::Parsed { ast: AstV::P0, next: i + 1 },
            TokenV::LV => PRes::Parsed { ast: AstV::LV, next: i + 1 },
            TokenV::CW => PRes::Parsed { ast: AstV::CW, next: i + 1 },
            TokenV::RhoAir => PRes::Parsed { ast: AstV::RhoAir, next: i + 1 },
            TokenV::RhoWater => PRes::Parsed { ast: AstV::RhoWater, next: i + 1 },
            TokenV::G => PRes::Parsed { ast: AstV::G, next: i + 1 },
            TokenV::LParen => match parse_expr_s(ts, i + 1, (fuel - 1) as nat) {
                PRes::Parsed { ast, next } => match consume_s(ts, next, TokenV::RParen) {
                    Ok(k) => PRes::Parsed { ast, next: k },
                    Err(e) => PRes::Failed(e),
                },
                other => other,
            },
            TokenV::LBrace => match parse_block_s(ts, i + 1, Seq::empty(), (fuel - 1) as nat) {
                PList::Parsed { items, next } => PRes::Parsed { ast: AstV::Block(items), next },
                PList::Failed(e) => PRes::Failed(e),
                PList::Short => PRes::Short,
            },
            t => PRes::Failed(ErrV::ParseError { expected: None, found: t }),
        }
    }
}

/// The statements of a block, up to and including the closing brace.
pub open spec fn parse_block_s(ts: Seq<TokenV>, i: int, acc: Seq<AstV>, fuel: nat) -> PList
    decreases fuel,
{
    if fuel == 0 {
        PList::Short
    } else if tok_at(ts, i) is RBrace {
        PList::Parsed { items: acc, next: i + 1 }
    } else if tok_at(ts, i) is EOF {
        PList::Failed(ErrV::ParseError { expected: Some(TokenV::RBrace), found: TokenV::EOF })
    } else {
        match parse_stmt_s(ts, i, (fuel - 1) as nat) {
            PRes::Parsed { ast, next } => parse_block_s(ts, next, acc.push(ast), (fuel - 1) as nat),
            PRes::Failed(e) => PList::Failed(e),
            PRes::Short => PList::Short,
        }
    }
}

/// An assignment statement: `identifier = expression`.
pub open spec fn parse_assignment_s(ts: Seq<TokenV>, i: int, fuel: nat) -> PRes
    decreases fuel,
{
    if fuel == 0 {
        PRes::Short
    } else {
        match tok_at(ts, i) {
            TokenV::Identifier(name) => match consume_s(ts, i + 1, TokenV::Assign) {
                Err(e) => PRes::Failed(e),
                Ok(j) => match parse_expr_s(ts, j, (fuel - 1) as nat) {
                    PRes::Parsed { ast, next } => PRes::Parsed {
                        ast: AstV::Assignment(name, Box::new(ast)),
                        next,
                    },
                    other => other,
                },
            },
            t => PRes::Failed(ErrV::ParseError { expected: None, found: t }),
        }
    }
}

/// A print statement: `print ( expression )`.
pub open spec fn parse_print_s(ts: Seq<TokenV>, i: int, fuel: nat) -> PRes
    decreases fuel,
{
    if fuel == 0 {
        PRes::Short
    } else {
        match parse_unary_s(ts, i, (fuel - 1) as nat) {
            PRes::Parsed { ast, next } => PRes::Parsed { ast: AstV::Print(Box::new(ast)), next },
            other => other,
        }
    }
}

/// An import statement: `import "name"`, the module name kept as written.
pub open spec fn parse_import_s(ts: Seq<TokenV>, i: int) -> PRes {
    match tok_at(ts, i + 1) {
        TokenV::StringLiteral(name) => PRes::Parsed { ast: AstV::Import(name), next: i + 2 },
        t => PRes::Failed(ErrV::ParseError { expected: None, found: t }),
    }
}

/// A conditional: `if ( expr ) { block } [ else { block } ]`.
pub open spec fn parse_if_s(ts: Seq<TokenV>, i: int, fuel: nat) -> PRes
    decreases fuel,
{
    if fuel == 0 {
        PRes::Short
    } else {
        match consume_s(ts, i + 1, TokenV::LParen) {
            Err(e) => PRes::Failed(e),
            Ok(j) => match parse_expr_s(ts, j, (fuel - 1) as nat) {
                PRes::Parsed { ast: cond, next } => match consume_s(ts, next, TokenV::RParen) {
                    Err(e) => PRes::Failed(e),
                    Ok(j2) => match consume_s(ts, j2, TokenV::LBrace) {
                        Err(e) => PRes::Failed(e),
                        Ok(j3) => match parse_block_s(ts, j3, Seq::empty(), (fuel - 1) as nat) {
                            PList::Parsed { items: thn, next: n2 } => {
                                if tok_at(ts, n2) is Else {
                                    match consume_s(ts, n2 + 1, TokenV::LBrace) {
                                        Err(e) => PRes::Failed(e),
                                        Ok(j4) => match parse_block_s(
                                            ts,
                                            j4,
                                            Seq::empty(),
                                            (fuel - 1) as nat,
                                        ) {
                                            PList::Parsed { items: els, next: n3 } => PRes::Parsed {
                                                ast: AstV::If(
                                                    Box::new(cond),
                                                    Box::new(AstV::Block(thn)),
                                                    Some(Box::new(AstV::Block(els))),
                                                ),
                                                next: n3,
                                            },
                                            PList::Failed(e) => PRes::Failed(e),
                                            PList::Short => PRes::Short,
                                        },
                                    }
                                } else {
                                    PRes::Parsed {
                                        ast: AstV::If(
                                            Box::new(cond),
                                            Box::new(AstV::Block(thn)),
                                            None,
                                        ),
                                        next: n2,
                                    }
                                }
                            },
                            PList::Failed(e) => PRes::Failed(e),
                            PList::Short => PRes::Short,
                        },
                    },
                },
                PRes::Failed(e) => PRes::Failed(e),
                PRes::Short => PRes::Short,
            },
        }
    }
}

/// The parameter names of a function definition, up to and including the
/// closing parenthesis.
pub open spec fn parse_params_s(ts: Seq<TokenV>, i: int, acc: Seq<Seq<char>>, fuel: nat) -> PNames
    decreases fuel,
{
    if fuel == 0 {
        PNames::Short
    } else if tok_at(ts, i) is RParen {
        PNames::Parsed { names: acc, next: i + 1 }
    } else {
        match tok_at(ts, i) {
            TokenV::Identifier(p) => {
                let next = if tok_at(ts, i + 1) is Comma {
                    i + 2
                } else {
                    i + 1
                };
                parse_params_s(ts, next, acc.push(p), (fuel - 1) as nat)
            },
            t => PNames::Failed(ErrV::ParseError { expected: None, found: t }),
        }
    }
}

/// A function definition: `function name ( params ) { block }`.
pub open spec fn parse_function_definition_s(ts: Seq<TokenV>, i: int, fuel: nat) -> PRes
    decreases fuel,
{
    if fuel == 0 {
        PRes::Short
    } else {
        match tok_at(ts, i + 1) {
            TokenV::Identifier(name) => match consume_s(ts, i + 2, TokenV::LParen) {
                Err(e) => PRes::Failed(e),
                Ok(j) => match parse_params_s(ts, j, Seq::empty(), (fuel - 1) as nat) {
                    PNames::Parsed { names, next } => match consume_s(ts, next, TokenV::LBrace) {
                        Err(e) => PRes::Failed(e),
                        Ok(j2) => match parse_block_s(ts, j2, Seq::empty(), (fuel - 1) as nat) {
                            PList::Parsed { items, next: n2 } => PRes::Parsed {
                                ast: AstV::Function(
                                    name,
                                    names,
                                    Box::new(AstV::Block(items)),
                                ),
                                next: n2,
                            },
                            PList::Failed(e) => PRes::Failed(e),
                            PList::Short => PRes::Short,
                        },
                    },
                    PNames::Failed(e) => PRes::Failed(e),
                    PNames::Short => PRes::Short,
                },
            },
            t => PRes::Failed(ErrV::ParseError { expected: None, found: t }),
        }
    }
}

/// The arguments of a `call` statement: expressions separated by commas,
/// a trailing comma refused, up to and including the closing parenthesis.
pub open spec fn parse_call_args_s(ts: Seq<TokenV>, i: int, acc: Seq<AstV>, fuel: nat) -> PList
    decreases fuel,
{
    if fuel == 0 {
        PList::Short
    } else if tok_at(ts, i) is RParen {
        PList::Parsed { items: acc, next: i + 1 }
    } else {
        match parse_expr_s(ts, i, (fuel - 1) as nat) {
            PRes::Parsed { ast, next } => {
                if tok_at(ts, next) is Comma {
                    if tok_at(ts, next + 1) is RParen {
                        PList::Failed(
                            ErrV::ParseError { expected: None, found: TokenV::RParen },
                        )
                    } else {
                        parse_call_args_s(ts, next + 1, acc.push(ast), (fuel - 1) as nat)
                    }
                } else if tok_at(ts, next) is RParen {
                    parse_call_args_s(ts, next, acc.push(ast), (fuel - 1) as nat)
                } else {
                    PList::Failed(
                        ErrV::ParseError { expected: Some(TokenV::RParen), found: tok_at(ts, next) },
                    )
                }
            },
            PRes::Failed(e) => PList::Failed(e),
            PRes::Short => PList::Short,
        }
    }
}

/// A call statement: `call ( name ( args ) )`.
pub open spec fn parse_call_stmt_s(ts: Seq<TokenV>, i: int, fuel: nat) -> PRes
    decreases fuel,
{
    if fuel == 0 {
        PRes::Short
    } else {
        match consume_s(ts, i + 1, TokenV::LParen) {
            Err(e) => PRes::Failed(e),
            Ok(j) => match tok_at(ts, j) {
                TokenV::Identifier(name) => match consume_s(ts, j + 1, TokenV::LParen) {
                    Err(e) => PRes::Failed(e),
                    Ok(j2) => match parse_call_args_s(ts, j2, Seq::empty(), (fuel - 1) as nat) {
                        PList::Parsed { items, next } => match consume_s(ts, next, TokenV::RParen) {
                            Ok(k) => PRes::Parsed { ast: AstV::Call(name, items), next: k },
                            Err(e) => PRes::Failed(e),
                        },
                        PList::Failed(e) => PRes::Failed(e),
                        PList::Short => PRes::Short,
                    },
                },
                t => PRes::Failed(ErrV::ParseError { expected: None, found: t }),
            },
        }
    }
}

/// One statement: assignment, print, conditional, function definition,
/// import, call, or a bare block.
pub open spec fn parse_stmt_s(ts: Seq<TokenV>, i: int, fuel: nat) -> PRes
    decreases fuel,
{
    if fuel == 0 {
        PRes::Short
    } else {
        match tok_at(ts, i) {
            TokenV::Identifier(_) => if tok_at(ts, i + 1) is Assign {
                parse_assignment_s(ts, i, (fuel - 1) as nat)
            } else {
                parse_expr_s(ts, i, (fuel - 1) as nat)
            },
            TokenV::Print => parse_print_s(ts, i, (fuel - 1) as nat),
            TokenV::If => parse_if_s(ts, i, (fuel - 1) as nat),
            TokenV::Function => parse_function_definition_s(ts, i, (fuel - 1) as nat),
            TokenV::Import => parse_import_s(ts, i),
            TokenV::Call => parse_call_stmt_s(ts, i, (fuel - 1) as nat),
            TokenV::LBrace => match parse_block_s(ts, i + 1, Seq::empty(), (fuel - 1) as nat) {
                PList::Parsed { items, next } => PRes::Parsed { ast: AstV::Block(items), next },
                PList::Failed(e) => PRes::Failed(e),
                PList::Short => PRes::Short,
            },
            t => PRes::Failed(ErrV::ParseError { expected: None, found: t }),
        }
    }
}

/// The whole program: statements until the end-of-input token.
pub open spec fn parse_program_s(ts: Seq<TokenV>, i: int, acc: Seq<AstV>, fuel: nat) -> PList
    decreases fuel,
{
    if fuel == 0 {
        PList::Short
    } else if tok_at(ts, i) is EOF {
        PList::Parsed { items: acc, next: i }
    } else {
        match parse_stmt_s(ts, i, (fuel - 1) as nat) {
            PRes::Parsed { ast, next } => parse_program_s(ts, next, acc.push(ast), (fuel - 1) as nat),
            PRes::Failed(e) => PList::Failed(e),
            PRes::Short => PList::Short,
        }
    }
}

/// Recursion ranks, callers above callees; used only inside fuel bounds.
pub open spec fn rank_helper() -> int {
    0
}

pub open spec fn rank_more() -> int {
    1
}

pub open spec fn rank_factor() -> int {
    2
}

pub open spec fn rank_term() -> int {
    3
}

pub open spec fn rank_expr() -> int {
    4
}

pub open spec fn rank_args() -> int {
    6
}

pub open spec fn rank_kind() -> int {
    8
}

pub open spec fn rank_stmt() -> int {
    10
}

pub open spec fn rank_block() -> int {
    12
}

pub open spec fn rank_program() -> int {
    14
}

/// The parser: the token stream, fully read ahead, and a cursor with
/// single-token lookahead.
pub struct Parser {
    tokens: Vec<Token>,
    position: usize,
}

impl Parser {
    /// The views of the tokens under parsing.
    pub closed spec fn toks(&self) -> Seq<TokenV> {
        token_views(self.tokens@)
    }

    /// The cursor: the index of the current token.
    pub closed spec fn pos(&self) -> int {
        self.position as int
    }

    /// The stream is nonempty, exactly its last token is the end-of-input
    /// token, and the cursor is inside it.
    pub open spec fn wf(&self) -> bool {
        &&& self.toks().len() >= 1
        &&& self.toks().last() == TokenV::EOF
        &&& forall|j: int| 0 <= j < self.toks().len() - 1 ==> !((#[trigger] self.toks()[j]) is EOF)
        &&& 0 <= self.pos() < self.toks().len()
    }

    /// A parser over the given tokenizer's stream; fails with the
    /// tokenizer's error where the source does not lex.
    pub fn new(lexer: Lexer) -> (r: Result<Parser, Error>)
        requires
            lexer.wf(),
        ensures
            match r {
                Ok(p) => {
                    &&& p.wf()
                    &&& p.pos() == 0
                    &&& lex_all_s(
                        lexer.src(),
                        lexer.pos(),
                        (lexer.src().len() - lexer.pos() + 1) as nat,
                    ) == LexAllRes::Toks(p.toks())
                },
                Err(e) => exists|ch: char|
                    lex_all_s(
                        lexer.src(),
                        lexer.pos(),
                        (lexer.src().len() - lexer.pos() + 1) as nat,
                    ) == LexAllRes::Fail(ch) && e@ == (ErrV::LexError { ch }),
            },
    {
        let mut lx = lexer;
        match lx.tokenize() {
            Err(e) => Err(e),
            Ok(tokens) => {
                proof {
                    crate::lexer::lemma_lex_all_wf(
                        lexer.src(),
                        lexer.pos(),
                        (lexer.src().len() - lexer.pos() + 1) as nat,
                    );
                }
                Ok(Parser { tokens, position: 0 })
            },
        }
    }

    /// A copy of the current token.
    fn current_clone(&self) -> (t: Token)
        requires
            self.wf(),
        ensures
            t@ == tok_at(self.toks(), self.pos()),
    {
        self.tokens[self.position].clone()
    }

    /// The kind code of the current token.
    fn current_code(&self) -> (c: u32)
        requires
            self.wf(),
        ensures
            c as int == tok_code(tok_at(self.toks(), self.pos())),
    {
        self.tokens[self.position].code()
    }

    /// Steps past the current token, which is not the end-of-input token.
    fn advance(&mut self)
        requires
            old(self).wf(),
            !(tok_at(old(self).toks(), old(self).pos()) is EOF),
        ensures
            final(self).wf(),
            final(self).toks() == old(self).toks(),
            final(self).pos() == old(self).pos() + 1,
    {
        let n = self.tokens.len();
        proof {
            if self.pos() == self.toks().len() - 1 {
                assert(self.toks()[self.pos()] == self.toks().last());
            }
            assert(self.pos() < n as int);
        }
        self.position = self.position + 1;
    }

    /// Consumes one token of the expected kind, or reports the mismatch.
    fn consume(&mut self, expected: &Token) -> (r: Result<(), Error>)
        requires
            old(self).wf(),
            !(expected@ is EOF),
        ensures
            final(self).wf(),
            final(self).toks() == old(self).toks(),
            match (r, consume_s(old(self).toks(), old(self).pos(), expected@)) {
                (Ok(u), Ok(j)) => final(self).pos() == j,
                (Err(e), Err(ev)) => e@ == ev && final(self).pos() == old(self).pos(),
                _ => false,
            },
    {
        let cur = self.current_code();
        if cur == expected.code() {
            proof {
                if tok_at(self.toks(), self.pos()) is EOF {
                    assert(tok_code(tok_at(self.toks(), self.pos())) == 52);
                    assert(tok_code(expected@) != 52);
                }
            }
            self.advance();
            Ok(())
        } else {
            Err(
                Error::ParseError {
                    expected: Some(expected.clone()),
                    found: self.current_clone(),
                },
            )
        }
    }

    /// One parenthesized argument after a builtin keyword.
    fn f_unary(&mut self, Ghost(fuel): Ghost<nat>) -> (r: Result<ASTNode, Error>)
        requires
            old(self).wf(),
            !(tok_at(old(self).toks(), old(self).pos()) is EOF),
            fuel >= p_need(old(self).toks().len() as int, old(self).pos(), rank_helper()),
        ensures
            final(self).wf(),
            final(self).toks() == old(self).toks(),
            final(self).pos() >= old(self).pos(),
            match (r, parse_unary_s(old(self).toks(), old(self).pos(), fuel)) {
                (Ok(n), PRes::Parsed { ast, next }) => n@ == ast && final(self).pos() == next
                    && next > old(self).pos(),
                (Err(e), PRes::Failed(ev)) => e@ == ev,
                _ => false,
            },
        decreases fuel,
    {
        self.advance();
        match self.consume(&Token::LParen) {
            Err(e) => Err(e),
            Ok(u) => {
                match self.f_expr(Ghost((fuel - 1) as nat)) {
                    Err(e) => Err(e),
                    Ok(inner) => {
                        match self.consume(&Token::RParen) {
                            Err(e) => Err(e),
                            Ok(u2) => Ok(inner),
                        }
                    },
                }
            },
        }
    }

    /// Two parenthesized arguments after a builtin keyword.
    fn f_pair(&mut self, Ghost(fuel): Ghost<nat>) -> (r: Result<(ASTNode, ASTNode), Error>)
        requires
            old(self).wf(),
            !(tok_at(old(self).toks(), old(self).pos()) is EOF),
            fuel >= p_need(old(self).toks().len() as int, old(self).pos(), rank_helper()),
        ensures
            final(self).wf(),
            final(self).toks() == old(self).toks(),
            final(self).pos() >= old(self).pos(),
            match (r, parse_pair_s(old(self).toks(), old(self).pos(), fuel)) {
                (Ok(n), PPair::Parsed { a, b, next }) => n.0@ == a && n.1@ == b && final(self).pos() == next && next > old(self).pos(),
                (Err(e), PPair::Failed(ev)) => e@ == ev,
                _ => false,
            },
        decreases fuel,
    {
        self.advance();
        match self.consume(&Token::LParen) {
            Err(e) => Err(e),
            Ok(u) => {
                match self.f_expr(Ghost((fuel - 1) as nat)) {
                    Err(e) => Err(e),
                    Ok(a) => {
                        match self.consume(&Token::Comma) {
                            Err(e) => Err(e),
                            Ok(u2) => {
                                match self.f_expr(Ghost((fuel - 1) as nat)) {
                                    Err(e) => Err(e),
                                    Ok(b) => {
                                        match self.consume(&Token::RParen) {
                                            Err(e) => Err(e),
                                            Ok(u3) => Ok((a, b)),
                                        }
                                    },
                                }
                            },
                        }
                    },
                }
            },
        }
    }

    /// Three parenthesized arguments after a builtin keyword.
    fn f_triple(&mut self, Ghost(fuel): Ghost<nat>) -> (r: Result<
        (ASTNode, ASTNode, ASTNode),
        Error,
    >)
        requires
            old(self).wf(),
            !(tok_at(old(self).toks(), old(self).pos()) is EOF),
            fuel >= p_need(old(self).toks().len() as int, old(self).pos(), rank_helper()),
        ensures
            final(self).wf(),
            final(self).toks() == old(self).toks(),
            final(self).pos() >= old(self).pos(),
            match (r, parse_triple_s(old(self).toks(), old(self).pos(), fuel)) {
                (Ok(n), PTriple::Parsed { a, b, c, next }) => n.0@ == a && n.1@ == b && n.2@ == c
                    && final(self).pos() == next && next > old(self).pos(),
                (Err(e), PTriple::Failed(ev)) => e@ == ev,
                _ => false,
            },
        decreases fuel,
    {
        self.advance();
        match self.consume(&Token::LParen) {
            Err(e) => Err(e),
            Ok(u) => {
                match self.f_expr(Ghost((fuel - 1) as nat)) {
                    Err(e) => Err(e),
                    Ok(a) => {
                        match self.consume(&Token::Comma) {
                            Err(e) => Err(e),
                            Ok(u2) => {
                                match self.f_expr(Ghost((fuel - 1) as nat)) {
                                    Err(e) => Err(e),
                                    Ok(b) => {
                                        match self.consume(&Token::Comma) {
                                            Err(e) => Err(e),
                                            Ok(u3) => {
                                                match self.f_expr(Ghost((fuel - 1) as nat)) {
                                                    Err(e) => Err(e),
                                                    Ok(c) => {
                                                        match self.consume(&Token::RParen) {
                                                            Err(e) => Err(e),
                                                            Ok(u4) => Ok((a, b, c)),
                                                        }
                                                    },
                                                }
                                            },
                                        }
                                    },
                                }
                            },
                        }
                    },
                }
            },
        }
    }

    /// The arguments of a call atom, commas consumed where present.
    fn f_args(&mut self, acc: Vec<ASTNode>, Ghost(fuel): Ghost<nat>) -> (r: Result<
        Vec<ASTNode>,
        Error,
    >)
        requires
            old(self).wf(),
            fuel >= p_need(old(self).toks().len() as int, old(self).pos(), rank_args()),
        ensures
            final(self).wf(),
            final(self).toks() == old(self).toks(),
            final(self).pos() >= old(self).pos(),
            match (r, parse_args_s(old(self).toks(), old(self).pos(), views_of(acc@), fuel)) {
                (Ok(v), PList::Parsed { items, next }) => views_of(v@) == items && final(self).pos() == next && next > old(self).pos(),
                (Err(e), PList::Failed(ev)) => e@ == ev,
                _ => false,
            },
        decreases fuel,
    {
        let mut acc = acc;
        let c = self.current_code();
        if c == Token::RParen.code() {
            proof {
                assert(tok_at(self.toks(), self.pos()) is RParen);
            }
            self.advance();
            Ok(acc)
        } else {
            proof {
                assert(!(tok_at(self.toks(), self.pos()) is RParen));
            }
            match self.f_expr(Ghost((fuel - 1) as nat)) {
                Err(e) => Err(e),
                Ok(arg) => {
                    let c2 = self.current_code();
                    if c2 == Token::Comma.code() {
                        proof {
                            assert(tok_at(self.toks(), self.pos()) is Comma);
                        }
                        self.advance();
                    } else {
                        proof {
                            assert(!(tok_at(self.toks(), self.pos()) is Comma));
                        }
                    }
                    let ghost acc0 = acc@;
                    let ghost a0 = arg;
                    acc.push(arg);
                    proof {
                        crate::ast::lemma_views_of_push(acc0, a0, acc@);
                    }
                    self.f_args(acc, Ghost((fuel - 1) as nat))
                },
            }
        }
    }

    /// An expression.
    fn f_expr(&mut self, Ghost(fuel): Ghost<nat>) -> (r: Result<ASTNode, Error>)
        requires
            old(self).wf(),
            fuel >= p_need(old(self).toks().len() as int, old(self).pos(), rank_expr()),
        ensures
            final(self).wf(),
            final(self).toks() == old(self).toks(),
            final(self).pos() >= old(self).pos(),
            match (r, parse_expr_s(old(self).toks(), old(self).pos(), fuel)) {
                (Ok(n), PRes::Parsed { ast, next }) => n@ == ast && final(self).pos() == next
                    && next > old(self).pos(),
                (Err(e), PRes::Failed(ev)) => e@ == ev,
                _ => false,
            },
        decreases fuel,
    {
        match self.f_term(Ghost((fuel - 1) as nat)) {
            Err(e) => Err(e),
            Ok(lhs) => self.f_expr_more(lhs, false, Ghost((fuel - 1) as nat)),
        }
    }

    /// The tail of an expression; `seen_rel` records whether a relational
    /// operator was already consumed at this level.
    fn f_expr_more(&mut self, acc: ASTNode, seen_rel: bool, Ghost(fuel): Ghost<nat>) -> (r: Result<
        ASTNode,
        Error,
    >)
        requires
            old(self).wf(),
            fuel >= p_need(old(self).toks().len() as int, old(self).pos(), rank_more()),
        ensures
            final(self).wf(),
            final(self).toks() == old(self).toks(),
            final(self).pos() >= old(self).pos(),
            match (r, parse_expr_more_s(old(self).toks(), old(self).pos(), acc@, seen_rel, fuel)) {
                (Ok(n), PRes::Parsed { ast, next }) => n@ == ast && final(self).pos() == next,
                (Err(e), PRes::Failed(ev)) => e@ == ev,
                _ => false,
            },
        decreases fuel,
    {
        let c = self.current_code();
        let is_add = c == Token::Plus.code() || c == Token::Minus.code();
        let is_rel = c == Token::GreaterThan.code() || c == Token::LessThan.code();
        if is_add {
            let op = self.current_clone();
            self.advance();
            match self.f_term(Ghost((fuel - 1) as nat)) {
                Err(e) => Err(e),
                Ok(rhs) => {
                    let node = ASTNode::BinaryOp(Box::new(acc), op, Box::new(rhs));
                    self.f_expr_more(node, seen_rel, Ghost((fuel - 1) as nat))
                },
            }
        } else if is_rel {
            if seen_rel {
                Err(Error::ParseError { expected: None, found: self.current_clone() })
            } else {
                let op = self.current_clone();
                self.advance();
                match self.f_term(Ghost((fuel - 1) as nat)) {
                    Err(e) => Err(e),
                    Ok(rhs) => {
                        let node = ASTNode::BinaryOp(Box::new(acc), op, Box::new(rhs));
                        self.f_expr_more(node, true, Ghost((fuel - 1) as nat))
                    },
                }
            }
        } else {
            Ok(acc)
        }
    }

    /// A term.
    fn f_term(&mut self, Ghost(fuel): Ghost<nat>) -> (r: Result<ASTNode, Error>)
        requires
            old(self).wf(),
            fuel >= p_need(old(self).toks().len() as int, old(self).pos(), rank_term()),
        ensures
            final(self).wf(),
            final(self).toks() == old(self).toks(),
            final(self).pos() >= old(self).pos(),
            match (r, parse_term_s(old(self).toks(), old(self).pos(), fuel)) {
                (Ok(n), PRes::Parsed { ast, next }) => n@ == ast && final(self).pos() == next
                    && next > old(self).pos(),
                (Err(e), PRes::Failed(ev)) => e@ == ev,
                _ => false,
            },
        decreases fuel,
    {
        match self.f_factor(Ghost((fuel - 1) as nat)) {
            Err(e) => Err(e),
            Ok(lhs) => self.f_term_more(lhs, Ghost((fuel - 1) as nat)),
        }
    }

    /// The tail of a term.
    fn f_term_more(&mut self, acc: ASTNode, Ghost(fuel): Ghost<nat>) -> (r: Result<ASTNode, Error>)
        requires
            old(self).wf(),
            fuel >= p_need(old(self).toks().len() as int, old(self).pos(), rank_more()),
        ensures
            final(self).wf(),
            final(self).toks() == old(self).toks(),
            final(self).pos() >= old(self).pos(),
            match (r, parse_term_more_s(old(self).toks(), old(self).pos(), acc@, fuel)) {
                (Ok(n), PRes::Parsed { ast, next }) => n@ == ast && final(self).pos() == next,
                (Err(e), PRes::Failed(ev)) => e@ == ev,
                _ => false,
            },
        decreases fuel,
    {
        let c = self.current_code();
        let is_op = c == Token::Star.code() || c == Token::Slash.code();
        if is_op {
            let op = self.current_clone();
            self.advance();
            match self.f_factor(Ghost((fuel - 1) as nat)) {
                Err(e) => Err(e),
                Ok(rhs) => {
                    let node = ASTNode::BinaryOp(Box::new(acc), op, Box::new(rhs));
                    self.f_term_more(node, Ghost((fuel - 1) as nat))
                },
            }
        } else {
            Ok(acc)
        }
    }

    /// An atom.
    #[verifier::rlimit(100)]
    #[verifier::spinoff_prover]
    fn f_factor(&mut self, Ghost(fuel): Ghost<nat>) -> (r: Result<ASTNode, Error>)
        requires
            old(self).wf(),
            fuel >= p_need(old(self).toks().len() as int, old(self).pos(), rank_factor()),
        ensures
            final(self).wf(),
            final(self).toks() == old(self).toks(),
            final(self).pos() >= old(self).pos(),
            match (r, parse_factor_s(old(self).toks(), old(self).pos(), fuel)) {
                (Ok(n), PRes::Parsed { ast, next }) => n@ == ast && final(self).pos() == next
                    && next > old(self).pos(),
                (Err(e), PRes::Failed(ev)) => e@ == ev,
                _ => false,
            },
        decreases fuel,
    {
        let ghost sub = (fuel - 1) as nat;
        let tok = self.current_clone();
        match tok {
            Token::Float(v) => {
                self.advance();
                Ok(ASTNode::Float(v))
            },
            Token::Identifier(name) => {
                self.advance();
                let c2 = self.current_code();
                if c2 == Token::LParen.code() {
                    self.advance();
                    proof {
                        assert(views_of(Seq::<ASTNode>::empty()) =~= Seq::<AstV>::empty());
                    }
                    match self.f_args(Vec::new(), Ghost(sub)) {
                        Err(e) => Err(e),
                        Ok(args) => Ok(ASTNode::Call(name, args)),
                    }
                } else {
                    Ok(ASTNode::Identifier(name))
                }
            },
            Token::StringLiteral(v) => {
                self.advance();
                Ok(ASTNode::StringLiteral(v))
            },
            Token::DewPoint => match self.f_pair(Ghost(sub)) {
                Err(e) => Err(e),
                Ok(p) => Ok(ASTNode::DewPoint(Box::new(p.0), Box::new(p.1))),
            },
            Token::FToC => match self.f_unary(Ghost(sub)) {
                Err(e) => Err(e),
                Ok(a) => Ok(ASTNode::FToC(Box::new(a))),
            },
            Token::CToF => match self.f_unary(Ghost(sub)) {
                Err(e) => Err(e),
                Ok(a) => Ok(ASTNode::CToF(Box::new(a))),
            },
            Token::CToK => match self.f_unary(Ghost(sub)) {
                Err(e) => Err(e),
                Ok(a) => Ok(ASTNode::CToK(Box::new(a))),
            },
            Token::KToC => match self.f_unary(Ghost(sub)) {
                Err(e) => Err(e),
                Ok(a) => Ok(ASTNode::KToC(Box::new(a))),
            },
            Token::FToK => match self.f_unary(Ghost(sub)) {
                Err(e) => Err(e),
                Ok(a) => Ok(ASTNode::FToK(Box::new(a))),
            },
            Token::KToF => match self.f_unary(Ghost(sub)) {
                Err(e) => Err(e),
                Ok(a) => Ok(ASTNode::KToF(Box::new(a))),
            },
            Token::PauliX => match self.f_unary(Ghost(sub)) {
                Err(e) => Err(e),
                Ok(a) => Ok(ASTNode::PauliX(Box::new(a))),
            },
            Token::PauliY => match self.f_unary(Ghost(sub)) {
                Err(e) => Err(e),
                Ok(a) => Ok(ASTNode::PauliY(Box::new(a))),
            },
            Token::PauliZ => match self.f_unary(Ghost(sub)) {
                Err(e) => Err(e),
                Ok(a) => Ok(ASTNode::PauliZ(Box::new(a))),
            },
            Token::Hadamard => match self.f_unary(Ghost(sub)) {
                Err(e) => Err(e),
                Ok(a) => Ok(ASTNode::Hadamard(Box::new(a))),
            },
            Token::CNot => match self.f_pair(Ghost(sub)) {
                Err(e) => Err(e),
                Ok(p) => Ok(ASTNode::CNot(Box::new(p.0), Box::new(p.1))),
            },
            Token::Qubit => match self.f_pair(Ghost(sub)) {
                Err(e) => Err(e),
                Ok(p) => Ok(ASTNode::Qubit(Box::new(p.0), Box::new(p.1))),
            },
            Token::MeasureQubit => match self.f_unary(Ghost(sub)) {
                Err(e) => Err(e),
                Ok(a) => Ok(ASTNode::MeasureQubit(Box::new(a))),
            },
            Token::ResetQubit => match self.f_unary(Ghost(sub)) {
                Err(e) => Err(e),
                Ok(a) => Ok(ASTNode::ResetQubit(Box::new(a))),
            },
            Token::Toffoli => match self.f_triple(Ghost(sub)) {
                Err(e) => Err(e),
                Ok(p) => Ok(ASTNode::Toffoli(Box::new(p.0), Box::new(p.1), Box::new(p.2))),
            },
            Token::SWAP => match self.f_pair(Ghost(sub)) {
                Err(e) => Err(e),
                Ok(p) => Ok(ASTNode::SWAP(Box::new(p.0), Box::new(p.1))),
            },
            Token::Phase => match self.f_unary(Ghost(sub)) {
                Err(e) => Err(e),
                Ok(a) => Ok(ASTNode::Phase(Box::new(a))),
            },
            Token::TGate => match self.f_unary(Ghost(sub)) {
                Err(e) => Err(e),
                Ok(a) => Ok(ASTNode::TGate(Box::new(a))),
            },
            Token::SGate => match self.f_unary(Ghost(sub)) {
                Err(e) => Err(e),
                Ok(a) => Ok(ASTNode::SGate(Box::new(a))),
            },
            Token::Fredkin => match self.f_triple(Ghost(sub)) {
                Err(e) => Err(e),
                Ok(p) => Ok(ASTNode::Fredkin(Box::new(p.0), Box::new(p.1), Box::new(p.2))),
            },
            Token::Pi => {
                self.advance();
                Ok(ASTNode::Pi)
            },
            Token::Kelvin => {
                self.advance();
                Ok(ASTNode::Kelvin)
            },
            Token::RD => {
                self.advance();
                Ok(ASTNode::RD)
            },
            Token::CP => {
                self.advance();
                Ok(ASTNode::CP)
            },
            Token::P0 => {
                self.advance();
                Ok(ASTNode::P0)
            },
            Token::LV => {
                self.advance();
                Ok(ASTNode::LV)
            },
            Token::CW => {
                self.advance();
                Ok(ASTNode::CW)
            },
            Token::RhoAir => {
                self.advance();
                Ok(ASTNode::RhoAir)
            },
            Token::RhoWater => {
                self.advance();
                Ok(ASTNode::RhoWater)
            },
            Token::G => {
                self.advance();
                Ok(ASTNode::G)
            },
            Token::LParen => {
                self.advance();
                match self.f_expr(Ghost(sub)) {
                    Err(e) => Err(e),
                    Ok(inner) => {
                        match self.consume(&Token::RParen) {
                            Err(e) => Err(e),
                            Ok(u) => Ok(inner),
                        }
                    },
                }
            },
            Token::LBrace => {
                self.advance();
                proof {
                    assert(views_of(Seq::<ASTNode>::empty()) =~= Seq::<AstV>::empty());
                }
                match self.f_block(Vec::new(), Ghost(sub)) {
                    Err(e) => Err(e),
                    Ok(stmts) => Ok(ASTNode::Block(stmts)),
                }
            },
            found => Err(Error::ParseError { expected: None, found }),
        }
    }

    /// The statements of a block, up to its closing brace.
    fn f_block(&mut self, acc: Vec<ASTNode>, Ghost(fuel): Ghost<nat>) -> (r: Result<
        Vec<ASTNode>,
        Error,
    >)
        requires
            old(self).wf(),
            fuel >= p_need(old(self).toks().len() as int, old(self).pos(), rank_block()),
        ensures
            final(self).wf(),
            final(self).toks() == old(self).toks(),
            final(self).pos() >= old(self).pos(),
            match (r, parse_block_s(old(self).toks(), old(self).pos(), views_of(acc@), fuel)) {
                (Ok(v), PList::Parsed { items, next }) => views_of(v@) == items && final(self).pos() == next && next > old(self).pos(),
                (Err(e), PList::Failed(ev)) => e@ == ev,
                _ => false,
            },
        decreases fuel,
    {
        let mut acc = acc;
        let c = self.current_code();
        if c == Token::RBrace.code() {
            proof {
                assert(tok_at(self.toks(), self.pos()) is RBrace);
            }
            self.advance();
            Ok(acc)
        } else if c == Token::EOF.code() {
            proof {
                assert(tok_at(self.toks(), self.pos()) is EOF);
            }
            Err(Error::ParseError { expected: Some(Token::RBrace), found: Token::EOF })
        } else {
            proof {
                assert(!(tok_at(self.toks(), self.pos()) is RBrace));
                assert(!(tok_at(self.toks(), self.pos()) is EOF));
            }
            match self.f_stmt(Ghost((fuel - 1) as nat)) {
                Err(e) => Err(e),
                Ok(stmt) => {
                    let ghost acc0 = acc@;
                    let ghost a0 = stmt;
                    acc.push(stmt);
                    proof {
                        crate::ast::lemma_views_of_push(acc0, a0, acc@);
                    }
                    self.f_block(acc, Ghost((fuel - 1) as nat))
                },
            }
        }
    }

    /// An assignment statement.
    fn f_assignment(&mut self, Ghost(fuel): Ghost<nat>) -> (r: Result<ASTNode, Error>)
        requires
            old(self).wf(),
            fuel >= p_need(old(self).toks().len() as int, old(self).pos(), rank_kind()),
        ensures
            final(self).wf(),
            final(self).toks() == old(self).toks(),
            final(self).pos() >= old(self).pos(),
            match (r, parse_assignment_s(old(self).toks(), old(self).pos(), fuel)) {
                (Ok(n), PRes::Parsed { ast, next }) => n@ == ast && final(self).pos() == next
                    && next > old(self).pos(),
                (Err(e), PRes::Failed(ev)) => e@ == ev,
                _ => false,
            },
        decreases fuel,
    {
        let tok = self.current_clone();
        match tok {
            Token::Identifier(name) => {
                self.advance();
                match self.consume(&Token::Assign) {
                    Err(e) => Err(e),
                    Ok(u) => {
                        match self.f_expr(Ghost((fuel - 1) as nat)) {
                            Err(e) => Err(e),
                            Ok(rhs) => Ok(ASTNode::Assignment(name, Box::new(rhs))),
                        }
                    },
                }
            },
            found => Err(Error::ParseError { expected: None, found }),
        }
    }

    /// A print statement.
    fn f_print(&mut self, Ghost(fuel): Ghost<nat>) -> (r: Result<ASTNode, Error>)
        requires
            old(self).wf(),
            !(tok_at(old(self).toks(), old(self).pos()) is EOF),
            fuel >= p_need(old(self).toks().len() as int, old(self).pos(), rank_kind()),
        ensures
            final(self).wf(),
            final(self).toks() == old(self).toks(),
            final(self).pos() >= old(self).pos(),
            match (r, parse_print_s(old(self).toks(), old(self).pos(), fuel)) {
                (Ok(n), PRes::Parsed { ast, next }) => n@ == ast && final(self).pos() == next
                    && next > old(self).pos(),
                (Err(e), PRes::Failed(ev)) => e@ == ev,
                _ => false,
            },
        decreases fuel,
    {
        match self.f_unary(Ghost((fuel - 1) as nat)) {
            Err(e) => Err(e),
            Ok(inner) => Ok(ASTNode::Print(Box::new(inner))),
        }
    }

    /// An import statement; the module name is kept as written.
    fn f_import(&mut self) -> (r: Result<ASTNode, Error>)
        requires
            old(self).wf(),
            !(tok_at(old(self).toks(), old(self).pos()) is EOF),
        ensures
            final(self).wf(),
            final(self).toks() == old(self).toks(),
            final(self).pos() >= old(self).pos(),
            match (r, parse_import_s(old(self).toks(), old(self).pos())) {
                (Ok(n), PRes::Parsed { ast, next }) => n@ == ast && final(self).pos() == next
                    && next > old(self).pos(),
                (Err(e), PRes::Failed(ev)) => e@ == ev,
                _ => false,
            },
    {
        self.advance();
        let tok = self.current_clone();
        match tok {
            Token::StringLiteral(name) => {
                self.advance();
                Ok(ASTNode::Import(name))
            },
            found => Err(Error::ParseError { expected: None, found }),
        }
    }

    /// A conditional statement.
    #[verifier::rlimit(100)]
    #[verifier::spinoff_prover]
    fn f_if(&mut self, Ghost(fuel): Ghost<nat>) -> (r: Result<ASTNode, Error>)
        requires
            old(self).wf(),
            !(tok_at(old(self).toks(), old(self).pos()) is EOF),
            fuel >= p_need(old(self).toks().len() as int, old(self).pos(), rank_kind()),
        ensures
            final(self).wf(),
            final(self).toks() == old(self).toks(),
            final(self).pos() >= old(self).pos(),
            match (r, parse_if_s(old(self).toks(), old(self).pos(), fuel)) {
                (Ok(n), PRes::Parsed { ast, next }) => n@ == ast && final(self).pos() == next
                    && next > old(self).pos(),
                (Err(e), PRes::Failed(ev)) => e@ == ev,
                _ => false,
            },
        decreases fuel,
    {
        let ghost sub = (fuel - 1) as nat;
        self.advance();
        match self.consume(&Token::LParen) {
            Err(e) => Err(e),
            Ok(u) => {
                match self.f_expr(Ghost(sub)) {
                    Err(e) => Err(e),
                    Ok(cond) => {
                        match self.consume(&Token::RParen) {
                            Err(e) => Err(e),
                            Ok(u2) => {
                                match self.consume(&Token::LBrace) {
                                    Err(e) => Err(e),
                                    Ok(u3) => {
                                        proof {
                                            assert(views_of(Seq::<ASTNode>::empty())
                                                =~= Seq::<AstV>::empty());
                                        }
                                        match self.f_block(Vec::new(), Ghost(sub)) {
                                            Err(e) => Err(e),
                                            Ok(thn) => {
                                                let c = self.current_code();
                                                if c == Token::Else.code() {
                                                    proof {
                                                        assert(tok_at(self.toks(), self.pos())
                                                            is Else);
                                                    }
                                                    self.advance();
                                                    match self.consume(&Token::LBrace) {
                                                        Err(e) => Err(e),
                                                        Ok(u4) => {
                                                            match self.f_block(
                                                                Vec::new(),
                                                                Ghost(sub),
                                                            ) {
                                                                Err(e) => Err(e),
                                                                Ok(els) => {
                                                                    let ghost tv = thn@;
                                                                    let ghost ev = els@;
                                                                    let tblk = ASTNode::Block(thn);
                                                                    let eblk = ASTNode::Block(els);
                                                                    proof {
                                                                        assert(tblk@ == AstV::Block(
                                                                            views_of(tv),
                                                                        ));
                                                                        assert(eblk@ == AstV::Block(
                                                                            views_of(ev),
                                                                        ));
                                                                    }
                                                                    Ok(
                                                                        ASTNode::If(
                                                                            Box::new(cond),
                                                                            Box::new(tblk),
                                                                            Some(Box::new(eblk)),
                                                                        ),
                                                                    )
                                                                },
                                                            }
                                                        },
                                                    }
                                                } else {
                                                    let ghost tv = thn@;
                                                    let tblk = ASTNode::Block(thn);
                                                    proof {
                                                        assert(!(tok_at(self.toks(), self.pos())
                                                            is Else));
                                                        assert(tblk@ == AstV::Block(views_of(tv)));
                                                    }
                                                    Ok(
                                                        ASTNode::If(
                                                            Box::new(cond),
                                                            Box::new(tblk),
                                                            None,
                                                        ),
                                                    )
                                                }
                                            },
                                        }
                                    },
                                }
                            },
                        }
                    },
                }
            },
        }
    }

    /// The parameter names of a function definition.
    fn f_params(&mut self, acc: Vec<String>, Ghost(fuel): Ghost<nat>) -> (r: Result<
        Vec<String>,
        Error,
    >)
        requires
            old(self).wf(),
            fuel >= p_need(old(self).toks().len() as int, old(self).pos(), rank_args()),
        ensures
            final(self).wf(),
            final(self).toks() == old(self).toks(),
            final(self).pos() >= old(self).pos(),
            match (r, parse_params_s(old(self).toks(), old(self).pos(), names_of(acc@), fuel)) {
                (Ok(v), PNames::Parsed { names, next }) => names_of(v@) == names && final(self).pos() == next && next > old(self).pos(),
                (Err(e), PNames::Failed(ev)) => e@ == ev,
                _ => false,
            },
        decreases fuel,
    {
        let mut acc = acc;
        let c = self.current_code();
        if c == Token::RParen.code() {
            proof {
                assert(tok_at(self.toks(), self.pos()) is RParen);
            }
            self.advance();
            Ok(acc)
        } else {
            proof {
                assert(!(tok_at(self.toks(), self.pos()) is RParen));
            }
            let tok = self.current_clone();
            match tok {
                Token::Identifier(p) => {
                    self.advance();
                    let c2 = self.current_code();
                    if c2 == Token::Comma.code() {
                        proof {
                            assert(tok_at(self.toks(), self.pos()) is Comma);
                        }
                        self.advance();
                    } else {
                        proof {
                            assert(!(tok_at(self.toks(), self.pos()) is Comma));
                        }
                    }
                    let ghost acc0 = acc@;
                    let ghost a0 = p;
                    acc.push(p);
                    proof {
                        crate::ast::lemma_names_of_push(acc0, a0, acc@);
                    }
                    self.f_params(acc, Ghost((fuel - 1) as nat))
                },
                found => Err(Error::ParseError { expected: None, found }),
            }
        }
    }

    /// A function definition statement.
    fn f_function_definition(&mut self, Ghost(fuel): Ghost<nat>) -> (r: Result<ASTNode, Error>)
        requires
            old(self).wf(),
            !(tok_at(old(self).toks(), old(self).pos()) is EOF),
            fuel >= p_need(old(self).toks().len() as int, old(self).pos(), rank_kind()),
        ensures
            final(self).wf(),
            final(self).toks() == old(self).toks(),
            final(self).pos() >= old(self).pos(),
            match (r, parse_function_definition_s(old(self).toks(), old(self).pos(), fuel)) {
                (Ok(n), PRes::Parsed { ast, next }) => n@ == ast && final(self).pos() == next
                    && next > old(self).pos(),
                (Err(e), PRes::Failed(ev)) => e@ == ev,
                _ => false,
            },
        decreases fuel,
    {
        let ghost sub = (fuel - 1) as nat;
        self.advance();
        let tok = self.current_clone();
        match tok {
            Token::Identifier(name) => {
                self.advance();
                match self.consume(&Token::LParen) {
                    Err(e) => Err(e),
                    Ok(u) => {
                        proof {
                            assert(names_of(Seq::<String>::empty()) =~= Seq::<Seq<char>>::empty());
                        }
                        match self.f_params(Vec::new(), Ghost(sub)) {
                            Err(e) => Err(e),
                            Ok(params) => {
                                match self.consume(&Token::LBrace) {
                                    Err(e) => Err(e),
                                    Ok(u2) => {
                                        proof {
                                            assert(views_of(Seq::<ASTNode>::empty())
                                                =~= Seq::<AstV>::empty());
                                        }
                                        match self.f_block(Vec::new(), Ghost(sub)) {
                                            Err(e) => Err(e),
                                            Ok(body) => {
                                                let ghost bv = body@;
                                                let blk = ASTNode::Block(body);
                                                proof {
                                                    assert(blk@ == AstV::Block(views_of(bv)));
                                                }
                                                Ok(
                                                    ASTNode::Function(
                                                        name,
                                                        params,
                                                        Box::new(blk),
                                                    ),
                                                )
                                            },
                                        }
                                    },
                                }
                            },
                        }
                    },
                }
            },
            found => Err(Error::ParseError { expected: None, found }),
        }
    }

    /// The arguments of a `call` statement; a trailing comma is refused.
    fn f_call_args(&mut self, acc: Vec<ASTNode>, Ghost(fuel): Ghost<nat>) -> (r: Result<
        Vec<ASTNode>,
        Error,
    >)
        requires
            old(self).wf(),
            fuel >= p_need(old(self).toks().len() as int, old(self).pos(), rank_args()),
        ensures
            final(self).wf(),
            final(self).toks() == old(self).toks(),
            final(self).pos() >= old(self).pos(),
            match (r, parse_call_args_s(old(self).toks(), old(self).pos(), views_of(acc@), fuel)) {
                (Ok(v), PList::Parsed { items, next }) => views_of(v@) == items && final(self).pos() == next && next > old(self).pos(),
                (Err(e), PList::Failed(ev)) => e@ == ev,
                _ => false,
            },
        decreases fuel,
    {
        let mut acc = acc;
        let c = self.current_code();
        if c == Token::RParen.code() {
            proof {
                assert(tok_at(self.toks(), self.pos()) is RParen);
            }
            self.advance();
            Ok(acc)
        } else {
            proof {
                assert(!(tok_at(self.toks(), self.pos()) is RParen));
            }
            match self.f_expr(Ghost((fuel - 1) as nat)) {
                Err(e) => Err(e),
                Ok(arg) => {
                    let c2 = self.current_code();
                    if c2 == Token::Comma.code() {
                        proof {
                            assert(tok_at(self.toks(), self.pos()) is Comma);
                        }
                        self.advance();
                        let c3 = self.current_code();
                        if c3 == Token::RParen.code() {
                            proof {
                                assert(tok_at(self.toks(), self.pos()) is RParen);
                            }
                            Err(Error::ParseError { expected: None, found: Token::RParen })
                        } else {
                            proof {
                                assert(!(tok_at(self.toks(), self.pos()) is RParen));
                            }
                            let ghost acc0 = acc@;
                            let ghost a0 = arg;
                            acc.push(arg);
                            proof {
                                crate::ast::lemma_views_of_push(acc0, a0, acc@);
                            }
                            self.f_call_args(acc, Ghost((fuel - 1) as nat))
                        }
                    } else if c2 == Token::RParen.code() {
                        proof {
                            assert(tok_at(self.toks(), self.pos()) is RParen);
                            assert(!(tok_at(self.toks(), self.pos()) is Comma));
                        }
                        let ghost acc0 = acc@;
                        let ghost a0 = arg;
                        acc.push(arg);
                        proof {
                            crate::ast::lemma_views_of_push(acc0, a0, acc@);
                        }
                        self.f_call_args(acc, Ghost((fuel - 1) as nat))
                    } else {
                        proof {
                            assert(!(tok_at(self.toks(), self.pos()) is Comma));
                            assert(!(tok_at(self.toks(), self.pos()) is RParen));
                        }
                        Err(
                            Error::ParseError {
                                expected: Some(Token::RParen),
                                found: self.current_clone(),
                            },
                        )
                    }
                },
            }
        }
    }

    /// A call statement: `call ( name ( args ) )`.
    fn f_call_stmt(&mut self, Ghost(fuel): Ghost<nat>) -> (r: Result<ASTNode, Error>)
        requires
            old(self).wf(),
            !(tok_at(old(self).toks(), old(self).pos()) is EOF),
            fuel >= p_need(old(self).toks().len() as int, old(self).pos(), rank_kind()),
        ensures
            final(self).wf(),
            final(self).toks() == old(self).toks(),
            final(self).pos() >= old(self).pos(),
            match (r, parse_call_stmt_s(old(self).toks(), old(self).pos(), fuel)) {
                (Ok(n), PRes::Parsed { ast, next }) => n@ == ast && final(self).pos() == next
                    && next > old(self).pos(),
                (Err(e), PRes::Failed(ev)) => e@ == ev,
                _ => false,
            },
        decreases fuel,
    {
        let ghost sub = (fuel - 1) as nat;
        self.advance();
        match self.consume(&Token::LParen) {
            Err(e) => Err(e),
            Ok(u) => {
                let tok = self.current_clone();
                match tok {
                    Token::Identifier(name) => {
                        self.advance();
                        match self.consume(&Token::LParen) {
                            Err(e) => Err(e),
                            Ok(u2) => {
                                proof {
                                    assert(views_of(Seq::<ASTNode>::empty())
                                        =~= Seq::<AstV>::empty());
                                }
                                match self.f_call_args(Vec::new(), Ghost(sub)) {
                                    Err(e) => Err(e),
                                    Ok(args) => {
                                        match self.consume(&Token::RParen) {
                                            Err(e) => Err(e),
                                            Ok(u3) => Ok(ASTNode::Call(name, args)),
                                        }
                                    },
                                }
                            },
                        }
                    },
                    found => Err(Error::ParseError { expected: None, found }),
                }
            },
        }
    }

    /// One statement.
    #[verifier::rlimit(100)]
    #[verifier::spinoff_prover]
    fn f_stmt(&mut self, Ghost(fuel): Ghost<nat>) -> (r: Result<ASTNode, Error>)
        requires
            old(self).wf(),
            fuel >= p_need(old(self).toks().len() as int, old(self).pos(), rank_stmt()),
        ensures
            final(self).wf(),
            final(self).toks() == old(self).toks(),
            final(self).pos() >= old(self).pos(),
            match (r, parse_stmt_s(old(self).toks(), old(self).pos(), fuel)) {
                (Ok(n), PRes::Parsed { ast, next }) => n@ == ast && final(self).pos() == next
                    && next > old(self).pos(),
                (Err(e), PRes::Failed(ev)) => e@ == ev,
                _ => false,
            },
        decreases fuel,
    {
        let ghost sub = (fuel - 1) as nat;
        let c = self.current_code();
        if c == Token::Identifier(String::new()).code() {
            let n = self.tokens.len();
            proof {
                assert(tok_at(self.toks(), self.pos()) is Identifier);
                if self.pos() == self.toks().len() - 1 {
                    assert(self.toks()[self.pos()] == self.toks().last());
                }
                assert(self.pos() + 1 < n as int);
            }
            let c2 = self.tokens[self.position + 1].code();
            if c2 == Token::Assign.code() {
                proof {
                    assert(tok_at(self.toks(), self.pos() + 1) is Assign);
                }
                self.f_assignment(Ghost(sub))
            } else {
                proof {
                    assert(!(tok_at(self.toks(), self.pos() + 1) is Assign));
                }
                self.f_expr(Ghost(sub))
            }
        } else if c == Token::Print.code() {
            proof {
                assert(tok_at(self.toks(), self.pos()) is Print);
            }
            self.f_print(Ghost(sub))
        } else if c == Token::If.code() {
            proof {
                assert(tok_at(self.toks(), self.pos()) is If);
            }
            self.f_if(Ghost(sub))
        } else if c == Token::Function.code() {
            proof {
                assert(tok_at(self.toks(), self.pos()) is Function);
            }
            self.f_function_definition(Ghost(sub))
        } else if c == Token::Import.code() {
            proof {
                assert(tok_at(self.toks(), self.pos()) is Import);
            }
            self.f_import()
        } else if c == Token::Call.code() {
            proof {
                assert(tok_at(self.toks(), self.pos()) is Call);
            }
            self.f_call_stmt(Ghost(sub))
        } else if c == Token::LBrace.code() {
            proof {
                assert(tok_at(self.toks(), self.pos()) is LBrace);
            }
            self.advance();
            proof {
                assert(views_of(Seq::<ASTNode>::empty()) =~= Seq::<AstV>::empty());
            }
            match self.f_block(Vec::new(), Ghost(sub)) {
                Err(e) => Err(e),
                Ok(stmts) => Ok(ASTNode::Block(stmts)),
            }
        } else {
            proof {
                assert(!(tok_at(self.toks(), self.pos()) is Identifier));
                assert(!(tok_at(self.toks(), self.pos()) is Print));
            }
            Err(Error::ParseError { expected: None, found: self.current_clone() })
        }
    }

    /// The statements of the whole program, up to the end of input.
    fn f_program(&mut self, acc: Vec<ASTNode>, Ghost(fuel): Ghost<nat>) -> (r: Result<
        Vec<ASTNode>,
        Error,
    >)
        requires
            old(self).wf(),
            fuel >= p_need(old(self).toks().len() as int, old(self).pos(), rank_program()),
        ensures
            final(self).wf(),
            final(self).toks() == old(self).toks(),
            final(self).pos() >= old(self).pos(),
            match (r, parse_program_s(old(self).toks(), old(self).pos(), views_of(acc@), fuel)) {
                (Ok(v), PList::Parsed { items, next }) => views_of(v@) == items && final(self).pos() == next,
                (Err(e), PList::Failed(ev)) => e@ == ev,
                _ => false,
            },
        decreases fuel,
    {
        let mut acc = acc;
        let c = self.current_code();
        if c == Token::EOF.code() {
            proof {
                assert(tok_at(self.toks(), self.pos()) is EOF);
            }
            Ok(acc)
        } else {
            proof {
                assert(!(tok_at(self.toks(), self.pos()) is EOF));
            }
            match self.f_stmt(Ghost((fuel - 1) as nat)) {
                Err(e) => Err(e),
                Ok(stmt) => {
                    let ghost acc0 = acc@;
                    let ghost a0 = stmt;
                    acc.push(stmt);
                    proof {
                        crate::ast::lemma_views_of_push(acc0, a0, acc@);
                    }
                    self.f_program(acc, Ghost((fuel - 1) as nat))
                },
            }
        }
    }

    /// An expression, by precedence climbing.
    pub fn parse_expression(&mut self) -> (r: Result<ASTNode, Error>)
        requires
            old(self).wf(),
        ensures
            final(self).wf(),
            final(self).toks() == old(self).toks(),
            match (r, parse_expr_s(
                old(self).toks(),
                old(self).pos(),
                p_need(old(self).toks().len() as int, old(self).pos(), rank_expr()) as nat,
            )) {
                (Ok(n), PRes::Parsed { ast, next }) => n@ == ast && final(self).pos() == next,
                (Err(e), PRes::Failed(ev)) => e@ == ev,
                _ => false,
            },
    {
        let ghost f = p_need(self.toks().len() as int, self.pos(), rank_expr()) as nat;
        self.f_expr(Ghost(f))
    }

    /// A term.
    pub fn parse_term(&mut self) -> (r: Result<ASTNode, Error>)
        requires
            old(self).wf(),
        ensures
            final(self).wf(),
            final(self).toks() == old(self).toks(),
            match (r, parse_term_s(
                old(self).toks(),
                old(self).pos(),
                p_need(old(self).toks().len() as int, old(self).pos(), rank_term()) as nat,
            )) {
                (Ok(n), PRes::Parsed { ast, next }) => n@ == ast && final(self).pos() == next,
                (Err(e), PRes::Failed(ev)) => e@ == ev,
                _ => false,
            },
    {
        let ghost f = p_need(self.toks().len() as int, self.pos(), rank_term()) as nat;
        self.f_term(Ghost(f))
    }

    /// An atom.
    pub fn parse_factor(&mut self) -> (r: Result<ASTNode, Error>)
        requires
            old(self).wf(),
        ensures
            final(self).wf(),
            final(self).toks() == old(self).toks(),
            match (r, parse_factor_s(
                old(self).toks(),
                old(self).pos(),
                p_need(old(self).toks().len() as int, old(self).pos(), rank_factor()) as nat,
            )) {
                (Ok(n), PRes::Parsed { ast, next }) => n@ == ast && final(self).pos() == next,
                (Err(e), PRes::Failed(ev)) => e@ == ev,
                _ => false,
            },
    {
        let ghost f = p_need(self.toks().len() as int, self.pos(), rank_factor()) as nat;
        self.f_factor(Ghost(f))
    }

    /// One statement.
    pub fn parse_statement(&mut self) -> (r: Result<ASTNode, Error>)
        requires
            old(self).wf(),
        ensures
            final(self).wf(),
            final(self).toks() == old(self).toks(),
            match (r, parse_stmt_s(
                old(self).toks(),
                old(self).pos(),
                p_need(old(self).toks().len() as int, old(self).pos(), rank_stmt()) as nat,
            )) {
                (Ok(n), PRes::Parsed { ast, next }) => n@ == ast && final(self).pos() == next,
                (Err(e), PRes::Failed(ev)) => e@ == ev,
                _ => false,
            },
    {
        let ghost f = p_need(self.toks().len() as int, self.pos(), rank_stmt()) as nat;
        self.f_stmt(Ghost(f))
    }

    /// An assignment statement.
    pub fn parse_assignment(&mut self) -> (r: Result<ASTNode, Error>)
        requires
            old(self).wf(),
        ensures
            final(self).wf(),
            final(self).toks() == old(self).toks(),
            match (r, parse_assignment_s(
                old(self).toks(),
                old(self).pos(),
                p_need(old(self).toks().len() as int, old(self).pos(), rank_kind()) as nat,
            )) {
                (Ok(n), PRes::Parsed { ast, next }) => n@ == ast && final(self).pos() == next,
                (Err(e), PRes::Failed(ev)) => e@ == ev,
                _ => false,
            },
    {
        let ghost f = p_need(self.toks().len() as int, self.pos(), rank_kind()) as nat;
        self.f_assignment(Ghost(f))
    }

    /// A print statement; the current token is the `print` keyword.
    pub fn parse_print(&mut self) -> (r: Result<ASTNode, Error>)
        requires
            old(self).wf(),
            !(tok_at(old(self).toks(), old(self).pos()) is EOF),
        ensures
            final(self).wf(),
            final(self).toks() == old(self).toks(),
            match (r, parse_print_s(
                old(self).toks(),
                old(self).pos(),
                p_need(old(self).toks().len() as int, old(self).pos(), rank_kind()) as nat,
            )) {
                (Ok(n), PRes::Parsed { ast, next }) => n@ == ast && final(self).pos() == next,
                (Err(e), PRes::Failed(ev)) => e@ == ev,
                _ => false,
            },
    {
        let ghost f = p_need(self.toks().len() as int, self.pos(), rank_kind()) as nat;
        self.f_print(Ghost(f))
    }

    /// An import statement; the current token is the `import` keyword.
    pub fn parse_import(&mut self) -> (r: Result<ASTNode, Error>)
        requires
            old(self).wf(),
            !(tok_at(old(self).toks(), old(self).pos()) is EOF),
        ensures
            final(self).wf(),
            final(self).toks() == old(self).toks(),
            match (r, parse_import_s(old(self).toks(), old(self).pos())) {
                (Ok(n), PRes::Parsed { ast, next }) => n@ == ast && final(self).pos() == next,
                (Err(e), PRes::Failed(ev)) => e@ == ev,
                _ => false,
            },
    {
        self.f_import()
    }

    /// A conditional statement; the current token is the `if` keyword.
    pub fn parse_if(&mut self) -> (r: Result<ASTNode, Error>)
        requires
            old(self).wf(),
            !(tok_at(old(self).toks(), old(self).pos()) is EOF),
        ensures
            final(self).wf(),
            final(self).toks() == old(self).toks(),
            match (r, parse_if_s(
                old(self).toks(),
                old(self).pos(),
                p_need(old(self).toks().len() as int, old(self).pos(), rank_kind()) as nat,
            )) {
                (Ok(n), PRes::Parsed { ast, next }) => n@ == ast && final(self).pos() == next,
                (Err(e), PRes::Failed(ev)) => e@ == ev,
                _ => false,
            },
    {
        let ghost f = p_need(self.toks().len() as int, self.pos(), rank_kind()) as nat;
        self.f_if(Ghost(f))
    }

    /// A function definition; the current token is the `function` keyword.
    pub fn parse_function_definition(&mut self) -> (r: Result<ASTNode, Error>)
        requires
            old(self).wf(),
            !(tok_at(old(self).toks(), old(self).pos()) is EOF),
        ensures
            final(self).wf(),
            final(self).toks() == old(self).toks(),
            match (r, parse_function_definition_s(
                old(self).toks(),
                old(self).pos(),
                p_need(old(self).toks().len() as int, old(self).pos(), rank_kind()) as nat,
            )) {
                (Ok(n), PRes::Parsed { ast, next }) => n@ == ast && final(self).pos() == next,
                (Err(e), PRes::Failed(ev)) => e@ == ev,
                _ => false,
            },
    {
        let ghost f = p_need(self.toks().len() as int, self.pos(), rank_kind()) as nat;
        self.f_function_definition(Ghost(f))
    }

    /// The statements of a block, after its opening brace.
    pub fn parse_block(&mut self) -> (r: Result<Vec<ASTNode>, Error>)
        requires
            old(self).wf(),
        ensures
            final(self).wf(),
            final(self).toks() == old(self).toks(),
            match (r, parse_block_s(
                old(self).toks(),
                old(self).pos(),
                Seq::empty(),
                p_need(old(self).toks().len() as int, old(self).pos(), rank_block()) as nat,
            )) {
                (Ok(v), PList::Parsed { items, next }) => views_of(v@) == items && final(self).pos() == next,
                (Err(e), PList::Failed(ev)) => e@ == ev,
                _ => false,
            },
    {
        let ghost f = p_need(self.toks().len() as int, self.pos(), rank_block()) as nat;
        proof {
            assert(views_of(Seq::<ASTNode>::empty()) =~= Seq::<AstV>::empty());
        }
        self.f_block(Vec::new(), Ghost(f))
    }

    /// The whole program: a flat list of statements up to the end of the
    /// input.
    pub fn parse(&mut self) -> (r: Result<Vec<ASTNode>, Error>)
        requires
            old(self).wf(),
        ensures
            final(self).wf(),
            final(self).toks() == old(self).toks(),
            match (r, parse_program_s(
                old(self).toks(),
                old(self).pos(),
                Seq::empty(),
                p_need(old(self).toks().len() as int, old(self).pos(), rank_program()) as nat,
            )) {
                (Ok(v), PList::Parsed { items, next }) => views_of(v@) == items && final(self).pos() == next,
                (Err(e), PList::Failed(ev)) => e@ == ev,
                _ => false,
            },
            old(self).pos() == 0 ==> match (r, parse_toks(old(self).toks())) {
                (Ok(v), Ok(items)) => views_of(v@) == items,
                (Err(e), Err(ev)) => e@ == ev,
                _ => false,
            },
    {
        let ghost f = p_need(self.toks().len() as int, self.pos(), rank_program()) as nat;
        proof {
            assert(views_of(Seq::<ASTNode>::empty()) =~= Seq::<AstV>::empty());
        }
        self.f_program(Vec::new(), Ghost(f))
    }
}

/// What parsing a token stream produces: the statement views of the
/// program, or the first error.
pub open spec fn parse_toks(ts: Seq<TokenV>) -> Result<Seq<AstV>, ErrV> {
    match parse_program_s(
        ts,
        0,
        Seq::empty(),
        p_need(ts.len() as int, 0, rank_program()) as nat,
    ) {
        PList::Parsed { items, next } => Ok(items),
        PList::Failed(e) => Err(e),
        PList::Short => Err(ErrV::DepthExceeded),
    }
}

} // verus!
