//! Lexical tokens of the language.
//!
//! A token is one lexical unit: an operator or punctuation mark, a keyword,
//! or a payload-carrying literal or identifier. Tokens are immutable once
//! produced. `TokenV` is the mathematical view of a token, with numeric
//! literals read as exact fractions.

use vstd::prelude::*;

use crate::rat::{Frac, Rat, rat_clone, rat_frac};

verus! {

/// One lexical unit of the source text.
#[derive(Debug)]
pub enum Token {
    /// A numeric literal, held as an exact rational.
    Float(Rat),
    /// An identifier that is not a keyword.
    Identifier(String),
    /// A double-quoted string literal, without its quotes.
    StringLiteral(String),
    Function,
    Import,
    Call,
    Plus,
    Minus,
    Star,
    Slash,
    GreaterThan,
    LessThan,
    Assign,
    Comma,
    Print,
    LBrace,
    RBrace,
    LParen,
    RParen,
    If,
    Else,
    DewPoint,
    FToC,
    CToF,
    CToK,
    KToC,
    FToK,
    KToF,
    Pi,
    Kelvin,
    RD,
    CP,
    P0,
    LV,
    CW,
    RhoAir,
    RhoWater,
    G,
    PauliX,
    PauliY,
    PauliZ,
    Hadamard,
    CNot,
    Toffoli,
    SWAP,
    ResetQubit,
    Phase,
    TGate,
    SGate,
    Fredkin,
    Qubit,
    MeasureQubit,
    EOF,
}

/// The mathematical view of a token.
pub enum TokenV {
    Num(Frac),
    Identifier(Seq<char>),
    StringLiteral(Seq<char>),
    Function,
    Import,
    Call,
    Plus,
    Minus,
    Star,
    Slash,
    GreaterThan,
    LessThan,
    Assign,
    Comma,
    Print,
    LBrace,
    RBrace,
    LParen,
    RParen,
    If,
    Else,
    DewPoint,
    FToC,
    CToF,
    CToK,
    KToC,
    FToK,
    KToF,
    Pi,
    Kelvin,
    RD,
    CP,
    P0,
    LV,
    CW,
    RhoAir,
    RhoWater,
    G,
    PauliX,
    PauliY,
    PauliZ,
    Hadamard,
    CNot,
    Toffoli,
    SWAP,
    ResetQubit,
    Phase,
    TGate,
    SGate,
    Fredkin,
    Qubit,
    MeasureQubit,
    EOF,
}

impl View for Token {
    type V = TokenV;

    open spec fn view(&self) -> TokenV {
        match self {
            Token::Float(r) => TokenV::Num(rat_frac(*r)),
            Token::Identifier(s) => TokenV::Identifier(s@),
            Token::StringLiteral(s) => TokenV::StringLiteral(s@),
            Token::Function => TokenV::Function,
            Token::Import => TokenV::Import,
            Token::Call => TokenV::Call,
            Token::Plus => TokenV::Plus,
            Token::Minus => TokenV::Minus,
            Token::Star => TokenV::Star,
            Token::Slash => TokenV::Slash,
            Token::GreaterThan => TokenV::GreaterThan,
            Token::LessThan => TokenV::LessThan,
            Token::Assign => TokenV::Assign,
            Token::Comma => TokenV::Comma,
            Token::Print => TokenV::Print,
            Token::LBrace => TokenV::LBrace,
            Token::RBrace => TokenV::RBrace,
            Token::LParen => TokenV::LParen,
            Token::RParen => TokenV::RParen,
            Token::If => TokenV::If,
            Token::Else => TokenV::Else,
            Token::DewPoint => TokenV::DewPoint,
            Token::FToC => TokenV::FToC,
            Token::CToF => TokenV::CToF,
            Token::CToK => TokenV::CToK,
            Token::KToC => TokenV::KToC,
            Token::FToK => TokenV::FToK,
            Token::KToF => TokenV::KToF,
            Token::Pi => TokenV::Pi,
            Token::Kelvin => TokenV::Kelvin,
            Token::RD => TokenV::RD,
            Token::CP => TokenV::CP,
            Token::P0 => TokenV::P0,
            Token::LV => TokenV::LV,
            Token::CW => TokenV::CW,
            Token::RhoAir => TokenV::RhoAir,
            Token::RhoWater => TokenV::RhoWater,
            Token::G => TokenV::G,
            Token::PauliX => TokenV::PauliX,
            Token::PauliY => TokenV::PauliY,
            Token::PauliZ => TokenV::PauliZ,
            Token::Hadamard => TokenV::Hadamard,
            Token::CNot => TokenV::CNot,
            Token::Toffoli => TokenV::Toffoli,
            Token::SWAP => TokenV::SWAP,
            Token::ResetQubit => TokenV::ResetQubit,
            Token::Phase => TokenV::Phase,
            Token::TGate => TokenV::TGate,
            Token::SGate => TokenV::SGate,
            Token::Fredkin => TokenV::Fredkin,
            Token::Qubit => TokenV::Qubit,
            Token::MeasureQubit => TokenV::MeasureQubit,
            Token::EOF => TokenV::EOF,
        }
    }
}

/// A small integer classifying a token's kind; two tokens are of the same
/// kind exactly when their codes agree. Payload-carrying kinds share one
/// code per kind, payloads aside.
pub open spec fn tok_code(t: TokenV) -> int {
    match t {
        TokenV::Num(_) => 0,
        TokenV::Identifier(_) => 1,
        TokenV::StringLiteral(_) => 2,
        TokenV::Function => 3,
        TokenV::Import => 4,
        TokenV::Call => 5,
        TokenV::Plus => 6,
        TokenV::Minus => 7,
        TokenV::Star => 8,
        TokenV::Slash => 9,
        TokenV::GreaterThan => 10,
        TokenV::LessThan => 11,
        TokenV::Assign => 12,
        TokenV::Comma => 13,
        TokenV::Print => 14,
        TokenV::LBrace => 15,
        TokenV::RBrace => 16,
        TokenV::LParen => 17,
        TokenV::RParen => 18,
        TokenV::If => 19,
        TokenV::Else => 20,
        TokenV::DewPoint => 21,
        TokenV::FToC => 22,
        TokenV::CToF => 23,
        TokenV::CToK => 24,
        TokenV::KToC => 25,
        TokenV::FToK => 26,
        TokenV::KToF => 27,
        TokenV::Pi => 28,
        TokenV::Kelvin => 29,
        TokenV::RD => 30,
        TokenV::CP => 31,
        TokenV::P0 => 32,
        TokenV::LV => 33,
        TokenV::CW => 34,
        TokenV::RhoAir => 35,
        TokenV::RhoWater => 36,
        TokenV::G => 37,
        TokenV::PauliX => 38,
        TokenV::PauliY => 39,
        TokenV::PauliZ => 40,
        TokenV::Hadamard => 41,
        TokenV::CNot => 42,
        TokenV::Toffoli => 43,
        TokenV::SWAP => 44,
        TokenV::ResetQubit => 45,
        TokenV::Phase => 46,
        TokenV::TGate => 47,
        TokenV::SGate => 48,
        TokenV::Fredkin => 49,
        TokenV::Qubit => 50,
        TokenV::MeasureQubit => 51,
        TokenV::EOF => 52,
    }
}

impl Token {
    /// The executable counterpart of `tok_code`.
    pub fn code(&self) -> (c: u32)
        ensures
            c as int == tok_code(self@),
    {
        match self {
            Token::Float(_) => 0,
            Token::Identifier(_) => 1,
            Token::StringLiteral(_) => 2,
            Token::Function => 3,
            Token::Import => 4,
            Token::Call => 5,
            Token::Plus => 6,
            Token::Minus => 7,
            Token::Star => 8,
            Token::Slash => 9,
            Token::GreaterThan => 10,
            Token::LessThan => 11,
            Token::Assign => 12,
            Token::Comma => 13,
            Token::Print => 14,
            Token::LBrace => 15,
            Token::RBrace => 16,
            Token::LParen => 17,
            Token::RParen => 18,
            Token::If => 19,
            Token::Else => 20,
            Token::DewPoint => 21,
            Token::FToC => 22,
            Token::CToF => 23,
            Token::CToK => 24,
            Token::KToC => 25,
            Token::FToK => 26,
            Token::KToF => 27,
            Token::Pi => 28,
            Token::Kelvin => 29,
            Token::RD => 30,
            Token::CP => 31,
            Token::P0 => 32,
            Token::LV => 33,
            Token::CW => 34,
            Token::RhoAir => 35,
            Token::RhoWater => 36,
            Token::G => 37,
            Token::PauliX => 38,
            Token::PauliY => 39,
            Token::PauliZ => 40,
            Token::Hadamard => 41,
            Token::CNot => 42,
            Token::Toffoli => 43,
            Token::SWAP => 44,
            Token::ResetQubit => 45,
            Token::Phase => 46,
            Token::TGate => 47,
            Token::SGate => 48,
            Token::Fredkin => 49,
            Token::Qubit => 50,
            Token::MeasureQubit => 51,
            Token::EOF => 52,
        }
    }
}

impl Clone for Token {
    /// The copy has the same view as the original.
    fn clone(&self) -> (r: Self)
        ensures
            r@ == self@,
    {
        match self {
            Token::Float(v) => Token::Float(rat_clone(v)),
            Token::Identifier(s) => Token::Identifier(s.clone()),
            Token::StringLiteral(s) => Token::StringLiteral(s.clone()),
            Token::Function => Token::Function,
            Token::Import => Token::Import,
            Token::Call => Token::Call,
            Token::Plus => Token::Plus,
            Token::Minus => Token::Minus,
            Token::Star => Token::Star,
            Token::Slash => Token::Slash,
            Token::GreaterThan => Token::GreaterThan,
            Token::LessThan => Token::LessThan,
            Token::Assign => Token::Assign,
            Token::Comma => Token::Comma,
            Token::Print => Token::Print,
            Token::LBrace => Token::LBrace,
            Token::RBrace => Token::RBrace,
            Token::LParen => Token::LParen,
            Token::RParen => Token::RParen,
            Token::If => Token::If,
            Token::Else => Token::Else,
            Token::DewPoint => Token::DewPoint,
            Token::FToC => Token::FToC,
            Token::CToF => Token::CToF,
            Token::CToK => Token::CToK,
            Token::KToC => Token::KToC,
            Token::FToK => Token::FToK,
            Token::KToF => Token::KToF,
            Token::Pi => Token::Pi,
            Token::Kelvin => Token::Kelvin,
            Token::RD => Token::RD,
            Token::CP => Token::CP,
            Token::P0 => Token::P0,
            Token::LV => Token::LV,
            Token::CW => Token::CW,
            Token::RhoAir => Token::RhoAir,
            Token::RhoWater => Token::RhoWater,
            Token::G => Token::G,
            Token::PauliX => Token::PauliX,
            Token::PauliY => Token::PauliY,
            Token::PauliZ => Token::PauliZ,
            Token::Hadamard => Token::Hadamard,
            Token::CNot => Token::CNot,
            Token::Toffoli => Token::Toffoli,
            Token::SWAP => Token::SWAP,
            Token::ResetQubit => Token::ResetQubit,
            Token::Phase => Token::Phase,
            Token::TGate => Token::TGate,
            Token::SGate => Token::SGate,
            Token::Fredkin => Token::Fredkin,
            Token::Qubit => Token::Qubit,
            Token::MeasureQubit => Token::MeasureQubit,
            Token::EOF => Token::EOF,
        }
    }
}

} // verus!
