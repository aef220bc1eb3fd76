//! A verified interpreter for a small scripting language oriented around
//! meteorological calculation: exact-rational arithmetic, temperature
//! conversions, named physical constants, conditionals, user-defined
//! functions, and module import.

pub mod ast;
pub mod builtins;
pub mod constants;
pub mod env;
pub mod errors;
pub mod interpreter;
pub mod lexer;
pub mod parser;
pub mod rat;
pub mod token;
pub mod value;
