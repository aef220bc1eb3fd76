//! The tokenizer.
//!
//! The lexer walks the source text character by character and produces one
//! token per call, until an end-of-input token. It skips whitespace and
//! `#`-to-end-of-line comments, reads numeric literals as exact decimal
//! fractions, string literals verbatim between double quotes, and
//! identifiers with a fixed keyword lookup. Any other character is a
//! reported `LexError`.
//!
//! The `*_s` spec functions define tokenization mathematically over the
//! character sequence; every method is proved to follow them exactly.

use vstd::prelude::*;
use vstd::string::StrSliceExecFns;

use crate::errors::{Error, ErrV};
use crate::rat::{
    Frac, Rat, frac_int, rat_add, rat_div, rat_mul, rat_from_i64, rat_den, rat_num, rat_frac,
};
use crate::token::{Token, TokenV};
use crate::value::{s_fadd, s_fdiv, s_fmul};

verus! {

/// Whitespace: the Unicode White_Space set (the characters
/// `char::is_whitespace` accepts), enumerated.
pub open spec fn is_ws(c: char) -> bool {
    let u = c as u32;
    u == 0x09 || u == 0x0A || u == 0x0B || u == 0x0C || u == 0x0D || u == 0x20 || u == 0x85
        || u == 0xA0 || u == 0x1680 || (0x2000 <= u && u <= 0x200A) || u == 0x2028 || u == 0x2029
        || u == 0x202F || u == 0x205F || u == 0x3000
}

/// A decimal digit.
pub open spec fn is_digit_c(c: char) -> bool {
    '0' <= c && c <= '9'
}

/// An ASCII letter.
pub open spec fn is_alpha_c(c: char) -> bool {
    ('a' <= c && c <= 'z') || ('A' <= c && c <= 'Z')
}

/// A character that may begin an identifier.
pub open spec fn is_ident_start(c: char) -> bool {
    is_alpha_c(c) || c == '_'
}

/// Whether a character is a Unicode alphanumeric: what
/// `char::is_alphanumeric` accepts. A fixed function of the character for
/// any one build of the standard library; on the ASCII range it is exactly
/// the ASCII letters and digits.
pub uninterp spec fn unicode_alnum(c: char) -> bool;

/// A character that may continue an identifier: a Unicode alphanumeric or
/// an underscore.
pub open spec fn is_ident_char(c: char) -> bool {
    unicode_alnum(c) || c == '_'
}

/// Relies on `char::is_alphanumeric`: the Unicode Alphabetic property or a
/// numeric character. Its restriction to ASCII is documented as the ASCII
/// letters and digits.
#[verifier::external_body]
fn char_is_alnum(c: char) -> (r: bool)
    ensures
        r == unicode_alnum(c),
        (c as u32) < 128 ==> r == (is_alpha_c(c) || is_digit_c(c)),
{
    c.is_alphanumeric()
}

/// The numeric value of a digit character.
pub open spec fn digit_val(c: char) -> int {
    (c as u32) - 48
}

/// The first position at or after `i` that does not hold whitespace.
pub open spec fn skip_ws_s(s: Seq<char>, i: int) -> int
    decreases s.len() - i,
{
    if i < s.len() && is_ws(s[i]) {
        skip_ws_s(s, i + 1)
    } else {
        i
    }
}

pub proof fn lemma_skip_ws_bounds(s: Seq<char>, i: int)
    ensures
        skip_ws_s(s, i) >= i,
        i < s.len() ==> skip_ws_s(s, i) <= s.len(),
        i >= s.len() ==> skip_ws_s(s, i) == i,
        skip_ws_s(s, i) < s.len() ==> !is_ws(s[skip_ws_s(s, i)]),
    decreases s.len() - i,
{
    if i < s.len() && is_ws(s[i]) {
        lemma_skip_ws_bounds(s, i + 1);
    }
}

/// The first position at or after `i` that holds a newline, or the end.
pub open spec fn line_end_s(s: Seq<char>, i: int) -> int
    decreases s.len() - i,
{
    if i < s.len() && s[i] != '\n' {
        line_end_s(s, i + 1)
    } else {
        i
    }
}

pub proof fn lemma_line_end_bounds(s: Seq<char>, i: int)
    ensures
        line_end_s(s, i) >= i,
        i < s.len() ==> line_end_s(s, i) <= s.len(),
        i >= s.len() ==> line_end_s(s, i) == i,
        line_end_s(s, i) < s.len() ==> s[line_end_s(s, i)] == '\n',
    decreases s.len() - i,
{
    if i < s.len() && s[i] != '\n' {
        lemma_line_end_bounds(s, i + 1);
    }
}

#[via_fn]
proof fn skip_trivia_decreases(s: Seq<char>, i: int) {
    lemma_skip_ws_bounds(s, i);
    let j = skip_ws_s(s, i);
    if j < s.len() && s[j] == '#' {
        lemma_line_end_bounds(s, j + 1);
    }
}

/// The first position at or after `i` past all whitespace and comments.
pub open spec fn skip_trivia_s(s: Seq<char>, i: int) -> int
    decreases s.len() - i,
    via skip_trivia_decreases
{
    let j = skip_ws_s(s, i);
    if j < s.len() && s[j] == '#' {
        skip_trivia_s(s, line_end_s(s, j + 1))
    } else {
        j
    }
}

pub proof fn lemma_skip_trivia_bounds(s: Seq<char>, i: int)
    ensures
        skip_trivia_s(s, i) >= i,
        i < s.len() ==> skip_trivia_s(s, i) <= s.len(),
        i >= s.len() ==> skip_trivia_s(s, i) == i,
    decreases s.len() - i,
{
    lemma_skip_ws_bounds(s, i);
    let j = skip_ws_s(s, i);
    if j < s.len() && s[j] == '#' {
        lemma_line_end_bounds(s, j + 1);
        lemma_skip_trivia_bounds(s, line_end_s(s, j + 1));
    }
}

/// The end of an identifier whose characters continue at `i`.
pub open spec fn ident_end_s(s: Seq<char>, i: int) -> int
    decreases s.len() - i,
{
    if i < s.len() && is_ident_char(s[i]) {
        ident_end_s(s, i + 1)
    } else {
        i
    }
}

pub proof fn lemma_ident_end_bounds(s: Seq<char>, i: int)
    ensures
        ident_end_s(s, i) >= i,
        i < s.len() ==> ident_end_s(s, i) <= s.len(),
        i >= s.len() ==> ident_end_s(s, i) == i,
    decreases s.len() - i,
{
    if i < s.len() && is_ident_char(s[i]) {
        lemma_ident_end_bounds(s, i + 1);
    }
}

/// The end of a numeric literal whose characters continue at `i`: digits
/// and decimal points.
pub open spec fn num_end_s(s: Seq<char>, i: int) -> int
    decreases s.len() - i,
{
    if i < s.len() && (is_digit_c(s[i]) || s[i] == '.') {
        num_end_s(s, i + 1)
    } else {
        i
    }
}

pub proof fn lemma_num_end_bounds(s: Seq<char>, i: int)
    ensures
        num_end_s(s, i) >= i,
        i < s.len() ==> num_end_s(s, i) <= s.len(),
        i >= s.len() ==> num_end_s(s, i) == i,
    decreases s.len() - i,
{
    if i < s.len() && (is_digit_c(s[i]) || s[i] == '.') {
        lemma_num_end_bounds(s, i + 1);
    }
}

/// Every character of a numeric lexeme is a digit or a decimal point.
pub proof fn lemma_num_region(s: Seq<char>, i: int)
    ensures
        forall|j: int|
            i <= j < num_end_s(s, i) ==> is_digit_c(#[trigger] s[j]) || s[j] == '.',
    decreases s.len() - i,
{
    if i < s.len() && (is_digit_c(s[i]) || s[i] == '.') {
        lemma_num_region(s, i + 1);
    }
}

/// The position of the closing double quote at or after `i`, or the end.
pub open spec fn str_end_s(s: Seq<char>, i: int) -> int
    decreases s.len() - i,
{
    if i < s.len() && s[i] != '"' {
        str_end_s(s, i + 1)
    } else {
        i
    }
}

pub proof fn lemma_str_end_bounds(s: Seq<char>, i: int)
    ensures
        str_end_s(s, i) >= i,
        i < s.len() ==> str_end_s(s, i) <= s.len(),
        i >= s.len() ==> str_end_s(s, i) == i,
    decreases s.len() - i,
{
    if i < s.len() && s[i] != '"' {
        lemma_str_end_bounds(s, i + 1);
    }
}

/// The keyword a lexeme denotes, or a plain identifier token.
pub open spec fn keyword_of(lex: Seq<char>) -> TokenV {
    if lex == "print"@ {
        TokenV::Print
    } else if lex == "if"@ {
        TokenV::If
    } else if lex == "else"@ {
        TokenV::Else
    } else if lex == "function"@ {
        TokenV::Function
    } else if lex == "import"@ {
        TokenV::Import
    } else if lex == "call"@ {
        TokenV::Call
    } else if lex == "dewpoint"@ {
        TokenV::DewPoint
    } else if lex == "ftoc"@ {
        TokenV::FToC
    } else if lex == "ctof"@ {
        TokenV::CToF
    } else if lex == "ctok"@ {
        TokenV::CToK
    } else if lex == "ktoc"@ {
        TokenV::KToC
    } else if lex == "ftok"@ {
        TokenV::FToK
    } else if lex == "ktof"@ {
        TokenV::KToF
    } else if lex == "paulix"@ {
        TokenV::PauliX
    } else if lex == "pauliy"@ {
        TokenV::PauliY
    } else if lex == "pauliz"@ {
        TokenV::PauliZ
    } else if lex == "hadamard"@ {
        TokenV::Hadamard
    } else if lex == "cnot"@ {
        TokenV::CNot
    } else if lex == "toffoli"@ {
        TokenV::Toffoli
    } else if lex == "swap"@ {
        TokenV::SWAP
    } else if lex == "reset"@ {
        TokenV::ResetQubit
    } else if lex == "phase"@ {
        TokenV::Phase
    } else if lex == "tgate"@ {
        TokenV::TGate
    } else if lex == "sgate"@ {
        TokenV::SGate
    } else if lex == "fredkin"@ {
        TokenV::Fredkin
    } else if lex == "qubit"@ {
        TokenV::Qubit
    } else if lex == "measure"@ {
        TokenV::MeasureQubit
    } else if lex == "_pi_"@ {
        TokenV::Pi
    } else if lex == "_kelvin_"@ {
        TokenV::Kelvin
    } else if lex == "_rd_"@ {
        TokenV::RD
    } else if lex == "_cp_"@ {
        TokenV::CP
    } else if lex == "_p0_"@ {
        TokenV::P0
    } else if lex == "_lv_"@ {
        TokenV::LV
    } else if lex == "_cw_"@ {
        TokenV::CW
    } else if lex == "_rho_air_"@ {
        TokenV::RhoAir
    } else if lex == "_rho_water_"@ {
        TokenV::RhoWater
    } else if lex == "_g_"@ {
        TokenV::G
    } else {
        TokenV::Identifier(lex)
    }
}

/// The identifier or keyword token starting at `i`, and the position after
/// it.
pub open spec fn scan_ident_s(s: Seq<char>, i: int) -> (TokenV, int) {
    let end = ident_end_s(s, i + 1);
    (keyword_of(s.subrange(i, end)), end)
}

/// The string-literal token whose opening quote stands at `i`, and the
/// position after its closing quote. An unterminated literal runs to the
/// end of the input.
pub open spec fn scan_str_s(s: Seq<char>, i: int) -> (TokenV, int) {
    let end = str_end_s(s, i + 1);
    let after = if end < s.len() {
        end + 1
    } else {
        s.len() as int
    };
    (TokenV::StringLiteral(s.subrange(i + 1, end)), after)
}

/// The number of decimal points in `s[from..to]`.
pub open spec fn dots_in(s: Seq<char>, from: int, to: int) -> int
    decreases to - from,
{
    if from >= to {
        0
    } else {
        (if s[from] == '.' {
            1int
        } else {
            0int
        }) + dots_in(s, from + 1, to)
    }
}

/// The number of digits in `s[from..to]`.
pub open spec fn digits_in(s: Seq<char>, from: int, to: int) -> int
    decreases to - from,
{
    if from >= to {
        0
    } else {
        (if is_digit_c(s[from]) {
            1int
        } else {
            0int
        }) + digits_in(s, from + 1, to)
    }
}

/// One step of the literal-value scan: fold the character at `from` into
/// the running value `acc` and fractional scale `scale`, exactly as the
/// executable loop does.
pub open spec fn num_val_s(s: Seq<char>, from: int, to: int, acc: Frac, scale: Frac, dotted: bool)
    -> (Frac, Frac, bool)
    decreases to - from,
{
    if from >= to {
        (acc, scale, dotted)
    } else if s[from] == '.' {
        num_val_s(s, from + 1, to, acc, scale, true)
    } else {
        let acc2 = s_fadd(s_fmul(acc, frac_int(10)), frac_int(digit_val(s[from])));
        let scale2 = if dotted {
            s_fmul(scale, frac_int(10))
        } else {
            scale
        };
        num_val_s(s, from + 1, to, acc2, scale2, dotted)
    }
}

/// The outcome of one scan step.
pub enum LexS {
    /// A token, and the position after it.
    Tok { t: TokenV, end: int },
    /// End of input.
    End,
    /// An unusable character.
    Fail { ch: char },
}

/// The numeric-literal token starting at `i`, or a failure where the
/// lexeme has no digits or more than one decimal point.
pub open spec fn scan_num_s(s: Seq<char>, i: int) -> LexS {
    let end = num_end_s(s, i + 1);
    if dots_in(s, i, end) > 1 || digits_in(s, i, end) == 0 {
        LexS::Fail { ch: '.' }
    } else {
        let (acc, scale, dotted) = num_val_s(s, i, end, frac_int(0), frac_int(1), false);
        let v = if dotted {
            s_fdiv(acc, scale)
        } else {
            acc
        };
        LexS::Tok { t: TokenV::Num(v), end }
    }
}

/// The next token at or after `i`, past whitespace and comments.
pub open spec fn next_token_s(s: Seq<char>, i: int) -> LexS {
    let j = skip_trivia_s(s, i);
    if j >= s.len() {
        LexS::End
    } else {
        let c = s[j];
        if c == '+' {
            LexS::Tok { t: TokenV::Plus, end: j + 1 }
        } else if c == '-' {
            LexS::Tok { t: TokenV::Minus, end: j + 1 }
        } else if c == '*' {
            LexS::Tok { t: TokenV::Star, end: j + 1 }
        } else if c == '/' {
            LexS::Tok { t: TokenV::Slash, end: j + 1 }
        } else if c == '>' {
            LexS::Tok { t: TokenV::GreaterThan, end: j + 1 }
        } else if c == '<' {
            LexS::Tok { t: TokenV::LessThan, end: j + 1 }
        } else if c == '=' {
            LexS::Tok { t: TokenV::Assign, end: j + 1 }
        } else if c == '{' {
            LexS::Tok { t: TokenV::LBrace, end: j + 1 }
        } else if c == '}' {
            LexS::Tok { t: TokenV::RBrace, end: j + 1 }
        } else if c == '(' {
            LexS::Tok { t: TokenV::LParen, end: j + 1 }
        } else if c == ')' {
            LexS::Tok { t: TokenV::RParen, end: j + 1 }
        } else if c == ',' {
            LexS::Tok { t: TokenV::Comma, end: j + 1 }
        } else if c == '"' {
            let (t, end) = scan_str_s(s, j);
            LexS::Tok { t, end }
        } else if is_digit_c(c) || c == '.' {
            scan_num_s(s, j)
        } else if is_ident_start(c) {
            let (t, end) = scan_ident_s(s, j);
            LexS::Tok { t, end }
        } else {
            LexS::Fail { ch: c }
        }
    }
}

/// The whole token stream from `i`, ending with the end-of-input token;
/// `Short` only when the fuel is smaller than the number of tokens.
pub enum LexAllRes {
    Toks(Seq<TokenV>),
    Fail(char),
    Short,
}

pub open spec fn lex_all_s(s: Seq<char>, i: int, fuel: nat) -> LexAllRes
    decreases fuel,
{
    if fuel == 0 {
        LexAllRes::Short
    } else {
        match next_token_s(s, i) {
            LexS::End => LexAllRes::Toks(seq![TokenV::EOF]),
            LexS::Fail { ch } => LexAllRes::Fail(ch),
            LexS::Tok { t, end } => match lex_all_s(s, end, (fuel - 1) as nat) {
                LexAllRes::Toks(rest) => LexAllRes::Toks(seq![t] + rest),
                other => other,
            },
        }
    }
}

/// The token stream of a whole source text: what tokenization produces,
/// including the final end-of-input token.
pub open spec fn lex_src(s: Seq<char>) -> LexAllRes {
    lex_all_s(s, 0, (s.len() + 1) as nat)
}

/// The views of a token sequence, element by element.
pub open spec fn token_views(s: Seq<Token>) -> Seq<TokenV> {
    Seq::new(
        s.len(),
        |i: int|
            if 0 <= i < s.len() {
                s[i]@
            } else {
                arbitrary()
            },
    )
}

/// Prepends already-read tokens onto the outcome of the rest of the scan.
pub open spec fn lex_prepend(ts: Seq<TokenV>, rest: LexAllRes) -> LexAllRes {
    match rest {
        LexAllRes::Toks(r) => LexAllRes::Toks(ts + r),
        other => other,
    }
}

/// The tokenizer: source text and a cursor.
pub struct Lexer {
    input: String,
    position: usize,
}

impl Lexer {
    /// The source text under tokenization.
    pub closed spec fn src(&self) -> Seq<char> {
        self.input@
    }

    /// The cursor, as a character index.
    pub closed spec fn pos(&self) -> int {
        self.position as int
    }

    pub open spec fn wf(&self) -> bool {
        self.pos() <= self.src().len()
    }

    /// A lexer over `input`, starting at the beginning.
    pub fn new(input: String) -> (r: Self)
        ensures
            r.src() == input@,
            r.pos() == 0,
            r.wf(),
    {
        Lexer { input, position: 0 }
    }

    /// Advances the cursor past whitespace.
    pub fn skip_whitespace(&mut self)
        requires
            old(self).wf(),
        ensures
            final(self).wf(),
            final(self).src() == old(self).src(),
            final(self).pos() == skip_ws_s(old(self).src(), old(self).pos()),
    {
        let ghost s = self.src();
        let n = self.input.as_str().unicode_len();
        while self.position < n
            invariant
                self.src() == s,
                n == s.len(),
                self.pos() <= s.len(),
                skip_ws_s(s, old(self).pos()) == skip_ws_s(s, self.pos()),
            ensures
                self.src() == s,
                self.pos() == skip_ws_s(s, old(self).pos()),
            decreases n - self.position,
        {
            let c = self.input.as_str().get_char(self.position);
            let u = c as u32;
            let ws = u == 0x09 || u == 0x0A || u == 0x0B || u == 0x0C || u == 0x0D || u == 0x20
                || u == 0x85 || u == 0xA0 || u == 0x1680 || (0x2000 <= u && u <= 0x200A) || u
                == 0x2028 || u == 0x2029 || u == 0x202F || u == 0x205F || u == 0x3000;
            if !ws {
                break;
            }
            self.position = self.position + 1;
        }
    }

    /// Reads the identifier or keyword whose first character, already
    /// consumed, is `first_char`.
    pub fn read_identifier(&mut self, first_char: char) -> (t: Token)
        requires
            old(self).wf(),
            old(self).pos() >= 1,
            old(self).pos() - 1 < old(self).src().len(),
            old(self).src()[old(self).pos() - 1] == first_char,
            is_ident_start(first_char),
        ensures
            final(self).wf(),
            final(self).src() == old(self).src(),
            final(self).pos() >= old(self).pos(),
            t@ == scan_ident_s(old(self).src(), old(self).pos() - 1).0,
            final(self).pos() == scan_ident_s(old(self).src(), old(self).pos() - 1).1,
    {
        let ghost s = self.src();
        let start = self.position - 1;
        let n = self.input.as_str().unicode_len();
        while self.position < n
            invariant
                self.src() == s,
                n == s.len(),
                start + 1 <= self.pos() <= s.len(),
                ident_end_s(s, old(self).pos()) == ident_end_s(s, self.pos()),
            ensures
                self.src() == s,
                start + 1 <= self.pos() <= s.len(),
                self.pos() == ident_end_s(s, old(self).pos()),
            decreases n - self.position,
        {
            let c = self.input.as_str().get_char(self.position);
            let is_ic = char_is_alnum(c) || c == '_';
            if !is_ic {
                break;
            }
            self.position = self.position + 1;
        }
        let lexeme = self.input.as_str().substring_char(start, self.position).to_owned();
        if kw_eq(&lexeme, "print") {
            Token::Print
        } else if kw_eq(&lexeme, "if") {
            Token::If
        } else if kw_eq(&lexeme, "else") {
            Token::Else
        } else if kw_eq(&lexeme, "function") {
            Token::Function
        } else if kw_eq(&lexeme, "import") {
            Token::Import
        } else if kw_eq(&lexeme, "call") {
            Token::Call
        } else if kw_eq(&lexeme, "dewpoint") {
            Token::DewPoint
        } else if kw_eq(&lexeme, "ftoc") {
            Token::FToC
        } else if kw_eq(&lexeme, "ctof") {
            Token::CToF
        } else if kw_eq(&lexeme, "ctok") {
            Token::CToK
        } else if kw_eq(&lexeme, "ktoc") {
            Token::KToC
        } else if kw_eq(&lexeme, "ftok") {
            Token::FToK
        } else if kw_eq(&lexeme, "ktof") {
            Token::KToF
        } else if kw_eq(&lexeme, "paulix") {
            Token::PauliX
        } else if kw_eq(&lexeme, "pauliy") {
            Token::PauliY
        } else if kw_eq(&lexeme, "pauliz") {
            Token::PauliZ
        } else if kw_eq(&lexeme, "hadamard") {
            Token::Hadamard
        } else if kw_eq(&lexeme, "cnot") {
            Token::CNot
        } else if kw_eq(&lexeme, "toffoli") {
            Token::Toffoli
        } else if kw_eq(&lexeme, "swap") {
            Token::SWAP
        } else if kw_eq(&lexeme, "reset") {
            Token::ResetQubit
        } else if kw_eq(&lexeme, "phase") {
            Token::Phase
        } else if kw_eq(&lexeme, "tgate") {
            Token::TGate
        } else if kw_eq(&lexeme, "sgate") {
            Token::SGate
        } else if kw_eq(&lexeme, "fredkin") {
            Token::Fredkin
        } else if kw_eq(&lexeme, "qubit") {
            Token::Qubit
        } else if kw_eq(&lexeme, "measure") {
            Token::MeasureQubit
        } else if kw_eq(&lexeme, "_pi_") {
            Token::Pi
        } else if kw_eq(&lexeme, "_kelvin_") {
            Token::Kelvin
        } else if kw_eq(&lexeme, "_rd_") {
            Token::RD
        } else if kw_eq(&lexeme, "_cp_") {
            Token::CP
        } else if kw_eq(&lexeme, "_p0_") {
            Token::P0
        } else if kw_eq(&lexeme, "_lv_") {
            Token::LV
        } else if kw_eq(&lexeme, "_cw_") {
            Token::CW
        } else if kw_eq(&lexeme, "_rho_air_") {
            Token::RhoAir
        } else if kw_eq(&lexeme, "_rho_water_") {
            Token::RhoWater
        } else if kw_eq(&lexeme, "_g_") {
            Token::G
        } else {
            Token::Identifier(lexeme)
        }
    }

    /// Reads a string literal whose opening quote was already consumed:
    /// the characters up to the next double quote, verbatim.
    pub fn read_string_literal(&mut self) -> (t: Token)
        requires
            old(self).wf(),
            old(self).pos() >= 1,
            old(self).pos() - 1 < old(self).src().len(),
            old(self).src()[old(self).pos() - 1] == '"',
        ensures
            final(self).wf(),
            final(self).src() == old(self).src(),
            final(self).pos() >= old(self).pos(),
            t@ == scan_str_s(old(self).src(), old(self).pos() - 1).0,
            final(self).pos() == scan_str_s(old(self).src(), old(self).pos() - 1).1,
    {
        let ghost s = self.src();
        let start = self.position;
        let n = self.input.as_str().unicode_len();
        while self.position < n
            invariant
                self.src() == s,
                n == s.len(),
                start <= self.pos() <= s.len(),
                str_end_s(s, old(self).pos()) == str_end_s(s, self.pos()),
            ensures
                self.src() == s,
                start <= self.pos() <= s.len(),
                self.pos() == str_end_s(s, old(self).pos()),
            decreases n - self.position,
        {
            let c = self.input.as_str().get_char(self.position);
            if c == '"' {
                break;
            }
            self.position = self.position + 1;
        }
        let content = self.input.as_str().substring_char(start, self.position).to_owned();
        if self.position < n {
            // consume the closing quote
            self.position = self.position + 1;
        }
        Token::StringLiteral(content)
    }

    /// Reads a numeric literal whose first character, already consumed, is
    /// `first_char`: a run of digits with at most one decimal point, read
    /// as an exact decimal fraction.
    pub fn read_number(&mut self, first_char: char) -> (r: Result<Token, Error>)
        requires
            old(self).wf(),
            old(self).pos() >= 1,
            old(self).pos() - 1 < old(self).src().len(),
            old(self).src()[old(self).pos() - 1] == first_char,
            is_digit_c(first_char) || first_char == '.',
        ensures
            final(self).wf(),
            final(self).src() == old(self).src(),
            final(self).pos() >= old(self).pos(),
            match (r, scan_num_s(old(self).src(), old(self).pos() - 1)) {
                (Ok(t), LexS::Tok { t: tv, end }) => t@ == tv && final(self).pos() == end,
                (Err(e), LexS::Fail { ch }) => e@ == (ErrV::LexError { ch }),
                _ => false,
            },
    {
        let ghost s = self.src();
        let start = self.position - 1;
        let ghost i0 = start as int;
        let n = self.input.as_str().unicode_len();
        while self.position < n
            invariant
                self.src() == s,
                n == s.len(),
                start + 1 <= self.pos() <= s.len(),
                num_end_s(s, old(self).pos()) == num_end_s(s, self.pos()),
            ensures
                self.src() == s,
                n == s.len(),
                start + 1 <= self.pos() <= s.len(),
                self.pos() == num_end_s(s, old(self).pos()),
            decreases n - self.position,
        {
            let c = self.input.as_str().get_char(self.position);
            if !((c >= '0' && c <= '9') || c == '.') {
                break;
            }
            self.position = self.position + 1;
        }
        let endpos = self.position;
        let ghost endi = endpos as int;
        proof {
            lemma_num_region(s, i0 + 1);
        }
        // Fold the lexeme into an exact value: digits extend the running
        // value, a decimal point starts scaling the denominator.
        let ten = rat_from_i64(10);
        let mut acc = rat_from_i64(0);
        let mut scale = rat_from_i64(1);
        let mut dotted = false;
        let mut dots: usize = 0;
        let mut digits: usize = 0;
        let mut k = start;
        while k < endpos
            invariant
                self.src() == s,
                self.pos() == endi,
                i0 == start as int,
                start <= k <= endpos,
                endpos <= s.len(),
                endi == endpos as int,
                forall|j: int| i0 <= j < endi ==> is_digit_c(#[trigger] s[j]) || s[j] == '.',
                rat_den(acc) > 0,
                rat_den(scale) > 0,
                rat_num(scale) > 0,
                rat_den(ten) == 1,
                rat_num(ten) == 10,
                dots <= k - start,
                digits <= k - start,
                dots_in(s, i0, endi) == dots + dots_in(s, k as int, endi),
                digits_in(s, i0, endi) == digits + digits_in(s, k as int, endi),
                num_val_s(s, i0, endi, frac_int(0), frac_int(1), false) == num_val_s(
                    s,
                    k as int,
                    endi,
                    rat_frac(acc),
                    rat_frac(scale),
                    dotted,
                ),
            decreases endpos - k,
        {
            let ghost kk = k as int;
            let ghost acc0 = rat_frac(acc);
            let ghost scale0 = rat_frac(scale);
            let ghost dotted0 = dotted;
            let c = self.input.as_str().get_char(k);
            proof {
                assert(is_digit_c(s[kk]) || s[kk] == '.');
                assert(dots_in(s, kk, endi) == (if s[kk] == '.' {
                    1int
                } else {
                    0int
                }) + dots_in(s, kk + 1, endi));
                assert(digits_in(s, kk, endi) == (if is_digit_c(s[kk]) {
                    1int
                } else {
                    0int
                }) + digits_in(s, kk + 1, endi));
            }
            if c == '.' {
                dotted = true;
                dots = dots + 1;
                proof {
                    assert(num_val_s(s, kk, endi, acc0, scale0, dotted0) == num_val_s(
                        s,
                        kk + 1,
                        endi,
                        acc0,
                        scale0,
                        true,
                    ));
                }
            } else {
                proof {
                    assert(is_digit_c(c));
                    assert(c as u32 >= 48);
                }
                let d = (c as u32) - 48;
                let dr = rat_from_i64(d as i64);
                let shifted = rat_mul(&acc, &ten);
                acc = rat_add(&shifted, &dr);
                if dotted {
                    let ghost old_scale = scale;
                    let scaled = rat_mul(&scale, &ten);
                    proof {
                        crate::rat::lemma_pos_mul(rat_num(old_scale), 10);
                        crate::rat::lemma_eq_pos(
                            rat_frac(scaled),
                            crate::rat::frac_mul(rat_frac(old_scale), frac_int(10)),
                        );
                    }
                    scale = scaled;
                }
                digits = digits + 1;
                proof {
                    assert(num_val_s(s, kk, endi, acc0, scale0, dotted0) == num_val_s(
                        s,
                        kk + 1,
                        endi,
                        s_fadd(s_fmul(acc0, frac_int(10)), frac_int(digit_val(s[kk]))),
                        if dotted0 {
                            s_fmul(scale0, frac_int(10))
                        } else {
                            scale0
                        },
                        dotted0,
                    ));
                    assert(rat_frac(acc) == s_fadd(s_fmul(acc0, frac_int(10)), frac_int(
                        digit_val(s[kk]),
                    )));
                }
            }
            k = k + 1;
        }
        if dots > 1 || digits == 0 {
            return Err(Error::LexError { ch: '.' });
        }
        let v = if dotted {
            rat_div(&acc, &scale)
        } else {
            acc
        };
        Ok(Token::Float(v))
    }

    /// Produces the next token, or the end-of-input token, skipping
    /// whitespace and comments; fails on a character that begins no token.
    pub fn next_token(&mut self) -> (r: Result<Token, Error>)
        requires
            old(self).wf(),
        ensures
            final(self).wf(),
            final(self).src() == old(self).src(),
            final(self).pos() >= old(self).pos(),
            match (r, next_token_s(old(self).src(), old(self).pos())) {
                (Ok(t), LexS::Tok { t: tv, end }) => t@ == tv && final(self).pos() == end
                    && final(self).pos() > old(self).pos(),
                (Ok(t), LexS::End) => t@ == TokenV::EOF,
                (Err(e), LexS::Fail { ch }) => e@ == (ErrV::LexError { ch }),
                _ => false,
            },
    {
        let ghost s = self.src();
        let ghost p0 = self.pos();
        let n = self.input.as_str().unicode_len();
        loop
            invariant
                self.wf(),
                self.src() == s,
                n == s.len(),
                self.pos() >= p0,
                skip_trivia_s(s, p0) == skip_trivia_s(s, self.pos()),
            ensures
                self.wf(),
                self.src() == s,
                self.pos() >= p0,
                self.pos() == skip_trivia_s(s, p0),
                self.pos() < s.len() ==> !is_ws(s[self.pos()]) && s[self.pos()] != '#',
            decreases s.len() - self.pos(),
        {
            let ghost prev = self.pos();
            self.skip_whitespace();
            proof {
                lemma_skip_ws_bounds(s, prev);
                // one step of skip_ws at an already-skipped position stays
                assert(skip_ws_s(s, self.pos()) == self.pos());
            }
            if self.position >= n {
                proof {
                    assert(skip_trivia_s(s, self.pos()) == self.pos());
                    assert(skip_trivia_s(s, prev) == skip_trivia_s(s, self.pos()));
                }
                break;
            }
            let c = self.input.as_str().get_char(self.position);
            if c != '#' {
                proof {
                    assert(skip_trivia_s(s, self.pos()) == self.pos());
                    assert(skip_trivia_s(s, prev) == skip_trivia_s(s, self.pos()));
                }
                break;
            }
            // a comment runs to the end of the line
            let ghost chash = self.pos();
            self.position = self.position + 1;
            while self.position < n
                invariant
                    self.src() == s,
                    n == s.len(),
                    chash < self.pos() <= s.len(),
                    line_end_s(s, chash + 1) == line_end_s(s, self.pos()),
                ensures
                    self.src() == s,
                    n == s.len(),
                    chash < self.pos() <= s.len(),
                    self.pos() == line_end_s(s, chash + 1),
                decreases n - self.position,
            {
                let c2 = self.input.as_str().get_char(self.position);
                if c2 == '\n' {
                    break;
                }
                self.position = self.position + 1;
            }
            proof {
                assert(skip_ws_s(s, chash) == chash);
                assert(skip_trivia_s(s, chash) == skip_trivia_s(s, line_end_s(s, chash + 1)));
                assert(skip_trivia_s(s, prev) == skip_trivia_s(s, chash));
            }
        }
        proof {
            assert(self.pos() >= p0);
            assert(self.pos() == skip_trivia_s(s, p0));
        }
        if self.position >= n {
            return Ok(Token::EOF);
        }
        let c = self.input.as_str().get_char(self.position);
        self.position = self.position + 1;
        proof {
            assert(self.pos() > p0);
        }
        if c == '+' {
            Ok(Token::Plus)
        } else if c == '-' {
            Ok(Token::Minus)
        } else if c == '*' {
            Ok(Token::Star)
        } else if c == '/' {
            Ok(Token::Slash)
        } else if c == '>' {
            Ok(Token::GreaterThan)
        } else if c == '<' {
            Ok(Token::LessThan)
        } else if c == '=' {
            Ok(Token::Assign)
        } else if c == '{' {
            Ok(Token::LBrace)
        } else if c == '}' {
            Ok(Token::RBrace)
        } else if c == '(' {
            Ok(Token::LParen)
        } else if c == ')' {
            Ok(Token::RParen)
        } else if c == ',' {
            Ok(Token::Comma)
        } else if c == '"' {
            Ok(self.read_string_literal())
        } else if (c >= '0' && c <= '9') || c == '.' {
            self.read_number(c)
        } else if (c >= 'a' && c <= 'z') || (c >= 'A' && c <= 'Z') || c == '_' {
            Ok(self.read_identifier(c))
        } else {
            Err(Error::LexError { ch: c })
        }
    }

    /// Tokenizes the rest of the input: every token in order, ended by the
    /// end-of-input token, or the first lexical failure.
    pub fn tokenize(&mut self) -> (r: Result<Vec<Token>, Error>)
        requires
            old(self).wf(),
        ensures
            match r {
                Ok(v) => lex_all_s(
                    old(self).src(),
                    old(self).pos(),
                    (old(self).src().len() - old(self).pos() + 1) as nat,
                ) == LexAllRes::Toks(token_views(v@)),
                Err(e) => exists|ch: char|
                    lex_all_s(
                        old(self).src(),
                        old(self).pos(),
                        (old(self).src().len() - old(self).pos() + 1) as nat,
                    ) == LexAllRes::Fail(ch) && e@ == (ErrV::LexError { ch }),
            },
    {
        let ghost s = self.src();
        let ghost p0 = self.pos();
        let ghost f0 = (s.len() - p0 + 1) as nat;
        let mut out: Vec<Token> = Vec::new();
        loop
            invariant
                self.wf(),
                self.src() == s,
                s == old(self).src(),
                p0 == old(self).pos(),
                0 <= p0 <= s.len(),
                f0 == (s.len() - p0 + 1) as nat,
                self.pos() >= p0 + out@.len(),
                lex_all_s(s, p0, f0) == lex_prepend(
                    token_views(out@),
                    lex_all_s(s, self.pos(), (f0 - out@.len()) as nat),
                ),
            decreases s.len() - self.pos(),
        {
            let ghost pcur = self.pos();
            let ghost fcur = (f0 - out@.len()) as nat;
            proof {
                assert(out@.len() <= pcur - p0);
                assert(pcur <= s.len());
                assert(fcur >= 1);
            }
            match self.next_token() {
                Err(e) => {
                    proof {
                        match next_token_s(s, pcur) {
                            LexS::Fail { ch } => {
                                assert(lex_all_s(s, pcur, fcur) == LexAllRes::Fail(ch));
                                assert(lex_all_s(s, p0, f0) == LexAllRes::Fail(ch));
                                assert(e@ == (ErrV::LexError { ch }));
                            },
                            _ => {
                                assert(false);
                            },
                        }
                    }
                    return Err(e);
                },
                Ok(t) => {
                    let is_end = match &t {
                        Token::EOF => true,
                        _ => false,
                    };
                    let ghost old_out = out@;
                    let ghost tv0 = t@;
                    out.push(t);
                    proof {
                        assert(token_views(out@) =~= token_views(old_out) + seq![tv0]);
                    }
                    if is_end {
                        proof {
                            assert(next_token_s(s, pcur) is End);
                            assert(lex_all_s(s, pcur, fcur) == LexAllRes::Toks(seq![TokenV::EOF]));
                            assert(token_views(old_out) + seq![TokenV::EOF] =~= token_views(out@));
                            assert(lex_all_s(s, p0, f0) == LexAllRes::Toks(token_views(out@)));
                        }
                        return Ok(out);
                    }
                    proof {
                        match next_token_s(s, pcur) {
                            LexS::Tok { t: tv, end } => {
                                assert(tv == tv0);
                                assert(end == self.pos());
                                let rest = lex_all_s(s, end, (fcur - 1) as nat);
                                match rest {
                                    LexAllRes::Toks(r) => {
                                        assert(lex_all_s(s, pcur, fcur) == LexAllRes::Toks(
                                            seq![tv] + r,
                                        ));
                                        assert(token_views(old_out) + (seq![tv] + r)
                                            =~= token_views(out@) + r);
                                        assert(lex_all_s(s, p0, f0) == lex_prepend(
                                            token_views(out@),
                                            rest,
                                        ));
                                    },
                                    _ => {
                                        assert(lex_all_s(s, pcur, fcur) == rest);
                                        assert(lex_all_s(s, p0, f0) == lex_prepend(
                                            token_views(out@),
                                            rest,
                                        ));
                                    },
                                }
                                assert((f0 - out@.len()) as nat == (fcur - 1) as nat);
                            },
                            _ => {
                                assert(false);
                            },
                        }
                    }
                },
            }
        }
    }
}

/// A scanned token is never the end-of-input token.
pub proof fn lemma_next_token_not_eof(s: Seq<char>, i: int)
    ensures
        next_token_s(s, i) matches LexS::Tok { t, end } ==> !(t is EOF),
{
}

/// A lexed stream is one or more tokens, exactly its last one the
/// end-of-input token.
pub proof fn lemma_lex_all_wf(s: Seq<char>, i: int, fuel: nat)
    ensures
        lex_all_s(s, i, fuel) matches LexAllRes::Toks(ts) ==> {
            &&& ts.len() >= 1
            &&& ts.last() == TokenV::EOF
            &&& forall|j: int| 0 <= j < ts.len() - 1 ==> !((#[trigger] ts[j]) is EOF)
        },
    decreases fuel,
{
    if fuel > 0 {
        match next_token_s(s, i) {
            LexS::Tok { t, end } => {
                lemma_next_token_not_eof(s, i);
                lemma_lex_all_wf(s, end, (fuel - 1) as nat);
            },
            _ => {},
        }
    }
}

/// Whether a lexeme equals a keyword.
fn kw_eq(s: &String, w: &str) -> (r: bool)
    ensures
        r == (s@ == w@),
{
    let ws = w.to_owned();
    *s == ws
}

} // verus!
