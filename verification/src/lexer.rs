//! The tokenizer: turns source text into the token sequence of the grammar,
//! with greedy longest-match rules for operators and signed radix literals.
//!
//! `spec_tokenize` is the mathematical definition of tokenization; the
//! executable `Lexer::tokenize` returns exactly what it prescribes.

use vstd::prelude::*;

use crate::ast::LuaNumber;

verus! {

use vstd::std_specs::iter::IteratorSpec;

/// A lexical error: the offending character and where it stands, or
/// `character: None` for a literal whose value conversion failed
/// (a mantissa or exponent out of range, or an exponent with no digits).
#[derive(Debug, Clone, PartialEq)]
pub struct LexerError {
    pub position: usize,
    pub character: Option<char>,
}

/// The mathematical form of a lexical error, with an unbounded position.
pub struct SpecLexError {
    pub position: int,
    pub character: Option<char>,
}

impl View for LexerError {
    type V = SpecLexError;

    open spec fn view(&self) -> SpecLexError {
        SpecLexError { position: self.position as int, character: self.character }
    }
}

/// One lexical token of the language.
#[derive(Debug, Clone, PartialEq, Default)]
pub enum Token {
    #[default]
    Invalid,
    // Keywords
    And,
    Break,
    Do,
    Else,
    Elseif,
    End,
    False,
    For,
    Function,
    If,
    In,
    Local,
    Nil,
    Not,
    Or,
    Repeat,
    Return,
    Then,
    True,
    Until,
    While,
    // Operators and punctuation
    Assignment,
    Tilde,
    Equal,
    NotEq,
    LessThanOrEqual,
    GreaterThanOrEqual,
    LessThan,
    GreaterThan,
    Plus,
    Minus,
    Multiply,
    Divide,
    Modulo,
    Xor,
    Length,
    LeftParen,
    RightParen,
    LeftBracket,
    RightBracket,
    LeftSquareBracket,
    RightSquareBracket,
    Semicolon,
    Colon,
    Comma,
    Period,
    DoublePeriod,
    TriplePeriod,
    // Literals
    Number(LuaNumber),
    Identifier(String),
    String(String),
    Comment(String),
}

/// The mathematical form of a token, with text as `Seq<char>`.
pub enum SpecToken {
    Invalid,
    And,
    Break,
    Do,
    Else,
    Elseif,
    End,
    False,
    For,
    Function,
    If,
    In,
    Local,
    Nil,
    Not,
    Or,
    Repeat,
    Return,
    Then,
    True,
    Until,
    While,
    Assignment,
    Tilde,
    Equal,
    NotEq,
    LessThanOrEqual,
    GreaterThanOrEqual,
    LessThan,
    GreaterThan,
    Plus,
    Minus,
    Multiply,
    Divide,
    Modulo,
    Xor,
    Length,
    LeftParen,
    RightParen,
    LeftBracket,
    RightBracket,
    LeftSquareBracket,
    RightSquareBracket,
    Semicolon,
    Colon,
    Comma,
    Period,
    DoublePeriod,
    TriplePeriod,
    Number(LuaNumber),
    Identifier(Seq<char>),
    String(Seq<char>),
    Comment(Seq<char>),
}

impl View for Token {
    type V = SpecToken;

    open spec fn view(&self) -> SpecToken {
        match self {
            Token::Invalid => SpecToken::Invalid,
            Token::And => SpecToken::And,
            Token::Break => SpecToken::Break,
            Token::Do => SpecToken::Do,
            Token::Else => SpecToken::Else,
            Token::Elseif => SpecToken::Elseif,
            Token::End => SpecToken::End,
            Token::False => SpecToken::False,
            Token::For => SpecToken::For,
            Token::Function => SpecToken::Function,
            Token::If => SpecToken::If,
            Token::In => SpecToken::In,
            Token::Local => SpecToken::Local,
            Token::Nil => SpecToken::Nil,
            Token::Not => SpecToken::Not,
            Token::Or => SpecToken::Or,
            Token::Repeat => SpecToken::Repeat,
            Token::Return => SpecToken::Return,
            Token::Then => SpecToken::Then,
            Token::True => SpecToken::True,
            Token::Until => SpecToken::Until,
            Token::While => SpecToken::While,
            Token::Assignment => SpecToken::Assignment,
            Token::Tilde => SpecToken::Tilde,
            Token::Equal => SpecToken::Equal,
            Token::NotEq => SpecToken::NotEq,
            Token::LessThanOrEqual => SpecToken::LessThanOrEqual,
            Token::GreaterThanOrEqual => SpecToken::GreaterThanOrEqual,
            Token::LessThan => SpecToken::LessThan,
            Token::GreaterThan => SpecToken::GreaterThan,
            Token::Plus => SpecToken::Plus,
            Token::Minus => SpecToken::Minus,
            Token::Multiply => SpecToken::Multiply,
            Token::Divide => SpecToken::Divide,
            Token::Modulo => SpecToken::Modulo,
            Token::Xor => SpecToken::Xor,
            Token::Length => SpecToken::Length,
            Token::LeftParen => SpecToken::LeftParen,
            Token::RightParen => SpecToken::RightParen,
            Token::LeftBracket => SpecToken::LeftBracket,
            Token::RightBracket => SpecToken::RightBracket,
            Token::LeftSquareBracket => SpecToken::LeftSquareBracket,
            Token::RightSquareBracket => SpecToken::RightSquareBracket,
            Token::Semicolon => SpecToken::Semicolon,
            Token::Colon => SpecToken::Colon,
            Token::Comma => SpecToken::Comma,
            Token::Period => SpecToken::Period,
            Token::DoublePeriod => SpecToken::DoublePeriod,
            Token::TriplePeriod => SpecToken::TriplePeriod,
            Token::Number(n) => SpecToken::Number(*n),
            Token::Identifier(s) => SpecToken::Identifier(s@),
            Token::String(s) => SpecToken::String(s@),
            Token::Comment(s) => SpecToken::Comment(s@),
        }
    }
}

/// The view of a token vector: the sequence of token views.
pub open spec fn view_token_seq(s: Seq<Token>) -> Seq<SpecToken> {
    s.map_values(|t: Token| t@)
}

// ---------------------------------------------------------------------------
// Character classes.
// ---------------------------------------------------------------------------

/// Whitespace skipped between tokens: space, tab, newline, form feed.
pub open spec fn is_ws(c: char) -> bool {
    c == ' ' || c == '\t' || c == '\n' || c == '\u{000C}'
}

pub open spec fn is_digit(c: char) -> bool {
    48 <= c as u32 <= 57
}

pub open spec fn is_hex_digit(c: char) -> bool {
    is_digit(c) || (97 <= c as u32 <= 102) || (65 <= c as u32 <= 70)
}

pub open spec fn is_bin_digit(c: char) -> bool {
    c == '0' || c == '1'
}

/// A character that may start an identifier: a letter or an underscore.
pub open spec fn is_ident_start(c: char) -> bool {
    (65 <= c as u32 <= 90) || (97 <= c as u32 <= 122) || c == '_'
}

pub open spec fn is_ident_char(c: char) -> bool {
    is_ident_start(c) || is_digit(c)
}

/// The value of one digit under the given radix (2, 10 or 16).
pub open spec fn digit_value(c: char, radix: int) -> int {
    if radix == 16 && 97 <= c as u32 <= 102 {
        c as u32 - 87
    } else if radix == 16 && 65 <= c as u32 <= 70 {
        c as u32 - 55
    } else {
        c as u32 - 48
    }
}

pub open spec fn is_radix_digit(c: char, radix: int) -> bool {
    if radix == 16 {
        is_hex_digit(c)
    } else if radix == 2 {
        is_bin_digit(c)
    } else {
        is_digit(c)
    }
}

fn is_digit_e(c: char) -> (r: bool)
    ensures
        r == is_digit(c),
{
    let u = c as u32;
    48 <= u && u <= 57
}

fn is_hex_digit_e(c: char) -> (r: bool)
    ensures
        r == is_hex_digit(c),
{
    let u = c as u32;
    (48 <= u && u <= 57) || (97 <= u && u <= 102) || (65 <= u && u <= 70)
}

fn is_ident_start_e(c: char) -> (r: bool)
    ensures
        r == is_ident_start(c),
{
    let u = c as u32;
    (65 <= u && u <= 90) || (97 <= u && u <= 122) || c == '_'
}

fn is_ident_char_e(c: char) -> (r: bool)
    ensures
        r == is_ident_char(c),
{
    is_ident_start_e(c) || is_digit_e(c)
}

fn is_ws_e(c: char) -> (r: bool)
    ensures
        r == is_ws(c),
{
    c == ' ' || c == '\t' || c == '\n' || c == '\u{000C}'
}

// ---------------------------------------------------------------------------
// Scanners: where a maximal run of a character class ends.
// ---------------------------------------------------------------------------

/// The first position at or after `i` whose character is not a digit of the
/// radix (or the end of the text).
pub open spec fn scan_radix(s: Seq<char>, i: int, radix: int) -> int
    decreases s.len() - i,
{
    if 0 <= i < s.len() && is_radix_digit(s[i], radix) {
        scan_radix(s, i + 1, radix)
    } else {
        i
    }
}

/// The first position at or after `i` whose character cannot continue an
/// identifier.
pub open spec fn scan_ident(s: Seq<char>, i: int) -> int
    decreases s.len() - i,
{
    if 0 <= i < s.len() && is_ident_char(s[i]) {
        scan_ident(s, i + 1)
    } else {
        i
    }
}

/// The first position at or after `i` holding a newline (or the end).
pub open spec fn scan_line(s: Seq<char>, i: int) -> int
    decreases s.len() - i,
{
    if 0 <= i < s.len() && s[i] != '\n' {
        scan_line(s, i + 1)
    } else {
        i
    }
}

/// An escape accepted inside a string delimited by quote `q`.
pub open spec fn is_escape(c: char, q: char) -> bool {
    c == q || c == '\\' || c == 'b' || c == 'n' || c == 'f' || c == 'r' || c == 't'
}

/// The position of the closing quote `q`, scanning from `i`, or `None` for
/// an unterminated string or an escape the literal pattern does not accept.
pub open spec fn scan_string_end(s: Seq<char>, i: int, q: char) -> Option<int>
    decreases s.len() - i,
{
    if i < 0 || i >= s.len() {
        None
    } else if s[i] == q {
        Some(i)
    } else if s[i] == '\\' {
        if i + 1 < s.len() && is_escape(s[i + 1], q) {
            scan_string_end(s, i + 2, q)
        } else {
            None
        }
    } else {
        scan_string_end(s, i + 1, q)
    }
}

/// The value of the digits `s[i..j)` read under `radix`, continuing from the
/// accumulator: the fold `acc -> acc * radix + digit`.
pub open spec fn digits_value(s: Seq<char>, i: int, j: int, radix: int, acc: int) -> int
    decreases j - i,
{
    if i >= j {
        acc
    } else {
        digits_value(s, i + 1, j, radix, acc * radix + digit_value(s[i], radix))
    }
}

/// Every character of a scanned radix run is a digit of that radix.
proof fn lemma_scan_radix_digits(s: Seq<char>, i: int, radix: int)
    ensures
        forall|k: int| i <= k < scan_radix(s, i, radix) ==> is_radix_digit(s[k], radix),
    decreases s.len() - i,
{
    if 0 <= i < s.len() && is_radix_digit(s[i], radix) {
        lemma_scan_radix_digits(s, i + 1, radix);
    }
}

/// A scan never moves backward.
proof fn lemma_scan_radix_ge(s: Seq<char>, i: int, radix: int)
    ensures
        scan_radix(s, i, radix) >= i,
    decreases s.len() - i,
{
    if 0 <= i < s.len() && is_radix_digit(s[i], radix) {
        lemma_scan_radix_ge(s, i + 1, radix);
    }
}

/// An identifier scan never moves backward.
proof fn lemma_scan_ident_ge(s: Seq<char>, i: int)
    ensures
        scan_ident(s, i) >= i,
    decreases s.len() - i,
{
    if 0 <= i < s.len() && is_ident_char(s[i]) {
        lemma_scan_ident_ge(s, i + 1);
    }
}

/// Reading more digits never lowers the value: the fold only grows from a
/// non-negative accumulator.
proof fn lemma_digits_value_ge_acc(s: Seq<char>, i: int, j: int, radix: int, acc: int)
    requires
        radix >= 2,
        acc >= 0,
        forall|k: int| i <= k < j ==> is_radix_digit(s[k], radix),
    ensures
        digits_value(s, i, j, radix, acc) >= acc,
    decreases j - i,
{
    if i < j {
        let d = digit_value(s[i], radix);
        assert(d >= 0) by {
            assert(is_radix_digit(s[i], radix));
        }
        assert(acc * radix >= acc) by (nonlinear_arith)
            requires
                acc >= 0,
                radix >= 2,
        ;
        lemma_digits_value_ge_acc(s, i + 1, j, radix, acc * radix + d);
    }
}

// ---------------------------------------------------------------------------
// The token grammar, as one spec function per construct.
// ---------------------------------------------------------------------------

/// A keyword token for this identifier text, if it is one.
pub open spec fn kw_token(n: Seq<char>) -> Option<SpecToken> {
    if n.len() == 2 && n[0] == 'd' && n[1] == 'o' {
        Some(SpecToken::Do)
    } else if n.len() == 2 && n[0] == 'i' && n[1] == 'f' {
        Some(SpecToken::If)
    } else if n.len() == 2 && n[0] == 'i' && n[1] == 'n' {
        Some(SpecToken::In)
    } else if n.len() == 2 && n[0] == 'o' && n[1] == 'r' {
        Some(SpecToken::Or)
    } else if n.len() == 3 && n[0] == 'a' && n[1] == 'n' && n[2] == 'd' {
        Some(SpecToken::And)
    } else if n.len() == 3 && n[0] == 'e' && n[1] == 'n' && n[2] == 'd' {
        Some(SpecToken::End)
    } else if n.len() == 3 && n[0] == 'f' && n[1] == 'o' && n[2] == 'r' {
        Some(SpecToken::For)
    } else if n.len() == 3 && n[0] == 'n' && n[1] == 'i' && n[2] == 'l' {
        Some(SpecToken::Nil)
    } else if n.len() == 3 && n[0] == 'n' && n[1] == 'o' && n[2] == 't' {
        Some(SpecToken::Not)
    } else if n.len() == 4 && n[0] == 'e' && n[1] == 'l' && n[2] == 's' && n[3] == 'e' {
        Some(SpecToken::Else)
    } else if n.len() == 4 && n[0] == 't' && n[1] == 'h' && n[2] == 'e' && n[3] == 'n' {
        Some(SpecToken::Then)
    } else if n.len() == 4 && n[0] == 't' && n[1] == 'r' && n[2] == 'u' && n[3] == 'e' {
        Some(SpecToken::True)
    } else if n.len() == 5 && n[0] == 'b' && n[1] == 'r' && n[2] == 'e' && n[3] == 'a' && n[4]
        == 'k' {
        Some(SpecToken::Break)
    } else if n.len() == 5 && n[0] == 'f' && n[1] == 'a' && n[2] == 'l' && n[3] == 's' && n[4]
        == 'e' {
        Some(SpecToken::False)
    } else if n.len() == 5 && n[0] == 'l' && n[1] == 'o' && n[2] == 'c' && n[3] == 'a' && n[4]
        == 'l' {
        Some(SpecToken::Local)
    } else if n.len() == 5 && n[0] == 'u' && n[1] == 'n' && n[2] == 't' && n[3] == 'i' && n[4]
        == 'l' {
        Some(SpecToken::Until)
    } else if n.len() == 5 && n[0] == 'w' && n[1] == 'h' && n[2] == 'i' && n[3] == 'l' && n[4]
        == 'e' {
        Some(SpecToken::While)
    } else if n.len() == 6 && n[0] == 'e' && n[1] == 'l' && n[2] == 's' && n[3] == 'e' && n[4]
        == 'i' && n[5] == 'f' {
        Some(SpecToken::Elseif)
    } else if n.len() == 6 && n[0] == 'r' && n[1] == 'e' && n[2] == 'p' && n[3] == 'e' && n[4]
        == 'a' && n[5] == 't' {
        Some(SpecToken::Repeat)
    } else if n.len() == 6 && n[0] == 'r' && n[1] == 'e' && n[2] == 't' && n[3] == 'u' && n[4]
        == 'r' && n[5] == 'n' {
        Some(SpecToken::Return)
    } else if n.len() == 8 && n[0] == 'f' && n[1] == 'u' && n[2] == 'n' && n[3] == 'c' && n[4]
        == 't' && n[5] == 'i' && n[6] == 'o' && n[7] == 'n' {
        Some(SpecToken::Function)
    } else {
        None
    }
}

pub open spec fn i64_max() -> int {
    0x7fff_ffff_ffff_ffff
}

pub open spec fn i64_min() -> int {
    -0x8000_0000_0000_0000
}

pub open spec fn u64_max() -> int {
    0xffff_ffff_ffff_ffff
}

/// The numeric literal beginning at `pos` (which holds a digit, or a minus
/// sign directly followed by a digit): its exact value and its end, or an
/// error when a mantissa or exponent does not fit its machine range.
pub open spec fn sp_number(s: Seq<char>, pos: int) -> Result<(SpecToken, int), SpecLexError> {
    let neg = s[pos] == '-';
    let p0 = if neg {
        pos + 1
    } else {
        pos
    };
    if p0 + 2 < s.len() && s[p0] == '0' && s[p0 + 1] == 'x' && is_hex_digit(s[p0 + 2]) {
        sp_radix_number(s, pos, neg, p0 + 2, 16)
    } else if p0 + 2 < s.len() && s[p0] == '0' && s[p0 + 1] == 'b' && is_bin_digit(s[p0 + 2]) {
        sp_radix_number(s, pos, neg, p0 + 2, 2)
    } else {
        sp_decimal_number(s, pos, neg, p0)
    }
}

/// A hexadecimal or binary literal: digits from `d0`, read as a signed
/// 64-bit magnitude.
pub open spec fn sp_radix_number(s: Seq<char>, pos: int, neg: bool, d0: int, radix: int) -> Result<
    (SpecToken, int),
    SpecLexError,
> {
    let end = scan_radix(s, d0, radix);
    let v = digits_value(s, d0, end, radix, 0);
    if v <= i64_max() {
        Ok(
            (
                SpecToken::Number(
                    LuaNumber { negative: neg, mantissa: v as u64, exponent: 0 },
                ),
                end,
            ),
        )
    } else {
        Err(SpecLexError { position: pos, character: None })
    }
}

/// A decimal literal: integer digits, an optional fraction, an optional
/// exponent. The mantissa is all digits run together; the exponent is the
/// written exponent minus the number of fraction digits.
pub open spec fn sp_decimal_number(s: Seq<char>, pos: int, neg: bool, p0: int) -> Result<
    (SpecToken, int),
    SpecLexError,
> {
    let int_end = scan_radix(s, p0, 10);
    let fs = if int_end < s.len() && s[int_end] == '.' {
        int_end + 1
    } else {
        int_end
    };
    let fe = if int_end < s.len() && s[int_end] == '.' {
        scan_radix(s, int_end + 1, 10)
    } else {
        int_end
    };
    let m = digits_value(s, fs, fe, 10, digits_value(s, p0, int_end, 10, 0));
    let fraclen = fe - fs;
    if fe < s.len() && (s[fe] == 'e' || s[fe] == 'E') {
        let ds = if fe + 1 < s.len() && (s[fe + 1] == '+' || s[fe + 1] == '-') {
            fe + 2
        } else {
            fe + 1
        };
        let esign_neg = fe + 1 < s.len() && s[fe + 1] == '-';
        let de = scan_radix(s, ds, 10);
        if de == ds {
            Err(SpecLexError { position: pos, character: None })
        } else {
            let ev = digits_value(s, ds, de, 10, 0);
            let exp = (if esign_neg {
                -ev
            } else {
                ev
            }) - fraclen;
            if m <= u64_max() && ev <= i64_max() && i64_min() <= exp <= i64_max() {
                Ok(
                    (
                        SpecToken::Number(
                            LuaNumber {
                                negative: neg,
                                mantissa: m as u64,
                                exponent: exp as i64,
                            },
                        ),
                        de,
                    ),
                )
            } else {
                Err(SpecLexError { position: pos, character: None })
            }
        }
    } else {
        let exp = -fraclen;
        if m <= u64_max() && i64_min() <= exp {
            Ok(
                (
                    SpecToken::Number(
                        LuaNumber { negative: neg, mantissa: m as u64, exponent: exp as i64 },
                    ),
                    fe,
                ),
            )
        } else {
            Err(SpecLexError { position: pos, character: None })
        }
    }
}

/// The token beginning at `pos`, which is not whitespace: the token and the
/// position just after it.
pub open spec fn sp_next(s: Seq<char>, pos: int) -> Result<(SpecToken, int), SpecLexError> {
    let n = s.len();
    let c = s[pos];
    if c == '-' {
        if pos + 1 < n && s[pos + 1] == '-' {
            let end = scan_line(s, pos + 2);
            Ok((SpecToken::Comment(s.subrange(pos + 2, end)), end))
        } else if pos + 1 < s.len() && is_digit(s[pos + 1]) {
            sp_number(s, pos)
        } else {
            Ok((SpecToken::Minus, pos + 1))
        }
    } else if is_digit(c) {
        sp_number(s, pos)
    } else if is_ident_start(c) {
        let end = scan_ident(s, pos);
        let name = s.subrange(pos, end);
        match kw_token(name) {
            Some(t) => Ok((t, end)),
            None => Ok((SpecToken::Identifier(name), end)),
        }
    } else if c == '"' || c == '\'' {
        match scan_string_end(s, pos + 1, c) {
            Some(q) => Ok((SpecToken::String(s.subrange(pos + 1, q)), q + 1)),
            None => Err(SpecLexError { position: pos, character: Some(c) }),
        }
    } else if c == '=' {
        if pos + 1 < s.len() && s[pos + 1] == '=' {
            Ok((SpecToken::Equal, pos + 2))
        } else {
            Ok((SpecToken::Assignment, pos + 1))
        }
    } else if c == '~' {
        if pos + 1 < s.len() && s[pos + 1] == '=' {
            Ok((SpecToken::NotEq, pos + 2))
        } else {
            Ok((SpecToken::Tilde, pos + 1))
        }
    } else if c == '<' {
        if pos + 1 < s.len() && s[pos + 1] == '=' {
            Ok((SpecToken::LessThanOrEqual, pos + 2))
        } else {
            Ok((SpecToken::LessThan, pos + 1))
        }
    } else if c == '>' {
        if pos + 1 < s.len() && s[pos + 1] == '=' {
            Ok((SpecToken::GreaterThanOrEqual, pos + 2))
        } else {
            Ok((SpecToken::GreaterThan, pos + 1))
        }
    } else if c == '.' {
        if pos + 1 < s.len() && s[pos + 1] == '.' {
            if pos + 2 < s.len() && s[pos + 2] == '.' {
                Ok((SpecToken::TriplePeriod, pos + 3))
            } else {
                Ok((SpecToken::DoublePeriod, pos + 2))
            }
        } else {
            Ok((SpecToken::Period, pos + 1))
        }
    } else if c == '+' {
        Ok((SpecToken::Plus, pos + 1))
    } else if c == '*' {
        Ok((SpecToken::Multiply, pos + 1))
    } else if c == '/' {
        Ok((SpecToken::Divide, pos + 1))
    } else if c == '%' {
        Ok((SpecToken::Modulo, pos + 1))
    } else if c == '^' {
        Ok((SpecToken::Xor, pos + 1))
    } else if c == '#' {
        Ok((SpecToken::Length, pos + 1))
    } else if c == '(' {
        Ok((SpecToken::LeftParen, pos + 1))
    } else if c == ')' {
        Ok((SpecToken::RightParen, pos + 1))
    } else if c == '{' {
        Ok((SpecToken::LeftBracket, pos + 1))
    } else if c == '}' {
        Ok((SpecToken::RightBracket, pos + 1))
    } else if c == '[' {
        Ok((SpecToken::LeftSquareBracket, pos + 1))
    } else if c == ']' {
        Ok((SpecToken::RightSquareBracket, pos + 1))
    } else if c == ';' {
        Ok((SpecToken::Semicolon, pos + 1))
    } else if c == ':' {
        Ok((SpecToken::Colon, pos + 1))
    } else if c == ',' {
        Ok((SpecToken::Comma, pos + 1))
    } else {
        Err(SpecLexError { position: pos, character: Some(c) })
    }
}

/// The tokens of `s` from `pos` on: whitespace is skipped, every token must
/// make progress, and an error anywhere fails the whole tokenization.
pub open spec fn sp_tokens(s: Seq<char>, pos: int) -> Result<Seq<SpecToken>, SpecLexError>
    decreases s.len() - pos,
{
    if pos < 0 || pos >= s.len() {
        Ok(Seq::empty())
    } else if is_ws(s[pos]) {
        sp_tokens(s, pos + 1)
    } else {
        match sp_next(s, pos) {
            Err(e) => Err(e),
            Ok((t, p2)) => {
                if pos < p2 <= s.len() {
                    match sp_tokens(s, p2) {
                        Ok(ts) => Ok(seq![t] + ts),
                        Err(e) => Err(e),
                    }
                } else {
                    Err(SpecLexError { position: pos, character: None })
                }
            },
        }
    }
}

/// What tokenizing a text means: the token sequence, or the first error.
pub open spec fn spec_tokenize(s: Seq<char>) -> Result<Seq<SpecToken>, SpecLexError> {
    sp_tokens(s, 0)
}

// ---------------------------------------------------------------------------
// Executable scanning.
// ---------------------------------------------------------------------------

/// Relies on String::push: appends exactly the given character.
#[verifier::external_body]
pub(crate) fn string_push_char(s: &mut String, c: char)
    ensures
        final(s)@ == old(s)@.push(c),
{
    s.push(c);
}

/// The characters of the text `s[i..j)` as an owned string.
fn chars_to_string(s: &Vec<char>, i: usize, j: usize) -> (r: String)
    requires
        i <= j <= s@.len(),
    ensures
        r@ == s@.subrange(i as int, j as int),
{
    let mut out = String::new();
    let mut k: usize = i;
    while k < j
        invariant
            i <= k <= j <= s@.len(),
            out@ == s@.subrange(i as int, k as int),
        decreases j - k,
    {
        string_push_char(&mut out, s[k]);
        proof {
            assert(s@.subrange(i as int, k as int).push(s@[k as int]) =~= s@.subrange(
                i as int,
                k + 1,
            ));
        }
        k += 1;
    }
    out
}

/// The characters of a string, in order.
fn str_chars(code: &str) -> (r: Vec<char>)
    ensures
        r@ == code@,
{
    broadcast use vstd::string::axiom_spec_iter, vstd::string::next_postcondition;

    let mut out: Vec<char> = Vec::new();
    let mut it = code.chars();
    loop
        invariant
            it.obeys_prophetic_iter_laws(),
            it.decrease() is Some,
            out@ + it.remaining() == code@,
        decreases it.decrease()->0,
    {
        match it.next() {
            Some(c) => {
                out.push(c);
                proof {
                    assert(out@ + it.remaining() =~= code@);
                }
            },
            None => {
                proof {
                    assert(out@ =~= code@);
                }
                return out;
            },
        }
    }
}

/// The keyword token for the identifier `s[i..j)`, if that text is a keyword.
fn keyword_token(s: &Vec<char>, i: usize, j: usize) -> (r: Option<Token>)
    requires
        i <= j <= s@.len(),
    ensures
        match r {
            Some(t) => kw_token(s@.subrange(i as int, j as int)) == Some(t@),
            None => kw_token(s@.subrange(i as int, j as int)) is None,
        },
{
    let n = j - i;
    let r = if n == 2 {
        if s[i] == 'd' && s[i + 1] == 'o' {
            Some(Token::Do)
        } else if s[i] == 'i' && s[i + 1] == 'f' {
            Some(Token::If)
        } else if s[i] == 'i' && s[i + 1] == 'n' {
            Some(Token::In)
        } else if s[i] == 'o' && s[i + 1] == 'r' {
            Some(Token::Or)
        } else {
            None
        }
    } else if n == 3 {
        if s[i] == 'a' && s[i + 1] == 'n' && s[i + 2] == 'd' {
            Some(Token::And)
        } else if s[i] == 'e' && s[i + 1] == 'n' && s[i + 2] == 'd' {
            Some(Token::End)
        } else if s[i] == 'f' && s[i + 1] == 'o' && s[i + 2] == 'r' {
            Some(Token::For)
        } else if s[i] == 'n' && s[i + 1] == 'i' && s[i + 2] == 'l' {
            Some(Token::Nil)
        } else if s[i] == 'n' && s[i + 1] == 'o' && s[i + 2] == 't' {
            Some(Token::Not)
        } else {
            None
        }
    } else if n == 4 {
        if s[i] == 'e' && s[i + 1] == 'l' && s[i + 2] == 's' && s[i + 3] == 'e' {
            Some(Token::Else)
        } else if s[i] == 't' && s[i + 1] == 'h' && s[i + 2] == 'e' && s[i + 3] == 'n' {
            Some(Token::Then)
        } else if s[i] == 't' && s[i + 1] == 'r' && s[i + 2] == 'u' && s[i + 3] == 'e' {
            Some(Token::True)
        } else {
            None
        }
    } else if n == 5 {
        if s[i] == 'b' && s[i + 1] == 'r' && s[i + 2] == 'e' && s[i + 3] == 'a' && s[i + 4]
            == 'k' {
            Some(Token::Break)
        } else if s[i] == 'f' && s[i + 1] == 'a' && s[i + 2] == 'l' && s[i + 3] == 's' && s[i
            + 4] == 'e' {
            Some(Token::False)
        } else if s[i] == 'l' && s[i + 1] == 'o' && s[i + 2] == 'c' && s[i + 3] == 'a' && s[i
            + 4] == 'l' {
            Some(Token::Local)
        } else if s[i] == 'u' && s[i + 1] == 'n' && s[i + 2] == 't' && s[i + 3] == 'i' && s[i
            + 4] == 'l' {
            Some(Token::Until)
        } else if s[i] == 'w' && s[i + 1] == 'h' && s[i + 2] == 'i' && s[i + 3] == 'l' && s[i
            + 4] == 'e' {
            Some(Token::While)
        } else {
            None
        }
    } else if n == 6 {
        if s[i] == 'e' && s[i + 1] == 'l' && s[i + 2] == 's' && s[i + 3] == 'e' && s[i + 4]
            == 'i' && s[i + 5] == 'f' {
            Some(Token::Elseif)
        } else if s[i] == 'r' && s[i + 1] == 'e' && s[i + 2] == 'p' && s[i + 3] == 'e' && s[i
            + 4] == 'a' && s[i + 5] == 't' {
            Some(Token::Repeat)
        } else if s[i] == 'r' && s[i + 1] == 'e' && s[i + 2] == 't' && s[i + 3] == 'u' && s[i
            + 4] == 'r' && s[i + 5] == 'n' {
            Some(Token::Return)
        } else {
            None
        }
    } else if n == 8 {
        if s[i] == 'f' && s[i + 1] == 'u' && s[i + 2] == 'n' && s[i + 3] == 'c' && s[i + 4]
            == 't' && s[i + 5] == 'i' && s[i + 6] == 'o' && s[i + 7] == 'n' {
            Some(Token::Function)
        } else {
            None
        }
    } else {
        None
    };
    proof {
        let name = s@.subrange(i as int, j as int);
        assert(name.len() == n);
        assert(forall|k: int| 0 <= k < name.len() ==> name[k] == s@[i + k]);
    }
    r
}

/// Digits of the given radix from `start` on, folded into a value, stopping
/// where the class ends: the end of the run and the value, or `None` when
/// the value exceeds `bound`.
fn scan_digits_value(s: &Vec<char>, start: usize, radix: u32, bound: u128) -> (r: (
    usize,
    Option<u128>,
))
    requires
        start <= s@.len(),
        radix == 2 || radix == 10 || radix == 16,
        bound <= 0xffff_ffff_ffff_ffff,
    ensures
        r.0 == scan_radix(s@, start as int, radix as int),
        start <= r.0 <= s@.len(),
        match r.1 {
            Some(v) => v == digits_value(s@, start as int, r.0 as int, radix as int, 0) && v
                <= bound,
            None => digits_value(s@, start as int, r.0 as int, radix as int, 0) > bound,
        },
{
    let ghost gs = s@;
    let ghost end = scan_radix(s@, start as int, radix as int);
    let mut k: usize = start;
    let mut acc: u128 = 0;
    proof {
        lemma_scan_radix_digits(gs, start as int, radix as int);
    }
    loop
        invariant
            start <= k <= gs.len(),
            s@ == gs,
            end == scan_radix(gs, start as int, radix as int),
            scan_radix(gs, k as int, radix as int) == end,
            acc <= bound,
            bound <= 0xffff_ffff_ffff_ffff,
            radix == 2 || radix == 10 || radix == 16,
            forall|m: int| start <= m < end ==> is_radix_digit(gs[m], radix as int),
            digits_value(gs, start as int, end, radix as int, 0) == digits_value(
                gs,
                k as int,
                end,
                radix as int,
                acc as int,
            ),
        ensures
            start <= k <= gs.len(),
            scan_radix(gs, k as int, radix as int) == end,
            acc <= bound,
            k == gs.len() || !is_radix_digit(gs[k as int], radix as int),
            digits_value(gs, start as int, end, radix as int, 0) == digits_value(
                gs,
                k as int,
                end,
                radix as int,
                acc as int,
            ),
        decreases gs.len() - k,
    {
        if k >= s.len() {
            break ;
        }
        let c = s[k];
        let is_d = if radix == 16 {
            is_hex_digit_e(c)
        } else if radix == 2 {
            c == '0' || c == '1'
        } else {
            is_digit_e(c)
        };
        if !is_d {
            break ;
        }
        let d: u32 = if radix == 16 && 97 <= c as u32 && c as u32 <= 102 {
            c as u32 - 87
        } else if radix == 16 && 65 <= c as u32 && c as u32 <= 70 {
            c as u32 - 55
        } else {
            c as u32 - 48
        };
        assert(d as int == digit_value(c, radix as int));
        proof {
            lemma_scan_radix_ge(gs, k + 1, radix as int);
        }
        assert(k < end);
        let next: u128 = acc * radix as u128 + d as u128;
        if next > bound {
            proof {
                lemma_digits_value_ge_acc(gs, k + 1, end, radix as int, next as int);
            }
            return (
                scan_radix_end(s, k, radix),
                None,
            );
        }
        acc = next;
        k += 1;
    }
    assert(k as int == end);
    (k, Some(acc))
}

/// The end of a radix-digit run, without its value.
fn scan_radix_end(s: &Vec<char>, start: usize, radix: u32) -> (r: usize)
    requires
        start <= s@.len(),
        radix == 2 || radix == 10 || radix == 16,
    ensures
        r == scan_radix(s@, start as int, radix as int),
        start <= r <= s@.len(),
{
    let mut k: usize = start;
    loop
        invariant
            start <= k <= s@.len(),
            radix == 2 || radix == 10 || radix == 16,
            scan_radix(s@, k as int, radix as int) == scan_radix(s@, start as int, radix as int),
        ensures
            start <= k <= s@.len(),
            scan_radix(s@, k as int, radix as int) == scan_radix(s@, start as int, radix as int),
            k == s@.len() || !is_radix_digit(s@[k as int], radix as int),
        decreases s@.len() - k,
    {
        if k >= s.len() {
            break ;
        }
        let c = s[k];
        let is_d = if radix == 16 {
            is_hex_digit_e(c)
        } else if radix == 2 {
            c == '0' || c == '1'
        } else {
            is_digit_e(c)
        };
        if !is_d {
            break ;
        }
        k += 1;
    }
    k
}

/// The numeric literal beginning at `pos`; exactly `sp_number`.
fn scan_number(s: &Vec<char>, pos: usize) -> (r: Result<(Token, usize), LexerError>)
    requires
        pos < s@.len(),
        is_digit(s@[pos as int]) || (s@[pos as int] == '-' && pos + 1 < s@.len() && is_digit(
            s@[pos + 1],
        )),
    ensures
        match r {
            Ok((t, p)) => sp_number(s@, pos as int) == Ok::<(SpecToken, int), SpecLexError>(
                (t@, p as int),
            ) && pos < p <= s@.len(),
            Err(e) => sp_number(s@, pos as int) == Err::<(SpecToken, int), SpecLexError>(e@),
        },
{
    let n = s.len();
    let neg = s[pos] == '-';
    let p0 = if neg {
        pos + 1
    } else {
        pos
    };
    let is_hex_lit = n - p0 > 2 && s[p0] == '0' && s[p0 + 1] == 'x' && is_hex_digit_e(
        s[p0 + 2],
    );
    let is_bin_lit = !is_hex_lit && n - p0 > 2 && s[p0] == '0' && s[p0 + 1] == 'b' && (s[p0
        + 2] == '0' || s[p0 + 2] == '1');
    if is_hex_lit || is_bin_lit {
        let radix: u32 = if is_hex_lit {
            16
        } else {
            2
        };
        let (end, v) = scan_digits_value(s, p0 + 2, radix, 0x7fff_ffff_ffff_ffff);
        match v {
            Some(v) => {
                assert(p0 + 2 < end) by {
                    assert(is_radix_digit(s@[p0 + 2], radix as int));
                    lemma_scan_radix_ge(s@, p0 + 3, radix as int);
                }
                Ok(
                    (
                        Token::Number(
                            LuaNumber { negative: neg, mantissa: v as u64, exponent: 0 },
                        ),
                        end,
                    ),
                )
            },
            None => Err(LexerError { position: pos, character: None }),
        }
    } else {
        scan_decimal(s, pos, neg, p0)
    }
}

/// The decimal literal beginning at `p0` (sign already consumed); exactly
/// `sp_decimal_number`.
fn scan_decimal(s: &Vec<char>, pos: usize, neg: bool, p0: usize) -> (r: Result<
    (Token, usize),
    LexerError,
>)
    requires
        pos <= p0 < s@.len(),
        is_digit(s@[p0 as int]),
        neg == (s@[pos as int] == '-'),
        p0 == if neg {
            pos + 1
        } else {
            pos as int
        },
        sp_number(s@, pos as int) == sp_decimal_number(s@, pos as int, neg, p0 as int),
    ensures
        match r {
            Ok((t, p)) => sp_number(s@, pos as int) == Ok::<(SpecToken, int), SpecLexError>(
                (t@, p as int),
            ) && pos < p <= s@.len(),
            Err(e) => sp_number(s@, pos as int) == Err::<(SpecToken, int), SpecLexError>(e@),
        },
{
    let u64max: u128 = 0xffff_ffff_ffff_ffff;
    let (int_end, int_v) = scan_digits_value(s, p0, 10, u64max as u128);
    proof {
        lemma_scan_radix_ge(s@, p0 + 1, 10);
    }
    assert(p0 < int_end);
    let has_frac = int_end < s.len() && s[int_end] == '.';
    let fs = if has_frac {
        int_end + 1
    } else {
        int_end
    };
    // Fold the fraction digits onto the integer value by rescanning from the
    // start of the whole digit run would repeat work; instead continue the
    // fold from the integer value.
    let m_opt: Option<u128> = match int_v {
        None => None,
        Some(iv) => {
            if has_frac {
                continue_digits_value(s, fs, iv, u64max)
            } else {
                Some(iv)
            }
        },
    };
    let fe = if has_frac {
        scan_radix_end(s, fs, 10)
    } else {
        int_end
    };
    proof {
        if int_v is None {
            lemma_scan_radix_digits(s@, fs as int, 10);
            lemma_digits_value_ge_acc(
                s@,
                fs as int,
                fe as int,
                10,
                digits_value(s@, p0 as int, int_end as int, 10, 0),
            );
        }
    }
    let has_exp = fe < s.len() && (s[fe] == 'e' || s[fe] == 'E');
    if has_exp {
        let has_sign = fe + 1 < s.len() && (s[fe + 1] == '+' || s[fe + 1] == '-');
        let esign_neg = fe + 1 < s.len() && s[fe + 1] == '-';
        let ds = if has_sign {
            fe + 2
        } else {
            fe + 1
        };
        if ds > s.len() {
            // No digits can follow: the exponent is malformed.
            assert(scan_radix(s@, ds as int, 10) == ds);
            return Err(LexerError { position: pos, character: None });
        }
        let (de, ev_opt) = scan_digits_value(s, ds, 10, 0x7fff_ffff_ffff_ffff);
        if de == ds {
            return Err(LexerError { position: pos, character: None });
        }
        match (m_opt, ev_opt) {
            (Some(m), Some(ev)) => {
                let fraclen: u128 = (fe - fs) as u128;
                let exp: i128 = (if esign_neg {
                    -(ev as i128)
                } else {
                    ev as i128
                }) - fraclen as i128;
                if -0x8000_0000_0000_0000i128 <= exp && exp <= 0x7fff_ffff_ffff_ffffi128 {
                    Ok(
                        (
                            Token::Number(
                                LuaNumber {
                                    negative: neg,
                                    mantissa: m as u64,
                                    exponent: exp as i64,
                                },
                            ),
                            de,
                        ),
                    )
                } else {
                    Err(LexerError { position: pos, character: None })
                }
            },
            _ => Err(LexerError { position: pos, character: None }),
        }
    } else {
        match m_opt {
            Some(m) => {
                let fraclen: u128 = (fe - fs) as u128;
                let exp: i128 = -(fraclen as i128);
                if -0x8000_0000_0000_0000i128 <= exp {
                    Ok(
                        (
                            Token::Number(
                                LuaNumber {
                                    negative: neg,
                                    mantissa: m as u64,
                                    exponent: exp as i64,
                                },
                            ),
                            fe,
                        ),
                    )
                } else {
                    Err(LexerError { position: pos, character: None })
                }
            },
            None => Err(LexerError { position: pos, character: None }),
        }
    }
}

/// Continue the digit fold from an already-accumulated value over the digit
/// run starting at `start`; `None` when the value exceeds `bound`.
fn continue_digits_value(s: &Vec<char>, start: usize, acc0: u128, bound: u128) -> (r: Option<u128>)
    requires
        start <= s@.len(),
        acc0 <= bound,
        bound <= 0xffff_ffff_ffff_ffff,
    ensures
        ({
            let end = scan_radix(s@, start as int, 10);
            let v = digits_value(s@, start as int, end, 10, acc0 as int);
            match r {
                Some(x) => x == v && x <= bound,
                None => v > bound,
            }
        }),
{
    let ghost gs = s@;
    let ghost end = scan_radix(s@, start as int, 10);
    let mut k: usize = start;
    let mut acc: u128 = acc0;
    proof {
        lemma_scan_radix_digits(gs, start as int, 10);
    }
    loop
        invariant
            start <= k <= gs.len(),
            s@ == gs,
            end == scan_radix(gs, start as int, 10),
            scan_radix(gs, k as int, 10) == end,
            acc <= bound,
            bound <= 0xffff_ffff_ffff_ffff,
            forall|m: int| start <= m < end ==> is_radix_digit(gs[m], 10),
            digits_value(gs, start as int, end, 10, acc0 as int) == digits_value(
                gs,
                k as int,
                end,
                10,
                acc as int,
            ),
        ensures
            start <= k <= gs.len(),
            scan_radix(gs, k as int, 10) == end,
            acc <= bound,
            k == gs.len() || !is_radix_digit(gs[k as int], 10),
            digits_value(gs, start as int, end, 10, acc0 as int) == digits_value(
                gs,
                k as int,
                end,
                10,
                acc as int,
            ),
        decreases gs.len() - k,
    {
        if k >= s.len() {
            break ;
        }
        let c = s[k];
        if !is_digit_e(c) {
            break ;
        }
        let d: u32 = c as u32 - 48;
        assert(d as int == digit_value(c, 10));
        proof {
            lemma_scan_radix_ge(gs, k + 1, 10);
        }
        assert(k < end);
        let next: u128 = acc * 10 + d as u128;
        if next > bound {
            proof {
                lemma_digits_value_ge_acc(gs, k + 1, end, 10, next as int);
            }
            return None;
        }
        acc = next;
        k += 1;
    }
    assert(k as int == end);
    Some(acc)
}

/// The end of the string literal opened at `pos` with quote `q`; exactly
/// `scan_string_end`.
fn scan_string(s: &Vec<char>, pos: usize, q: char) -> (r: Option<usize>)
    requires
        pos <= s@.len(),
    ensures
        match r {
            Some(e) => scan_string_end(s@, pos as int, q) == Some(e as int) && pos <= e < s@.len(),
            None => scan_string_end(s@, pos as int, q) is None,
        },
{
    let ghost gs = s@;
    let mut k: usize = pos;
    loop
        invariant
            pos <= k <= gs.len(),
            s@ == gs,
            scan_string_end(gs, pos as int, q) == scan_string_end(gs, k as int, q),
        decreases gs.len() - k,
    {
        if k >= s.len() {
            return None;
        }
        let c = s[k];
        if c == q {
            return Some(k);
        }
        if c == '\\' {
            if k + 1 < s.len() && {
                let e = s[k + 1];
                e == q || e == '\\' || e == 'b' || e == 'n' || e == 'f' || e == 'r' || e == 't'
            } {
                k += 2;
            } else {
                return None;
            }
        } else {
            k += 1;
        }
    }
}

/// The end of an identifier run; exactly `scan_ident`.
fn scan_ident_end(s: &Vec<char>, start: usize) -> (r: usize)
    requires
        start <= s@.len(),
    ensures
        r == scan_ident(s@, start as int),
        start <= r <= s@.len(),
{
    let mut k: usize = start;
    while k < s.len() && is_ident_char_e(s[k])
        invariant
            start <= k <= s@.len(),
            scan_ident(s@, k as int) == scan_ident(s@, start as int),
        decreases s@.len() - k,
    {
        k += 1;
    }
    k
}

/// The end of a comment line; exactly `scan_line`.
fn scan_line_end(s: &Vec<char>, start: usize) -> (r: usize)
    requires
        start <= s@.len(),
    ensures
        r == scan_line(s@, start as int),
        start <= r <= s@.len(),
{
    let mut k: usize = start;
    while k < s.len() && s[k] != '\n'
        invariant
            start <= k <= s@.len(),
            scan_line(s@, k as int) == scan_line(s@, start as int),
        decreases s@.len() - k,
    {
        k += 1;
    }
    k
}

/// The token beginning at `pos`; exactly `sp_next`.
fn next_token(s: &Vec<char>, pos: usize) -> (r: Result<(Token, usize), LexerError>)
    requires
        pos < s@.len(),
        !is_ws(s@[pos as int]),
    ensures
        match r {
            Ok((t, p)) => sp_next(s@, pos as int) == Ok::<(SpecToken, int), SpecLexError>(
                (t@, p as int),
            ) && pos < p <= s@.len(),
            Err(e) => sp_next(s@, pos as int) == Err::<(SpecToken, int), SpecLexError>(e@),
        },
{
    let n = s.len();
    let c = s[pos];
    if c == '-' {
        if pos + 1 < n && s[pos + 1] == '-' {
            let end = scan_line_end(s, pos + 2);
            let text = chars_to_string(s, pos + 2, end);
            Ok((Token::Comment(text), end))
        } else if pos + 1 < n && is_digit_e(s[pos + 1]) {
            scan_number(s, pos)
        } else {
            Ok((Token::Minus, pos + 1))
        }
    } else if is_digit_e(c) {
        scan_number(s, pos)
    } else if is_ident_start_e(c) {
        let end = scan_ident_end(s, pos);
        assert(pos < end) by {
            assert(is_ident_char(s@[pos as int]));
            lemma_scan_ident_ge(s@, pos + 1);
        }
        match keyword_token(s, pos, end) {
            Some(t) => Ok((t, end)),
            None => {
                let name = chars_to_string(s, pos, end);
                Ok((Token::Identifier(name), end))
            },
        }
    } else if c == '"' || c == '\'' {
        match scan_string(s, pos + 1, c) {
            Some(q) => {
                let text = chars_to_string(s, pos + 1, q);
                Ok((Token::String(text), q + 1))
            },
            None => Err(LexerError { position: pos, character: Some(c) }),
        }
    } else if c == '=' {
        if pos + 1 < s.len() && s[pos + 1] == '=' {
            Ok((Token::Equal, pos + 2))
        } else {
            Ok((Token::Assignment, pos + 1))
        }
    } else if c == '~' {
        if pos + 1 < s.len() && s[pos + 1] == '=' {
            Ok((Token::NotEq, pos + 2))
        } else {
            Ok((Token::Tilde, pos + 1))
        }
    } else if c == '<' {
        if pos + 1 < s.len() && s[pos + 1] == '=' {
            Ok((Token::LessThanOrEqual, pos + 2))
        } else {
            Ok((Token::LessThan, pos + 1))
        }
    } else if c == '>' {
        if pos + 1 < s.len() && s[pos + 1] == '=' {
            Ok((Token::GreaterThanOrEqual, pos + 2))
        } else {
            Ok((Token::GreaterThan, pos + 1))
        }
    } else if c == '.' {
        if pos + 1 < s.len() && s[pos + 1] == '.' {
            if pos + 2 < s.len() && s[pos + 2] == '.' {
                Ok((Token::TriplePeriod, pos + 3))
            } else {
                Ok((Token::DoublePeriod, pos + 2))
            }
        } else {
            Ok((Token::Period, pos + 1))
        }
    } else if c == '+' {
        Ok((Token::Plus, pos + 1))
    } else if c == '*' {
        Ok((Token::Multiply, pos + 1))
    } else if c == '/' {
        Ok((Token::Divide, pos + 1))
    } else if c == '%' {
        Ok((Token::Modulo, pos + 1))
    } else if c == '^' {
        Ok((Token::Xor, pos + 1))
    } else if c == '#' {
        Ok((Token::Length, pos + 1))
    } else if c == '(' {
        Ok((Token::LeftParen, pos + 1))
    } else if c == ')' {
        Ok((Token::RightParen, pos + 1))
    } else if c == '{' {
        Ok((Token::LeftBracket, pos + 1))
    } else if c == '}' {
        Ok((Token::RightBracket, pos + 1))
    } else if c == '[' {
        Ok((Token::LeftSquareBracket, pos + 1))
    } else if c == ']' {
        Ok((Token::RightSquareBracket, pos + 1))
    } else if c == ';' {
        Ok((Token::Semicolon, pos + 1))
    } else if c == ':' {
        Ok((Token::Colon, pos + 1))
    } else if c == ',' {
        Ok((Token::Comma, pos + 1))
    } else {
        Err(LexerError { position: pos, character: Some(c) })
    }
}

/// Prepend already-produced tokens to the outcome of the rest of the text.
pub open spec fn ok_prepend(
    p: Seq<SpecToken>,
    r: Result<Seq<SpecToken>, SpecLexError>,
) -> Result<Seq<SpecToken>, SpecLexError> {
    match r {
        Ok(ts) => Ok(p + ts),
        Err(e) => Err(e),
    }
}

/// Tokenize the characters `cs`; exactly `spec_tokenize`.
fn tokenize_chars(cs: &Vec<char>) -> (r: Result<Vec<Token>, LexerError>)
    ensures
        match r {
            Ok(toks) => spec_tokenize(cs@) == Ok::<Seq<SpecToken>, SpecLexError>(
                view_token_seq(toks@),
            ),
            Err(e) => spec_tokenize(cs@) == Err::<Seq<SpecToken>, SpecLexError>(e@),
        },
{
    let ghost gs = cs@;
    let mut out: Vec<Token> = Vec::new();
    let mut pos: usize = 0;
    proof {
        assert(view_token_seq(out@) =~= Seq::<SpecToken>::empty());
        assert(sp_tokens(gs, 0) == ok_prepend(view_token_seq(out@), sp_tokens(gs, 0)));
    }
    while pos < cs.len()
        invariant
            pos <= gs.len(),
            cs@ == gs,
            sp_tokens(gs, 0) == ok_prepend(view_token_seq(out@), sp_tokens(gs, pos as int)),
        decreases gs.len() - pos,
    {
        let c = cs[pos];
        if is_ws_e(c) {
            pos += 1;
        } else {
            match next_token(cs, pos) {
                Ok((t, p2)) => {
                    proof {
                        let rest = sp_tokens(gs, p2 as int);
                        let prev = view_token_seq(out@);
                        assert(sp_tokens(gs, pos as int) == ok_prepend(seq![t@], rest));
                        assert(view_token_seq(out@.push(t)) =~= prev.push(t@));
                        if rest is Ok {
                            assert((prev + (seq![t@] + rest->Ok_0)) =~= (prev.push(t@)
                                + rest->Ok_0));
                        }
                    }
                    out.push(t);
                    pos = p2;
                },
                Err(e) => {
                    return Err(e);
                },
            }
        }
    }
    proof {
        assert(sp_tokens(gs, pos as int) == Ok::<Seq<SpecToken>, SpecLexError>(Seq::empty()));
        assert(view_token_seq(out@) + Seq::<SpecToken>::empty() =~= view_token_seq(out@));
    }
    Ok(out)
}

/// The tokenizer over a source text held as a string.
pub struct Lexer {
    pub code: String,
}

impl Lexer {
    /// Hold a source text for tokenization.
    pub fn new(code: String) -> (r: Lexer)
        ensures
            r.code == code,
    {
        Lexer { code }
    }

    /// All tokens of the held text in source order, or the first lexical
    /// error; exactly `spec_tokenize` on the text.
    pub fn tokenize(&self) -> (r: Result<Vec<Token>, LexerError>)
        ensures
            match r {
                Ok(toks) => spec_tokenize(self.code@) == Ok::<Seq<SpecToken>, SpecLexError>(
                    view_token_seq(toks@),
                ),
                Err(e) => spec_tokenize(self.code@) == Err::<Seq<SpecToken>, SpecLexError>(e@),
            },
    {
        let cs = str_chars(self.code.as_str());
        tokenize_chars(&cs)
    }
}

/// Tokenize a source text: the standalone entry point of the tokenizer.
pub fn tokenize(code: &str) -> (r: Result<Vec<Token>, LexerError>)
    ensures
        match r {
            Ok(toks) => spec_tokenize(code@) == Ok::<Seq<SpecToken>, SpecLexError>(
                view_token_seq(toks@),
            ),
            Err(e) => spec_tokenize(code@) == Err::<Seq<SpecToken>, SpecLexError>(e@),
        },
{
    let cs = str_chars(code);
    tokenize_chars(&cs)
}

} // verus!
