//! The lexer: turns a character stream into tokens.
//!
//! Every operation is specified against a functional model of the token
//! stream (`next_token_at`, `lex_all`), so tokenisation is a pure function
//! of the input text: the same input always yields the same tokens.

use crate::current_iterator::CurrentIterator;
use crate::syntax_error::SyntaxError;
use vstd::prelude::*;

verus! {

use vstd::std_specs::iter::IteratorSpec;

broadcast use vstd::string::next_postcondition, vstd::string::axiom_spec_iter;

/// A token: either one of the fixed keywords, operators and punctuation
/// marks, or an identifier or literal carrying its text or value.
/// Character literals lex to `IntegerLiteral` holding the code point.
#[derive(Debug, PartialEq, Clone)]
pub enum Token {
    SimpleToken(SimpleToken),
    Identifier(String),
    StringLiteral(String),
    IntegerLiteral(u64),
}

/// The mathematical model of a token: identifier and string contents as
/// character sequences.
pub enum TokenView {
    SimpleToken(SimpleToken),
    Identifier(Seq<char>),
    StringLiteral(Seq<char>),
    IntegerLiteral(u64),
}

impl View for Token {
    type V = TokenView;

    open spec fn view(&self) -> TokenView {
        match self {
            Token::SimpleToken(t) => TokenView::SimpleToken(*t),
            Token::Identifier(s) => TokenView::Identifier(s@),
            Token::StringLiteral(s) => TokenView::StringLiteral(s@),
            Token::IntegerLiteral(n) => TokenView::IntegerLiteral(*n),
        }
    }
}

/// The fixed tokens: keywords, operators, assignment operators and
/// punctuation.
#[derive(Debug, PartialEq, Eq, Clone, Copy, Structural)]
pub enum SimpleToken {
    // Keywords
    Let,
    Mut,
    If,
    Else,
    Break,
    Continue,
    Loop,
    While,
    // Unary operators
    LogicalNot,
    BitwiseNot,
    // Binary operators
    Exponentiate,
    Multiply,
    Divide,
    Modulus,
    Add,
    Subtract,
    LeftShift,
    RightShift,
    Greater,
    Less,
    GreaterEqual,
    LessEqual,
    Equal,
    NotEqual,
    BitwiseAnd,
    BitwiseXor,
    BitwiseOr,
    LogicalAnd,
    LogicalOr,
    // Assignment operators
    ExponentiationAssignment,
    AdditionAssignment,
    SubtractionAssignment,
    MultiplicationAssignment,
    DivisionAssignment,
    ModulusAssignment,
    BitwiseAndAssignment,
    BitwiseOrAssignment,
    BitwiseXorAssignment,
    LeftShiftAssignment,
    RightShiftAssignment,
    Assignment,
    // Punctuation
    Semicolon,
    LParen,
    RParen,
    LBrace,
    RBrace,
    Comma,
}

// ---------------------------------------------------------------------------
// Character classes (ASCII)
// ---------------------------------------------------------------------------

/// Whitespace between tokens: space, tab, line feed, vertical tab, form
/// feed, carriage return.
pub open spec fn is_space_char(c: char) -> bool {
    let u = c as u32;
    u == 32 || u == 9 || u == 10 || u == 11 || u == 12 || u == 13
}

/// A character that may continue an identifier or a keyword: ASCII letters,
/// digits and underscore.
pub open spec fn is_word_char(c: char) -> bool {
    let u = c as u32;
    (97 <= u && u <= 122) || (65 <= u && u <= 90) || (48 <= u && u <= 57) || u == 95
}

/// A character that may start an identifier: an ASCII letter or underscore.
pub open spec fn is_ident_start_char(c: char) -> bool {
    let u = c as u32;
    (97 <= u && u <= 122) || (65 <= u && u <= 90) || u == 95
}

/// The numeric value of `c` as a digit (accepting both letter cases), or an
/// out-of-range marker.
pub open spec fn spec_digit_value(c: char) -> u32 {
    let u = c as u32;
    if 48 <= u && u <= 57 {
        (u - 48) as u32
    } else if 97 <= u && u <= 102 {
        (u - 87) as u32
    } else if 65 <= u && u <= 70 {
        (u - 55) as u32
    } else {
        99
    }
}

/// Whether `c` is a digit in base `radix`.
pub open spec fn is_digit_in(c: char, radix: u32) -> bool {
    spec_digit_value(c) < radix
}

fn is_space(c: char) -> (r: bool)
    ensures
        r == is_space_char(c),
{
    let u = c as u32;
    u == 32 || u == 9 || u == 10 || u == 11 || u == 12 || u == 13
}

fn is_word(c: char) -> (r: bool)
    ensures
        r == is_word_char(c),
{
    let u = c as u32;
    (97 <= u && u <= 122) || (65 <= u && u <= 90) || (48 <= u && u <= 57) || u == 95
}

fn is_ident_start(c: char) -> (r: bool)
    ensures
        r == is_ident_start_char(c),
{
    let u = c as u32;
    (97 <= u && u <= 122) || (65 <= u && u <= 90) || u == 95
}

fn digit_value(c: char) -> (r: u32)
    ensures
        r == spec_digit_value(c),
{
    let u = c as u32;
    if 48 <= u && u <= 57 {
        u - 48
    } else if 97 <= u && u <= 102 {
        u - 87
    } else if 65 <= u && u <= 70 {
        u - 55
    } else {
        99
    }
}

// ---------------------------------------------------------------------------
// The token stream as a function of the text
// ---------------------------------------------------------------------------

/// The first position at or after `pos` holding a non-whitespace character,
/// or the end of the text.
pub open spec fn skip_ws(s: Seq<char>, pos: int) -> int
    decreases s.len() - pos,
{
    if 0 <= pos && pos < s.len() && is_space_char(s[pos]) {
        skip_ws(s, pos + 1)
    } else {
        pos
    }
}

/// The text matches `a` at `pos`.
pub open spec fn at1(s: Seq<char>, pos: int, a: char) -> bool {
    pos + 1 <= s.len() && s[pos] == a
}

/// The text matches `a b` at `pos`.
pub open spec fn at2(s: Seq<char>, pos: int, a: char, b: char) -> bool {
    pos + 2 <= s.len() && s[pos] == a && s[pos + 1] == b
}

/// The text matches `a b c` at `pos`.
pub open spec fn at3(s: Seq<char>, pos: int, a: char, b: char, c: char) -> bool {
    pos + 3 <= s.len() && s[pos] == a && s[pos + 1] == b && s[pos + 2] == c
}

/// The text matches `a b c d` at `pos`.
pub open spec fn at4(s: Seq<char>, pos: int, a: char, b: char, c: char, d: char) -> bool {
    at3(s, pos, a, b, c) && at1(s, pos + 3, d)
}

/// The text matches `a b c d e` at `pos`.
pub open spec fn at5(s: Seq<char>, pos: int, a: char, b: char, c: char, d: char, e: char) -> bool {
    at4(s, pos, a, b, c, d) && at1(s, pos + 4, e)
}

/// The text matches `a b c d e f g h` at `pos`.
pub open spec fn at8(
    s: Seq<char>,
    pos: int,
    a: char,
    b: char,
    c: char,
    d: char,
    e: char,
    f: char,
    g: char,
    h: char,
) -> bool {
    at5(s, pos, a, b, c, d, e) && at3(s, pos + 5, f, g, h)
}

/// A keyword of length `len` beginning at `pos` stands on word boundaries:
/// neither the character before it nor the one after it is a word character.
pub open spec fn keyword_boundary(s: Seq<char>, pos: int, len: int) -> bool {
    &&& (pos == 0 || !is_word_char(s[pos - 1]))
    &&& (pos + len == s.len() || !is_word_char(s[pos + len]))
}

/// The fixed token beginning at `pos`, with the position just after it.
/// The alternatives are ordered so that longer operators take precedence
/// over their prefixes, and keywords require word boundaries.
#[verifier::opaque]
pub open spec fn simple_token_at(s: Seq<char>, pos: int) -> Option<(SimpleToken, int)> {
    if at3(s, pos, 'l', 'e', 't') && keyword_boundary(s, pos, 3) {
        Some((SimpleToken::Let, pos + 3))
    } else if at3(s, pos, 'm', 'u', 't') && keyword_boundary(s, pos, 3) {
        Some((SimpleToken::Mut, pos + 3))
    } else if at2(s, pos, 'i', 'f') && keyword_boundary(s, pos, 2) {
        Some((SimpleToken::If, pos + 2))
    } else if at4(s, pos, 'e', 'l', 's', 'e') && keyword_boundary(s, pos, 4) {
        Some((SimpleToken::Else, pos + 4))
    } else if at5(s, pos, 'b', 'r', 'e', 'a', 'k') && keyword_boundary(s, pos, 5) {
        Some((SimpleToken::Break, pos + 5))
    } else if at8(s, pos, 'c', 'o', 'n', 't', 'i', 'n', 'u', 'e') && keyword_boundary(s, pos, 8) {
        Some((SimpleToken::Continue, pos + 8))
    } else if at4(s, pos, 'l', 'o', 'o', 'p') && keyword_boundary(s, pos, 4) {
        Some((SimpleToken::Loop, pos + 4))
    } else if at5(s, pos, 'w', 'h', 'i', 'l', 'e') && keyword_boundary(s, pos, 5) {
        Some((SimpleToken::While, pos + 5))
    } else if at3(s, pos, '*', '*', '=') {
        Some((SimpleToken::ExponentiationAssignment, pos + 3))
    } else if at3(s, pos, '<', '<', '=') {
        Some((SimpleToken::LeftShiftAssignment, pos + 3))
    } else if at3(s, pos, '>', '>', '=') {
        Some((SimpleToken::RightShiftAssignment, pos + 3))
    } else if at2(s, pos, '+', '=') {
        Some((SimpleToken::AdditionAssignment, pos + 2))
    } else if at2(s, pos, '-', '=') {
        Some((SimpleToken::SubtractionAssignment, pos + 2))
    } else if at2(s, pos, '*', '=') {
        Some((SimpleToken::MultiplicationAssignment, pos + 2))
    } else if at2(s, pos, '/', '=') {
        Some((SimpleToken::DivisionAssignment, pos + 2))
    } else if at2(s, pos, '%', '=') {
        Some((SimpleToken::ModulusAssignment, pos + 2))
    } else if at2(s, pos, '&', '=') {
        Some((SimpleToken::BitwiseAndAssignment, pos + 2))
    } else if at2(s, pos, '|', '=') {
        Some((SimpleToken::BitwiseOrAssignment, pos + 2))
    } else if at2(s, pos, '^', '=') {
        Some((SimpleToken::BitwiseXorAssignment, pos + 2))
    } else if at2(s, pos, '*', '*') {
        Some((SimpleToken::Exponentiate, pos + 2))
    } else if at2(s, pos, '<', '<') {
        Some((SimpleToken::LeftShift, pos + 2))
    } else if at2(s, pos, '>', '>') {
        Some((SimpleToken::RightShift, pos + 2))
    } else if at2(s, pos, '>', '=') {
        Some((SimpleToken::GreaterEqual, pos + 2))
    } else if at2(s, pos, '<', '=') {
        Some((SimpleToken::LessEqual, pos + 2))
    } else if at2(s, pos, '=', '=') {
        Some((SimpleToken::Equal, pos + 2))
    } else if at2(s, pos, '!', '=') {
        Some((SimpleToken::NotEqual, pos + 2))
    } else if at2(s, pos, '&', '&') {
        Some((SimpleToken::LogicalAnd, pos + 2))
    } else if at2(s, pos, '|', '|') {
        Some((SimpleToken::LogicalOr, pos + 2))
    } else if at1(s, pos, '*') {
        Some((SimpleToken::Multiply, pos + 1))
    } else if at1(s, pos, '~') {
        Some((SimpleToken::BitwiseNot, pos + 1))
    } else if at1(s, pos, '!') {
        Some((SimpleToken::LogicalNot, pos + 1))
    } else if at1(s, pos, '/') {
        Some((SimpleToken::Divide, pos + 1))
    } else if at1(s, pos, '%') {
        Some((SimpleToken::Modulus, pos + 1))
    } else if at1(s, pos, '+') {
        Some((SimpleToken::Add, pos + 1))
    } else if at1(s, pos, '-') {
        Some((SimpleToken::Subtract, pos + 1))
    } else if at1(s, pos, '>') {
        Some((SimpleToken::Greater, pos + 1))
    } else if at1(s, pos, '<') {
        Some((SimpleToken::Less, pos + 1))
    } else if at1(s, pos, '&') {
        Some((SimpleToken::BitwiseAnd, pos + 1))
    } else if at1(s, pos, '^') {
        Some((SimpleToken::BitwiseXor, pos + 1))
    } else if at1(s, pos, '|') {
        Some((SimpleToken::BitwiseOr, pos + 1))
    } else if at1(s, pos, '=') {
        Some((SimpleToken::Assignment, pos + 1))
    } else if at1(s, pos, ';') {
        Some((SimpleToken::Semicolon, pos + 1))
    } else if at1(s, pos, '(') {
        Some((SimpleToken::LParen, pos + 1))
    } else if at1(s, pos, ')') {
        Some((SimpleToken::RParen, pos + 1))
    } else if at1(s, pos, '{') {
        Some((SimpleToken::LBrace, pos + 1))
    } else if at1(s, pos, '}') {
        Some((SimpleToken::RBrace, pos + 1))
    } else if at1(s, pos, ',') {
        Some((SimpleToken::Comma, pos + 1))
    } else {
        None
    }
}

/// The first position at or after `pos` holding a non-word character, or the
/// end of the text.
pub open spec fn word_end(s: Seq<char>, pos: int) -> int
    decreases s.len() - pos,
{
    if 0 <= pos && pos < s.len() && is_word_char(s[pos]) {
        word_end(s, pos + 1)
    } else {
        pos
    }
}

/// The identifier beginning at `pos`, with the position just after it: a
/// word-start character followed by the maximal run of word characters.
#[verifier::opaque]
pub open spec fn ident_at(s: Seq<char>, pos: int) -> Option<(Seq<char>, int)> {
    if 0 <= pos && pos < s.len() && is_ident_start_char(s[pos]) {
        let end = word_end(s, pos + 1);
        Some((s.subrange(pos, end), end))
    } else {
        None
    }
}

/// The character denoted by the escape `\c`, if `c` is a recognised escape.
pub open spec fn escape_char_value(c: char) -> Option<char> {
    if c == '\\' {
        Some('\\')
    } else if c == '\'' {
        Some('\'')
    } else if c == '"' {
        Some('"')
    } else if c == 'n' {
        Some('\n')
    } else if c == 'r' {
        Some('\r')
    } else if c == 't' {
        Some('\t')
    } else if c == '0' {
        Some('\0')
    } else {
        None
    }
}

/// The remainder of a string literal starting inside the quotes at `i`: its
/// decoded content and the position just after the closing quote, or the
/// error that ends the scan.
#[verifier::opaque]
pub open spec fn string_body_at(s: Seq<char>, i: int) -> Result<(Seq<char>, int), SyntaxError>
    decreases s.len() - i,
{
    if i < 0 || i >= s.len() {
        Err(SyntaxError::UnterminatedStringLiteral)
    } else if s[i] == '"' {
        Ok((Seq::empty(), i + 1))
    } else if s[i] == '\\' {
        if i + 1 >= s.len() {
            Err(SyntaxError::UnterminatedStringLiteral)
        } else {
            match escape_char_value(s[i + 1]) {
                None => Err(SyntaxError::InvalidEscapeSequenceInStringLiteral),
                Some(c) => match string_body_at(s, i + 2) {
                    Ok((rest, end)) => Ok((seq![c] + rest, end)),
                    Err(e) => Err(e),
                },
            }
        }
    } else {
        match string_body_at(s, i + 1) {
            Ok((rest, end)) => Ok((seq![s[i]] + rest, end)),
            Err(e) => Err(e),
        }
    }
}

/// The string literal beginning at `pos`, if the text holds an opening
/// quote there.
#[verifier::opaque]
pub open spec fn string_lit_at(s: Seq<char>, pos: int) -> Result<
    Option<(Seq<char>, int)>,
    SyntaxError,
> {
    if at1(s, pos, '"') {
        match string_body_at(s, pos + 1) {
            Ok((content, end)) => Ok(Some((content, end))),
            Err(e) => Err(e),
        }
    } else {
        Ok(None)
    }
}

/// The base selected by a `0x`/`0b`/`0o` prefix, with the position of the
/// first digit; base 10 and `pos` itself when there is no prefix.
pub open spec fn radix_and_start(s: Seq<char>, pos: int) -> (u32, int) {
    if at2(s, pos, '0', 'x') {
        (16u32, pos + 2)
    } else if at2(s, pos, '0', 'b') {
        (2u32, pos + 2)
    } else if at2(s, pos, '0', 'o') {
        (8u32, pos + 2)
    } else {
        (10u32, pos)
    }
}

/// The first position at or after `pos` holding a character that is not a
/// digit in base `radix`, or the end of the text.
pub open spec fn digit_run_end(s: Seq<char>, pos: int, radix: u32) -> int
    decreases s.len() - pos,
{
    if 0 <= pos && pos < s.len() && is_digit_in(s[pos], radix) {
        digit_run_end(s, pos + 1, radix)
    } else {
        pos
    }
}

/// The value of the digit run `s[from..to]` read in base `radix`.
pub open spec fn digits_val(s: Seq<char>, from: int, to: int, radix: u32) -> nat
    decreases to - from,
{
    if to <= from {
        0
    } else {
        (digits_val(s, from, to - 1, radix) * radix + spec_digit_value(s[to - 1])) as nat
    }
}

/// The integer literal beginning at `pos`: an optional base prefix and the
/// maximal digit run in that base.  `Ok(None)` when there is no digit run or
/// the run is followed by a word character (so `123abc` is not a literal);
/// an error when the value exceeds 64 bits.
#[verifier::opaque]
pub open spec fn int_lit_at(s: Seq<char>, pos: int) -> Result<Option<(u64, int)>, SyntaxError> {
    let (radix, start) = radix_and_start(s, pos);
    let end = digit_run_end(s, start, radix);
    if end < s.len() && is_word_char(s[end]) {
        Ok(None)
    } else if end == start {
        Ok(None)
    } else {
        let v = digits_val(s, start, end, radix);
        if v > u64::MAX as nat {
            Err(SyntaxError::TooLargeIntegerLiteral)
        } else {
            Ok(Some((v as u64, end)))
        }
    }
}

/// The character literal beginning at `pos`: one character or escape between
/// single quotes; its value is the code point.
#[verifier::opaque]
pub open spec fn char_lit_at(s: Seq<char>, pos: int) -> Result<Option<(u64, int)>, SyntaxError> {
    if !at1(s, pos, '\'') {
        Ok(None)
    } else if pos + 1 >= s.len() {
        Err(SyntaxError::UnterminatedCharLiteral)
    } else if s[pos + 1] == '\'' {
        Err(SyntaxError::EmptyCharLiteral)
    } else if s[pos + 1] == '\\' {
        if pos + 2 >= s.len() {
            Err(SyntaxError::UnterminatedCharLiteral)
        } else {
            match escape_char_value(s[pos + 2]) {
                None => Err(SyntaxError::InvalidEscapeSequenceInCharLiteral),
                Some(c) => if at1(s, pos + 3, '\'') {
                    Ok(Some(((c as u32) as u64, pos + 4)))
                } else {
                    Err(SyntaxError::UnterminatedCharLiteral)
                },
            }
        }
    } else {
        if at1(s, pos + 2, '\'') {
            Ok(Some(((s[pos + 1] as u32) as u64, pos + 3)))
        } else {
            Err(SyntaxError::UnterminatedCharLiteral)
        }
    }
}

/// The next token at or after `pos`: whitespace is skipped, then the fixed
/// tokens, identifiers, string literals, integer literals and character
/// literals are tried in that order.  `Ok(None)` only at the end of the
/// text; remaining text that no form matches is an `InvalidToken` error.
pub open spec fn next_token_at(s: Seq<char>, pos: int) -> Result<
    Option<(TokenView, int)>,
    SyntaxError,
> {
    let p = skip_ws(s, pos);
    if p >= s.len() {
        Ok(None)
    } else if simple_token_at(s, p) is Some {
        let (t, q) = simple_token_at(s, p)->0;
        Ok(Some((TokenView::SimpleToken(t), q)))
    } else if ident_at(s, p) is Some {
        let (w, q) = ident_at(s, p)->0;
        Ok(Some((TokenView::Identifier(w), q)))
    } else {
        match string_lit_at(s, p) {
            Err(e) => Err(e),
            Ok(Some((w, q))) => Ok(Some((TokenView::StringLiteral(w), q))),
            Ok(None) => match int_lit_at(s, p) {
                Err(e) => Err(e),
                Ok(Some((v, q))) => Ok(Some((TokenView::IntegerLiteral(v), q))),
                Ok(None) => match char_lit_at(s, p) {
                    Err(e) => Err(e),
                    Ok(Some((v, q))) => Ok(Some((TokenView::IntegerLiteral(v), q))),
                    Ok(None) => Err(SyntaxError::InvalidToken),
                },
            },
        }
    }
}

/// Clamps a claimed next position into `(pos, len]`; the lexer and parser
/// always advance, so for them this is the identity.
pub open spec fn advance(pos: int, q: int, len: int) -> int {
    if pos < q && q <= len {
        q
    } else {
        pos + 1
    }
}

/// The whole token stream of `s` from `pos` on: tokens until no more match,
/// then an `InvalidToken` error if text remains.  Lexing is a pure function
/// of the input, so the same input always yields the same token sequence.
pub open spec fn lex_all(s: Seq<char>, pos: int) -> Result<Seq<TokenView>, SyntaxError>
    decreases s.len() - pos,
{
    if pos < 0 || pos >= s.len() {
        Ok(Seq::empty())
    } else {
        match next_token_at(s, pos) {
            Err(e) => Err(e),
            Ok(None) => if skip_ws(s, pos) == s.len() {
                Ok(Seq::empty())
            } else {
                Err(SyntaxError::InvalidToken)
            },
            Ok(Some((t, q))) => match lex_all(s, advance(pos, q, s.len() as int)) {
                Err(e) => Err(e),
                Ok(ts) => Ok(seq![t] + ts),
            },
        }
    }
}

/// The views of a sequence of tokens.
pub open spec fn token_views(ts: Seq<Token>) -> Seq<TokenView> {
    ts.map_values(|t: Token| t@)
}

/// Lexing is deterministic: equal inputs yield equal token streams.
pub proof fn lemma_lexing_deterministic(s1: Seq<char>, s2: Seq<char>)
    requires
        s1 == s2,
    ensures
        lex_all(s1, 0) == lex_all(s2, 0),
{
}

// ---------------------------------------------------------------------------
// The executable lexer
// ---------------------------------------------------------------------------

/// Relies on String::push: appends one character to the string.
#[verifier::external_body]
fn push_char(s: &mut String, c: char)
    ensures
        final(s)@ == old(s)@.push(c),
{
    s.push(c)
}

fn escape_char(c: char) -> (r: Option<char>)
    ensures
        r == escape_char_value(c),
{
    match c {
        '\\' => Some('\\'),
        '\'' => Some('\''),
        '"' => Some('"'),
        'n' => Some('\n'),
        'r' => Some('\r'),
        't' => Some('\t'),
        '0' => Some('\0'),
        _ => None,
    }
}

/// The lexer: a cursor over the source characters.  Cloning it is cheap and
/// lets the parser speculate; the clone reads ahead without committing the
/// original.
#[derive(Debug, Clone)]
pub struct Lexer {
    pub text: CurrentIterator,
}

impl Lexer {
    /// The source characters.
    pub open spec fn chars(self) -> Seq<char> {
        self.text.items@
    }

    /// How many characters have been consumed.
    pub open spec fn cursor(self) -> int {
        self.text.pos as int
    }

    pub open spec fn wf(self) -> bool {
        self.text.wf()
    }

    pub fn new(input_data: &str) -> (r: Lexer)
        ensures
            r.chars() == input_data@,
            r.cursor() == 0,
            r.wf(),
    {
        let mut v: Vec<char> = Vec::new();
        let mut it = input_data.chars();
        loop
            invariant
                v@ + it.remaining() == input_data@,
                it.decrease() is Some,
            ensures
                v@ + it.remaining() == input_data@,
                it.remaining().len() == 0,
            decreases it.decrease()->0,
        {
            match it.next() {
                Some(c) => {
                    v.push(c);
                },
                None => {
                    break ;
                },
            }
        }
        proof {
            assert(v@ =~= input_data@);
        }
        Lexer { text: CurrentIterator::new(v) }
    }

    /// Consumes whitespace; returns true exactly when only whitespace
    /// remained.
    pub fn consume_whitespace(&mut self) -> (eof: bool)
        requires
            old(self).wf(),
        ensures
            final(self).wf(),
            final(self).chars() == old(self).chars(),
            final(self).cursor() == skip_ws(old(self).chars(), old(self).cursor()),
            eof == (final(self).cursor() == old(self).chars().len()),
    {
        loop
            invariant
                self.wf(),
                self.chars() == old(self).chars(),
                skip_ws(self.chars(), self.cursor()) == skip_ws(
                    old(self).chars(),
                    old(self).cursor(),
                ),
            decreases self.chars().len() - self.cursor(),
        {
            if self.text.pos == self.text.items.len() {
                return true;
            }
            let c = self.text.items[self.text.pos];
            if is_space(c) {
                self.text.pos = self.text.pos + 1;
            } else {
                return false;
            }
        }
    }

    fn at1e(&self, pos: usize, a: char) -> (r: bool)
        requires
            self.wf(),
            pos <= self.chars().len(),
        ensures
            r == at1(self.chars(), pos as int, a),
    {
        self.text.items.len() - pos >= 1 && self.text.items[pos] == a
    }

    fn at2e(&self, pos: usize, a: char, b: char) -> (r: bool)
        requires
            self.wf(),
            pos <= self.chars().len(),
        ensures
            r == at2(self.chars(), pos as int, a, b),
    {
        self.text.items.len() - pos >= 2 && self.text.items[pos] == a && self.text.items[pos + 1]
            == b
    }

    fn at3e(&self, pos: usize, a: char, b: char, c: char) -> (r: bool)
        requires
            self.wf(),
            pos <= self.chars().len(),
        ensures
            r == at3(self.chars(), pos as int, a, b, c),
    {
        self.text.items.len() - pos >= 3 && self.text.items[pos] == a && self.text.items[pos + 1]
            == b && self.text.items[pos + 2] == c
    }

    fn at4e(&self, pos: usize, a: char, b: char, c: char, d: char) -> (r: bool)
        requires
            self.wf(),
            pos <= self.chars().len(),
        ensures
            r == at4(self.chars(), pos as int, a, b, c, d),
    {
        let n = self.text.items.len();
        self.at3e(pos, a, b, c) && self.at1e(pos + 3, d)
    }

    fn at5e(&self, pos: usize, a: char, b: char, c: char, d: char, e: char) -> (r: bool)
        requires
            self.wf(),
            pos <= self.chars().len(),
        ensures
            r == at5(self.chars(), pos as int, a, b, c, d, e),
    {
        let n = self.text.items.len();
        self.at4e(pos, a, b, c, d) && self.at1e(pos + 4, e)
    }

    fn at8e(
        &self,
        pos: usize,
        a: char,
        b: char,
        c: char,
        d: char,
        e: char,
        f: char,
        g: char,
        h: char,
    ) -> (r: bool)
        requires
            self.wf(),
            pos <= self.chars().len(),
        ensures
            r == at8(self.chars(), pos as int, a, b, c, d, e, f, g, h),
    {
        let n = self.text.items.len();
        self.at5e(pos, a, b, c, d, e) && self.at3e(pos + 5, f, g, h)
    }

    fn boundary(&self, pos: usize, klen: usize) -> (r: bool)
        requires
            self.wf(),
            pos + klen <= self.chars().len(),
        ensures
            r == keyword_boundary(self.chars(), pos as int, klen as int),
    {
        let n = self.text.items.len();
        (pos == 0 || !is_word(self.text.items[pos - 1])) && (pos + klen == self.text.items.len()
            || !is_word(self.text.items[pos + klen]))
    }

    /// The fixed token at the cursor, with the position just after it.
    fn match_simple(&self) -> (r: Option<(SimpleToken, usize)>)
        requires
            self.wf(),
        ensures
            match r {
                None => simple_token_at(self.chars(), self.cursor()) is None,
                Some((t, q)) => simple_token_at(self.chars(), self.cursor()) == Some(
                    (t, q as int),
                ),
            },
    {
        proof {
            reveal(simple_token_at);
        }
        let pos = self.text.pos;
        let n = self.text.items.len();
        if self.at3e(pos, 'l', 'e', 't') && self.boundary(pos, 3) {
            Some((SimpleToken::Let, pos + 3))
        } else if self.at3e(pos, 'm', 'u', 't') && self.boundary(pos, 3) {
            Some((SimpleToken::Mut, pos + 3))
        } else if self.at2e(pos, 'i', 'f') && self.boundary(pos, 2) {
            Some((SimpleToken::If, pos + 2))
        } else if self.at4e(pos, 'e', 'l', 's', 'e') && self.boundary(pos, 4) {
            Some((SimpleToken::Else, pos + 4))
        } else if self.at5e(pos, 'b', 'r', 'e', 'a', 'k') && self.boundary(pos, 5) {
            Some((SimpleToken::Break, pos + 5))
        } else if self.at8e(pos, 'c', 'o', 'n', 't', 'i', 'n', 'u', 'e') && self.boundary(pos, 8) {
            Some((SimpleToken::Continue, pos + 8))
        } else if self.at4e(pos, 'l', 'o', 'o', 'p') && self.boundary(pos, 4) {
            Some((SimpleToken::Loop, pos + 4))
        } else if self.at5e(pos, 'w', 'h', 'i', 'l', 'e') && self.boundary(pos, 5) {
            Some((SimpleToken::While, pos + 5))
        } else if self.at3e(pos, '*', '*', '=') {
            Some((SimpleToken::ExponentiationAssignment, pos + 3))
        } else if self.at3e(pos, '<', '<', '=') {
            Some((SimpleToken::LeftShiftAssignment, pos + 3))
        } else if self.at3e(pos, '>', '>', '=') {
            Some((SimpleToken::RightShiftAssignment, pos + 3))
        } else if self.at2e(pos, '+', '=') {
            Some((SimpleToken::AdditionAssignment, pos + 2))
        } else if self.at2e(pos, '-', '=') {
            Some((SimpleToken::SubtractionAssignment, pos + 2))
        } else if self.at2e(pos, '*', '=') {
            Some((SimpleToken::MultiplicationAssignment, pos + 2))
        } else if self.at2e(pos, '/', '=') {
            Some((SimpleToken::DivisionAssignment, pos + 2))
        } else if self.at2e(pos, '%', '=') {
            Some((SimpleToken::ModulusAssignment, pos + 2))
        } else if self.at2e(pos, '&', '=') {
            Some((SimpleToken::BitwiseAndAssignment, pos + 2))
        } else if self.at2e(pos, '|', '=') {
            Some((SimpleToken::BitwiseOrAssignment, pos + 2))
        } else if self.at2e(pos, '^', '=') {
            Some((SimpleToken::BitwiseXorAssignment, pos + 2))
        } else if self.at2e(pos, '*', '*') {
            Some((SimpleToken::Exponentiate, pos + 2))
        } else if self.at2e(pos, '<', '<') {
            Some((SimpleToken::LeftShift, pos + 2))
        } else if self.at2e(pos, '>', '>') {
            Some((SimpleToken::RightShift, pos + 2))
        } else if self.at2e(pos, '>', '=') {
            Some((SimpleToken::GreaterEqual, pos + 2))
        } else if self.at2e(pos, '<', '=') {
            Some((SimpleToken::LessEqual, pos + 2))
        } else if self.at2e(pos, '=', '=') {
            Some((SimpleToken::Equal, pos + 2))
        } else if self.at2e(pos, '!', '=') {
            Some((SimpleToken::NotEqual, pos + 2))
        } else if self.at2e(pos, '&', '&') {
            Some((SimpleToken::LogicalAnd, pos + 2))
        } else if self.at2e(pos, '|', '|') {
            Some((SimpleToken::LogicalOr, pos + 2))
        } else if self.at1e(pos, '*') {
            Some((SimpleToken::Multiply, pos + 1))
        } else if self.at1e(pos, '~') {
            Some((SimpleToken::BitwiseNot, pos + 1))
        } else if self.at1e(pos, '!') {
            Some((SimpleToken::LogicalNot, pos + 1))
        } else if self.at1e(pos, '/') {
            Some((SimpleToken::Divide, pos + 1))
        } else if self.at1e(pos, '%') {
            Some((SimpleToken::Modulus, pos + 1))
        } else if self.at1e(pos, '+') {
            Some((SimpleToken::Add, pos + 1))
        } else if self.at1e(pos, '-') {
            Some((SimpleToken::Subtract, pos + 1))
        } else if self.at1e(pos, '>') {
            Some((SimpleToken::Greater, pos + 1))
        } else if self.at1e(pos, '<') {
            Some((SimpleToken::Less, pos + 1))
        } else if self.at1e(pos, '&') {
            Some((SimpleToken::BitwiseAnd, pos + 1))
        } else if self.at1e(pos, '^') {
            Some((SimpleToken::BitwiseXor, pos + 1))
        } else if self.at1e(pos, '|') {
            Some((SimpleToken::BitwiseOr, pos + 1))
        } else if self.at1e(pos, '=') {
            Some((SimpleToken::Assignment, pos + 1))
        } else if self.at1e(pos, ';') {
            Some((SimpleToken::Semicolon, pos + 1))
        } else if self.at1e(pos, '(') {
            Some((SimpleToken::LParen, pos + 1))
        } else if self.at1e(pos, ')') {
            Some((SimpleToken::RParen, pos + 1))
        } else if self.at1e(pos, '{') {
            Some((SimpleToken::LBrace, pos + 1))
        } else if self.at1e(pos, '}') {
            Some((SimpleToken::RBrace, pos + 1))
        } else if self.at1e(pos, ',') {
            Some((SimpleToken::Comma, pos + 1))
        } else {
            None
        }
    }

    fn get_next_token_simple(&mut self) -> (r: Option<SimpleToken>)
        requires
            old(self).wf(),
        ensures
            final(self).wf(),
            final(self).chars() == old(self).chars(),
            match r {
                None => {
                    &&& simple_token_at(old(self).chars(), old(self).cursor()) is None
                    &&& final(self).cursor() == old(self).cursor()
                },
                Some(t) => {
                    &&& simple_token_at(old(self).chars(), old(self).cursor()) == Some(
                        (t, final(self).cursor()),
                    )
                    &&& old(self).cursor() < final(self).cursor()
                },
            },
    {
        match self.match_simple() {
            None => None,
            Some((t, q)) => {
                proof {
                    lemma_simple_token_advances(self.chars(), self.cursor());
                }
                self.text.pos = q;
                Some(t)
            },
        }
    }

    fn get_next_token_identifier(&mut self) -> (r: Option<Token>)
        requires
            old(self).wf(),
        ensures
            final(self).wf(),
            final(self).chars() == old(self).chars(),
            match r {
                None => {
                    &&& ident_at(old(self).chars(), old(self).cursor()) is None
                    &&& final(self).cursor() == old(self).cursor()
                },
                Some(t) => {
                    &&& ident_at(old(self).chars(), old(self).cursor()) matches Some((w, q))
                        && t@ == TokenView::Identifier(w) && final(self).cursor() == q
                    &&& old(self).cursor() < final(self).cursor()
                },
            },
    {
        reveal(ident_at);
        let ghost s = self.chars();
        let n = self.text.items.len();
        let pos = self.text.pos;
        if pos >= n {
            return None;
        }
        let first = self.text.items[pos];
        if !is_ident_start(first) {
            return None;
        }
        let mut end = pos + 1;
        while end < n && is_word(self.text.items[end])
            invariant
                self.wf(),
                self.chars() == s,
                self.cursor() == pos as int,
                pos + 1 <= end <= n,
                n == s.len(),
                word_end(s, pos + 1) == word_end(s, end as int),
            decreases n - end,
        {
            end = end + 1;
        }
        proof {
            assert(word_end(s, end as int) == end);
        }
        let mut ident = String::new();
        let mut i = pos;
        while i < end
            invariant
                self.wf(),
                self.chars() == s,
                self.cursor() == pos as int,
                pos <= i <= end <= n,
                n == s.len(),
                ident@ == s.subrange(pos as int, i as int),
            decreases end - i,
        {
            push_char(&mut ident, self.text.items[i]);
            i = i + 1;
            proof {
                assert(ident@ =~= s.subrange(pos as int, i as int));
            }
        }
        self.text.pos = end;
        Some(Token::Identifier(ident))
    }

    fn get_next_token_string_literal(&mut self) -> (r: Result<Option<Token>, SyntaxError>)
        requires
            old(self).wf(),
        ensures
            final(self).wf(),
            final(self).chars() == old(self).chars(),
            match string_lit_at(old(self).chars(), old(self).cursor()) {
                Ok(None) => r == Ok::<Option<Token>, SyntaxError>(None) && final(self).cursor()
                    == old(self).cursor(),
                Ok(Some((w, q))) => {
                    &&& r matches Ok(Some(t)) && t@ == TokenView::StringLiteral(w)
                    &&& final(self).cursor() == q
                    &&& old(self).cursor() < q
                },
                Err(e) => r == Err::<Option<Token>, SyntaxError>(e),
            },
    {
        reveal(string_lit_at);
        reveal(string_body_at);
        let ghost s = self.chars();
        let n = self.text.items.len();
        let pos = self.text.pos;
        if pos >= n {
            return Ok(None);
        }
        if self.text.items[pos] != '"' {
            return Ok(None);
        }
        let mut acc = String::new();
        let mut i = pos + 1;
        let mut result_token: Result<Option<(String, usize)>, SyntaxError> = Ok(None);
        loop
            invariant
                self.wf(),
                self.chars() == s,
                self.cursor() == pos as int,
                pos + 1 <= i <= n,
                n == s.len(),
                at1(s, pos as int, '"'),
                string_body_at(s, pos + 1) == (match string_body_at(s, i as int) {
                    Ok((rest, end)) => Ok::<(Seq<char>, int), SyntaxError>((acc@ + rest, end)),
                    Err(e) => Err(e),
                }),
            ensures
                ({
                    let whole = string_body_at(s, pos + 1);
                    match result_token {
                        Ok(Some((content, end))) => whole == Ok::<(Seq<char>, int), SyntaxError>(
                            (content@, end as int),
                        ) && pos + 1 < end <= n,
                        Err(e) => whole == Err::<(Seq<char>, int), SyntaxError>(e),
                        Ok(None) => false,
                    }
                }),
            decreases n - i,
        {
            reveal(string_body_at);
            if i == n {
                result_token = Err(SyntaxError::UnterminatedStringLiteral);
                break ;
            }
            let c = self.text.items[i];
            if c == '"' {
                proof {
                    assert(acc@ + Seq::<char>::empty() =~= acc@);
                }
                result_token = Ok(Some((acc, i + 1)));
                break ;
            }
            if c == '\\' {
                if i + 1 == n {
                    result_token = Err(SyntaxError::UnterminatedStringLiteral);
                    break ;
                }
                let e = self.text.items[i + 1];
                match escape_char(e) {
                    None => {
                        result_token = Err(SyntaxError::InvalidEscapeSequenceInStringLiteral);
                        break ;
                    },
                    Some(m) => {
                        proof {
                            let sb = string_body_at(s, i + 2);
                            match sb {
                                Ok((rest, end)) => {
                                    assert(acc@ + (seq![m] + rest) =~= acc@.push(m) + rest);
                                },
                                Err(_) => {},
                            }
                        }
                        push_char(&mut acc, m);
                        i = i + 2;
                    },
                }
            } else {
                proof {
                    let sb = string_body_at(s, i + 1);
                    match sb {
                        Ok((rest, end)) => {
                            assert(acc@ + (seq![c] + rest) =~= acc@.push(c) + rest);
                        },
                        Err(_) => {},
                    }
                }
                push_char(&mut acc, c);
                i = i + 1;
            }
        }
        match result_token {
            Err(e) => Err(e),
            Ok(Some((content, end))) => {
                self.text.pos = end;
                Ok(Some(Token::StringLiteral(content)))
            },
            Ok(None) => Ok(None),
        }
    }
}

impl Lexer {
    fn get_next_token_integer_literal(&mut self) -> (r: Result<Option<Token>, SyntaxError>)
        requires
            old(self).wf(),
        ensures
            final(self).wf(),
            final(self).chars() == old(self).chars(),
            match int_lit_at(old(self).chars(), old(self).cursor()) {
                Ok(None) => r == Ok::<Option<Token>, SyntaxError>(None) && final(self).cursor()
                    == old(self).cursor(),
                Ok(Some((v, q))) => {
                    &&& r matches Ok(Some(t)) && t@ == TokenView::IntegerLiteral(v)
                    &&& final(self).cursor() == q
                    &&& old(self).cursor() < q
                },
                Err(e) => r == Err::<Option<Token>, SyntaxError>(e),
            },
    {
        reveal(int_lit_at);
        let ghost s = self.chars();
        let n = self.text.items.len();
        let pos = self.text.pos;
        let (radix, start): (u32, usize) = if self.at2e(pos, '0', 'x') {
            (16, pos + 2)
        } else if self.at2e(pos, '0', 'b') {
            (2, pos + 2)
        } else if self.at2e(pos, '0', 'o') {
            (8, pos + 2)
        } else {
            (10, pos)
        };
        proof {
            assert(radix_and_start(s, pos as int) == (radix, start as int));
        }
        let mut end = start;
        while end < n && digit_value(self.text.items[end]) < radix
            invariant
                self.wf(),
                self.chars() == s,
                self.cursor() == pos as int,
                start <= end <= n,
                n == s.len(),
                digit_run_end(s, start as int, radix) == digit_run_end(s, end as int, radix),
                forall|k: int| start <= k < end ==> is_digit_in(#[trigger] s[k], radix),
            decreases n - end,
        {
            end = end + 1;
        }
        proof {
            assert(digit_run_end(s, end as int, radix) == end);
        }
        if end < n && is_word(self.text.items[end]) {
            return Ok(None);
        }
        if end == start {
            return Ok(None);
        }
        let mut acc: u64 = 0;
        let mut overflowed = false;
        let mut i = start;
        while i < end
            invariant
                self.wf(),
                self.chars() == s,
                self.cursor() == pos as int,
                start <= i <= end <= n,
                n == s.len(),
                radix == 2 || radix == 8 || radix == 10 || radix == 16,
                forall|k: int| start <= k < end ==> is_digit_in(#[trigger] s[k], radix),
                !overflowed ==> acc as nat == digits_val(s, start as int, i as int, radix),
                overflowed ==> digits_val(s, start as int, i as int, radix) > u64::MAX as nat,
            decreases end - i,
        {
            let d = digit_value(self.text.items[i]);
            let ghost before = digits_val(s, start as int, i as int, radix);
            proof {
                assert(digits_val(s, start as int, i + 1, radix) == (before * radix
                    + spec_digit_value(s[i as int])) as nat);
                if overflowed {
                    assert(before * radix >= before * 1) by (nonlinear_arith)
                        requires
                            radix >= 1,
                            before >= 0,
                    ;
                }
            }
            if !overflowed {
                match acc.checked_mul(radix as u64) {
                    None => {
                        overflowed = true;
                    },
                    Some(p) => match p.checked_add(d as u64) {
                        None => {
                            overflowed = true;
                        },
                        Some(v) => {
                            acc = v;
                        },
                    },
                }
            }
            i = i + 1;
        }
        if overflowed {
            return Err(SyntaxError::TooLargeIntegerLiteral);
        }
        self.text.pos = end;
        Ok(Some(Token::IntegerLiteral(acc)))
    }

    fn get_next_token_char_literal(&mut self) -> (r: Result<Option<Token>, SyntaxError>)
        requires
            old(self).wf(),
        ensures
            final(self).wf(),
            final(self).chars() == old(self).chars(),
            match char_lit_at(old(self).chars(), old(self).cursor()) {
                Ok(None) => r == Ok::<Option<Token>, SyntaxError>(None) && final(self).cursor()
                    == old(self).cursor(),
                Ok(Some((v, q))) => {
                    &&& r matches Ok(Some(t)) && t@ == TokenView::IntegerLiteral(v)
                    &&& final(self).cursor() == q
                    &&& old(self).cursor() < q
                },
                Err(e) => r == Err::<Option<Token>, SyntaxError>(e),
            },
    {
        reveal(char_lit_at);
        let n = self.text.items.len();
        let pos = self.text.pos;
        if !self.at1e(pos, '\'') {
            return Ok(None);
        }
        if pos + 1 >= n {
            return Err(SyntaxError::UnterminatedCharLiteral);
        }
        let c = self.text.items[pos + 1];
        if c == '\'' {
            return Err(SyntaxError::EmptyCharLiteral);
        }
        if c == '\\' {
            if pos + 2 >= n {
                return Err(SyntaxError::UnterminatedCharLiteral);
            }
            let e = self.text.items[pos + 2];
            match escape_char(e) {
                None => Err(SyntaxError::InvalidEscapeSequenceInCharLiteral),
                Some(m) => {
                    if self.at1e(pos + 3, '\'') {
                        self.text.pos = pos + 4;
                        Ok(Some(Token::IntegerLiteral((m as u32) as u64)))
                    } else {
                        Err(SyntaxError::UnterminatedCharLiteral)
                    }
                },
            }
        } else {
            if self.at1e(pos + 2, '\'') {
                self.text.pos = pos + 3;
                Ok(Some(Token::IntegerLiteral((c as u32) as u64)))
            } else {
                Err(SyntaxError::UnterminatedCharLiteral)
            }
        }
    }

    /// Produces the next token, or `Ok(None)` when only whitespace remains;
    /// remaining text that forms no token is an `InvalidToken` error.
    pub fn get_next_token(&mut self) -> (r: Result<Option<Token>, SyntaxError>)
        requires
            old(self).wf(),
        ensures
            final(self).wf(),
            final(self).chars() == old(self).chars(),
            match next_token_at(old(self).chars(), old(self).cursor()) {
                Ok(None) => {
                    &&& r == Ok::<Option<Token>, SyntaxError>(None)
                    &&& final(self).cursor() == skip_ws(old(self).chars(), old(self).cursor())
                },
                Ok(Some((tv, q))) => {
                    &&& r matches Ok(Some(t)) && t@ == tv
                    &&& final(self).cursor() == q
                    &&& old(self).cursor() < q <= old(self).chars().len()
                },
                Err(e) => r == Err::<Option<Token>, SyntaxError>(e),
            },
    {
        proof {
            lemma_skip_ws_bound(old(self).chars(), old(self).cursor());
        }
        if self.consume_whitespace() {
            return Ok(None);
        }
        if let Some(t) = self.get_next_token_simple() {
            return Ok(Some(Token::SimpleToken(t)));
        }
        if let Some(t) = self.get_next_token_identifier() {
            proof {
                lemma_word_end_bound(self.chars(), self.cursor());
            }
            return Ok(Some(t));
        }
        match self.get_next_token_string_literal()? {
            Some(t) => {
                return Ok(Some(t));
            },
            None => {},
        }
        match self.get_next_token_integer_literal()? {
            Some(t) => {
                return Ok(Some(t));
            },
            None => {},
        }
        match self.get_next_token_char_literal()? {
            Some(t) => {
                return Ok(Some(t));
            },
            None => {},
        }
        Err(SyntaxError::InvalidToken)
    }

    /// The whole token stream of the remaining input.  Tokenisation is a
    /// pure function of the text (`lex_all`), so the same input always
    /// yields the same tokens; if non-token text remains after the last
    /// token, the result is an `InvalidToken` error.
    pub fn get_tokens(&mut self) -> (r: Result<Vec<Token>, SyntaxError>)
        requires
            old(self).wf(),
        ensures
            final(self).wf(),
            final(self).chars() == old(self).chars(),
            match lex_all(old(self).chars(), old(self).cursor()) {
                Ok(ts) => r matches Ok(v) && token_views(v@) == ts,
                Err(e) => r == Err::<Vec<Token>, SyntaxError>(e),
            },
    {
        let ghost s = self.chars();
        let ghost pos0 = self.cursor();
        let mut tokens: Vec<Token> = Vec::new();
        loop
            invariant
                self.wf(),
                self.chars() == s,
                s == old(self).chars(),
                pos0 == old(self).cursor(),
                lex_all(s, pos0) == (match lex_all(s, self.cursor()) {
                    Ok(rest) => Ok::<Seq<TokenView>, SyntaxError>(token_views(tokens@) + rest),
                    Err(e) => Err(e),
                }),
            ensures
                self.wf(),
                self.chars() == s,
                next_token_at(s, self.cursor()) == Ok::<Option<(TokenView, int)>, SyntaxError>(
                    None,
                ),
                skip_ws(s, self.cursor()) == self.cursor(),
                lex_all(s, pos0) == (match lex_all(s, self.cursor()) {
                    Ok(rest) => Ok::<Seq<TokenView>, SyntaxError>(token_views(tokens@) + rest),
                    Err(e) => Err(e),
                }),
            decreases s.len() - self.cursor(),
        {
            let ghost pos_before = self.cursor();
            match self.get_next_token() {
                Err(e) => {
                    proof {
                        lemma_lex_all_unfold(s, pos_before);
                    }
                    return Err(e);
                },
                Ok(None) => {
                    proof {
                        lemma_skip_ws_bound(s, pos_before);
                        lemma_skip_ws_idempotent(s, pos_before);
                        assert(next_token_at(s, self.cursor()) == Ok::<
                            Option<(TokenView, int)>,
                            SyntaxError,
                        >(None));
                        lemma_lex_all_unfold(s, pos_before);
                        lemma_lex_all_unfold(s, self.cursor());
                        assert(lex_all(s, self.cursor()) == lex_all(s, pos_before));
                    }
                    break ;
                },
                Ok(Some(t)) => {
                    proof {
                        lemma_lex_all_unfold(s, pos_before);
                        assert(token_views(tokens@.push(t)) =~= token_views(tokens@).push(t@));
                        match lex_all(s, self.cursor()) {
                            Ok(rest) => {
                                assert(token_views(tokens@) + (seq![t@] + rest) =~= token_views(
                                    tokens@,
                                ).push(t@) + rest);
                            },
                            Err(_) => {},
                        }
                    }
                    tokens.push(t);
                },
            }
        }
        let ghost c_after = self.cursor();
        let eof = self.consume_whitespace();
        proof {
            assert(self.cursor() == c_after);
            lemma_lex_all_unfold(s, c_after);
        }
        if !eof {
            return Err(SyntaxError::InvalidToken);
        }
        proof {
            assert(token_views(tokens@) + Seq::<TokenView>::empty() =~= token_views(tokens@));
        }
        Ok(tokens)
    }
}

/// A successful fixed-token match ends after its start, within the text.
proof fn lemma_simple_token_advances(s: Seq<char>, pos: int)
    ensures
        simple_token_at(s, pos) matches Some((t, q)) ==> pos < q <= s.len(),
{
    reveal(simple_token_at);
}

/// The end of a word run lies between its start and the end of the text.
proof fn lemma_word_end_bound(s: Seq<char>, pos: int)
    ensures
        0 <= pos <= s.len() ==> pos <= word_end(s, pos) <= s.len(),
    decreases s.len() - pos,
{
    if 0 <= pos && pos < s.len() && is_word_char(s[pos]) {
        lemma_word_end_bound(s, pos + 1);
    }
}

/// Skipping whitespace never moves backwards, nor past the end.
proof fn lemma_skip_ws_bound(s: Seq<char>, pos: int)
    requires
        0 <= pos <= s.len(),
    ensures
        pos <= skip_ws(s, pos) <= s.len(),
    decreases s.len() - pos,
{
    if pos < s.len() && is_space_char(s[pos]) {
        lemma_skip_ws_bound(s, pos + 1);
    }
}

/// Skipping whitespace twice is the same as skipping it once.
proof fn lemma_skip_ws_idempotent(s: Seq<char>, pos: int)
    ensures
        skip_ws(s, skip_ws(s, pos)) == skip_ws(s, pos),
    decreases s.len() - pos,
{
    if 0 <= pos && pos < s.len() && is_space_char(s[pos]) {
        lemma_skip_ws_idempotent(s, pos + 1);
    }
}

/// One unfolding of `lex_all`, with the clamp on the next position shown to
/// be the identity.
proof fn lemma_lex_all_unfold(s: Seq<char>, pos: int)
    requires
        0 <= pos <= s.len(),
    ensures
        match next_token_at(s, pos) {
            Err(e) => lex_all(s, pos) == Err::<Seq<TokenView>, SyntaxError>(e),
            Ok(None) => lex_all(s, pos) == (if skip_ws(s, pos) == s.len() {
                Ok::<Seq<TokenView>, SyntaxError>(Seq::empty())
            } else {
                Err::<Seq<TokenView>, SyntaxError>(SyntaxError::InvalidToken)
            }),
            Ok(Some((t, q))) => (pos < q <= s.len()) ==> lex_all(s, pos) == (match lex_all(s, q) {
                Err(e) => Err::<Seq<TokenView>, SyntaxError>(e),
                Ok(ts) => Ok::<Seq<TokenView>, SyntaxError>(seq![t] + ts),
            }),
        },
{
    if pos >= s.len() {
        lemma_skip_ws_at_end(s, pos);
    }
}

/// Past the end of the text there is no whitespace to skip and no token.
proof fn lemma_skip_ws_at_end(s: Seq<char>, pos: int)
    requires
        pos >= s.len(),
    ensures
        skip_ws(s, pos) == pos,
        next_token_at(s, pos) == Ok::<Option<(TokenView, int)>, SyntaxError>(None),
{
}

} // verus!
