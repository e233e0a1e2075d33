//! The indentation-aware lexer.
mod token;

use vstd::prelude::*;
pub use token::{Token, Keyword, Literal, TokenV, tokens_view};
use crate::error::LexerError;
use crate::types::{DataType, FloatingPoint, SignedInteger, UnsignedInteger};
use crate::text::{chars_of, string_of};

verus! {

// ---------------------------------------------------------------------------
// Character classes and the model of one line
// ---------------------------------------------------------------------------

/// The character at `i`, or `'\0'` past the end.
pub open spec fn char_at(line: Seq<char>, i: int) -> char {
    if 0 <= i < line.len() { line[i] } else { '\0' }
}

pub open spec fn is_digit(c: char) -> bool {
    '0' <= c <= '9'
}

pub open spec fn is_alpha(c: char) -> bool {
    ('a' <= c <= 'z') || ('A' <= c <= 'Z')
}

/// A character that may start an identifier.
pub open spec fn is_ident_start(c: char) -> bool {
    is_alpha(c) || c == '_'
}

/// A character that may continue an identifier.
pub open spec fn is_ident_char(c: char) -> bool {
    is_alpha(c) || is_digit(c) || c == '_'
}

/// The end of the run of spaces that starts at `p`.
pub open spec fn spaces_end(line: Seq<char>, p: nat) -> nat
    decreases line.len() - p,
{
    if p < line.len() && line[p as int] == ' ' { spaces_end(line, p + 1) } else { p }
}

/// The end of the run of digits that starts at `p`.
pub open spec fn digits_end(line: Seq<char>, p: nat) -> nat
    decreases line.len() - p,
{
    if p < line.len() && is_digit(line[p as int]) { digits_end(line, p + 1) } else { p }
}

/// The end of the run of identifier characters that starts at `p`.
pub open spec fn ident_end(line: Seq<char>, p: nat) -> nat
    decreases line.len() - p,
{
    if p < line.len() && is_ident_char(line[p as int]) { ident_end(line, p + 1) } else { p }
}

/// The position of the first `"` at or after `p`, if the line has one.
pub open spec fn quote_at(line: Seq<char>, p: nat) -> Option<nat>
    decreases line.len() - p,
{
    if p >= line.len() {
        None
    } else if line[p as int] == '"' {
        Some(p)
    } else {
        quote_at(line, p + 1)
    }
}

/// The value of a run of decimal digits.
pub open spec fn digits_value(s: Seq<char>) -> nat
    decreases s.len(),
{
    if s.len() == 0 {
        0
    } else {
        digits_value(s.drop_last()) * 10 + ((s.last() as u32 - '0' as u32) as nat)
    }
}

/// The keyword that a word spells, if any.
pub open spec fn keyword_of(w: Seq<char>) -> Option<Keyword> {
    if w == "if"@ { Some(Keyword::If) }
    else if w == "elif"@ { Some(Keyword::Elif) }
    else if w == "else"@ { Some(Keyword::Else) }
    else if w == "extern"@ { Some(Keyword::Extern) }
    else if w == "def"@ { Some(Keyword::Def) }
    else if w == "let"@ { Some(Keyword::Let) }
    else if w == "return"@ { Some(Keyword::Return) }
    else if w == "while"@ { Some(Keyword::While) }
    else if w == "void"@ { Some(Keyword::DataType(DataType::void)) }
    else if w == "bool"@ { Some(Keyword::DataType(DataType::bool)) }
    else if w == "str"@ { Some(Keyword::DataType(DataType::str)) }
    else if w == "i8"@ { Some(Keyword::DataType(DataType::SignedInteger(SignedInteger::i8))) }
    else if w == "i16"@ { Some(Keyword::DataType(DataType::SignedInteger(SignedInteger::i16))) }
    else if w == "i32"@ { Some(Keyword::DataType(DataType::SignedInteger(SignedInteger::i32))) }
    else if w == "i64"@ { Some(Keyword::DataType(DataType::SignedInteger(SignedInteger::i64))) }
    else if w == "i128"@ { Some(Keyword::DataType(DataType::SignedInteger(SignedInteger::i128))) }
    else if w == "u8"@ { Some(Keyword::DataType(DataType::UnsignedInteger(UnsignedInteger::u8))) }
    else if w == "u16"@ { Some(Keyword::DataType(DataType::UnsignedInteger(UnsignedInteger::u16))) }
    else if w == "u32"@ { Some(Keyword::DataType(DataType::UnsignedInteger(UnsignedInteger::u32))) }
    else if w == "u64"@ { Some(Keyword::DataType(DataType::UnsignedInteger(UnsignedInteger::u64))) }
    else if w == "u128"@ { Some(Keyword::DataType(DataType::UnsignedInteger(UnsignedInteger::u128))) }
    else if w == "f32"@ { Some(Keyword::DataType(DataType::FloatingPoint(FloatingPoint::Float32))) }
    else if w == "f64"@ { Some(Keyword::DataType(DataType::FloatingPoint(FloatingPoint::Float64))) }
    else if w == "f128"@ { Some(Keyword::DataType(DataType::FloatingPoint(FloatingPoint::Float128))) }
    else { None }
}

/// The token of a word: its keyword, or an identifier.
pub open spec fn word_token(w: Seq<char>) -> TokenV {
    match keyword_of(w) {
        Some(k) => TokenV::Other(Token::Keyword(k)),
        None => TokenV::Ident(w),
    }
}

/// A token `t` of `n` characters, the longest punctuation match at `p`.
pub open spec fn with_eq(line: Seq<char>, p: int, long: Token, short: Token) -> Option<(Token, nat)> {
    if char_at(line, p + 1) == '=' { Some((long, 2)) } else { Some((short, 1)) }
}

/// The longest punctuation or operator token at `p`, with its length.
pub open spec fn punct_at(line: Seq<char>, p: int) -> Option<(Token, nat)> {
    let c = char_at(line, p);
    let n1 = char_at(line, p + 1);
    let n2 = char_at(line, p + 2);
    if c == '(' { Some((Token::LParen, 1)) }
    else if c == ')' { Some((Token::RParen, 1)) }
    else if c == '[' { Some((Token::LSqBr, 1)) }
    else if c == ']' { Some((Token::RSqBr, 1)) }
    else if c == '{' { Some((Token::LBrace, 1)) }
    else if c == '}' { Some((Token::RBrace, 1)) }
    else if c == ':' { Some((Token::Colon, 1)) }
    else if c == ',' { Some((Token::Comma, 1)) }
    else if c == ';' { Some((Token::Semicolon, 1)) }
    else if c == '.' { Some((Token::Dot, 1)) }
    else if c == '~' { Some((Token::Tilde, 1)) }
    else if c == '+' { with_eq(line, p, Token::PlusEqual, Token::Plus) }
    else if c == '*' { with_eq(line, p, Token::StarEqual, Token::Star) }
    else if c == '/' { with_eq(line, p, Token::SlashEqual, Token::Slash) }
    else if c == '%' { with_eq(line, p, Token::PercentEqual, Token::Percent) }
    else if c == '|' { with_eq(line, p, Token::VBarEqual, Token::VBar) }
    else if c == '&' { with_eq(line, p, Token::AmpersandEqual, Token::Ampersand) }
    else if c == '^' { with_eq(line, p, Token::CircumflexEqual, Token::Circumflex) }
    else if c == '=' { with_eq(line, p, Token::EqualEqual, Token::Equal) }
    else if c == '-' {
        if n1 == '=' { Some((Token::MinusEqual, 2)) }
        else if n1 == '>' { Some((Token::RArrow, 2)) }
        else { Some((Token::Minus, 1)) }
    }
    else if c == '<' {
        if n1 == '<' {
            if n2 == '=' { Some((Token::LeftShiftEqual, 3)) } else { Some((Token::LeftShift, 2)) }
        }
        else if n1 == '=' { Some((Token::LessEqual, 2)) }
        else { Some((Token::Less, 1)) }
    }
    else if c == '>' {
        if n1 == '>' {
            if n2 == '=' { Some((Token::RightShiftEqual, 3)) } else { Some((Token::RightShift, 2)) }
        }
        else if n1 == '=' { Some((Token::GreaterEqual, 2)) }
        else { Some((Token::Greater, 1)) }
    }
    else if c == '!' {
        if n1 == '=' { Some((Token::NotEqual, 2)) } else { None }
    }
    else { None }
}

/// The reasons lexing fails.
pub enum LexErr {
    /// A string literal whose line ends before its closing quote.
    UnterminatedString,
    /// A character that starts no token.
    UnrecognizedByte,
    /// An integer literal beyond `i128`.
    IntegerTooLarge,
}

/// The message of a lexical error.
pub open spec fn lex_message(e: LexErr) -> Seq<char> {
    match e {
        LexErr::UnterminatedString => "closing quotation mark expected"@,
        LexErr::UnrecognizedByte => "unrecognized character"@,
        LexErr::IntegerTooLarge => "integer literal does not fit in 128 bits"@,
    }
}

/// `t` followed by the tokens of `rest`, or the error of `rest`.
pub open spec fn prepend(t: TokenV, rest: Result<Seq<TokenV>, LexErr>) -> Result<Seq<TokenV>, LexErr> {
    match rest {
        Ok(r) => Ok(seq![t] + r),
        Err(e) => Err(e),
    }
}

/// The tokens of `line` from position `p`, or the first lexical error:
/// an unterminated string, an integer literal beyond `i128`, or a character
/// that starts no token.
pub open spec fn scan_line(line: Seq<char>, p: nat) -> Result<Seq<TokenV>, LexErr>
    decreases line.len() - p,
{
    if p >= line.len() {
        Ok(seq![])
    } else {
        let c = line[p as int];
        if c == ' ' {
            scan_line(line, p + 1)
        } else if c == '#' {
            Ok(seq![])
        } else if is_digit(c) {
            let e = digits_end(line, p);
            let v = digits_value(line.subrange(p as int, e as int));
            if e <= p || e > line.len() || v > i128::MAX {
                Err(LexErr::IntegerTooLarge)
            } else {
                prepend(
                    TokenV::Other(Token::Literal(Literal::SignedInteger(v as i128, SignedInteger::i32))),
                    scan_line(line, e),
                )
            }
        } else if c == '"' {
            match quote_at(line, p + 1) {
                None => Err(LexErr::UnterminatedString),
                Some(q) => if q <= p || q >= line.len() { Err(LexErr::UnterminatedString) } else {
                    prepend(TokenV::Str(line.subrange((p + 1) as int, q as int)), scan_line(line, q + 1))
                },
            }
        } else if punct_at(line, p as int) is Some {
            let (t, n) = punct_at(line, p as int).unwrap();
            if n == 0 { Err(LexErr::UnrecognizedByte) } else { prepend(TokenV::Other(t), scan_line(line, p + n)) }
        } else if is_ident_start(c) {
            let e = ident_end(line, p + 1);
            if e <= p || e > line.len() { Err(LexErr::UnrecognizedByte) } else {
                prepend(word_token(line.subrange(p as int, e as int)), scan_line(line, e))
            }
        } else {
            Err(LexErr::UnrecognizedByte)
        }
    }
}

/// `n` copies of a token.
pub open spec fn repeat(t: TokenV, n: nat) -> Seq<TokenV>
    decreases n,
{
    if n == 0 { seq![] } else { repeat(t, (n - 1) as nat).push(t) }
}

/// The `Indent` or `Dedent` tokens that move the indent level from `from` to `to`.
pub open spec fn indent_change(from: nat, to: nat) -> Seq<TokenV> {
    if to >= from {
        repeat(TokenV::Other(Token::Indent), (to - from) as nat)
    } else {
        repeat(TokenV::Other(Token::Dedent), (from - to) as nat)
    }
}

/// The tokens of `lines` when the running indent level is `indent`,
/// closing with the remaining `Dedent`s and `EOF`.
pub open spec fn lex_lines(lines: Seq<Seq<char>>, indent: nat) -> Result<Seq<TokenV>, LexErr>
    decreases lines.len(),
{
    if lines.len() == 0 {
        Ok(repeat(TokenV::Other(Token::Dedent), indent).push(TokenV::Other(Token::EOF)))
    } else {
        let line = lines[0];
        let k = spaces_end(line, 0);
        let level = k / 4;
        match scan_line(line, k) {
            Err(e) => Err(e),
            Ok(t) => match lex_lines(lines.drop_first(), level) {
                Err(e) => Err(e),
                Ok(rest) => Ok(indent_change(indent, level) + t + rest),
            },
        }
    }
}

/// The lines of a text: the pieces between `'\n'` characters.
pub open spec fn lines_of(s: Seq<char>) -> Seq<Seq<char>>
    decreases s.len(),
{
    if s.len() == 0 {
        seq![seq![]]
    } else {
        let rest = lines_of(s.drop_last());
        if s.last() == '\n' {
            rest.push(seq![])
        } else {
            rest.update(rest.len() - 1, rest.last().push(s.last()))
        }
    }
}

/// The token sequence of a source text, or its first lexical error.
pub open spec fn lex_spec(s: Seq<char>) -> Result<Seq<TokenV>, LexErr> {
    lex_lines(lines_of(s), 0)
}

} // verus!

verus! {

// ---------------------------------------------------------------------------
// Scanning helpers
// ---------------------------------------------------------------------------

/// `pre` before the tokens of `r`, or the error of `r`.
pub open spec fn append_opt(pre: Seq<TokenV>, r: Result<Seq<TokenV>, LexErr>) -> Result<Seq<TokenV>, LexErr> {
    match r {
        Ok(x) => Ok(pre + x),
        Err(e) => Err(e),
    }
}

proof fn lemma_append_prepend(pre: Seq<TokenV>, t: TokenV, r: Result<Seq<TokenV>, LexErr>)
    ensures
        append_opt(pre, prepend(t, r)) == append_opt(pre.push(t), r),
{
    if let Ok(x) = r {
        assert(pre + (seq![t] + x) =~= pre.push(t) + x);
    }
}

proof fn lemma_view_push(ts: Seq<Token>, t: Token)
    ensures
        tokens_view(ts.push(t)) == tokens_view(ts).push(t.view()),
{
    assert(tokens_view(ts.push(t)) =~= tokens_view(ts).push(t.view()));
}

fn next_char(line: &Vec<char>, p: usize, k: usize) -> (c: char)
    requires
        p <= line@.len(),
    ensures
        c == char_at(line@, p + k),
{
    if k < line.len() - p { line[p + k] } else { '\0' }
}

fn chars_eq(v: &Vec<char>, s: &str) -> (r: bool)
    ensures
        r == (v@ == s@),
{
    let n = s.unicode_len();
    if v.len() != n {
        return false;
    }
    let mut i: usize = 0;
    while i < n
        invariant
            n == s@.len(),
            v@.len() == n,
            i <= n,
            forall|k: int| 0 <= k < i ==> v@[k] == s@[k],
        decreases n - i,
    {
        if v[i] != s.get_char(i) {
            return false;
        }
        i += 1;
    }
    assert(v@ =~= s@);
    true
}

/// The number of leading spaces of a line.
fn read_indent(line: &Vec<char>) -> (r: usize)
    ensures
        r == spaces_end(line@, 0),
        r <= line@.len(),
{
    let mut i: usize = 0;
    while i < line.len() && line[i] == ' '
        invariant
            i <= line@.len(),
            spaces_end(line@, i as nat) == spaces_end(line@, 0),
        decreases line@.len() - i,
    {
        i += 1;
    }
    i
}

proof fn lemma_digits_mono(s: Seq<char>, i: int, j: int)
    requires
        0 <= i <= j <= s.len(),
    ensures
        digits_value(s.take(i)) <= digits_value(s.take(j)),
    decreases j - i,
{
    if i < j {
        lemma_digits_mono(s, i, j - 1);
        assert(s.take(j).drop_last() =~= s.take(j - 1));
    }
}

/// The value of the run of digits at `start`, and where the run ends; `None`
/// when the value does not fit in `i128`.
fn read_number(line: &Vec<char>, start: usize) -> (r: Option<(i128, usize)>)
    requires
        start < line@.len(),
    ensures
        ({
            let e = digits_end(line@, start as nat);
            let v = digits_value(line@.subrange(start as int, e as int));
            &&& r is Some <==> v <= i128::MAX
            &&& r matches Some((n, end)) ==> end == e && n == v && start <= e <= line@.len()
            &&& is_digit(line@[start as int]) ==> e > start
        }),
{
    let ghost e = digits_end(line@, start as nat);
    proof {
        lemma_e_bounds(line@, (start + 1) as nat);
    }
    let mut i: usize = start;
    let mut acc: i128 = 0;
    while i < line.len() && '0' <= line[i] && line[i] <= '9'
        invariant
            start <= i <= line@.len(),
            e == digits_end(line@, start as nat),
            digits_end(line@, i as nat) == e,
            0 <= acc,
            acc == digits_value(line@.subrange(start as int, i as int)),
        decreases line@.len() - i,
    {
        let d: i128 = (line[i] as u32 - '0' as u32) as i128;
        assert(line@.subrange(start as int, i + 1).drop_last() =~= line@.subrange(start as int, i as int));
        if acc > (i128::MAX - d) / 10 {
            proof {
                let full = line@.subrange(start as int, e as int);
                assert(digits_end(line@, i as nat) == digits_end(line@, (i + 1) as nat));
                lemma_e_bounds(line@, (i + 1) as nat);
                assert(digits_value(line@.subrange(start as int, i + 1)) == acc * 10 + d);
                assert(full.take(e - start) =~= full);
                assert(acc * 10 + d > i128::MAX) by (nonlinear_arith)
                    requires acc > (i128::MAX - d) / 10, 0 <= d <= 9;
                lemma_e_bounds(line@, (i + 1) as nat);
                lemma_digits_mono(full, i + 1 - start, e - start);
                assert(full.take(i + 1 - start) =~= line@.subrange(start as int, i + 1));
                assert(digits_value(full.take(i + 1 - start)) > i128::MAX);
                assert(digits_value(full) > i128::MAX);
            }
            return None;
        }
        assert(acc * 10 + d <= i128::MAX) by (nonlinear_arith)
            requires acc <= (i128::MAX - d) / 10, 0 <= d <= 9;
        acc = acc * 10 + d;
        i += 1;
    }
    Some((acc, i))
}

proof fn lemma_e_bounds(line: Seq<char>, p: nat)
    requires
        p <= line.len(),
    ensures
        p <= digits_end(line, p) <= line.len(),
    decreases line.len() - p,
{
    if p < line.len() && is_digit(line[p as int]) {
        lemma_e_bounds(line, p + 1);
    }
}

} // verus!

verus! {

fn digit(c: char) -> (r: bool)
    ensures
        r == is_digit(c),
{
    '0' <= c && c <= '9'
}

fn ident_start(c: char) -> (r: bool)
    ensures
        r == is_ident_start(c),
{
    ('a' <= c && c <= 'z') || ('A' <= c && c <= 'Z') || c == '_'
}

fn ident_char(c: char) -> (r: bool)
    ensures
        r == is_ident_char(c),
{
    ('a' <= c && c <= 'z') || ('A' <= c && c <= 'Z') || ('0' <= c && c <= '9') || c == '_'
}

/// A copy of the characters `start..end` of a line.
fn take_chars(line: &Vec<char>, start: usize, end: usize) -> (r: Vec<char>)
    requires
        start <= end <= line@.len(),
    ensures
        r@ == line@.subrange(start as int, end as int),
{
    let mut r: Vec<char> = Vec::new();
    let mut i: usize = start;
    while i < end
        invariant
            start <= i <= end <= line@.len(),
            r@ == line@.subrange(start as int, i as int),
        decreases end - i,
    {
        r.push(line[i]);
        i += 1;
    }
    r
}

/// The text of the string literal whose opening quote is at `start`, and
/// the position after its closing quote; `None` when the line ends first.
fn read_string(line: &Vec<char>, start: usize) -> (r: Option<(String, usize)>)
    requires
        start < line@.len(),
    ensures
        match quote_at(line@, (start + 1) as nat) {
            None => r is None,
            Some(q) => r matches Some((s, e)) && start < q < line@.len() && e == q + 1
                && s@ == line@.subrange(start + 1, q as int),
        },
{
    let len = line.len();
    let mut i: usize = start + 1;
    while i < len && line[i] != '"'
        invariant
            start + 1 <= i <= line@.len(),
            len == line@.len(),
            quote_at(line@, i as nat) == quote_at(line@, (start + 1) as nat),
        decreases line@.len() - i,
    {
        i += 1;
    }
    if i >= len {
        None
    } else {
        let chars = take_chars(line, start + 1, i);
        Some((string_of(chars.as_slice()), i + 1))
    }
}

proof fn lemma_ident_bounds(line: Seq<char>, p: nat)
    requires
        p <= line.len(),
    ensures
        p <= ident_end(line, p) <= line.len(),
    decreases line.len() - p,
{
    if p < line.len() && is_ident_char(line[p as int]) {
        lemma_ident_bounds(line, p + 1);
    }
}

/// The end of the identifier that starts at `start`.
fn read_ident(line: &Vec<char>, start: usize) -> (r: usize)
    requires
        start < line@.len(),
    ensures
        r == ident_end(line@, (start + 1) as nat),
        start < r <= line@.len(),
{
    let len = line.len();
    let mut i: usize = start + 1;
    proof { lemma_ident_bounds(line@, i as nat); }
    while i < len && ident_char(line[i])
        invariant
            start + 1 <= i <= line@.len(),
            len == line@.len(),
            ident_end(line@, i as nat) == ident_end(line@, (start + 1) as nat),
        decreases line@.len() - i,
    {
        i += 1;
    }
    i
}

/// The keyword token a word spells, or an identifier token.
fn read_keyword(w: &Vec<char>) -> (r: Token)
    ensures
        r.view() == word_token(w@),
{
    if chars_eq(w, "if") { Token::Keyword(Keyword::If) }
    else if chars_eq(w, "elif") { Token::Keyword(Keyword::Elif) }
    else if chars_eq(w, "else") { Token::Keyword(Keyword::Else) }
    else if chars_eq(w, "extern") { Token::Keyword(Keyword::Extern) }
    else if chars_eq(w, "def") { Token::Keyword(Keyword::Def) }
    else if chars_eq(w, "let") { Token::Keyword(Keyword::Let) }
    else if chars_eq(w, "return") { Token::Keyword(Keyword::Return) }
    else if chars_eq(w, "while") { Token::Keyword(Keyword::While) }
    else if chars_eq(w, "void") { Token::Keyword(Keyword::DataType(DataType::void)) }
    else if chars_eq(w, "bool") { Token::Keyword(Keyword::DataType(DataType::bool)) }
    else if chars_eq(w, "str") { Token::Keyword(Keyword::DataType(DataType::str)) }
    else if chars_eq(w, "i8") { Token::Keyword(Keyword::DataType(DataType::SignedInteger(SignedInteger::i8))) }
    else if chars_eq(w, "i16") { Token::Keyword(Keyword::DataType(DataType::SignedInteger(SignedInteger::i16))) }
    else if chars_eq(w, "i32") { Token::Keyword(Keyword::DataType(DataType::SignedInteger(SignedInteger::i32))) }
    else if chars_eq(w, "i64") { Token::Keyword(Keyword::DataType(DataType::SignedInteger(SignedInteger::i64))) }
    else if chars_eq(w, "i128") { Token::Keyword(Keyword::DataType(DataType::SignedInteger(SignedInteger::i128))) }
    else if chars_eq(w, "u8") { Token::Keyword(Keyword::DataType(DataType::UnsignedInteger(UnsignedInteger::u8))) }
    else if chars_eq(w, "u16") { Token::Keyword(Keyword::DataType(DataType::UnsignedInteger(UnsignedInteger::u16))) }
    else if chars_eq(w, "u32") { Token::Keyword(Keyword::DataType(DataType::UnsignedInteger(UnsignedInteger::u32))) }
    else if chars_eq(w, "u64") { Token::Keyword(Keyword::DataType(DataType::UnsignedInteger(UnsignedInteger::u64))) }
    else if chars_eq(w, "u128") { Token::Keyword(Keyword::DataType(DataType::UnsignedInteger(UnsignedInteger::u128))) }
    else if chars_eq(w, "f32") { Token::Keyword(Keyword::DataType(DataType::FloatingPoint(FloatingPoint::Float32))) }
    else if chars_eq(w, "f64") { Token::Keyword(Keyword::DataType(DataType::FloatingPoint(FloatingPoint::Float64))) }
    else if chars_eq(w, "f128") { Token::Keyword(Keyword::DataType(DataType::FloatingPoint(FloatingPoint::Float128))) }
    else { Token::Identifier(string_of(w.as_slice())) }
}

/// The longest punctuation or operator token at `p`, with its length.
fn read_punct(line: &Vec<char>, p: usize) -> (r: Option<(Token, usize)>)
    requires
        p < line@.len(),
    ensures
        match punct_at(line@, p as int) {
            None => r is None,
            Some((t, n)) => r matches Some((t2, n2)) && t2 == t && n2 == n,
        },
        r matches Some((_, n)) ==> 1 <= n <= 3,
{
    let c = next_char(line, p, 0);
    let n1 = next_char(line, p, 1);
    let n2 = next_char(line, p, 2);
    let (t, n): (Token, usize) =
        if c == '(' { (Token::LParen, 1) }
        else if c == ')' { (Token::RParen, 1) }
        else if c == '[' { (Token::LSqBr, 1) }
        else if c == ']' { (Token::RSqBr, 1) }
        else if c == '{' { (Token::LBrace, 1) }
        else if c == '}' { (Token::RBrace, 1) }
        else if c == ':' { (Token::Colon, 1) }
        else if c == ',' { (Token::Comma, 1) }
        else if c == ';' { (Token::Semicolon, 1) }
        else if c == '.' { (Token::Dot, 1) }
        else if c == '~' { (Token::Tilde, 1) }
        else if c == '+' { if n1 == '=' { (Token::PlusEqual, 2) } else { (Token::Plus, 1) } }
        else if c == '*' { if n1 == '=' { (Token::StarEqual, 2) } else { (Token::Star, 1) } }
        else if c == '/' { if n1 == '=' { (Token::SlashEqual, 2) } else { (Token::Slash, 1) } }
        else if c == '%' { if n1 == '=' { (Token::PercentEqual, 2) } else { (Token::Percent, 1) } }
        else if c == '|' { if n1 == '=' { (Token::VBarEqual, 2) } else { (Token::VBar, 1) } }
        else if c == '&' { if n1 == '=' { (Token::AmpersandEqual, 2) } else { (Token::Ampersand, 1) } }
        else if c == '^' { if n1 == '=' { (Token::CircumflexEqual, 2) } else { (Token::Circumflex, 1) } }
        else if c == '=' { if n1 == '=' { (Token::EqualEqual, 2) } else { (Token::Equal, 1) } }
        else if c == '-' {
            if n1 == '=' { (Token::MinusEqual, 2) }
            else if n1 == '>' { (Token::RArrow, 2) }
            else { (Token::Minus, 1) }
        }
        else if c == '<' {
            if n1 == '<' {
                if n2 == '=' { (Token::LeftShiftEqual, 3) } else { (Token::LeftShift, 2) }
            }
            else if n1 == '=' { (Token::LessEqual, 2) }
            else { (Token::Less, 1) }
        }
        else if c == '>' {
            if n1 == '>' {
                if n2 == '=' { (Token::RightShiftEqual, 3) } else { (Token::RightShift, 2) }
            }
            else if n1 == '=' { (Token::GreaterEqual, 2) }
            else { (Token::Greater, 1) }
        }
        else if c == '!' && n1 == '=' { (Token::NotEqual, 2) }
        else { return None; };
    Some((t, n))
}

} // verus!

verus! {

fn lexer_error(msg: &str) -> (r: LexerError)
    ensures
        r.0@ == msg@,
{
    LexerError(msg.to_owned())
}

/// Appends the tokens of `line` from position `start` to `tokens`.
fn lex_line(line: &Vec<char>, start: usize, tokens: &mut Vec<Token>) -> (r: Result<(), LexerError>)
    requires
        start <= line@.len(),
    ensures
        match scan_line(line@, start as nat) {
            Ok(ts) => r is Ok && tokens_view(final(tokens)@) == tokens_view(old(tokens)@) + ts,
            Err(k) => r matches Err(e) && e.0@ == lex_message(k),
        },
{
    let ghost before = tokens_view(tokens@);
    let mut p: usize = start;
    while p < line.len()
        invariant
            start <= p <= line@.len(),
            before == tokens_view(old(tokens)@),
            append_opt(before, scan_line(line@, start as nat))
                == append_opt(tokens_view(tokens@), scan_line(line@, p as nat)),
        decreases line@.len() - p,
    {
        let c = line[p];
        if c == ' ' {
            p += 1;
        } else if c == '#' {
            assert(scan_line(line@, p as nat) == Ok::<Seq<TokenV>, LexErr>(Seq::<TokenV>::empty()));
            assert(tokens_view(tokens@) + seq![] =~= tokens_view(tokens@));
            return Ok(());
        } else if digit(c) {
            match read_number(line, p) {
                None => {
                    return Err(lexer_error("integer literal does not fit in 128 bits"));
                },
                Some((n, e)) => {
                    let t = Token::Literal(Literal::SignedInteger(n, SignedInteger::i32));
                    proof {
                        lemma_view_push(tokens@, t);
                        lemma_append_prepend(tokens_view(tokens@), t.view(), scan_line(line@, e as nat));
                    }
                    tokens.push(t);
                    p = e;
                },
            }
        } else if c == '"' {
            match read_string(line, p) {
                None => {
                    return Err(lexer_error("closing quotation mark expected"));
                },
                Some((s, e)) => {
                    let t = Token::Literal(Literal::String(s));
                    proof {
                        lemma_view_push(tokens@, t);
                        lemma_append_prepend(tokens_view(tokens@), t.view(), scan_line(line@, e as nat));
                    }
                    tokens.push(t);
                    p = e;
                },
            }
        } else {
            match read_punct(line, p) {
                Some((t, n)) => {
                    proof {
                        lemma_view_push(tokens@, t);
                        lemma_append_prepend(tokens_view(tokens@), t.view(), scan_line(line@, (p + n) as nat));
                    }
                    tokens.push(t);
                    p = p + n;
                },
                None => {
                    if ident_start(c) {
                        let e = read_ident(line, p);
                        let w = take_chars(line, p, e);
                        let t = read_keyword(&w);
                        proof {
                            lemma_view_push(tokens@, t);
                            lemma_append_prepend(tokens_view(tokens@), t.view(), scan_line(line@, e as nat));
                        }
                        tokens.push(t);
                        p = e;
                    } else {
                        return Err(lexer_error("unrecognized character"));
                    }
                },
            }
        }
    }
    assert(tokens_view(tokens@) + seq![] =~= tokens_view(tokens@));
    Ok(())
}

} // verus!

verus! {

/// The lexer: the source text split into lines of characters.
pub struct Lexer {
    source: Vec<Vec<char>>,
}

impl Lexer {
    /// The lines of the source text.
    pub closed spec fn lines(&self) -> Seq<Seq<char>> {
        self.source@.map_values(|l: Vec<char>| l@)
    }

    /// A lexer over `source`.
    pub fn new(source: String) -> (r: Lexer)
        ensures
            r.lines() == lines_of(source@),
    {
        let chars = chars_of(source.as_str());
        let mut lines: Vec<Vec<char>> = Vec::new();
        let mut cur: Vec<char> = Vec::new();
        let mut i: usize = 0;
        while i < chars.len()
            invariant
                i <= chars@.len(),
                lines_of(chars@.take(i as int))
                    == lines@.map_values(|l: Vec<char>| l@).push(cur@),
            decreases chars@.len() - i,
        {
            let c = chars[i];
            let ghost old_lines = lines@.map_values(|l: Vec<char>| l@);
            let ghost old_cur = cur@;
            assert(chars@.take(i + 1).drop_last() =~= chars@.take(i as int));
            if c == '\n' {
                let done = cur;
                cur = Vec::new();
                lines.push(done);
                assert(lines@.map_values(|l: Vec<char>| l@) =~= old_lines.push(old_cur));
                assert(cur@ =~= Seq::<char>::empty());
            } else {
                cur.push(c);
                assert(old_lines.push(old_cur).update(old_lines.len() as int, old_cur.push(c))
                    =~= old_lines.push(cur@));
            }
            i += 1;
        }
        lines.push(cur);
        assert(chars@.take(chars@.len() as int) =~= chars@);
        let r = Lexer { source: lines };
        assert(r.lines() =~= lines_of(source@));
        r
    }

    /// The tokens of the whole source: for each line, the `Indent` or
    /// `Dedent` tokens that move to its indent level (leading spaces divided
    /// by four), then its tokens; at the end, a `Dedent` for each open level
    /// and `EOF`.
    pub fn get_tokens(&mut self) -> (r: Result<Vec<Token>, LexerError>)
        ensures
            final(self).lines() == old(self).lines(),
            match lex_lines(old(self).lines(), 0) {
                Ok(ts) => r matches Ok(v) && tokens_view(v@) == ts,
                Err(k) => r matches Err(e) && e.0@ == lex_message(k),
            },
    {
        let ghost all = self.lines();
        let mut tokens: Vec<Token> = Vec::new();
        let mut indent: usize = 0;
        let n = self.source.len();
        let mut i: usize = 0;
        assert(all.skip(0) =~= all);
        assert(tokens_view(tokens@) + lex_lines(all, 0)->Ok_0 =~= lex_lines(all, 0)->Ok_0)
            by { if lex_lines(all, 0) is Ok {} };
        while i < n
            invariant
                n == self.source@.len(),
                all == self.lines(),
                i <= n,
                lex_lines(all, 0) == append_opt(tokens_view(tokens@), lex_lines(all.skip(i as int), indent as nat)),
            decreases n - i,
        {
            let line = &self.source[i];
            let ghost rest = all.skip(i as int);
            assert(rest[0] == line@);
            assert(rest.drop_first() =~= all.skip(i + 1));
            let k = read_indent(line);
            let level = k / 4;
            let ghost base = tokens_view(tokens@);
            if level >= indent {
                let mut j: usize = indent;
                while j < level
                    invariant
                        indent <= j <= level,
                        tokens_view(tokens@) == base + repeat(TokenV::Other(Token::Indent), (j - indent) as nat),
                    decreases level - j,
                {
                    proof { lemma_view_push(tokens@, Token::Indent); }
                    tokens.push(Token::Indent);
                    j += 1;
                    assert(repeat(TokenV::Other(Token::Indent), (j - indent) as nat)
                        == repeat(TokenV::Other(Token::Indent), (j - 1 - indent) as nat).push(TokenV::Other(Token::Indent)));
                    assert(base + repeat(TokenV::Other(Token::Indent), (j - indent) as nat)
                        =~= (base + repeat(TokenV::Other(Token::Indent), (j - 1 - indent) as nat)).push(TokenV::Other(Token::Indent)));
                }
            } else {
                let mut j: usize = level;
                while j < indent
                    invariant
                        level <= j <= indent,
                        tokens_view(tokens@) == base + repeat(TokenV::Other(Token::Dedent), (j - level) as nat),
                    decreases indent - j,
                {
                    proof { lemma_view_push(tokens@, Token::Dedent); }
                    tokens.push(Token::Dedent);
                    j += 1;
                    assert(repeat(TokenV::Other(Token::Dedent), (j - level) as nat)
                        == repeat(TokenV::Other(Token::Dedent), (j - 1 - level) as nat).push(TokenV::Other(Token::Dedent)));
                    assert(base + repeat(TokenV::Other(Token::Dedent), (j - level) as nat)
                        =~= (base + repeat(TokenV::Other(Token::Dedent), (j - 1 - level) as nat)).push(TokenV::Other(Token::Dedent)));
                }
            }
            assert(tokens_view(tokens@) == base + indent_change(indent as nat, level as nat));
            let ghost mid = tokens_view(tokens@);
            let res = lex_line(line, k, &mut tokens);
            match res {
                Err(e) => {
                    return Err(e);
                },
                Ok(()) => {},
            }
            proof {
                let t = scan_line(line@, k as nat)->Ok_0;
                match lex_lines(all.skip(i + 1), level as nat) {
                    Ok(x) => {
                        assert(base + (indent_change(indent as nat, level as nat) + t + x)
                            =~= tokens_view(tokens@) + x);
                    },
                    Err(_) => {},
                }
            }
            indent = level;
            i += 1;
        }
        let ghost base = tokens_view(tokens@);
        let mut j: usize = 0;
        while j < indent
            invariant
                j <= indent,
                tokens_view(tokens@) == base + repeat(TokenV::Other(Token::Dedent), j as nat),
            decreases indent - j,
        {
            proof { lemma_view_push(tokens@, Token::Dedent); }
            tokens.push(Token::Dedent);
            j += 1;
            assert(base + repeat(TokenV::Other(Token::Dedent), j as nat)
                =~= (base + repeat(TokenV::Other(Token::Dedent), (j - 1) as nat)).push(TokenV::Other(Token::Dedent)));
        }
        proof { lemma_view_push(tokens@, Token::EOF); }
        tokens.push(Token::EOF);
        assert(all.skip(n as int) =~= Seq::<Seq<char>>::empty());
        assert(tokens_view(tokens@) =~= base + repeat(TokenV::Other(Token::Dedent), indent as nat).push(TokenV::Other(Token::EOF)));
        Ok(tokens)
    }
}

} // verus!

verus! {

// ---------------------------------------------------------------------------
// Balance of the indentation tokens
// ---------------------------------------------------------------------------

/// How many times `t` occurs in `ts`.
pub open spec fn count(ts: Seq<TokenV>, t: TokenV) -> nat
    decreases ts.len(),
{
    if ts.len() == 0 {
        0
    } else {
        count(ts.drop_last(), t) + if ts.last() == t { 1nat } else { 0nat }
    }
}

proof fn lemma_count_add(a: Seq<TokenV>, b: Seq<TokenV>, t: TokenV)
    ensures
        count(a + b, t) == count(a, t) + count(b, t),
    decreases b.len(),
{
    if b.len() == 0 {
        assert(a + b =~= a);
    } else {
        lemma_count_add(a, b.drop_last(), t);
        assert((a + b).drop_last() =~= a + b.drop_last());
    }
}

proof fn lemma_count_repeat(x: TokenV, n: nat, t: TokenV)
    ensures
        count(repeat(x, n), t) == if x == t { n } else { 0 },
    decreases n,
{
    if n > 0 {
        lemma_count_repeat(x, (n - 1) as nat, t);
        assert(repeat(x, n).drop_last() =~= repeat(x, (n - 1) as nat));
    }
}

proof fn lemma_count_single(x: TokenV, t: TokenV)
    ensures
        count(seq![x], t) == if x == t { 1nat } else { 0nat },
{
    assert(seq![x].drop_last() =~= Seq::<TokenV>::empty());
    assert(count(Seq::<TokenV>::empty(), t) == 0);
    assert(seq![x].last() == x);
    assert(count(seq![x], t) == count(seq![x].drop_last(), t) + if x == t { 1nat } else { 0nat });
}

/// The layout tokens `Indent`, `Dedent` and `EOF`.
pub open spec fn is_layout(t: TokenV) -> bool {
    t == TokenV::Other(Token::Indent) || t == TokenV::Other(Token::Dedent) || t == TokenV::Other(Token::EOF)
}

proof fn lemma_scan_line_plain(line: Seq<char>, p: nat, t: TokenV)
    requires
        is_layout(t),
    ensures
        scan_line(line, p) matches Ok(ts) ==> count(ts, t) == 0,
    decreases line.len() - p,
{
    if p < line.len() {
        let c = line[p as int];
        if c == ' ' {
            lemma_scan_line_plain(line, p + 1, t);
        } else if c == '#' {
        } else if is_digit(c) {
            let e = digits_end(line, p);
            if e > p && e <= line.len() {
                lemma_scan_line_plain(line, e, t);
                let x = TokenV::Other(Token::Literal(Literal::SignedInteger(
                    digits_value(line.subrange(p as int, e as int)) as i128, SignedInteger::i32)));
                lemma_count_single(x, t);
                if let Ok(r) = scan_line(line, e) {
                    lemma_count_add(seq![x], r, t);
                }
            }
        } else if c == '"' {
            if let Some(q) = quote_at(line, p + 1) {
                if q > p && q < line.len() {
                    lemma_scan_line_plain(line, q + 1, t);
                    let x = TokenV::Str(line.subrange((p + 1) as int, q as int));
                    lemma_count_single(x, t);
                    if let Ok(r) = scan_line(line, q + 1) {
                        lemma_count_add(seq![x], r, t);
                    }
                }
            }
        } else if punct_at(line, p as int) is Some {
            let (x0, n) = punct_at(line, p as int).unwrap();
            if n > 0 {
                lemma_scan_line_plain(line, p + n, t);
                let x = TokenV::Other(x0);
                lemma_count_single(x, t);
                if let Ok(r) = scan_line(line, p + n) {
                    lemma_count_add(seq![x], r, t);
                }
            }
        } else if is_ident_start(c) {
            let e = ident_end(line, p + 1);
            if e > p && e <= line.len() {
                lemma_scan_line_plain(line, e, t);
                let x = word_token(line.subrange(p as int, e as int));
                lemma_count_single(x, t);
                if let Ok(r) = scan_line(line, e) {
                    lemma_count_add(seq![x], r, t);
                }
            }
        }
    }
}

proof fn lemma_lex_lines_balanced(lines: Seq<Seq<char>>, indent: nat)
    ensures
        lex_lines(lines, indent) matches Ok(ts) ==> {
            &&& ts.len() > 0
            &&& ts.last() == TokenV::Other(Token::EOF)
            &&& count(ts, TokenV::Other(Token::EOF)) == 1
            &&& count(ts, TokenV::Other(Token::Indent)) + indent == count(ts, TokenV::Other(Token::Dedent))
        },
    decreases lines.len(),
{
    let ind = TokenV::Other(Token::Indent);
    let ded = TokenV::Other(Token::Dedent);
    let eof = TokenV::Other(Token::EOF);
    if lines.len() == 0 {
        let ts = repeat(ded, indent).push(eof);
        assert(ts.drop_last() =~= repeat(ded, indent));
        lemma_count_repeat(ded, indent, ind);
        lemma_count_repeat(ded, indent, ded);
        lemma_count_repeat(ded, indent, eof);
    } else {
        let line = lines[0];
        let k = spaces_end(line, 0);
        let level = k / 4;
        lemma_lex_lines_balanced(lines.drop_first(), level);
        if let Ok(t) = scan_line(line, k) {
            if let Ok(rest) = lex_lines(lines.drop_first(), level) {
                let ch = indent_change(indent, level);
                lemma_scan_line_plain(line, k, ind);
                lemma_scan_line_plain(line, k, ded);
                lemma_scan_line_plain(line, k, eof);
                if level >= indent {
                    lemma_count_repeat(ind, (level - indent) as nat, ind);
                    lemma_count_repeat(ind, (level - indent) as nat, ded);
                    lemma_count_repeat(ind, (level - indent) as nat, eof);
                } else {
                    lemma_count_repeat(ded, (indent - level) as nat, ind);
                    lemma_count_repeat(ded, (indent - level) as nat, ded);
                    lemma_count_repeat(ded, (indent - level) as nat, eof);
                }
                lemma_count_add(ch, t, ind);
                lemma_count_add(ch, t, ded);
                lemma_count_add(ch, t, eof);
                lemma_count_add(ch + t, rest, ind);
                lemma_count_add(ch + t, rest, ded);
                lemma_count_add(ch + t, rest, eof);
            }
        }
    }
}

/// Every successful lexing ends with `EOF`, holds exactly one `EOF`, and
/// holds as many `Indent` tokens as `Dedent` tokens.
pub proof fn lemma_lex_balanced(s: Seq<char>)
    ensures
        lex_spec(s) matches Ok(ts) ==> {
            &&& ts.len() > 0
            &&& ts.last() == TokenV::Other(Token::EOF)
            &&& count(ts, TokenV::Other(Token::EOF)) == 1
            &&& count(ts, TokenV::Other(Token::Indent)) == count(ts, TokenV::Other(Token::Dedent))
        },
{
    lemma_lex_lines_balanced(lines_of(s), 0);
}

} // verus!
