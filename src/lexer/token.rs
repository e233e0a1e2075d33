use vstd::prelude::*;
use crate::types::{DataType, SignedInteger, UnsignedInteger};

verus! {

/// A token of the surface language.
#[derive(Debug, PartialEq, Eq, Clone)]
pub enum Token {
    Identifier(String),
    Keyword(Keyword),
    Literal(Literal),

    NewLine,
    Indent,
    Dedent,

    LParen,
    RParen,
    LSqBr,
    RSqBr,
    Colon,
    Comma,
    Semicolon,
    Plus,
    Minus,
    Star,
    Slash,
    VBar,
    Ampersand,
    Less,
    Greater,
    Equal,
    Dot,
    Percent,
    LBrace,
    RBrace,
    EqualEqual,
    NotEqual,
    LessEqual,
    GreaterEqual,
    Tilde,
    Circumflex,
    LeftShift,
    RightShift,
    PlusEqual,
    MinusEqual,
    StarEqual,
    SlashEqual,
    PercentEqual,
    AmpersandEqual,
    VBarEqual,
    CircumflexEqual,
    LeftShiftEqual,
    RightShiftEqual,
    RArrow,

    Unknown(String),
    EOF,
}

/// A reserved word: a statement keyword or a type name.
#[derive(Debug, PartialEq, Eq, Structural, Clone, Copy)]
pub enum Keyword {
    If,
    Elif,
    Else,
    Let,
    Def,
    Return,
    Extern,
    While,
    DataType(DataType),
}

/// A literal value with its width tag.
#[derive(Debug, PartialEq, Eq, Clone)]
pub enum Literal {
    SignedInteger(i128, SignedInteger),
    UnsignedInteger(u128, UnsignedInteger),
    String(String),
}

} // verus!

verus! {

/// The mathematical view of a token: text as character sequences, every
/// other token as itself.
pub enum TokenV {
    Ident(Seq<char>),
    Str(Seq<char>),
    Unknown(Seq<char>),
    Other(Token),
}

impl Token {
    pub open spec fn view(self) -> TokenV {
        match self {
            Token::Identifier(s) => TokenV::Ident(s@),
            Token::Literal(Literal::String(s)) => TokenV::Str(s@),
            Token::Unknown(s) => TokenV::Unknown(s@),
            _ => TokenV::Other(self),
        }
    }
}

/// The view of a sequence of tokens.
pub open spec fn tokens_view(ts: Seq<Token>) -> Seq<TokenV> {
    ts.map_values(|t: Token| t.view())
}

} // verus!
