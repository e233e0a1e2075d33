use mamba::lexer::{Keyword, Lexer, Literal, Token};
use mamba::types::{DataType, SignedInteger};

const SAMPLE_CODE: &str = "
let foo: int = 123;

def sum(a: int, b: int) -> int:
    return a + b;

def main() -> void:
    print(\"hello, world!\");";

fn lex(source: &str) -> Vec<Token> {
    let mut lexer = Lexer::new(source.into());
    lexer.get_tokens().unwrap()
}

fn int_lit(n: i128) -> Token {
    Token::Literal(Literal::SignedInteger(n, SignedInteger::i32))
}

fn ident(s: &str) -> Token {
    Token::Identifier(s.into())
}

#[test]
fn test_lexer() {
    let tokens = lex(SAMPLE_CODE);

    assert_eq!(tokens[0], Token::Keyword(Keyword::Let));
    assert_eq!(tokens[1], ident("foo"));
    assert_eq!(tokens[2], Token::Colon);
    assert_eq!(tokens[3], ident("int"));
    assert_eq!(tokens[4], Token::Equal);
    assert_eq!(tokens[5], int_lit(123));
    assert_eq!(tokens[6], Token::Semicolon);
    assert_eq!(tokens[7], Token::Keyword(Keyword::Def));
    assert_eq!(tokens[8], ident("sum"));
    assert_eq!(tokens[9], Token::LParen);
    assert_eq!(tokens[10], ident("a"));
    assert_eq!(tokens[11], Token::Colon);
    assert_eq!(tokens[12], ident("int"));
    assert_eq!(tokens[13], Token::Comma);
    assert_eq!(tokens[14], ident("b"));
    assert_eq!(tokens[15], Token::Colon);
    assert_eq!(tokens[16], ident("int"));
    assert_eq!(tokens[17], Token::RParen);
    assert_eq!(tokens[18], Token::RArrow);
    assert_eq!(tokens[19], ident("int"));
    assert_eq!(tokens[20], Token::Colon);
    assert_eq!(tokens[21], Token::Indent);
    assert_eq!(tokens[22], Token::Keyword(Keyword::Return));
    assert_eq!(tokens[23], ident("a"));
    assert_eq!(tokens[24], Token::Plus);
    assert_eq!(tokens[25], ident("b"));
    assert_eq!(tokens[26], Token::Semicolon);
    assert_eq!(tokens[27], Token::Dedent);
    assert_eq!(tokens[28], Token::Keyword(Keyword::Def));
    assert_eq!(tokens[29], ident("main"));
    assert_eq!(tokens[30], Token::LParen);
    assert_eq!(tokens[31], Token::RParen);
    assert_eq!(tokens[32], Token::RArrow);
    assert_eq!(tokens[33], Token::Keyword(Keyword::DataType(DataType::void)));
    assert_eq!(tokens[34], Token::Colon);
    assert_eq!(tokens[35], Token::Indent);
    assert_eq!(tokens[36], ident("print"));
    assert_eq!(tokens[37], Token::LParen);
    assert_eq!(tokens[38], Token::Literal(Literal::String("hello, world!".into())));
    assert_eq!(tokens[39], Token::RParen);
    assert_eq!(tokens[40], Token::Semicolon);
    assert_eq!(tokens[41], Token::Dedent);
    assert_eq!(tokens[42], Token::EOF);
    assert_eq!(tokens.len(), 43);
}

#[test]
fn lexer_indentation_prefix() {
    let source = "let foo: int = 123;\n\ndef sum(a: int, b: int) -> int:\n    return a + b;\n";
    let tokens = lex(source);
    let expected = vec![
        Token::Keyword(Keyword::Let), ident("foo"), Token::Colon, ident("int"), Token::Equal, int_lit(123),
        Token::Semicolon, Token::Keyword(Keyword::Def), ident("sum"), Token::LParen, ident("a"), Token::Colon,
        ident("int"), Token::Comma, ident("b"), Token::Colon, ident("int"), Token::RParen, Token::RArrow,
        ident("int"), Token::Colon, Token::Indent, Token::Keyword(Keyword::Return), ident("a"), Token::Plus,
        ident("b"), Token::Semicolon, Token::Dedent, Token::EOF,
    ];
    assert_eq!(tokens, expected);
}

#[test]
fn lexer_balances_indentation() {
    let source = "def f() -> i32:\n    if x:\n        while y:\n            return 1;";
    let tokens = lex(source);
    let indents = tokens.iter().filter(|t| **t == Token::Indent).count();
    let dedents = tokens.iter().filter(|t| **t == Token::Dedent).count();
    let eofs = tokens.iter().filter(|t| **t == Token::EOF).count();
    assert_eq!(indents, 3);
    assert_eq!(dedents, 3);
    assert_eq!(eofs, 1);
    assert_eq!(tokens.last(), Some(&Token::EOF));
}

#[test]
fn lexer_empty_source() {
    assert_eq!(lex(""), vec![Token::EOF]);
}

#[test]
fn lexer_longest_match_operators() {
    let tokens = lex("<<= >>= << >> <= >= == != -> += -= *= /= %= &= |= ^= < > = % ~");
    let expected = vec![
        Token::LeftShiftEqual, Token::RightShiftEqual, Token::LeftShift, Token::RightShift, Token::LessEqual,
        Token::GreaterEqual, Token::EqualEqual, Token::NotEqual, Token::RArrow, Token::PlusEqual,
        Token::MinusEqual, Token::StarEqual, Token::SlashEqual, Token::PercentEqual, Token::AmpersandEqual,
        Token::VBarEqual, Token::CircumflexEqual, Token::Less, Token::Greater, Token::Equal, Token::Percent,
        Token::Tilde, Token::EOF,
    ];
    assert_eq!(tokens, expected);
}

#[test]
fn lexer_keywords_and_comments() {
    let tokens = lex("while elif else extern u8 i128 str bool x_1 # a comment\n42");
    let expected = vec![
        Token::Keyword(Keyword::While), Token::Keyword(Keyword::Elif), Token::Keyword(Keyword::Else),
        Token::Keyword(Keyword::Extern),
        Token::Keyword(Keyword::DataType(DataType::UnsignedInteger(mamba::types::UnsignedInteger::u8))),
        Token::Keyword(Keyword::DataType(DataType::SignedInteger(SignedInteger::i128))),
        Token::Keyword(Keyword::DataType(DataType::str)), Token::Keyword(Keyword::DataType(DataType::bool)),
        ident("x_1"), int_lit(42), Token::EOF,
    ];
    assert_eq!(tokens, expected);
}

#[test]
fn lexer_unterminated_string_fails() {
    let mut lexer = Lexer::new("let s: str = \"abc;".into());
    let err = lexer.get_tokens().unwrap_err();
    assert_eq!(err.0, "closing quotation mark expected");
}

#[test]
fn lexer_unrecognized_character_fails() {
    let mut lexer = Lexer::new("a ! b".into());
    assert!(lexer.get_tokens().is_err());
    let mut lexer = Lexer::new("a $ b".into());
    assert!(lexer.get_tokens().is_err());
}

#[test]
fn lexer_integer_too_large_fails() {
    let mut lexer = Lexer::new("170141183460469231731687303715884105727".into());
    assert_eq!(lexer.get_tokens().unwrap(), vec![int_lit(i128::MAX), Token::EOF]);
    let mut lexer = Lexer::new("170141183460469231731687303715884105728".into());
    assert!(lexer.get_tokens().is_err());
}

#[test]
fn lexer_error_messages() {
    let mut lexer = Lexer::new("a $ b".into());
    assert_eq!(lexer.get_tokens().unwrap_err().0, "unrecognized character");
    let mut lexer = Lexer::new("99999999999999999999999999999999999999999".into());
    assert_eq!(lexer.get_tokens().unwrap_err().0, "integer literal does not fit in 128 bits");
    let result = mamba::lex_result("\"open".into());
    assert!(result.output.is_none());
    match &result.problems.unwrap()[0] {
        mamba::MambaProblem::Error(m) => assert_eq!(m, "closing quotation mark expected"),
        _ => panic!("error expected"),
    }
}
