use mamba::lexer::{Lexer, Token};
use mamba::parser::pratt::{PrattParser, Precedence};
use mamba::parser::{Expression, IfBranch, Parser, Statement};
use mamba::types::{DataType, SignedInteger};

fn get_tokens(source: &str) -> Vec<Token> {
    let mut lexer = Lexer::new(source.into());
    lexer.get_tokens().unwrap()
}

fn test_prefix_expression(tokens: Vec<Token>) -> Expression {
    let mut parser = Parser::new(tokens);
    PrattParser::parse_nud(&mut parser).unwrap()
}

fn test_expression(tokens: Vec<Token>) -> Expression {
    let mut parser = Parser::new(tokens);
    PrattParser::parse_expr(&mut parser, Precedence::Lowest, None).unwrap()
}

fn parse(source: &str) -> Vec<Statement> {
    let mut parser = Parser::new(get_tokens(source));
    parser.parse_all().unwrap()
}

#[test]
fn test_prefix_expressions() {
    assert_eq!(test_prefix_expression(get_tokens("+123")).to_string(), "{ operator: UnaryPlus, right: Integer(123) }");
    assert_eq!(test_prefix_expression(get_tokens("-123")).to_string(), "{ operator: UnaryMinus, right: Integer(123) }");
    assert_eq!(test_prefix_expression(get_tokens("~123")).to_string(), "{ operator: BitwiseNot, right: Integer(123) }");
    assert_eq!(test_prefix_expression(get_tokens("+foo")).to_string(), "{ operator: UnaryPlus, right: foo }");
    assert_eq!(test_prefix_expression(get_tokens("-foo")).to_string(), "{ operator: UnaryMinus, right: foo }");
    assert_eq!(test_prefix_expression(get_tokens("~foo")).to_string(), "{ operator: BitwiseNot, right: foo }");
}

#[test]
fn test_simple_expressions() {
    assert_eq!(test_expression(get_tokens("a + b")).to_string(), "{ operator: Plus, left: a, right: b }");
    assert_eq!(test_expression(get_tokens("a - b")).to_string(), "{ operator: Minus, left: a, right: b }");
    assert_eq!(test_expression(get_tokens("a * b")).to_string(), "{ operator: Multiply, left: a, right: b }");
    assert_eq!(test_expression(get_tokens("a / b")).to_string(), "{ operator: Divide, left: a, right: b }");
    assert_eq!(test_expression(get_tokens("a % b")).to_string(), "{ operator: Modulo, left: a, right: b }");
    assert_eq!(test_expression(get_tokens("a & b")).to_string(), "{ operator: BitwiseAnd, left: a, right: b }");
    assert_eq!(test_expression(get_tokens("a ^ b")).to_string(), "{ operator: BitwiseXor, left: a, right: b }");
    assert_eq!(test_expression(get_tokens("a | b")).to_string(), "{ operator: BitwiseOr, left: a, right: b }");
}

#[test]
fn test_mixed_expressions() {
    assert_eq!(test_expression(get_tokens("-a * b")).to_string(), "{ operator: Multiply, left: { operator: UnaryMinus, right: a }, right: b }");
    assert_eq!(test_expression(get_tokens("~-a")).to_string(), "{ operator: BitwiseNot, right: { operator: UnaryMinus, right: a } }");
    assert_eq!(test_expression(get_tokens("a + b + c")).to_string(), "{ operator: Plus, left: { operator: Plus, left: a, right: b }, right: c }");
    assert_eq!(test_expression(get_tokens("a + b - c")).to_string(), "{ operator: Minus, left: { operator: Plus, left: a, right: b }, right: c }");
    assert_eq!(test_expression(get_tokens("a * b * c")).to_string(), "{ operator: Multiply, left: { operator: Multiply, left: a, right: b }, right: c }");
    assert_eq!(test_expression(get_tokens("a * b / c")).to_string(), "{ operator: Divide, left: { operator: Multiply, left: a, right: b }, right: c }");
    assert_eq!(test_expression(get_tokens("a + b * c + d / e - f")).to_string(), "{ operator: Minus, left: { operator: Plus, left: { operator: Plus, left: a, right: { operator: Multiply, left: b, right: c } }, right: { operator: Divide, left: d, right: e } }, right: f }");
    assert_eq!(test_expression(get_tokens("5 > 4 == 3 < 4")).to_string(), "{ operator: Equal, left: { operator: Greater, left: Integer(5), right: Integer(4) }, right: { operator: Less, left: Integer(3), right: Integer(4) } }");
    assert_eq!(test_expression(get_tokens("5 < 4 != 3 > 4")).to_string(), "{ operator: NotEqual, left: { operator: Less, left: Integer(5), right: Integer(4) }, right: { operator: Greater, left: Integer(3), right: Integer(4) } }");
    assert_eq!(test_expression(get_tokens("1 + (2 + 3) + 4")).to_string(), "{ operator: Plus, left: { operator: Plus, left: Integer(1), right: { operator: Plus, left: Integer(2), right: Integer(3) } }, right: Integer(4) }");
    assert_eq!(test_expression(get_tokens("(5 + 5) * 2")).to_string(), "{ operator: Multiply, left: { operator: Plus, left: Integer(5), right: Integer(5) }, right: Integer(2) }");
    assert_eq!(test_expression(get_tokens("2 / (5 + 5)")).to_string(), "{ operator: Divide, left: Integer(2), right: { operator: Plus, left: Integer(5), right: Integer(5) } }");
    assert_eq!(test_expression(get_tokens("-(5 + 5)")).to_string(), "{ operator: UnaryMinus, right: { operator: Plus, left: Integer(5), right: Integer(5) } }");
}

#[test]
fn pratt_precedence_scenarios() {
    assert_eq!(test_expression(get_tokens("1 + 2 * 3")).to_string(), "{ operator: Plus, left: Integer(1), right: { operator: Multiply, left: Integer(2), right: Integer(3) } }");
    assert_eq!(test_expression(get_tokens("(5+5)*2")).to_string(), "{ operator: Multiply, left: { operator: Plus, left: Integer(5), right: Integer(5) }, right: Integer(2) }");
    assert_eq!(test_expression(get_tokens("a | b ^ c & d << e")).to_string(), "{ operator: BitwiseOr, left: a, right: { operator: BitwiseXor, left: b, right: { operator: BitwiseAnd, left: c, right: { operator: LeftShift, left: d, right: e } } } }");
    assert_eq!(test_expression(get_tokens("a << b << c")).to_string(), "{ operator: LeftShift, left: { operator: LeftShift, left: a, right: b }, right: c }");
}

#[test]
fn pratt_function_calls() {
    assert_eq!(test_expression(get_tokens("f(1, g(x), y + 2) * 3")).to_string(), "{ operator: Multiply, left: { type: fnCall, name: f, args: { Integer(1), { type: fnCall, name: g, args: { x } }, { operator: Plus, left: y, right: Integer(2) } } }, right: Integer(3) }");
    assert_eq!(test_expression(get_tokens("f()")).to_string(), "{ type: fnCall, name: f, args: {  } }");
}

#[test]
fn pratt_errors() {
    let mut parser = Parser::new(get_tokens("(1 + 2"));
    assert!(PrattParser::parse_expr(&mut parser, Precedence::Lowest, None).is_err());
    let mut parser = Parser::new(get_tokens("1 +"));
    assert!(PrattParser::parse_expr(&mut parser, Precedence::Lowest, None).is_err());
    let mut parser = Parser::new(get_tokens("3(1)"));
    assert!(PrattParser::parse_expr(&mut parser, Precedence::Lowest, None).is_err());
    let mut parser = Parser::new(get_tokens("f(1 2)"));
    assert!(PrattParser::parse_expr(&mut parser, Precedence::Lowest, None).is_err());
}

#[test]
fn literal_takes_expected_width() {
    let mut parser = Parser::new(get_tokens("7"));
    let e = PrattParser::parse_expr(&mut parser, Precedence::Lowest, Some(DataType::SignedInteger(SignedInteger::i64))).unwrap();
    match e {
        Expression::Literal(_, t) => assert_eq!(t, DataType::SignedInteger(SignedInteger::i64)),
        _ => panic!("literal expected"),
    }
}

#[test]
fn parse_program_statements() {
    let ast = parse("extern putchar(c: i32) -> i32;\nlet g: i64 = 5;\ndef main(a: i32, b: u8) -> i32:\n    let x: i32 = 1;\n    while x < 10:\n        putchar(x);\n    if a == 1:\n        return 1;\n    elif a == 2:\n        return 2;\n    else:\n        return 3;\n");
    assert_eq!(ast.len(), 3);
    match &ast[0] {
        Statement::Extern(e) => {
            assert_eq!(e.name, "putchar");
            assert_eq!(e.params, vec![("c".to_string(), DataType::SignedInteger(SignedInteger::i32))]);
        },
        _ => panic!("extern expected"),
    }
    match &ast[1] {
        Statement::Let(l) => {
            assert_eq!(l.ident, "g");
            assert_eq!(l.expr.to_string(), "Integer(5)");
        },
        _ => panic!("let expected"),
    }
    match &ast[2] {
        Statement::Def(d) => {
            assert_eq!(d.name, "main");
            assert_eq!(d.params.len(), 2);
            assert_eq!(d.stmts.len(), 3);
            match &d.stmts[2] {
                Statement::If(i) => match &*i.otherwise {
                    IfBranch::Elif(e) => assert!(matches!(&*e.otherwise, IfBranch::Else(_))),
                    _ => panic!("elif expected"),
                },
                _ => panic!("if expected"),
            }
        },
        _ => panic!("def expected"),
    }
}

#[test]
fn parse_statement_errors() {
    let mut parser = Parser::new(get_tokens("let x i32 = 1;"));
    assert!(parser.parse_all().is_err());
    let mut parser = Parser::new(get_tokens("def f() i32:\n    return 1;"));
    assert!(parser.parse_all().is_err());
    let mut parser = Parser::new(get_tokens("return 1"));
    assert!(parser.parse_all().is_err());
    let mut parser = Parser::new(get_tokens("else: x;"));
    assert!(parser.parse_all().is_err());
}

#[test]
fn repeated_parameter_names_rejected() {
    let mut parser = Parser::new(get_tokens("def f(a: i32, a: i32) -> i32:\n    return a;"));
    let err = parser.parse_all().unwrap_err();
    assert_eq!(err.0, "repeated parameter name");
    let mut parser = Parser::new(get_tokens("extern g(x: i8, y: i8, x: i8) -> i8;"));
    assert!(parser.parse_all().is_err());
    let mut parser = Parser::new(get_tokens("extern g(x: i8, y: i8) -> i8;"));
    assert!(parser.parse_all().is_ok());
}

#[test]
fn empty_block_rejected() {
    let mut parser = Parser::new(get_tokens("def f() -> i32:\n    \n"));
    assert!(parser.parse_all().is_err());
}

#[test]
fn pratt_cursor_ends_on_last_token() {
    let tokens = get_tokens("f(1, x) * 3");
    let mut parser = Parser::new(tokens.clone());
    let e = PrattParser::parse_expr(&mut parser, Precedence::Lowest, None).unwrap();
    assert_eq!(e.to_string(), "{ operator: Multiply, left: { type: fnCall, name: f, args: { Integer(1), x } }, right: Integer(3) }");
    assert_eq!(parser.pos, 7);
    assert_eq!(tokens[parser.pos], mamba::lexer::Token::Literal(mamba::lexer::Literal::SignedInteger(3, SignedInteger::i32)));

    let mut parser = Parser::new(get_tokens("a + b"));
    parser.pos = 1;
    let e = PrattParser::parse_led(&mut parser, Expression::Identifier("a".into())).unwrap();
    assert_eq!(e.to_string(), "{ operator: Plus, left: a, right: b }");
    assert_eq!(parser.pos, 2);

    let tokens = get_tokens("f(a, b)");
    let mut parser = Parser::new(tokens.clone());
    parser.pos = 1;
    let f = PrattParser::parse_fncall(&mut parser, Expression::Identifier("f".into())).unwrap();
    assert_eq!(f.args.len(), 2);
    assert_eq!(tokens[parser.pos], Token::RParen);

    let mut parser = Parser::new(get_tokens("f()"));
    parser.pos = 1;
    let f = PrattParser::parse_fncall(&mut parser, Expression::Identifier("f".into())).unwrap();
    assert_eq!(f.args.len(), 0);
    assert_eq!(parser.pos, 2);

    let mut parser = Parser::new(get_tokens("-x + 1"));
    let e = PrattParser::parse_nud(&mut parser).unwrap();
    assert_eq!(e.to_string(), "{ operator: UnaryMinus, right: x }");
    assert_eq!(parser.pos, 1);
}
