//! Pratt parsing of expressions.
use vstd::prelude::*;
use crate::lexer::{Literal, Token, TokenV};
use crate::error::ParseError;
use super::Parser;
use super::expression::{Expression, UnaryExpression, InfixExpression, FnCallExpression};
use crate::types::{DataType, SignedInteger, UnsignedInteger};
use super::expression::{ExprV, LiteralV, Operator, args_view, lemma_args_view_push};

verus! {

/// Binding strengths, weakest first.
#[derive(Debug, Clone, Copy, PartialEq, Eq, Structural)]
pub enum Precedence {
    Lowest,
    EqualNotEqual,
    LessGreater,
    BitwiseOr,
    BitwiseXor,
    BitwiseAnd,
    Shift,
    PlusMinus,
    MulDivMod,
    Unary,
    Paren,
    FnCall,
}

/// The rank of a precedence: a higher rank binds tighter.
pub open spec fn rank(p: Precedence) -> nat {
    match p {
        Precedence::Lowest => 0,
        Precedence::EqualNotEqual => 1,
        Precedence::LessGreater => 2,
        Precedence::BitwiseOr => 3,
        Precedence::BitwiseXor => 4,
        Precedence::BitwiseAnd => 5,
        Precedence::Shift => 6,
        Precedence::PlusMinus => 7,
        Precedence::MulDivMod => 8,
        Precedence::Unary => 9,
        Precedence::Paren => 10,
        Precedence::FnCall => 11,
    }
}

/// The operator a token stands for in prefix position.
pub open spec fn prefix_operator(t: TokenV) -> Option<Operator> {
    match t {
        TokenV::Other(Token::Plus) => Some(Operator::UnaryPlus),
        TokenV::Other(Token::Minus) => Some(Operator::UnaryMinus),
        TokenV::Other(Token::Tilde) => Some(Operator::BitwiseNot),
        _ => None,
    }
}

/// The operator a token stands for in infix position (`(` starts a call).
pub open spec fn infix_operator(t: TokenV) -> Option<Operator> {
    match t {
        TokenV::Other(Token::Plus) => Some(Operator::Plus),
        TokenV::Other(Token::Minus) => Some(Operator::Minus),
        TokenV::Other(Token::Slash) => Some(Operator::Divide),
        TokenV::Other(Token::Star) => Some(Operator::Multiply),
        TokenV::Other(Token::EqualEqual) => Some(Operator::Equal),
        TokenV::Other(Token::NotEqual) => Some(Operator::NotEqual),
        TokenV::Other(Token::Less) => Some(Operator::Less),
        TokenV::Other(Token::LessEqual) => Some(Operator::LessEqual),
        TokenV::Other(Token::Greater) => Some(Operator::Greater),
        TokenV::Other(Token::GreaterEqual) => Some(Operator::GreaterEqual),
        TokenV::Other(Token::Percent) => Some(Operator::Modulo),
        TokenV::Other(Token::Ampersand) => Some(Operator::BitwiseAnd),
        TokenV::Other(Token::Circumflex) => Some(Operator::BitwiseXor),
        TokenV::Other(Token::VBar) => Some(Operator::BitwiseOr),
        TokenV::Other(Token::LeftShift) => Some(Operator::LeftShift),
        TokenV::Other(Token::RightShift) => Some(Operator::RightShift),
        TokenV::Other(Token::LParen) => Some(Operator::FnCall),
        _ => None,
    }
}

/// The precedence of an infix operator; `None` for the prefix-only ones.
pub open spec fn operator_precedence(op: Operator) -> Option<Precedence> {
    match op {
        Operator::Plus | Operator::Minus => Some(Precedence::PlusMinus),
        Operator::Multiply | Operator::Divide | Operator::Modulo => Some(Precedence::MulDivMod),
        Operator::BitwiseAnd => Some(Precedence::BitwiseAnd),
        Operator::BitwiseOr => Some(Precedence::BitwiseOr),
        Operator::BitwiseXor => Some(Precedence::BitwiseXor),
        Operator::LeftShift | Operator::RightShift => Some(Precedence::Shift),
        Operator::Less | Operator::LessEqual | Operator::Greater | Operator::GreaterEqual => Some(Precedence::LessGreater),
        Operator::Equal | Operator::NotEqual => Some(Precedence::EqualNotEqual),
        Operator::FnCall => Some(Precedence::FnCall),
        _ => None,
    }
}

/// The literal expression of an integer token, its width taken from the
/// expected type when that is an integer type.
pub open spec fn int_literal(v: int, default: DataType, hint: Option<DataType>) -> Option<ExprV> {
    let ty = match hint {
        Some(DataType::SignedInteger(w)) => DataType::SignedInteger(w),
        Some(DataType::UnsignedInteger(w)) => DataType::UnsignedInteger(w),
        _ => default,
    };
    match ty {
        DataType::SignedInteger(w) =>
            if i128::MIN <= v <= i128::MAX { Some(ExprV::Literal(LiteralV::Signed(v as i128, w), ty)) } else { None },
        DataType::UnsignedInteger(w) =>
            if 0 <= v <= u128::MAX { Some(ExprV::Literal(LiteralV::Unsigned(v as u128, w), ty)) } else { None },
        _ => None,
    }
}

/// The expression of the literal token `t`, if it is one.
pub open spec fn literal_expr(t: TokenV, hint: Option<DataType>) -> Option<ExprV> {
    match t {
        TokenV::Other(Token::Literal(Literal::SignedInteger(n, _))) =>
            int_literal(n as int, DataType::SignedInteger(SignedInteger::i32), hint),
        TokenV::Other(Token::Literal(Literal::UnsignedInteger(n, _))) =>
            int_literal(n as int, DataType::UnsignedInteger(UnsignedInteger::u32), hint),
        TokenV::Str(s) => Some(ExprV::Literal(LiteralV::Str(s), DataType::str)),
        _ => None,
    }
}

/// Whether the literal token `t` is an integer or string literal.
pub open spec fn is_literal(t: TokenV) -> bool {
    match t {
        TokenV::Other(Token::Literal(_)) => true,
        TokenV::Str(_) => true,
        _ => false,
    }
}

/// Pratt parsing of an expression at `pos` that binds tighter than `prec`:
/// the expression and the position after it, or `None` on a syntax error.
pub open spec fn p_expr(ts: Seq<TokenV>, pos: nat, prec: nat, hint: Option<DataType>) -> Option<(ExprV, nat)>
    decreases ts.len() - pos, 3nat,
{
    if pos >= ts.len() {
        None
    } else {
        match p_nud(ts, pos, hint) {
            None => None,
            Some((left, p)) => if p <= pos || p > ts.len() { None } else { p_loop(ts, p, prec, left) },
        }
    }
}

/// The null denotation at `pos`: a literal, an identifier, a parenthesised
/// expression or a prefix operator with its operand.
pub open spec fn p_nud(ts: Seq<TokenV>, pos: nat, hint: Option<DataType>) -> Option<(ExprV, nat)>
    decreases ts.len() - pos, 2nat,
{
    if pos >= ts.len() {
        None
    } else {
        let t = ts[pos as int];
        if let TokenV::Ident(s) = t {
            Some((ExprV::Ident(s), pos + 1))
        } else if is_literal(t) {
            match literal_expr(t, hint) {
                Some(e) => Some((e, pos + 1)),
                None => None,
            }
        } else if t == TokenV::Other(Token::LParen) {
            match p_expr(ts, pos + 1, rank(Precedence::Lowest), None) {
                Some((e, p)) => if p < ts.len() && ts[p as int] == TokenV::Other(Token::RParen) {
                    Some((e, p + 1))
                } else {
                    None
                },
                None => None,
            }
        } else {
            p_unary(ts, pos)
        }
    }
}

/// A prefix operator at `pos` applied to the operand after it, parsed at
/// unary precedence.
pub open spec fn p_unary(ts: Seq<TokenV>, pos: nat) -> Option<(ExprV, nat)>
    decreases ts.len() - pos, 1nat,
{
    if pos >= ts.len() {
        None
    } else {
        match prefix_operator(ts[pos as int]) {
            None => None,
            Some(op) => match p_expr(ts, pos + 1, rank(Precedence::Unary), None) {
                Some((e, p)) => Some((ExprV::Unary(op, Box::new(e)), p)),
                None => None,
            },
        }
    }
}

/// The infix loop: while the token at `pos` is an infix operator binding
/// tighter than `prec`, extend `left` with it.
pub open spec fn p_loop(ts: Seq<TokenV>, pos: nat, prec: nat, left: ExprV) -> Option<(ExprV, nat)>
    decreases ts.len() - pos, 1nat,
{
    if pos >= ts.len() {
        Some((left, pos))
    } else {
        match infix_operator(ts[pos as int]) {
            None => Some((left, pos)),
            Some(op) => match operator_precedence(op) {
                None => None,
                Some(q) => if rank(q) <= prec {
                    Some((left, pos))
                } else {
                    match p_led(ts, pos, left) {
                        Some((e, p)) => if p <= pos || p > ts.len() { None } else { p_loop(ts, p, prec, e) },
                        None => None,
                    }
                },
            },
        }
    }
}

/// The left denotation of the infix operator at `pos`: a call of the
/// identifier `left`, or `left` as the left operand of the operator, whose
/// right operand binds tighter than the operator (so equal precedences
/// associate to the left).
pub open spec fn p_led(ts: Seq<TokenV>, pos: nat, left: ExprV) -> Option<(ExprV, nat)>
    decreases ts.len() - pos, 0nat,
{
    if pos >= ts.len() {
        None
    } else {
        match infix_operator(ts[pos as int]) {
            None => None,
            Some(op) => match operator_precedence(op) {
                None => None,
                Some(q) => if op == Operator::FnCall {
                    match left {
                        ExprV::Ident(name) => match p_call(ts, pos + 1) {
                            Some((args, p)) => Some((ExprV::FnCall(name, args), p)),
                            None => None,
                        },
                        _ => None,
                    }
                } else {
                    match p_expr(ts, pos + 1, rank(q), None) {
                        Some((right, p)) => Some((ExprV::Infix(op, Box::new(left), Box::new(right)), p)),
                        None => None,
                    }
                },
            },
        }
    }
}

/// The arguments of a call whose `(` is just before `pos`, and the position
/// after the closing `)`.
pub open spec fn p_call(ts: Seq<TokenV>, pos: nat) -> Option<(Seq<ExprV>, nat)>
    decreases ts.len() - pos, 5nat,
{
    if pos >= ts.len() {
        None
    } else if ts[pos as int] == TokenV::Other(Token::RParen) {
        Some((seq![], pos + 1))
    } else {
        p_args(ts, pos, seq![])
    }
}

/// The arguments from `pos` on, after those already in `acc`.
pub open spec fn p_args(ts: Seq<TokenV>, pos: nat, acc: Seq<ExprV>) -> Option<(Seq<ExprV>, nat)>
    decreases ts.len() - pos, 4nat,
{
    match p_expr(ts, pos, rank(Precedence::Lowest), None) {
        None => None,
        Some((e, p)) => if p <= pos || p >= ts.len() {
            None
        } else if ts[p as int] == TokenV::Other(Token::Comma) {
            p_args(ts, p + 1, acc.push(e))
        } else if ts[p as int] == TokenV::Other(Token::RParen) {
            Some((acc.push(e), p + 1))
        } else {
            None
        },
    }
}

} // verus!

verus! {

/// `a op1 b op2 c` followed by `EOF`, over identifiers.
pub open spec fn chain(a: Seq<char>, t1: TokenV, b: Seq<char>, t2: TokenV, c: Seq<char>) -> Seq<TokenV> {
    seq![TokenV::Ident(a), t1, TokenV::Ident(b), t2, TokenV::Ident(c), TokenV::Other(Token::EOF)]
}

/// A binary (non-call) infix operator token and its operator and precedence.
pub open spec fn binary_token(t: TokenV, op: Operator, q: Precedence) -> bool {
    infix_operator(t) == Some(op) && op != Operator::FnCall && operator_precedence(op) == Some(q)
}

/// Pratt law: in `a ⊕ b ⊗ c`, an operator `⊗` that binds tighter than `⊕`
/// takes `b` as its left operand (`a ⊕ (b ⊗ c)`); with equal precedence the
/// chain associates to the left (`(a ⊕ b) ⊗ c`); and when `⊕` binds tighter
/// it groups first as well.
pub proof fn lemma_pratt_precedence(
    a: Seq<char>, t1: TokenV, op1: Operator, q1: Precedence,
    b: Seq<char>, t2: TokenV, op2: Operator, q2: Precedence,
    c: Seq<char>,
)
    requires
        binary_token(t1, op1, q1),
        binary_token(t2, op2, q2),
    ensures
        rank(q1) < rank(q2) ==> p_expr(chain(a, t1, b, t2, c), 0, rank(Precedence::Lowest), None)
            == Some((ExprV::Infix(op1, Box::new(ExprV::Ident(a)),
                Box::new(ExprV::Infix(op2, Box::new(ExprV::Ident(b)), Box::new(ExprV::Ident(c))))), 5nat)),
        rank(q1) >= rank(q2) ==> p_expr(chain(a, t1, b, t2, c), 0, rank(Precedence::Lowest), None)
            == Some((ExprV::Infix(op2,
                Box::new(ExprV::Infix(op1, Box::new(ExprV::Ident(a)), Box::new(ExprV::Ident(b)))),
                Box::new(ExprV::Ident(c))), 5nat)),
{
    let ts = chain(a, t1, b, t2, c);
    let ea = ExprV::Ident(a);
    let eb = ExprV::Ident(b);
    let ec = ExprV::Ident(c);
    assert(ts[0] == TokenV::Ident(a));
    assert(ts[1] == t1);
    assert(ts[2] == TokenV::Ident(b));
    assert(ts[3] == t2);
    assert(ts[4] == TokenV::Ident(c));
    assert(ts[5] == TokenV::Other(Token::EOF));
    assert(ts.len() == 6);
    let lo = rank(Precedence::Lowest);
    // the tail `c EOF`, parsed at either operator's precedence
    assert(p_nud(ts, 4, None) == Some((ec, 5nat)));
    assert(p_loop(ts, 5, rank(q2), ec) == Some((ec, 5nat)));
    assert(p_expr(ts, 4, rank(q2), None) == Some((ec, 5nat)));
    assert(p_loop(ts, 5, rank(q1), ec) == Some((ec, 5nat)));
    assert(p_expr(ts, 4, rank(q1), None) == Some((ec, 5nat)));
    let bc = ExprV::Infix(op2, Box::new(eb), Box::new(ec));
    assert(p_loop(ts, 5, lo, bc) == Some((bc, 5nat)));
    assert(p_nud(ts, 2, None) == Some((eb, 3nat)));
    assert(p_nud(ts, 0, None) == Some((ea, 1nat)));
    if rank(q1) < rank(q2) {
        assert(p_led(ts, 3, eb) == Some((bc, 5nat)));
        assert(p_loop(ts, 5, rank(q1), bc) == Some((bc, 5nat)));
        assert(p_loop(ts, 3, rank(q1), eb) == Some((bc, 5nat)));
        assert(p_expr(ts, 2, rank(q1), None) == Some((bc, 5nat)));
        let abc = ExprV::Infix(op1, Box::new(ea), Box::new(bc));
        assert(p_loop(ts, 5, lo, abc) == Some((abc, 5nat)));
        assert(p_led(ts, 1, ea) == Some((abc, 5nat)));
        assert(p_loop(ts, 1, lo, ea) == Some((abc, 5nat)));
    } else {
        assert(p_loop(ts, 3, rank(q1), eb) == Some((eb, 3nat)));
        assert(p_expr(ts, 2, rank(q1), None) == Some((eb, 3nat)));
        let ab = ExprV::Infix(op1, Box::new(ea), Box::new(eb));
        let abc = ExprV::Infix(op2, Box::new(ab), Box::new(ec));
        assert(p_loop(ts, 5, lo, abc) == Some((abc, 5nat)));
        assert(p_led(ts, 3, ab) == Some((abc, 5nat)));
        assert(p_loop(ts, 3, lo, ab) == Some((abc, 5nat)));
        assert(p_led(ts, 1, ea) == Some((ab, 3nat)));
        assert(p_loop(ts, 1, lo, ea) == Some((abc, 5nat)));
    }
}

} // verus!

verus! {

pub(crate) fn parse_error(msg: &str) -> (r: ParseError)
    ensures
        r.0@ == msg@,
{
    ParseError(msg.to_owned())
}

/// The Pratt expression parser.
pub struct PrattParser;

impl Precedence {
    /// The rank of this precedence.
    pub fn level(&self) -> (r: u8)
        ensures
            r == rank(*self),
    {
        match self {
            Precedence::Lowest => 0,
            Precedence::EqualNotEqual => 1,
            Precedence::LessGreater => 2,
            Precedence::BitwiseOr => 3,
            Precedence::BitwiseXor => 4,
            Precedence::BitwiseAnd => 5,
            Precedence::Shift => 6,
            Precedence::PlusMinus => 7,
            Precedence::MulDivMod => 8,
            Precedence::Unary => 9,
            Precedence::Paren => 10,
            Precedence::FnCall => 11,
        }
    }
}

impl PrattParser {
    /// The operator of a token, in prefix or in infix position.
    pub fn get_operator(token: &Token, is_prefix: bool) -> (r: Option<Operator>)
        ensures
            r == if is_prefix { prefix_operator(token.view()) } else { infix_operator(token.view()) },
    {
        if is_prefix {
            match token {
                Token::Plus => Some(Operator::UnaryPlus),
                Token::Minus => Some(Operator::UnaryMinus),
                Token::Tilde => Some(Operator::BitwiseNot),
                _ => None,
            }
        } else {
            match token {
                Token::Plus => Some(Operator::Plus),
                Token::Minus => Some(Operator::Minus),
                Token::Slash => Some(Operator::Divide),
                Token::Star => Some(Operator::Multiply),
                Token::EqualEqual => Some(Operator::Equal),
                Token::NotEqual => Some(Operator::NotEqual),
                Token::Less => Some(Operator::Less),
                Token::LessEqual => Some(Operator::LessEqual),
                Token::Greater => Some(Operator::Greater),
                Token::GreaterEqual => Some(Operator::GreaterEqual),
                Token::Percent => Some(Operator::Modulo),
                Token::Ampersand => Some(Operator::BitwiseAnd),
                Token::Circumflex => Some(Operator::BitwiseXor),
                Token::VBar => Some(Operator::BitwiseOr),
                Token::LeftShift => Some(Operator::LeftShift),
                Token::RightShift => Some(Operator::RightShift),
                Token::LParen => Some(Operator::FnCall),
                _ => None,
            }
        }
    }

    /// The precedence of an infix operator; an error for a prefix-only one.
    pub fn get_precedence(operator: &Operator) -> (r: Result<Precedence, ParseError>)
        ensures
            match operator_precedence(*operator) {
                Some(q) => r matches Ok(x) && x == q,
                None => r is Err,
            },
    {
        match operator {
            Operator::Plus | Operator::Minus => Ok(Precedence::PlusMinus),
            Operator::Multiply | Operator::Divide | Operator::Modulo => Ok(Precedence::MulDivMod),
            Operator::BitwiseAnd => Ok(Precedence::BitwiseAnd),
            Operator::BitwiseOr => Ok(Precedence::BitwiseOr),
            Operator::BitwiseXor => Ok(Precedence::BitwiseXor),
            Operator::LeftShift | Operator::RightShift => Ok(Precedence::Shift),
            Operator::Less | Operator::LessEqual | Operator::Greater | Operator::GreaterEqual => Ok(Precedence::LessGreater),
            Operator::Equal | Operator::NotEqual => Ok(Precedence::EqualNotEqual),
            Operator::FnCall => Ok(Precedence::FnCall),
            _ => Err(parse_error("unknown operator")),
        }
    }

    /// The expression of a literal token, with the expected type's width.
    fn parse_literal(token: &Token, expected_dtype: Option<DataType>) -> (r: Option<Expression>)
        requires
            is_literal(token.view()),
        ensures
            match literal_expr(token.view(), expected_dtype) {
                Some(e) => r matches Some(x) && x.view() == e,
                None => r is None,
            },
    {
        let (v, default): (i128, DataType) = match token {
            Token::Literal(Literal::String(s)) => {
                return Some(Expression::Literal(Literal::String(s.clone()), DataType::str));
            },
            Token::Literal(Literal::SignedInteger(n, _)) => (*n, DataType::SignedInteger(SignedInteger::i32)),
            Token::Literal(Literal::UnsignedInteger(n, _)) => {
                if *n > i128::MAX as u128 {
                    // only an unsigned type can hold it
                    let ty = match expected_dtype {
                        Some(DataType::SignedInteger(w)) => DataType::SignedInteger(w),
                        Some(DataType::UnsignedInteger(w)) => DataType::UnsignedInteger(w),
                        _ => DataType::UnsignedInteger(UnsignedInteger::u32),
                    };
                    return match ty {
                        DataType::UnsignedInteger(w) => Some(Expression::Literal(Literal::UnsignedInteger(*n, w), ty)),
                        _ => None,
                    };
                }
                (*n as i128, DataType::UnsignedInteger(UnsignedInteger::u32))
            },
            _ => { return None; },
        };
        let ty = match expected_dtype {
            Some(DataType::SignedInteger(w)) => DataType::SignedInteger(w),
            Some(DataType::UnsignedInteger(w)) => DataType::UnsignedInteger(w),
            _ => default,
        };
        match ty {
            DataType::SignedInteger(w) => Some(Expression::Literal(Literal::SignedInteger(v, w), ty)),
            DataType::UnsignedInteger(w) => if v >= 0 {
                Some(Expression::Literal(Literal::UnsignedInteger(v as u128, w), ty))
            } else {
                None
            },
            _ => None,
        }
    }
}

} // verus!

verus! {

impl PrattParser {
    /// Parses an expression at the cursor whose operators bind tighter than
    /// `precedence`; a leading integer literal takes the width of
    /// `expected_dtype` when that is an integer type. The cursor ends just
    /// past the expression.
    pub(crate) fn parse_expr_past(parser: &mut Parser, precedence: Precedence, expected_dtype: Option<DataType>)
        -> (r: Result<Expression, ParseError>)
        ensures
            final(parser).tokens@ == old(parser).tokens@,
            match p_expr(old(parser).toks(), old(parser).at(), rank(precedence), expected_dtype) {
                Some((e, p)) => r matches Ok(x) && x.view() == e && final(parser).at() == p,
                None => r is Err,
            },
        r is Ok ==> final(parser).at() > old(parser).at(),
        decreases old(parser).tokens@.len() - old(parser).pos, 4nat,
    {
        if parser.pos >= parser.tokens.len() {
            return Err(parse_error("insufficient tokens"));
        }
        let start = parser.pos;
        let left = match Self::parse_prefix(parser, expected_dtype) {
            Ok(e) => e,
            Err(e) => { return Err(e); },
        };
        if parser.pos <= start || parser.pos > parser.tokens.len() {
            return Err(parse_error("expression expected"));
        }
        Self::parse_loop(parser, precedence.level(), left)
    }

    /// The null denotation at the cursor.
    fn parse_prefix(parser: &mut Parser, expected_dtype: Option<DataType>) -> (r: Result<Expression, ParseError>)
        ensures
            final(parser).tokens@ == old(parser).tokens@,
            match p_nud(old(parser).toks(), old(parser).at(), expected_dtype) {
                Some((e, p)) => r matches Ok(x) && x.view() == e && final(parser).at() == p,
                None => r is Err,
            },
        r is Ok ==> final(parser).at() > old(parser).at(),
        decreases old(parser).tokens@.len() - old(parser).pos, 3nat,
    {
        if parser.pos >= parser.tokens.len() {
            return Err(parse_error("insufficient tokens"));
        }
        let ghost ts = parser.toks();
        let ghost pos = parser.at();
        assert(ts[pos as int] == parser.tokens@[pos as int].view());
        let token = &parser.tokens[parser.pos];
        match token {
            Token::Identifier(s) => {
                let e = Expression::Identifier(s.clone());
                parser.pos = parser.pos + 1;
                return Ok(e);
            },
            Token::Literal(_) => {
                match Self::parse_literal(token, expected_dtype) {
                    Some(e) => {
                        parser.pos = parser.pos + 1;
                        return Ok(e);
                    },
                    None => {
                        return Err(parse_error("literal does not fit its type"));
                    },
                }
            },
            Token::LParen => {
                parser.pos = parser.pos + 1;
                let e = match Self::parse_expr_past(parser, Precedence::Lowest, None) {
                    Ok(e) => e,
                    Err(e) => { return Err(e); },
                };
                if parser.pos < parser.tokens.len() {
                    assert(parser.toks()[parser.at() as int] == parser.tokens@[parser.pos as int].view());
                    if let Token::RParen = &parser.tokens[parser.pos] {
                        parser.pos = parser.pos + 1;
                        return Ok(e);
                    }
                }
                return Err(parse_error("expected `)`"));
            },
            _ => {
                return Self::parse_nud_past(parser);
            },
        }
    }

    /// Parses a prefix operator at the cursor and its operand, which is
    /// parsed at unary precedence. The cursor ends just past the operand.
    pub(crate) fn parse_nud_past(parser: &mut Parser) -> (r: Result<Expression, ParseError>)
        ensures
            final(parser).tokens@ == old(parser).tokens@,
            match p_unary(old(parser).toks(), old(parser).at()) {
                Some((e, p)) => r matches Ok(x) && x.view() == e && final(parser).at() == p,
                None => r is Err,
            },
        r is Ok ==> final(parser).at() > old(parser).at(),
        decreases old(parser).tokens@.len() - old(parser).pos, 2nat,
    {
        if parser.pos >= parser.tokens.len() {
            return Err(parse_error("insufficient tokens"));
        }
        assert(parser.toks()[parser.at() as int] == parser.tokens@[parser.pos as int].view());
        let operator = match Self::get_operator(&parser.tokens[parser.pos], true) {
            Some(op) => op,
            None => { return Err(parse_error("unexpected token")); },
        };
        parser.pos = parser.pos + 1;
        let right = match Self::parse_expr_past(parser, Precedence::Unary, None) {
            Ok(e) => e,
            Err(e) => { return Err(e); },
        };
        Ok(Expression::Unary(UnaryExpression { operator, right: Box::new(right) }))
    }

    /// The infix loop: extends `left` while the operator at the cursor binds
    /// tighter than the rank `prec`.
    fn parse_loop(parser: &mut Parser, prec: u8, left: Expression) -> (r: Result<Expression, ParseError>)
        ensures
            final(parser).tokens@ == old(parser).tokens@,
            match p_loop(old(parser).toks(), old(parser).at(), prec as nat, left.view()) {
                Some((e, p)) => r matches Ok(x) && x.view() == e && final(parser).at() == p,
                None => r is Err,
            },
        r is Ok ==> final(parser).at() >= old(parser).at(),
        decreases old(parser).tokens@.len() - old(parser).pos, 2nat,
    {
        if parser.pos >= parser.tokens.len() {
            return Ok(left);
        }
        assert(parser.toks()[parser.at() as int] == parser.tokens@[parser.pos as int].view());
        let operator = match Self::get_operator(&parser.tokens[parser.pos], false) {
            Some(op) => op,
            None => { return Ok(left); },
        };
        let q = match Self::get_precedence(&operator) {
            Ok(q) => q,
            Err(e) => { return Err(e); },
        };
        if q.level() <= prec {
            return Ok(left);
        }
        let start = parser.pos;
        let e = match Self::parse_led_past(parser, left) {
            Ok(e) => e,
            Err(e) => { return Err(e); },
        };
        if parser.pos <= start || parser.pos > parser.tokens.len() {
            return Err(parse_error("expression expected"));
        }
        Self::parse_loop(parser, prec, e)
    }

    /// The left denotation of the infix operator at the cursor: `left` as its
    /// left operand, or, for `(`, a call of the identifier `left`. The cursor
    /// ends just past what it consumed.
    pub(crate) fn parse_led_past(parser: &mut Parser, left: Expression) -> (r: Result<Expression, ParseError>)
        ensures
            final(parser).tokens@ == old(parser).tokens@,
            match p_led(old(parser).toks(), old(parser).at(), left.view()) {
                Some((e, p)) => r matches Ok(x) && x.view() == e && final(parser).at() == p,
                None => r is Err,
            },
        r is Ok ==> final(parser).at() > old(parser).at(),
        decreases old(parser).tokens@.len() - old(parser).pos, 1nat,
    {
        if parser.pos >= parser.tokens.len() {
            return Err(parse_error("insufficient tokens"));
        }
        assert(parser.toks()[parser.at() as int] == parser.tokens@[parser.pos as int].view());
        let operator = match Self::get_operator(&parser.tokens[parser.pos], false) {
            Some(op) => op,
            None => { return Err(parse_error("unknown operator")); },
        };
        let q = match Self::get_precedence(&operator) {
            Ok(q) => q,
            Err(e) => { return Err(e); },
        };
        if let Operator::FnCall = operator {
            match Self::parse_fncall_past(parser, left) {
                Ok(f) => Ok(Expression::FnCall(f)),
                Err(e) => Err(e),
            }
        } else {
            parser.pos = parser.pos + 1;
            let right = match Self::parse_expr_past(parser, q, None) {
                Ok(e) => e,
                Err(e) => { return Err(e); },
            };
            Ok(Expression::Infix(InfixExpression { operator, left: Box::new(left), right: Box::new(right) }))
        }
    }

    /// Parses the arguments of a call of the identifier `left`; the cursor
    /// is at `(` and ends after the closing `)`.
    pub(crate) fn parse_fncall_past(parser: &mut Parser, left: Expression) -> (r: Result<FnCallExpression, ParseError>)
        ensures
            final(parser).tokens@ == old(parser).tokens@,
            match left.view() {
                ExprV::Ident(name) => match p_call(old(parser).toks(), old(parser).at() + 1) {
                    Some((args, p)) => r matches Ok(f) && f.ident@ == name && args_view(f.args@) == args
                        && final(parser).at() == p,
                    None => r is Err,
                },
                _ => r is Err,
            },
        r is Ok ==> final(parser).at() > old(parser).at(),
        decreases old(parser).tokens@.len() - old(parser).pos, 0nat,
    {
        let ident = match left {
            Expression::Identifier(s) => s,
            _ => { return Err(parse_error("expected identifier before `(`")); },
        };
        if parser.pos >= parser.tokens.len() {
            return Err(parse_error("insufficient tokens"));
        }
        parser.pos = parser.pos + 1;
        if parser.pos >= parser.tokens.len() {
            return Err(parse_error("insufficient tokens"));
        }
        assert(parser.toks()[parser.at() as int] == parser.tokens@[parser.pos as int].view());
        if let Token::RParen = &parser.tokens[parser.pos] {
            parser.pos = parser.pos + 1;
            let args: Vec<Expression> = Vec::new();
            assert(args_view(args@) =~= Seq::<ExprV>::empty());
            return Ok(FnCallExpression { ident, args });
        }
        let acc: Vec<Expression> = Vec::new();
        assert(args_view(acc@) =~= Seq::<ExprV>::empty());
        match Self::parse_args(parser, acc) {
            Ok(args) => Ok(FnCallExpression { ident, args }),
            Err(e) => Err(e),
        }
    }

    /// The arguments from the cursor on, after those in `acc`.
    fn parse_args(parser: &mut Parser, acc: Vec<Expression>) -> (r: Result<Vec<Expression>, ParseError>)
        ensures
            final(parser).tokens@ == old(parser).tokens@,
            match p_args(old(parser).toks(), old(parser).at(), args_view(acc@)) {
                Some((args, p)) => r matches Ok(v) && args_view(v@) == args && final(parser).at() == p,
                None => r is Err,
            },
        r is Ok ==> final(parser).at() > old(parser).at(),
        decreases old(parser).tokens@.len() - old(parser).pos, 5nat,
    {
        let start = parser.pos;
        let e = match Self::parse_expr_past(parser, Precedence::Lowest, None) {
            Ok(e) => e,
            Err(e) => { return Err(e); },
        };
        if parser.pos <= start || parser.pos >= parser.tokens.len() {
            return Err(parse_error("expected `,` or `)`"));
        }
        assert(parser.toks()[parser.at() as int] == parser.tokens@[parser.pos as int].view());
        let mut acc = acc;
        proof { lemma_args_view_push(acc@, e); }
        let is_comma = if let Token::Comma = &parser.tokens[parser.pos] { true } else { false };
        let is_close = if let Token::RParen = &parser.tokens[parser.pos] { true } else { false };
        acc.push(e);
        if is_comma {
            parser.pos = parser.pos + 1;
            Self::parse_args(parser, acc)
        } else if is_close {
            parser.pos = parser.pos + 1;
            Ok(acc)
        } else {
            Err(parse_error("expected `,` or `)`"))
        }
    }
}


impl PrattParser {
    /// Parses an expression at the cursor whose operators bind tighter than
    /// `precedence`; a leading integer literal takes the width of
    /// `expected_dtype` when that is an integer type. The cursor ends on the
    /// expression's last token.
    pub fn parse_expr(parser: &mut Parser, precedence: Precedence, expected_dtype: Option<DataType>)
        -> (r: Result<Expression, ParseError>)
        ensures
            final(parser).tokens@ == old(parser).tokens@,
            match p_expr(old(parser).toks(), old(parser).at(), rank(precedence), expected_dtype) {
                Some((e, p)) => r matches Ok(x) && x.view() == e && final(parser).at() == p - 1,
                None => r is Err,
            },
    {
        let r = Self::parse_expr_past(parser, precedence, expected_dtype);
        if let Ok(_) = &r {
            parser.pos = parser.pos - 1;
        }
        r
    }

    /// Parses a prefix operator at the cursor and its operand, which is
    /// parsed at unary precedence. The cursor ends on the operand's last token.
    pub fn parse_nud(parser: &mut Parser) -> (r: Result<Expression, ParseError>)
        ensures
            final(parser).tokens@ == old(parser).tokens@,
            match p_unary(old(parser).toks(), old(parser).at()) {
                Some((e, p)) => r matches Ok(x) && x.view() == e && final(parser).at() == p - 1,
                None => r is Err,
            },
    {
        let r = Self::parse_nud_past(parser);
        if let Ok(_) = &r {
            parser.pos = parser.pos - 1;
        }
        r
    }

    /// The left denotation of the infix operator at the cursor: `left` as its
    /// left operand, or, for `(`, a call of the identifier `left`. The cursor
    /// ends on the last token of the right operand (or on the call's `)`).
    pub fn parse_led(parser: &mut Parser, left: Expression) -> (r: Result<Expression, ParseError>)
        ensures
            final(parser).tokens@ == old(parser).tokens@,
            match p_led(old(parser).toks(), old(parser).at(), left.view()) {
                Some((e, p)) => r matches Ok(x) && x.view() == e && final(parser).at() == p - 1,
                None => r is Err,
            },
    {
        let r = Self::parse_led_past(parser, left);
        if let Ok(_) = &r {
            parser.pos = parser.pos - 1;
        }
        r
    }

    /// Parses the arguments of a call of the identifier `left`; the cursor
    /// is at `(` and ends on the closing `)`.
    pub fn parse_fncall(parser: &mut Parser, left: Expression) -> (r: Result<FnCallExpression, ParseError>)
        ensures
            final(parser).tokens@ == old(parser).tokens@,
            match left.view() {
                ExprV::Ident(name) => match p_call(old(parser).toks(), old(parser).at() + 1) {
                    Some((args, p)) => r matches Ok(f) && f.ident@ == name && args_view(f.args@) == args
                        && final(parser).at() == p - 1,
                    None => r is Err,
                },
                _ => r is Err,
            },
    {
        let r = Self::parse_fncall_past(parser, left);
        if let Ok(_) = &r {
            parser.pos = parser.pos - 1;
        }
        r
    }
}

} // verus!
