//! The parser: statements by recursive descent, expressions by Pratt parsing.
pub mod expression;
pub mod pratt;
pub mod statement;

use vstd::prelude::*;
pub use expression::{Identifier, Expression, UnaryExpression, InfixExpression, FnCallExpression, Operator, ExprV, LiteralV};
pub use pratt::{PrattParser, Precedence};
pub use statement::{parse_def, parse_extern, parse_let, parse_return, parse_while, parse_if, parse_expr_stmt, Statement, ExpressionStatement, DefStatement, ExternStatement, IfStatement, IfBranch, LetStatement, ReturnStatement, WhileStatement, StmtV, IfV, BranchV};
use crate::lexer::{Token, TokenV, tokens_view};

verus! {

/// A program: its top-level statements in order.
pub type AST = Vec<Statement>;

/// A cursor over a token list.
pub struct Parser {
    pub tokens: Vec<Token>,
    pub pos: usize,
}

impl Parser {
    /// The views of the tokens.
    pub open spec fn toks(&self) -> Seq<TokenV> {
        tokens_view(self.tokens@)
    }

    /// The position of the current token.
    pub open spec fn at(&self) -> nat {
        self.pos as nat
    }

    /// A parser at the start of `tokens`.
    pub fn new(tokens: Vec<Token>) -> (r: Parser)
        ensures
            r.toks() == tokens_view(tokens@),
            r.at() == 0,
    {
        Parser { tokens, pos: 0 }
    }
}

} // verus!
