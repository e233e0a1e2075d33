//! Statements and their recursive-descent parsers.
use vstd::prelude::*;
use crate::lexer::{Keyword, Token, TokenV};
use crate::error::ParseError;
use crate::types::DataType;
use super::Parser;
use super::expression::{Expression, ExprV};
use super::pratt::{PrattParser, Precedence, p_expr, rank, parse_error};

verus! {

/// A statement of the surface language.
#[derive(Debug)]
pub enum Statement {
    Expression(ExpressionStatement),
    Def(DefStatement),
    If(IfStatement),
    Let(LetStatement),
    Return(ReturnStatement),
    Extern(ExternStatement),
    While(WhileStatement),
}

/// An expression evaluated for its effect.
#[derive(Debug)]
pub struct ExpressionStatement {
    pub expr: Expression,
}

/// A function definition.
#[derive(Debug)]
pub struct DefStatement {
    pub name: String,
    pub params: Vec<(String, DataType)>,
    pub dtype: DataType,
    pub stmts: Vec<Statement>,
}

/// A declaration of an external function.
#[derive(Debug)]
pub struct ExternStatement {
    pub name: String,
    pub params: Vec<(String, DataType)>,
    pub dtype: DataType,
}

/// A conditional with an optional `elif` or `else` branch.
#[derive(Debug)]
pub struct IfStatement {
    pub condition: Expression,
    pub body: Vec<Statement>,
    pub otherwise: Box<IfBranch>,
}

/// What follows the `body` block of an `if`.
#[derive(Debug)]
pub enum IfBranch {
    Elif(IfStatement),
    Else(Vec<Statement>),
    Nothing,
}

/// A variable declaration with its type and initial value.
#[derive(Debug)]
pub struct LetStatement {
    pub ident: String,
    pub dtype: DataType,
    pub expr: Expression,
}

/// A `return` with its value.
#[derive(Debug)]
pub struct ReturnStatement {
    pub expr: Expression,
}

/// A loop with its condition and body.
#[derive(Debug)]
pub struct WhileStatement {
    pub condition: Expression,
    pub blocks: Vec<Statement>,
}

// ---------------------------------------------------------------------------
// Views
// ---------------------------------------------------------------------------

/// The mathematical view of a statement.
pub enum StmtV {
    Expression(ExprV),
    Def(Seq<char>, Seq<(Seq<char>, DataType)>, DataType, Seq<StmtV>),
    Extern(Seq<char>, Seq<(Seq<char>, DataType)>, DataType),
    If(IfV),
    Let(Seq<char>, DataType, ExprV),
    Return(ExprV),
    While(ExprV, Seq<StmtV>),
}

/// The view of an `if` statement.
pub struct IfV {
    pub condition: ExprV,
    pub body: Seq<StmtV>,
    pub otherwise: BranchV,
}

/// The view of an `if` branch.
pub enum BranchV {
    Elif(Box<IfV>),
    Else(Seq<StmtV>),
    Nothing,
}

/// The views of parameters.
pub open spec fn params_view(ps: Seq<(String, DataType)>) -> Seq<(Seq<char>, DataType)> {
    ps.map_values(|p: (String, DataType)| (p.0@, p.1))
}

/// The views of the first `n` statements.
pub open spec fn stmts_view_upto(ss: Seq<Statement>, n: nat) -> Seq<StmtV>
    decreases ss, n,
{
    if n == 0 || n > ss.len() {
        seq![]
    } else {
        stmts_view_upto(ss, (n - 1) as nat).push(ss[n - 1].view())
    }
}

/// The views of all statements.
pub open spec fn stmts_view(ss: Seq<Statement>) -> Seq<StmtV> {
    stmts_view_upto(ss, ss.len())
}

impl Statement {
    pub open spec fn view(self) -> StmtV
        decreases self, 0nat,
    {
        match self {
            Statement::Expression(s) => StmtV::Expression(s.expr.view()),
            Statement::Def(d) => StmtV::Def(d.name@, params_view(d.params@), d.dtype,
                stmts_view_upto(d.stmts@, d.stmts@.len())),
            Statement::Extern(x) => StmtV::Extern(x.name@, params_view(x.params@), x.dtype),
            Statement::If(i) => StmtV::If(i.view()),
            Statement::Let(l) => StmtV::Let(l.ident@, l.dtype, l.expr.view()),
            Statement::Return(r) => StmtV::Return(r.expr.view()),
            Statement::While(w) => StmtV::While(w.condition.view(), stmts_view_upto(w.blocks@, w.blocks@.len())),
        }
    }
}

impl IfStatement {
    pub open spec fn view(self) -> IfV
        decreases self, 0nat,
    {
        IfV {
            condition: self.condition.view(),
            body: stmts_view_upto(self.body@, self.body@.len()),
            otherwise: (*self.otherwise).view(),
        }
    }
}

impl IfBranch {
    pub open spec fn view(self) -> BranchV
        decreases self, 0nat,
    {
        match self {
            IfBranch::Elif(i) => BranchV::Elif(Box::new(i.view())),
            IfBranch::Else(ss) => BranchV::Else(stmts_view_upto(ss@, ss@.len())),
            IfBranch::Nothing => BranchV::Nothing,
        }
    }
}

proof fn lemma_stmts_view_upto_push(ss: Seq<Statement>, s: Statement, k: nat)
    requires
        k <= ss.len(),
    ensures
        stmts_view_upto(ss.push(s), k) == stmts_view_upto(ss, k),
    decreases k,
{
    if k > 0 {
        lemma_stmts_view_upto_push(ss, s, (k - 1) as nat);
    }
}

proof fn lemma_stmts_view_upto_index(ss: Seq<Statement>, n: nat, i: int)
    requires
        n <= ss.len(),
        0 <= i < n,
    ensures
        stmts_view_upto(ss, n)[i] == ss[i].view(),
    decreases n,
{
    lemma_stmts_view_upto_len(ss, (n - 1) as nat);
    if i < n - 1 {
        lemma_stmts_view_upto_index(ss, (n - 1) as nat, i);
    }
}

proof fn lemma_stmts_view_upto_len(ss: Seq<Statement>, n: nat)
    requires
        n <= ss.len(),
    ensures
        stmts_view_upto(ss, n).len() == n,
    decreases n,
{
    if n > 0 {
        lemma_stmts_view_upto_len(ss, (n - 1) as nat);
    }
}

/// The view of each statement is at its index.
pub proof fn lemma_stmts_view_index(ss: Seq<Statement>)
    ensures
        stmts_view(ss).len() == ss.len(),
        forall|i: int| 0 <= i < ss.len() ==> #[trigger] stmts_view(ss)[i] == ss[i].view(),
{
    lemma_stmts_view_upto_len(ss, ss.len());
    assert forall|i: int| 0 <= i < ss.len() implies #[trigger] stmts_view(ss)[i] == ss[i].view() by {
        lemma_stmts_view_upto_index(ss, ss.len(), i);
    }
}

/// Views of statement lists grow with the lists.
pub proof fn lemma_stmts_view_push(ss: Seq<Statement>, s: Statement)
    ensures
        stmts_view(ss.push(s)) == stmts_view(ss).push(s.view()),
{
    lemma_stmts_view_upto_push(ss, s, ss.len());
}

} // verus!

verus! {

// ---------------------------------------------------------------------------
// The grammar of statements
// ---------------------------------------------------------------------------

/// Whether the token at `pos` is `t`.
pub open spec fn tok_is(ts: Seq<TokenV>, pos: nat, t: Token) -> bool {
    pos < ts.len() && ts[pos as int] == TokenV::Other(t)
}

/// Whether the token at `pos` is the keyword `k`.
pub open spec fn kw_is(ts: Seq<TokenV>, pos: nat, k: Keyword) -> bool {
    tok_is(ts, pos, Token::Keyword(k))
}

/// The type named by the token at `pos`.
pub open spec fn type_at(ts: Seq<TokenV>, pos: nat) -> Option<DataType> {
    if pos < ts.len() {
        match ts[pos as int] {
            TokenV::Other(Token::Keyword(Keyword::DataType(t))) => Some(t),
            _ => None,
        }
    } else {
        None
    }
}

/// The identifier at `pos`.
pub open spec fn ident_at(ts: Seq<TokenV>, pos: nat) -> Option<Seq<char>> {
    if pos < ts.len() {
        match ts[pos as int] {
            TokenV::Ident(s) => Some(s),
            _ => None,
        }
    } else {
        None
    }
}

/// Whether a parameter of `ps` is named `name`.
pub open spec fn param_named(ps: Seq<(Seq<char>, DataType)>, name: Seq<char>) -> bool {
    exists|i: int| 0 <= i < ps.len() && #[trigger] ps[i].0 == name
}

/// The parameter names are pairwise distinct.
pub open spec fn distinct_params(ps: Seq<(Seq<char>, DataType)>) -> bool {
    forall|i: int, j: int| 0 <= i < j < ps.len() ==> #[trigger] ps[i].0 != #[trigger] ps[j].0
}

/// Parameters `name: type` separated by `,` up to `)`, after those in `acc`;
/// a name that repeats an earlier one is rejected.
pub open spec fn p_params(ts: Seq<TokenV>, pos: nat, acc: Seq<(Seq<char>, DataType)>)
    -> Option<(Seq<(Seq<char>, DataType)>, nat)>
    decreases ts.len() - pos,
{
    if tok_is(ts, pos, Token::RParen) {
        Some((acc, pos + 1))
    } else {
        match ident_at(ts, pos) {
            None => None,
            Some(name) => if param_named(acc, name) || !tok_is(ts, pos + 1, Token::Colon) {
                None
            } else {
                match type_at(ts, pos + 2) {
                    None => None,
                    Some(t) => if tok_is(ts, pos + 3, Token::RParen) {
                        Some((acc.push((name, t)), pos + 4))
                    } else if tok_is(ts, pos + 3, Token::Comma) {
                        p_params(ts, pos + 4, acc.push((name, t)))
                    } else {
                        None
                    },
                }
            },
        }
    }
}

proof fn lemma_params_distinct(ts: Seq<TokenV>, pos: nat, acc: Seq<(Seq<char>, DataType)>)
    requires
        distinct_params(acc),
    ensures
        p_params(ts, pos, acc) matches Some((ps, _)) ==> distinct_params(ps),
    decreases ts.len() - pos,
{
    if !tok_is(ts, pos, Token::RParen) {
        if let Some(name) = ident_at(ts, pos) {
            if !param_named(acc, name) {
                if let Some(t) = type_at(ts, pos + 2) {
                    let acc2 = acc.push((name, t));
                    assert(distinct_params(acc2)) by {
                        assert forall|i: int, j: int| 0 <= i < j < acc2.len() implies
                            #[trigger] acc2[i].0 != #[trigger] acc2[j].0 by {
                            if j == acc.len() {
                                assert(acc2[i] == acc[i]);
                                if acc[i].0 == name {
                                    assert(param_named(acc, name));
                                }
                            }
                        }
                    }
                    if tok_is(ts, pos + 3, Token::Comma) {
                        lemma_params_distinct(ts, pos + 4, acc2);
                    }
                }
            }
        }
    }
}

/// Parameter names are distinct: every parameter list that a definition or
/// declaration signature parses to names each parameter once.
pub proof fn lemma_signature_distinct(ts: Seq<TokenV>, pos: nat)
    ensures
        p_signature(ts, pos) matches Some((_, ps, _, _)) ==> distinct_params(ps),
{
    lemma_params_distinct(ts, pos + 2, seq![]);
}

/// The signature after `def` or `extern`: `name ( params ) -> type`.
pub open spec fn p_signature(ts: Seq<TokenV>, pos: nat)
    -> Option<(Seq<char>, Seq<(Seq<char>, DataType)>, DataType, nat)>
{
    match ident_at(ts, pos) {
        None => None,
        Some(name) => if !tok_is(ts, pos + 1, Token::LParen) {
            None
        } else {
            match p_params(ts, pos + 2, seq![]) {
                None => None,
                Some((ps, p)) => if !tok_is(ts, p, Token::RArrow) {
                    None
                } else {
                    match type_at(ts, p + 1) {
                        None => None,
                        Some(t) => Some((name, ps, t, p + 2)),
                    }
                },
            }
        },
    }
}

/// `: INDENT` followed by a block of one or more statements closed by `DEDENT`.
pub open spec fn p_suite(ts: Seq<TokenV>, pos: nat) -> Option<(Seq<StmtV>, nat)>
    decreases ts.len() - pos, 3nat,
{
    if tok_is(ts, pos, Token::Colon) && tok_is(ts, pos + 1, Token::Indent) && !tok_is(ts, pos + 2, Token::Dedent) {
        p_block(ts, pos + 2, seq![])
    } else {
        None
    }
}

/// The statements of a block from `pos` to its `DEDENT`, after those in `acc`.
pub open spec fn p_block(ts: Seq<TokenV>, pos: nat, acc: Seq<StmtV>) -> Option<(Seq<StmtV>, nat)>
    decreases ts.len() - pos, 2nat,
{
    if pos >= ts.len() || tok_is(ts, pos, Token::EOF) {
        None
    } else if tok_is(ts, pos, Token::Dedent) {
        Some((acc, pos + 1))
    } else {
        match p_stmt(ts, pos) {
            None => None,
            Some((s, p)) => if p <= pos || p > ts.len() { None } else { p_block(ts, p, acc.push(s)) },
        }
    }
}

/// An expression at `pos`, then `;`.
pub open spec fn p_expr_semi(ts: Seq<TokenV>, pos: nat, hint: Option<DataType>) -> Option<(ExprV, nat)> {
    match p_expr(ts, pos, rank(Precedence::Lowest), hint) {
        None => None,
        Some((e, p)) => if tok_is(ts, p, Token::Semicolon) { Some((e, p + 1)) } else { None },
    }
}

/// A definition after `def`: its signature and body.
pub open spec fn p_def(ts: Seq<TokenV>, pos: nat) -> Option<(StmtV, nat)>
    decreases ts.len() - pos, 0nat,
{
    match p_signature(ts, pos) {
        None => None,
        Some((name, ps, t, p)) => if p <= pos || p > ts.len() { None } else {
            match p_suite(ts, p) {
                None => None,
                Some((body, q)) => Some((StmtV::Def(name, ps, t, body), q)),
            }
        },
    }
}

/// A declaration after `extern`: its signature and `;`.
pub open spec fn p_extern(ts: Seq<TokenV>, pos: nat) -> Option<(StmtV, nat)> {
    match p_signature(ts, pos) {
        None => None,
        Some((name, ps, t, p)) => if tok_is(ts, p, Token::Semicolon) {
            Some((StmtV::Extern(name, ps, t), p + 1))
        } else {
            None
        },
    }
}

/// A variable declaration after `let`: `name : type = expr ;`, the
/// expression's leading literal taking the declared type.
pub open spec fn p_let(ts: Seq<TokenV>, pos: nat) -> Option<(StmtV, nat)> {
    match ident_at(ts, pos) {
        None => None,
        Some(name) => if !tok_is(ts, pos + 1, Token::Colon) { None } else {
            match type_at(ts, pos + 2) {
                None => None,
                Some(t) => if !tok_is(ts, pos + 3, Token::Equal) { None } else {
                    match p_expr_semi(ts, pos + 4, Some(t)) {
                        None => None,
                        Some((e, p)) => Some((StmtV::Let(name, t, e), p)),
                    }
                },
            }
        },
    }
}

/// A `return` after the keyword: `expr ;`.
pub open spec fn p_return(ts: Seq<TokenV>, pos: nat) -> Option<(StmtV, nat)> {
    match p_expr_semi(ts, pos, None) {
        None => None,
        Some((e, p)) => Some((StmtV::Return(e), p)),
    }
}

/// A loop after `while`: its condition and body.
pub open spec fn p_while(ts: Seq<TokenV>, pos: nat) -> Option<(StmtV, nat)>
    decreases ts.len() - pos, 0nat,
{
    match p_expr(ts, pos, rank(Precedence::Lowest), None) {
        None => None,
        Some((c, p)) => if p <= pos || p > ts.len() { None } else {
            match p_suite(ts, p) {
                None => None,
                Some((body, q)) => Some((StmtV::While(c, body), q)),
            }
        },
    }
}

/// An expression statement: an expression and an optional `;`.
pub open spec fn p_expr_stmt(ts: Seq<TokenV>, pos: nat) -> Option<(StmtV, nat)> {
    match p_expr(ts, pos, rank(Precedence::Lowest), None) {
        None => None,
        Some((e, p)) => if tok_is(ts, p, Token::Semicolon) {
            Some((StmtV::Expression(e), p + 1))
        } else {
            Some((StmtV::Expression(e), p))
        },
    }
}

/// The statement at `pos`, chosen by its first token (not at `EOF`).
pub open spec fn p_stmt(ts: Seq<TokenV>, pos: nat) -> Option<(StmtV, nat)>
    decreases ts.len() - pos, 1nat,
{
    if pos >= ts.len() {
        None
    } else if kw_is(ts, pos, Keyword::Def) {
        p_def(ts, pos + 1)
    } else if kw_is(ts, pos, Keyword::Extern) {
        p_extern(ts, pos + 1)
    } else if kw_is(ts, pos, Keyword::Let) {
        p_let(ts, pos + 1)
    } else if kw_is(ts, pos, Keyword::Return) {
        p_return(ts, pos + 1)
    } else if kw_is(ts, pos, Keyword::If) {
        match p_if(ts, pos + 1) {
            None => None,
            Some((i, p)) => Some((StmtV::If(i), p)),
        }
    } else if kw_is(ts, pos, Keyword::While) {
        p_while(ts, pos + 1)
    } else if ts[pos as int] matches TokenV::Other(Token::Keyword(_)) {
        None
    } else {
        p_expr_stmt(ts, pos)
    }
}

/// The rest of an `if` after the keyword (`if` or `elif`): its condition,
/// its block, and an optional `elif` or `else` branch.
pub open spec fn p_if(ts: Seq<TokenV>, pos: nat) -> Option<(IfV, nat)>
    decreases ts.len() - pos, 0nat,
{
    match p_expr(ts, pos, rank(Precedence::Lowest), None) {
        None => None,
        Some((c, p)) => if p <= pos || p > ts.len() { None } else {
            match p_suite(ts, p) {
                None => None,
                Some((body, q)) => if q <= p {
                    None
                } else if kw_is(ts, q, Keyword::Elif) {
                    match p_if(ts, q + 1) {
                        None => None,
                        Some((e, r)) => Some((IfV { condition: c, body, otherwise: BranchV::Elif(Box::new(e)) }, r)),
                    }
                } else if kw_is(ts, q, Keyword::Else) {
                    match p_suite(ts, q + 1) {
                        None => None,
                        Some((eb, r)) => Some((IfV { condition: c, body, otherwise: BranchV::Else(eb) }, r)),
                    }
                } else {
                    Some((IfV { condition: c, body, otherwise: BranchV::Nothing }, q))
                },
            }
        },
    }
}

/// The top-level statements from `pos` to `EOF`, after those in `acc`.
pub open spec fn p_all(ts: Seq<TokenV>, pos: nat, acc: Seq<StmtV>) -> Option<Seq<StmtV>>
    decreases ts.len() - pos,
{
    if pos >= ts.len() || tok_is(ts, pos, Token::EOF) {
        Some(acc)
    } else {
        match p_stmt(ts, pos) {
            None => None,
            Some((s, p)) => if p <= pos || p > ts.len() { None } else { p_all(ts, p, acc.push(s)) },
        }
    }
}

} // verus!

verus! {

// ---------------------------------------------------------------------------
// Cursor helpers
// ---------------------------------------------------------------------------

/// The punctuation and layout tokens that statements expect.
pub open spec fn is_simple(t: Token) -> bool {
    match t {
        Token::Colon | Token::Semicolon | Token::LParen | Token::RParen | Token::Comma
        | Token::RArrow | Token::Equal | Token::Indent | Token::Dedent | Token::EOF => true,
        _ => false,
    }
}

/// Whether the token at the cursor is `t`.
fn at_token(parser: &Parser, t: &Token) -> (r: bool)
    requires
        is_simple(*t),
    ensures
        r == tok_is(parser.toks(), parser.at(), *t),
        r ==> parser.pos < parser.tokens@.len() <= usize::MAX,
{
    if parser.pos >= parser.tokens.len() {
        return false;
    }
    assert(parser.toks()[parser.at() as int] == parser.tokens@[parser.pos as int].view());
    let tok = &parser.tokens[parser.pos];
    match t {
        Token::Colon => matches!(tok, Token::Colon),
        Token::Semicolon => matches!(tok, Token::Semicolon),
        Token::LParen => matches!(tok, Token::LParen),
        Token::RParen => matches!(tok, Token::RParen),
        Token::Comma => matches!(tok, Token::Comma),
        Token::RArrow => matches!(tok, Token::RArrow),
        Token::Equal => matches!(tok, Token::Equal),
        Token::Indent => matches!(tok, Token::Indent),
        Token::Dedent => matches!(tok, Token::Dedent),
        _ => matches!(tok, Token::EOF),
    }
}

/// Whether the token at the cursor is the keyword `k`.
fn at_keyword(parser: &Parser, k: Keyword) -> (r: bool)
    ensures
        r == kw_is(parser.toks(), parser.at(), k),
{
    if parser.pos >= parser.tokens.len() {
        return false;
    }
    assert(parser.toks()[parser.at() as int] == parser.tokens@[parser.pos as int].view());
    match &parser.tokens[parser.pos] {
        Token::Keyword(k2) => *k2 == k,
        _ => false,
    }
}

/// Consumes the token `t`, or fails with `msg`.
fn expect(parser: &mut Parser, t: &Token, msg: &str) -> (r: Result<(), ParseError>)
    requires
        is_simple(*t),
    ensures
        final(parser).tokens@ == old(parser).tokens@,
        r is Ok <==> tok_is(old(parser).toks(), old(parser).at(), *t),
        r is Ok ==> final(parser).at() == old(parser).at() + 1,
{
    if at_token(parser, t) {
        parser.pos = parser.pos + 1;
        Ok(())
    } else {
        Err(parse_error(msg))
    }
}

/// Consumes an identifier.
fn expect_ident(parser: &mut Parser) -> (r: Result<String, ParseError>)
    ensures
        final(parser).tokens@ == old(parser).tokens@,
        match ident_at(old(parser).toks(), old(parser).at()) {
            Some(s) => r matches Ok(x) && x@ == s && final(parser).at() == old(parser).at() + 1,
            None => r is Err,
        },
{
    if parser.pos >= parser.tokens.len() {
        return Err(parse_error("insufficient tokens"));
    }
    assert(parser.toks()[parser.at() as int] == parser.tokens@[parser.pos as int].view());
    match &parser.tokens[parser.pos] {
        Token::Identifier(s) => {
            let x = s.clone();
            parser.pos = parser.pos + 1;
            Ok(x)
        },
        _ => Err(parse_error("expected identifier")),
    }
}

/// Consumes a type name.
fn expect_type(parser: &mut Parser) -> (r: Result<DataType, ParseError>)
    ensures
        final(parser).tokens@ == old(parser).tokens@,
        match type_at(old(parser).toks(), old(parser).at()) {
            Some(t) => r matches Ok(x) && x == t && final(parser).at() == old(parser).at() + 1,
            None => r is Err,
        },
{
    if parser.pos >= parser.tokens.len() {
        return Err(parse_error("insufficient tokens"));
    }
    assert(parser.toks()[parser.at() as int] == parser.tokens@[parser.pos as int].view());
    match &parser.tokens[parser.pos] {
        Token::Keyword(Keyword::DataType(t)) => {
            let x = *t;
            parser.pos = parser.pos + 1;
            Ok(x)
        },
        _ => Err(parse_error("expected a type")),
    }
}

/// Whether a parameter of `ps` is named `name`.
fn has_param(ps: &Vec<(String, DataType)>, name: &String) -> (r: bool)
    ensures
        r == param_named(params_view(ps@), name@),
{
    let mut i: usize = 0;
    while i < ps.len()
        invariant
            i <= ps@.len(),
            forall|k: int| 0 <= k < i ==> ps@[k].0@ != name@,
        decreases ps@.len() - i,
    {
        if ps[i].0 == *name {
            assert(params_view(ps@)[i as int].0 == name@);
            return true;
        }
        i += 1;
    }
    assert(!param_named(params_view(ps@), name@)) by {
        if param_named(params_view(ps@), name@) {
            let k = choose|k: int| 0 <= k < params_view(ps@).len() && #[trigger] params_view(ps@)[k].0 == name@;
            assert(ps@[k].0@ == name@);
        }
    }
    false
}

/// Parameters up to `)`, after those in `acc`.
fn parse_params(parser: &mut Parser, acc: Vec<(String, DataType)>) -> (r: Result<Vec<(String, DataType)>, ParseError>)
    ensures
        final(parser).tokens@ == old(parser).tokens@,
        match p_params(old(parser).toks(), old(parser).at(), params_view(acc@)) {
            Some((ps, p)) => r matches Ok(v) && params_view(v@) == ps && final(parser).at() == p,
            None => r is Err,
        },
    decreases old(parser).tokens@.len() - old(parser).pos,
{
    if at_token(parser, &Token::RParen) {
        parser.pos = parser.pos + 1;
        return Ok(acc);
    }
    let name = match expect_ident(parser) {
        Ok(x) => x,
        Err(e) => { return Err(e); },
    };
    if has_param(&acc, &name) {
        return Err(parse_error("repeated parameter name"));
    }
    match expect(parser, &Token::Colon, "expected `:`") {
        Ok(()) => {},
        Err(e) => { return Err(e); },
    }
    let t = match expect_type(parser) {
        Ok(x) => x,
        Err(e) => { return Err(e); },
    };
    let mut acc = acc;
    let ghost pv = params_view(acc@);
    let ghost nm = name@;
    acc.push((name, t));
    assert(params_view(acc@) =~= pv.push((nm, t)));
    if at_token(parser, &Token::RParen) {
        parser.pos = parser.pos + 1;
        Ok(acc)
    } else if at_token(parser, &Token::Comma) {
        parser.pos = parser.pos + 1;
        parse_params(parser, acc)
    } else {
        Err(parse_error("expected `,` or `)`"))
    }
}

/// The signature `name ( params ) -> type`.
fn parse_signature(parser: &mut Parser) -> (r: Result<(String, Vec<(String, DataType)>, DataType), ParseError>)
    ensures
        final(parser).tokens@ == old(parser).tokens@,
        match p_signature(old(parser).toks(), old(parser).at()) {
            Some((n, ps, t, p)) => r matches Ok((a, b, c)) && a@ == n && params_view(b@) == ps && c == t
                && final(parser).at() == p,
            None => r is Err,
        },
{
    let name = match expect_ident(parser) {
        Ok(x) => x,
        Err(e) => { return Err(e); },
    };
    match expect(parser, &Token::LParen, "expected `(`") {
        Ok(()) => {},
        Err(e) => { return Err(e); },
    }
    let acc: Vec<(String, DataType)> = Vec::new();
    assert(params_view(acc@) =~= Seq::<(Seq<char>, DataType)>::empty());
    let params = match parse_params(parser, acc) {
        Ok(x) => x,
        Err(e) => { return Err(e); },
    };
    match expect(parser, &Token::RArrow, "expected `->`") {
        Ok(()) => {},
        Err(e) => { return Err(e); },
    }
    let t = match expect_type(parser) {
        Ok(x) => x,
        Err(e) => { return Err(e); },
    };
    Ok((name, params, t))
}

/// An expression, then `;`.
fn parse_expr_semi(parser: &mut Parser, hint: Option<DataType>) -> (r: Result<Expression, ParseError>)
    ensures
        final(parser).tokens@ == old(parser).tokens@,
        match p_expr_semi(old(parser).toks(), old(parser).at(), hint) {
            Some((e, p)) => r matches Ok(x) && x.view() == e && final(parser).at() == p,
            None => r is Err,
        },
{
    let e = match PrattParser::parse_expr_past(parser, Precedence::Lowest, hint) {
        Ok(x) => x,
        Err(e) => { return Err(e); },
    };
    match expect(parser, &Token::Semicolon, "expected `;`") {
        Ok(()) => Ok(e),
        Err(e) => Err(e),
    }
}

} // verus!

verus! {

/// `: INDENT`, then the statements of the block through its `DEDENT`.
fn parse_suite(parser: &mut Parser) -> (r: Result<Vec<Statement>, ParseError>)
    ensures
        final(parser).tokens@ == old(parser).tokens@,
        match p_suite(old(parser).toks(), old(parser).at()) {
            Some((ss, p)) => r matches Ok(v) && stmts_view(v@) == ss && final(parser).at() == p,
            None => r is Err,
        },
    decreases old(parser).tokens@.len() - old(parser).pos, 3nat,
{
    match expect(parser, &Token::Colon, "expected `:`") {
        Ok(()) => {},
        Err(e) => { return Err(e); },
    }
    match expect(parser, &Token::Indent, "expected indent") {
        Ok(()) => {},
        Err(e) => { return Err(e); },
    }
    if at_token(parser, &Token::Dedent) {
        return Err(parse_error("expected a statement"));
    }
    let acc: Vec<Statement> = Vec::new();
    assert(stmts_view(acc@) =~= Seq::<StmtV>::empty());
    parse_block(parser, acc)
}

/// The statements up to the `DEDENT` that closes the block, after those in `acc`.
fn parse_block(parser: &mut Parser, acc: Vec<Statement>) -> (r: Result<Vec<Statement>, ParseError>)
    ensures
        final(parser).tokens@ == old(parser).tokens@,
        match p_block(old(parser).toks(), old(parser).at(), stmts_view(acc@)) {
            Some((ss, p)) => r matches Ok(v) && stmts_view(v@) == ss && final(parser).at() == p,
            None => r is Err,
        },
    decreases old(parser).tokens@.len() - old(parser).pos, 2nat,
{
    if parser.pos >= parser.tokens.len() || at_token(parser, &Token::EOF) {
        return Err(parse_error("insufficient tokens"));
    }
    if at_token(parser, &Token::Dedent) {
        parser.pos = parser.pos + 1;
        return Ok(acc);
    }
    let start = parser.pos;
    let s = match parser.parse_stmt() {
        Ok(Some(s)) => s,
        Ok(None) => { return Err(parse_error("insufficient tokens")); },
        Err(e) => { return Err(e); },
    };
    if parser.pos <= start || parser.pos > parser.tokens.len() {
        return Err(parse_error("statement expected"));
    }
    let mut acc = acc;
    proof { lemma_stmts_view_push(acc@, s); }
    acc.push(s);
    parse_block(parser, acc)
}

/// A function definition; the cursor is after `def`.
pub fn parse_def(parser: &mut Parser) -> (r: Result<DefStatement, ParseError>)
    ensures
        final(parser).tokens@ == old(parser).tokens@,
        match p_def(old(parser).toks(), old(parser).at()) {
            Some((s, p)) => r matches Ok(x) && Statement::Def(x).view() == s && final(parser).at() == p,
            None => r is Err,
        },
    decreases old(parser).tokens@.len() - old(parser).pos, 0nat,
{
    let start = parser.pos;
    let (name, params, dtype) = match parse_signature(parser) {
        Ok(x) => x,
        Err(e) => { return Err(e); },
    };
    if parser.pos <= start || parser.pos > parser.tokens.len() {
        return Err(parse_error("insufficient tokens"));
    }
    let stmts = match parse_suite(parser) {
        Ok(x) => x,
        Err(e) => { return Err(e); },
    };
    Ok(DefStatement { name, params, dtype, stmts })
}

/// An external declaration; the cursor is after `extern`.
pub fn parse_extern(parser: &mut Parser) -> (r: Result<ExternStatement, ParseError>)
    ensures
        final(parser).tokens@ == old(parser).tokens@,
        match p_extern(old(parser).toks(), old(parser).at()) {
            Some((s, p)) => r matches Ok(x) && Statement::Extern(x).view() == s && final(parser).at() == p,
            None => r is Err,
        },
{
    let (name, params, dtype) = match parse_signature(parser) {
        Ok(x) => x,
        Err(e) => { return Err(e); },
    };
    match expect(parser, &Token::Semicolon, "expected `;`") {
        Ok(()) => {},
        Err(e) => { return Err(e); },
    }
    Ok(ExternStatement { name, params, dtype })
}

/// A variable declaration; the cursor is after `let`.
pub fn parse_let(parser: &mut Parser) -> (r: Result<LetStatement, ParseError>)
    ensures
        final(parser).tokens@ == old(parser).tokens@,
        match p_let(old(parser).toks(), old(parser).at()) {
            Some((s, p)) => r matches Ok(x) && Statement::Let(x).view() == s && final(parser).at() == p,
            None => r is Err,
        },
{
    let ident = match expect_ident(parser) {
        Ok(x) => x,
        Err(e) => { return Err(e); },
    };
    match expect(parser, &Token::Colon, "expected `:`") {
        Ok(()) => {},
        Err(e) => { return Err(e); },
    }
    let dtype = match expect_type(parser) {
        Ok(x) => x,
        Err(e) => { return Err(e); },
    };
    match expect(parser, &Token::Equal, "expected `=`") {
        Ok(()) => {},
        Err(e) => { return Err(e); },
    }
    let expr = match parse_expr_semi(parser, Some(dtype)) {
        Ok(x) => x,
        Err(e) => { return Err(e); },
    };
    Ok(LetStatement { ident, dtype, expr })
}

/// A `return`; the cursor is after the keyword.
pub fn parse_return(parser: &mut Parser) -> (r: Result<ReturnStatement, ParseError>)
    ensures
        final(parser).tokens@ == old(parser).tokens@,
        match p_return(old(parser).toks(), old(parser).at()) {
            Some((s, p)) => r matches Ok(x) && Statement::Return(x).view() == s && final(parser).at() == p,
            None => r is Err,
        },
{
    match parse_expr_semi(parser, None) {
        Ok(expr) => Ok(ReturnStatement { expr }),
        Err(e) => Err(e),
    }
}

/// A loop; the cursor is after `while`.
pub fn parse_while(parser: &mut Parser) -> (r: Result<WhileStatement, ParseError>)
    ensures
        final(parser).tokens@ == old(parser).tokens@,
        match p_while(old(parser).toks(), old(parser).at()) {
            Some((s, p)) => r matches Ok(x) && Statement::While(x).view() == s && final(parser).at() == p,
            None => r is Err,
        },
    decreases old(parser).tokens@.len() - old(parser).pos, 0nat,
{
    let start = parser.pos;
    let condition = match PrattParser::parse_expr_past(parser, Precedence::Lowest, None) {
        Ok(x) => x,
        Err(e) => { return Err(e); },
    };
    if parser.pos <= start || parser.pos > parser.tokens.len() {
        return Err(parse_error("insufficient tokens"));
    }
    let blocks = match parse_suite(parser) {
        Ok(x) => x,
        Err(e) => { return Err(e); },
    };
    Ok(WhileStatement { condition, blocks })
}

/// An `if` with its branches; the cursor is after `if` (or `elif`).
pub fn parse_if(parser: &mut Parser) -> (r: Result<IfStatement, ParseError>)
    ensures
        final(parser).tokens@ == old(parser).tokens@,
        match p_if(old(parser).toks(), old(parser).at()) {
            Some((s, p)) => r matches Ok(x) && x.view() == s && final(parser).at() == p,
            None => r is Err,
        },
    decreases old(parser).tokens@.len() - old(parser).pos, 0nat,
{
    let start = parser.pos;
    let condition = match PrattParser::parse_expr_past(parser, Precedence::Lowest, None) {
        Ok(x) => x,
        Err(e) => { return Err(e); },
    };
    if parser.pos <= start || parser.pos > parser.tokens.len() {
        return Err(parse_error("insufficient tokens"));
    }
    let mid = parser.pos;
    let body = match parse_suite(parser) {
        Ok(x) => x,
        Err(e) => { return Err(e); },
    };
    if parser.pos <= mid {
        return Err(parse_error("insufficient tokens"));
    }
    if at_keyword(parser, Keyword::Elif) {
        parser.pos = parser.pos + 1;
        match parse_if(parser) {
            Ok(elif) => Ok(IfStatement { condition, body, otherwise: Box::new(IfBranch::Elif(elif)) }),
            Err(e) => Err(e),
        }
    } else if at_keyword(parser, Keyword::Else) {
        parser.pos = parser.pos + 1;
        match parse_suite(parser) {
            Ok(eb) => Ok(IfStatement { condition, body, otherwise: Box::new(IfBranch::Else(eb)) }),
            Err(e) => Err(e),
        }
    } else {
        Ok(IfStatement { condition, body, otherwise: Box::new(IfBranch::Nothing) })
    }
}

/// An expression statement with an optional `;`.
pub fn parse_expr_stmt(parser: &mut Parser) -> (r: Result<ExpressionStatement, ParseError>)
    ensures
        final(parser).tokens@ == old(parser).tokens@,
        match p_expr_stmt(old(parser).toks(), old(parser).at()) {
            Some((s, p)) => r matches Ok(x) && Statement::Expression(x).view() == s && final(parser).at() == p,
            None => r is Err,
        },
{
    let expr = match PrattParser::parse_expr_past(parser, Precedence::Lowest, None) {
        Ok(x) => x,
        Err(e) => { return Err(e); },
    };
    if at_token(parser, &Token::Semicolon) {
        parser.pos = parser.pos + 1;
    }
    Ok(ExpressionStatement { expr })
}

impl Parser {
    /// The statement at the cursor, or `None` at the end of the tokens.
    pub fn parse_stmt(&mut self) -> (r: Result<Option<Statement>, ParseError>)
        ensures
            final(self).tokens@ == old(self).tokens@,
            if old(self).at() >= old(self).toks().len() || tok_is(old(self).toks(), old(self).at(), Token::EOF) {
                r matches Ok(None) && final(self).at() == old(self).at()
            } else {
                match p_stmt(old(self).toks(), old(self).at()) {
                    Some((s, p)) => r matches Ok(Some(x)) && x.view() == s && final(self).at() == p,
                    None => r is Err,
                }
            },
        decreases old(self).tokens@.len() - old(self).pos, 1nat,
    {
        if self.pos >= self.tokens.len() || at_token(self, &Token::EOF) {
            return Ok(None);
        }
        assert(self.toks()[self.at() as int] == self.tokens@[self.pos as int].view());
        let kw: Option<Keyword> = match &self.tokens[self.pos] {
            Token::Keyword(k) => Some(*k),
            _ => None,
        };
        match kw {
            Some(Keyword::Def) => {
                self.pos = self.pos + 1;
                match parse_def(self) {
                    Ok(s) => Ok(Some(Statement::Def(s))),
                    Err(e) => Err(e),
                }
            },
            Some(Keyword::Extern) => {
                self.pos = self.pos + 1;
                match parse_extern(self) {
                    Ok(s) => Ok(Some(Statement::Extern(s))),
                    Err(e) => Err(e),
                }
            },
            Some(Keyword::Let) => {
                self.pos = self.pos + 1;
                match parse_let(self) {
                    Ok(s) => Ok(Some(Statement::Let(s))),
                    Err(e) => Err(e),
                }
            },
            Some(Keyword::Return) => {
                self.pos = self.pos + 1;
                match parse_return(self) {
                    Ok(s) => Ok(Some(Statement::Return(s))),
                    Err(e) => Err(e),
                }
            },
            Some(Keyword::If) => {
                self.pos = self.pos + 1;
                match parse_if(self) {
                    Ok(s) => Ok(Some(Statement::If(s))),
                    Err(e) => Err(e),
                }
            },
            Some(Keyword::While) => {
                self.pos = self.pos + 1;
                match parse_while(self) {
                    Ok(s) => Ok(Some(Statement::While(s))),
                    Err(e) => Err(e),
                }
            },
            Some(_) => Err(parse_error("unexpected keyword")),
            None => match parse_expr_stmt(self) {
                Ok(s) => Ok(Some(Statement::Expression(s))),
                Err(e) => Err(e),
            },
        }
    }

    /// All statements up to `EOF`.
    pub fn parse_all(&mut self) -> (r: Result<Vec<Statement>, ParseError>)
        ensures
            final(self).tokens@ == old(self).tokens@,
            match p_all(old(self).toks(), old(self).at(), seq![]) {
                Some(ss) => r matches Ok(v) && stmts_view(v@) == ss,
                None => r is Err,
            },
    {
        let mut ast: Vec<Statement> = Vec::new();
        assert(stmts_view(ast@) =~= Seq::<StmtV>::empty());
        let ghost ts = self.toks();
        let ghost start_pos = self.at();
        loop
            invariant
                self.tokens@ == old(self).tokens@,
                ts == self.toks(),
                ts == old(self).toks(),
                start_pos == old(self).at(),
                self.at() <= ts.len() || self.at() == start_pos,
                p_all(ts, start_pos, seq![]) == p_all(ts, self.at(), stmts_view(ast@)),
            decreases ts.len() - self.at(),
        {
            let start = self.pos;
            match self.parse_stmt() {
                Ok(Some(s)) => {
                    if self.pos <= start || self.pos > self.tokens.len() {
                        return Err(parse_error("statement expected"));
                    }
                    proof { lemma_stmts_view_push(ast@, s); }
                    ast.push(s);
                },
                Ok(None) => {
                    return Ok(ast);
                },
                Err(e) => {
                    return Err(e);
                },
            }
        }
    }
}

} // verus!
