use vstd::prelude::*;
use crate::lexer::Literal;
use crate::types::{DataType, SignedInteger, UnsignedInteger};
use crate::text::{decimal, int_decimal, i128_text, u128_text};

verus! {

/// A name in the source text.
pub type Identifier = String;

/// An expression of the surface language.
#[derive(Debug)]
pub enum Expression {
    Unary(UnaryExpression),
    Infix(InfixExpression),
    FnCall(FnCallExpression),
    Identifier(Identifier),
    Literal(Literal, DataType),
}

/// A prefix operator applied to an operand.
#[derive(Debug)]
pub struct UnaryExpression {
    pub operator: Operator,
    pub right: Box<Expression>,
}

/// A binary operator applied to two operands.
#[derive(Debug)]
pub struct InfixExpression {
    pub operator: Operator,
    pub left: Box<Expression>,
    pub right: Box<Expression>,
}

/// A call of a named function.
#[derive(Debug)]
pub struct FnCallExpression {
    pub ident: Identifier,
    pub args: Vec<Expression>,
}

/// The operators of expressions.
#[derive(Debug, Clone, Copy, PartialEq, Eq, Structural, Hash)]
pub enum Operator {
    UnaryPlus,
    UnaryMinus,
    BitwiseAnd,
    BitwiseOr,
    BitwiseXor,
    BitwiseNot,
    Plus,
    Minus,
    Multiply,
    Divide,
    Modulo,
    Equal,
    NotEqual,
    Less,
    LessEqual,
    Greater,
    GreaterEqual,
    LeftShift,
    RightShift,
    FnCall,
}

/// The mathematical view of a literal.
pub enum LiteralV {
    Signed(i128, SignedInteger),
    Unsigned(u128, UnsignedInteger),
    Str(Seq<char>),
}

/// The mathematical view of an expression.
pub enum ExprV {
    Unary(Operator, Box<ExprV>),
    Infix(Operator, Box<ExprV>, Box<ExprV>),
    FnCall(Seq<char>, Seq<ExprV>),
    Ident(Seq<char>),
    Literal(LiteralV, DataType),
}

impl Literal {
    pub open spec fn view(self) -> LiteralV {
        match self {
            Literal::SignedInteger(n, w) => LiteralV::Signed(n, w),
            Literal::UnsignedInteger(n, w) => LiteralV::Unsigned(n, w),
            Literal::String(s) => LiteralV::Str(s@),
        }
    }
}

/// The views of the first `n` arguments.
pub open spec fn args_view_upto(args: Seq<Expression>, n: nat) -> Seq<ExprV>
    decreases args, n,
{
    if n == 0 || n > args.len() {
        seq![]
    } else {
        args_view_upto(args, (n - 1) as nat).push(args[n - 1].view())
    }
}

/// The views of all arguments.
pub open spec fn args_view(args: Seq<Expression>) -> Seq<ExprV> {
    args_view_upto(args, args.len())
}

proof fn lemma_args_view_upto_push(args: Seq<Expression>, e: Expression, k: nat)
    requires
        k <= args.len(),
    ensures
        args_view_upto(args.push(e), k) == args_view_upto(args, k),
    decreases k,
{
    if k > 0 {
        lemma_args_view_upto_push(args, e, (k - 1) as nat);
    }
}

proof fn lemma_args_view_upto_index(args: Seq<Expression>, n: nat, i: int)
    requires
        n <= args.len(),
        0 <= i < n,
    ensures
        args_view_upto(args, n).len() == n,
        args_view_upto(args, n)[i] == args[i].view(),
    decreases n,
{
    lemma_args_view_upto_len(args, (n - 1) as nat);
    if i < n - 1 {
        lemma_args_view_upto_index(args, (n - 1) as nat, i);
    }
}

proof fn lemma_args_view_upto_len(args: Seq<Expression>, n: nat)
    requires
        n <= args.len(),
    ensures
        args_view_upto(args, n).len() == n,
    decreases n,
{
    if n > 0 {
        lemma_args_view_upto_len(args, (n - 1) as nat);
    }
}

/// The view of each argument is at its index.
pub proof fn lemma_args_view_index(args: Seq<Expression>)
    ensures
        args_view(args).len() == args.len(),
        forall|i: int| 0 <= i < args.len() ==> #[trigger] args_view(args)[i] == args[i].view(),
{
    lemma_args_view_upto_len(args, args.len());
    assert forall|i: int| 0 <= i < args.len() implies #[trigger] args_view(args)[i] == args[i].view() by {
        lemma_args_view_upto_index(args, args.len(), i);
    }
}

/// Views of arguments grow with the arguments.
pub proof fn lemma_args_view_push(args: Seq<Expression>, e: Expression)
    ensures
        args_view(args.push(e)) == args_view(args).push(e.view()),
{
    lemma_args_view_upto_push(args, e, args.len());
}

impl Expression {
    pub open spec fn view(self) -> ExprV
        decreases self, 0nat,
    {
        match self {
            Expression::Unary(u) => ExprV::Unary(u.operator, Box::new((*u.right).view())),
            Expression::Infix(i) => ExprV::Infix(i.operator, Box::new((*i.left).view()), Box::new((*i.right).view())),
            Expression::FnCall(f) => ExprV::FnCall(f.ident@, args_view_upto(f.args@, f.args@.len())),
            Expression::Identifier(s) => ExprV::Ident(s@),
            Expression::Literal(l, t) => ExprV::Literal(l.view(), t),
        }
    }
}

} // verus!

verus! {

/// The name of an operator.
pub open spec fn operator_name(op: Operator) -> Seq<char> {
    match op {
        Operator::UnaryPlus => "UnaryPlus"@,
        Operator::UnaryMinus => "UnaryMinus"@,
        Operator::BitwiseAnd => "BitwiseAnd"@,
        Operator::BitwiseOr => "BitwiseOr"@,
        Operator::BitwiseXor => "BitwiseXor"@,
        Operator::BitwiseNot => "BitwiseNot"@,
        Operator::Plus => "Plus"@,
        Operator::Minus => "Minus"@,
        Operator::Multiply => "Multiply"@,
        Operator::Divide => "Divide"@,
        Operator::Modulo => "Modulo"@,
        Operator::Equal => "Equal"@,
        Operator::NotEqual => "NotEqual"@,
        Operator::Less => "Less"@,
        Operator::LessEqual => "LessEqual"@,
        Operator::Greater => "Greater"@,
        Operator::GreaterEqual => "GreaterEqual"@,
        Operator::LeftShift => "LeftShift"@,
        Operator::RightShift => "RightShift"@,
        Operator::FnCall => "FnCall"@,
    }
}

/// The text of a literal: `Integer(n)` for integers, a quoted string.
pub open spec fn literal_text(l: LiteralV) -> Seq<char> {
    match l {
        LiteralV::Signed(n, _) => "Integer("@ + int_decimal(n as int) + ")"@,
        LiteralV::Unsigned(n, _) => "Integer("@ + decimal(n as nat) + ")"@,
        LiteralV::Str(s) => "\""@ + s + "\""@,
    }
}

/// The text of an expression: operator nodes as `{ operator: .., .. }`,
/// identifiers as themselves.
pub open spec fn expr_text(e: ExprV) -> Seq<char>
    decreases e, 0nat,
{
    match e {
        ExprV::Unary(op, r) => "{ operator: "@ + operator_name(op) + ", right: "@ + expr_text(*r) + " }"@,
        ExprV::Infix(op, l, r) => "{ operator: "@ + operator_name(op) + ", left: "@ + expr_text(*l)
            + ", right: "@ + expr_text(*r) + " }"@,
        ExprV::FnCall(name, args) => "{ type: fnCall, name: "@ + name + ", args: { "@
            + args_text(args, args.len()) + " } }"@,
        ExprV::Ident(s) => s,
        ExprV::Literal(l, _) => literal_text(l),
    }
}

/// The texts of the first `n` arguments, joined by `, `.
pub open spec fn args_text(args: Seq<ExprV>, n: nat) -> Seq<char>
    decreases args, n,
{
    if n == 0 || n > args.len() {
        seq![]
    } else {
        (if n == 1 { seq![] } else { args_text(args, (n - 1) as nat) + ", "@ }) + expr_text(args[n - 1])
    }
}

impl Operator {
    /// The name of this operator.
    pub fn name(&self) -> (r: &'static str)
        ensures
            r@ == operator_name(*self),
    {
        match self {
            Operator::UnaryPlus => "UnaryPlus",
            Operator::UnaryMinus => "UnaryMinus",
            Operator::BitwiseAnd => "BitwiseAnd",
            Operator::BitwiseOr => "BitwiseOr",
            Operator::BitwiseXor => "BitwiseXor",
            Operator::BitwiseNot => "BitwiseNot",
            Operator::Plus => "Plus",
            Operator::Minus => "Minus",
            Operator::Multiply => "Multiply",
            Operator::Divide => "Divide",
            Operator::Modulo => "Modulo",
            Operator::Equal => "Equal",
            Operator::NotEqual => "NotEqual",
            Operator::Less => "Less",
            Operator::LessEqual => "LessEqual",
            Operator::Greater => "Greater",
            Operator::GreaterEqual => "GreaterEqual",
            Operator::LeftShift => "LeftShift",
            Operator::RightShift => "RightShift",
            Operator::FnCall => "FnCall",
        }
    }
}

impl Expression {
    /// The text of this expression.
    pub fn to_string(&self) -> (r: String)
        ensures
            r@ == expr_text(self.view()),
        decreases self, 1nat,
    {
        match self {
            Expression::Unary(u) => {
                let mut s = String::new();
                s.append("{ operator: ");
                s.append(u.operator.name());
                s.append(", right: ");
                s.append(u.right.to_string().as_str());
                s.append(" }");
                assert(s@ =~= expr_text(self.view()));
                s
            },
            Expression::Infix(i) => {
                let mut s = String::new();
                s.append("{ operator: ");
                s.append(i.operator.name());
                s.append(", left: ");
                s.append(i.left.to_string().as_str());
                s.append(", right: ");
                s.append(i.right.to_string().as_str());
                s.append(" }");
                assert(s@ =~= expr_text(self.view()));
                s
            },
            Expression::FnCall(f) => f.to_string(),
            Expression::Identifier(name) => name.clone(),
            Expression::Literal(l, _) => {
                let mut s = String::new();
                match l {
                    Literal::SignedInteger(n, _) => {
                        s.append("Integer(");
                        s.append(i128_text(*n).as_str());
                        s.append(")");
                    },
                    Literal::UnsignedInteger(n, _) => {
                        s.append("Integer(");
                        s.append(u128_text(*n).as_str());
                        s.append(")");
                    },
                    Literal::String(v) => {
                        s.append("\"");
                        s.append(v.as_str());
                        s.append("\"");
                    },
                }
                assert(s@ =~= expr_text(self.view()));
                s
            },
        }
    }
}


impl FnCallExpression {
    /// The text of this call.
    pub fn to_string(&self) -> (r: String)
        ensures
            r@ == expr_text(Expression::FnCall(*self).view()),
        decreases self, 0nat,
    {
        proof { lemma_args_view_index(self.args@); }
        let ghost av = args_view(self.args@);
        let mut t = String::new();
        let mut j: usize = 0;
        while j < self.args.len()
            invariant
                j <= self.args@.len(),
                av == args_view(self.args@),
                av.len() == self.args@.len(),
                forall|k: int| 0 <= k < self.args@.len() ==> #[trigger] av[k] == self.args@[k].view(),
                t@ == args_text(av, j as nat),
            decreases self.args@.len() - j,
        {
            proof {
                assert(decreases_to!(self.args => self.args@[j as int])) by {
                    broadcast use vstd::std_specs::vec::axiom_vec_index_decreases;
                }
            }
            let ghost before = t@;
            if j > 0 {
                t.append(", ");
            }
            t.append(self.args[j].to_string().as_str());
            j += 1;
            assert(t@ =~= (if j == 1 { seq![] } else { before + ", "@ }) + expr_text(av[j - 1]));
        }
        let mut s = String::new();
        s.append("{ type: fnCall, name: ");
        s.append(self.ident.as_str());
        s.append(", args: { ");
        s.append(t.as_str());
        s.append(" } }");
        assert(s@ =~= expr_text(Expression::FnCall(*self).view()));
        s
    }
}

} // verus!
