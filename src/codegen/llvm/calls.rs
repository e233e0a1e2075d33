//! Calls in compiled programs name functions declared before them.
use vstd::prelude::*;
use crate::parser::expression::ExprV;
use crate::parser::statement::{StmtV, IfV, BranchV};
use crate::types::DataType;
use super::{GlobalV, ScopeV};
use super::expr::{expr_spec, args_spec, fn_index};
use super::stmt::{local_spec, if_spec, block_spec, global_spec, program_spec, param_types, local_let_spec};

verus! {

/// Declared functions: name, parameter types, return type.
pub type Decls = Seq<(Seq<char>, Seq<DataType>, DataType)>;

/// Every call in `e` names a function of `fns`.
pub open spec fn expr_calls_declared(fns: Decls, e: ExprV) -> bool
    decreases e, 0nat,
{
    match e {
        ExprV::Unary(_, r) => expr_calls_declared(fns, *r),
        ExprV::Infix(_, l, r) => expr_calls_declared(fns, *l) && expr_calls_declared(fns, *r),
        ExprV::FnCall(name, args) => fn_index(fns, name) is Some && args_calls_declared(fns, args, args.len()),
        _ => true,
    }
}

/// Every call in the first `n` arguments names a function of `fns`.
pub open spec fn args_calls_declared(fns: Decls, args: Seq<ExprV>, n: nat) -> bool
    decreases args, n,
{
    if n == 0 || n > args.len() {
        true
    } else {
        args_calls_declared(fns, args, (n - 1) as nat) && expr_calls_declared(fns, args[n - 1])
    }
}

/// Every call in a statement inside a function names a function of `fns`.
pub open spec fn stmt_calls_declared(fns: Decls, s: StmtV) -> bool
    decreases s, 1nat,
{
    match s {
        StmtV::Expression(e) => expr_calls_declared(fns, e),
        StmtV::Return(e) => expr_calls_declared(fns, e),
        StmtV::Let(_, _, e) => expr_calls_declared(fns, e),
        StmtV::If(i) => if_calls_declared(fns, i),
        StmtV::While(c, body) => expr_calls_declared(fns, c) && block_calls_declared(fns, body, body.len()),
        StmtV::Def(_, _, _, body) => block_calls_declared(fns, body, body.len()),
        StmtV::Extern(_, _, _) => true,
    }
}

pub open spec fn if_calls_declared(fns: Decls, i: IfV) -> bool
    decreases i, 0nat,
{
    expr_calls_declared(fns, i.condition) && block_calls_declared(fns, i.body, i.body.len()) && match i.otherwise {
        BranchV::Nothing => true,
        BranchV::Else(eb) => block_calls_declared(fns, eb, eb.len()),
        BranchV::Elif(inner) => if_calls_declared(fns, *inner),
    }
}

pub open spec fn block_calls_declared(fns: Decls, ss: Seq<StmtV>, n: nat) -> bool
    decreases ss, n,
{
    if n == 0 || n > ss.len() {
        true
    } else {
        block_calls_declared(fns, ss, (n - 1) as nat) && stmt_calls_declared(fns, ss[n - 1])
    }
}

/// The functions declared after the first `n` top-level statements.
pub open spec fn decls_after(fns: Decls, ss: Seq<StmtV>, n: nat) -> Decls
    decreases n,
{
    if n == 0 || n > ss.len() {
        fns
    } else {
        let before = decls_after(fns, ss, (n - 1) as nat);
        match ss[n - 1] {
            StmtV::Def(name, ps, ret, _) => before.push((name, param_types(ps), ret)),
            StmtV::Extern(name, ps, ret) => before.push((name, param_types(ps), ret)),
            _ => before,
        }
    }
}

/// The functions visible in the `i`-th top-level statement: those declared
/// before it, and a definition itself.
pub open spec fn decls_visible(fns: Decls, ss: Seq<StmtV>, i: nat) -> Decls {
    decls_after(fns, ss, i + 1)
}

proof fn lemma_expr_calls(g: GlobalV, scopes: Seq<ScopeV>, e: ExprV)
    ensures
        expr_spec(g, scopes, e) is Ok ==> expr_calls_declared(g.fns, e),
    decreases e, 0nat,
{
    match e {
        ExprV::Unary(_, r) => {
            lemma_expr_calls(g, scopes, *r);
        },
        ExprV::Infix(_, l, r) => {
            lemma_expr_calls(g, scopes, *l);
            if let Ok((_, _, _, l1)) = expr_spec(g, scopes, *l) {
                lemma_expr_calls(GlobalV { label: l1, ..g }, scopes, *r);
            }
        },
        ExprV::FnCall(name, args) => {
            lemma_args_calls(g, scopes, args, args.len());
        },
        _ => {},
    }
}

proof fn lemma_args_calls(g: GlobalV, scopes: Seq<ScopeV>, args: Seq<ExprV>, n: nat)
    ensures
        args_spec(g, scopes, args, n) is Ok ==> args_calls_declared(g.fns, args, n),
    decreases args, n,
{
    if n > 0 && n <= args.len() {
        lemma_args_calls(g, scopes, args, (n - 1) as nat);
        if let Ok((_, _, l)) = args_spec(g, scopes, args, (n - 1) as nat) {
            lemma_expr_calls(GlobalV { label: l, ..g }, scopes, args[n - 1]);
        }
    }
}

proof fn lemma_local_calls(g: GlobalV, scopes: Seq<ScopeV>, s: StmtV)
    ensures
        local_spec(g, scopes, s) matches Ok((_, g2, _)) ==> stmt_calls_declared(g.fns, s) && g2.fns == g.fns,
    decreases s, 1nat,
{
    match s {
        StmtV::Let(name, _, e) => {
            if local_let_spec(g, scopes, name, e) is Ok {
                assert(e is Literal);
            }
        },
        StmtV::Expression(e) => {
            lemma_expr_calls(g, scopes, e);
        },
        StmtV::Return(e) => {
            lemma_expr_calls(g, scopes, e);
        },
        StmtV::If(i) => {
            lemma_if_calls(g, scopes, i);
        },
        StmtV::While(c, body) => {
            if g.label + 2 < u64::MAX {
                let g1 = GlobalV { label: g.label + 3, ..g };
                lemma_expr_calls(g1, scopes, c);
                if let Ok((_, _, _, l)) = expr_spec(g1, scopes, c) {
                    lemma_block_calls(GlobalV { label: l, ..g }, scopes, body, body.len());
                }
            }
        },
        _ => {},
    }
}

proof fn lemma_if_calls(g: GlobalV, scopes: Seq<ScopeV>, i: IfV)
    ensures
        if_spec(g, scopes, i) matches Ok((_, g2, _)) ==> if_calls_declared(g.fns, i) && g2.fns == g.fns,
    decreases i, 0nat,
{
    if g.label + 1 < u64::MAX {
        let g1 = GlobalV { label: g.label + 2, ..g };
        lemma_expr_calls(g1, scopes, i.condition);
        if let Ok((_, _, _, l)) = expr_spec(g1, scopes, i.condition) {
            let gb = GlobalV { label: l, ..g };
            lemma_block_calls(gb, scopes, i.body, i.body.len());
            if let Ok((_, g2, sc2)) = block_spec(gb, scopes, i.body, i.body.len()) {
                match i.otherwise {
                    BranchV::Else(eb) => { lemma_block_calls(g2, sc2, eb, eb.len()); },
                    BranchV::Elif(inner) => { lemma_if_calls(g2, sc2, *inner); },
                    BranchV::Nothing => {},
                }
            }
        }
    }
}

proof fn lemma_block_calls(g: GlobalV, scopes: Seq<ScopeV>, ss: Seq<StmtV>, n: nat)
    ensures
        block_spec(g, scopes, ss, n) matches Ok((_, g2, _)) ==> block_calls_declared(g.fns, ss, n) && g2.fns == g.fns,
    decreases ss, n,
{
    if n > 0 && n <= ss.len() {
        lemma_block_calls(g, scopes, ss, (n - 1) as nat);
        if let Ok((_, g2, sc2)) = block_spec(g, scopes, ss, (n - 1) as nat) {
            lemma_local_calls(g2, sc2, ss[n - 1]);
        }
    }
}

proof fn lemma_program_calls(g: GlobalV, ss: Seq<StmtV>, n: nat)
    requires
        n <= ss.len(),
    ensures
        program_spec(g, ss, n) matches Ok((_, g2)) ==> {
            &&& g2.fns == decls_after(g.fns, ss, n)
            &&& forall|i: nat| i < n ==> #[trigger] stmt_calls_declared(decls_visible(g.fns, ss, i), ss[i as int])
        },
    decreases n,
{
    if n > 0 {
        lemma_program_calls(g, ss, (n - 1) as nat);
        if let Ok((_, g1)) = program_spec(g, ss, (n - 1) as nat) {
            let s = ss[n - 1];
            if let Ok((_, g2)) = global_spec(g1, s) {
                match s {
                    StmtV::Def(name, ps, ret, body) => {
                        let gd = GlobalV { fns: g1.fns.push((name, param_types(ps), ret)), ..g1 };
                        let frames = seq![ScopeV::FnDecl(ps, ret), ScopeV::Scope(seq![])];
                        lemma_block_calls(gd, frames, body, body.len());
                    },
                    StmtV::Let(_, _, e) => {
                        assert(e is Literal);
                    },
                    _ => {},
                }
                assert forall|i: nat| i < n implies #[trigger] stmt_calls_declared(decls_visible(g.fns, ss, i), ss[i as int]) by {
                    if i < n - 1 {
                        assert(stmt_calls_declared(decls_visible(g.fns, ss, i), ss[i as int]));
                    }
                }
            }
        }
    }
}

/// Calls name declared functions: in a program that compiles, every call
/// in a top-level statement names a function that an `extern` or `def` at
/// or before that statement declares (a definition may call itself).
pub proof fn lemma_calls_declared(ss: Seq<StmtV>)
    ensures
        program_spec(GlobalV { globals: seq![], fns: seq![], label: 0 }, ss, ss.len()) is Ok ==>
            forall|i: nat| i < ss.len() ==> #[trigger] stmt_calls_declared(decls_visible(seq![], ss, i), ss[i as int]),
{
    lemma_program_calls(GlobalV { globals: seq![], fns: seq![], label: 0 }, ss, ss.len());
}

} // verus!
