//! The label counter only moves forward.
use vstd::prelude::*;
use crate::parser::expression::ExprV;
use crate::parser::statement::{StmtV, IfV, BranchV};
use super::{GlobalV, ScopeV};
use super::expr::{expr_spec, args_spec, ident_spec, innermost};
use super::stmt::{local_spec, if_spec, block_spec, program_spec, param_types};

verus! {

proof fn lemma_expr_labels(g: GlobalV, scopes: Seq<ScopeV>, e: ExprV)
    ensures
        expr_spec(g, scopes, e) matches Ok((_, _, _, l)) ==> g.label <= l,
    decreases e, 0nat,
{
    match e {
        ExprV::Unary(_, r) => {
            lemma_expr_labels(g, scopes, *r);
        },
        ExprV::Infix(_, l, r) => {
            lemma_expr_labels(g, scopes, *l);
            if let Ok((_, _, _, l1)) = expr_spec(g, scopes, *l) {
                lemma_expr_labels(GlobalV { label: l1, ..g }, scopes, *r);
            }
        },
        ExprV::FnCall(_, args) => {
            lemma_args_labels(g, scopes, args, args.len());
        },
        ExprV::Ident(name) => {
            if let Some(i) = innermost(scopes, name) {
                assert(ident_spec(g, scopes, name) matches Ok((_, _, _, l)) ==> g.label <= l);
            }
        },
        _ => {},
    }
}

proof fn lemma_args_labels(g: GlobalV, scopes: Seq<ScopeV>, args: Seq<ExprV>, n: nat)
    ensures
        args_spec(g, scopes, args, n) matches Ok((_, _, l)) ==> g.label <= l,
    decreases args, n,
{
    if n > 0 && n <= args.len() {
        lemma_args_labels(g, scopes, args, (n - 1) as nat);
        if let Ok((_, _, l)) = args_spec(g, scopes, args, (n - 1) as nat) {
            lemma_expr_labels(GlobalV { label: l, ..g }, scopes, args[n - 1]);
        }
    }
}

proof fn lemma_local_labels(g: GlobalV, scopes: Seq<ScopeV>, s: StmtV)
    ensures
        local_spec(g, scopes, s) matches Ok((_, g2, _)) ==> g.label <= g2.label,
    decreases s, 1nat,
{
    match s {
        StmtV::Expression(e) => { lemma_expr_labels(g, scopes, e); },
        StmtV::Return(e) => { lemma_expr_labels(g, scopes, e); },
        StmtV::If(i) => { lemma_if_labels(g, scopes, i); },
        StmtV::While(c, body) => {
            if g.label + 2 < u64::MAX {
                let g1 = GlobalV { label: g.label + 3, ..g };
                lemma_expr_labels(g1, scopes, c);
                if let Ok((_, _, _, l)) = expr_spec(g1, scopes, c) {
                    lemma_block_labels(GlobalV { label: l, ..g }, scopes, body, body.len());
                }
            }
        },
        _ => {},
    }
}

proof fn lemma_if_labels(g: GlobalV, scopes: Seq<ScopeV>, i: IfV)
    ensures
        if_spec(g, scopes, i) matches Ok((_, g2, _)) ==> g.label <= g2.label,
    decreases i, 0nat,
{
    if g.label + 1 < u64::MAX {
        let g1 = GlobalV { label: g.label + 2, ..g };
        lemma_expr_labels(g1, scopes, i.condition);
        if let Ok((_, _, _, l)) = expr_spec(g1, scopes, i.condition) {
            let gb = GlobalV { label: l, ..g };
            lemma_block_labels(gb, scopes, i.body, i.body.len());
            if let Ok((_, g2, sc2)) = block_spec(gb, scopes, i.body, i.body.len()) {
                match i.otherwise {
                    BranchV::Else(eb) => { lemma_block_labels(g2, sc2, eb, eb.len()); },
                    BranchV::Elif(inner) => { lemma_if_labels(g2, sc2, *inner); },
                    BranchV::Nothing => {},
                }
            }
        }
    }
}

proof fn lemma_block_labels(g: GlobalV, scopes: Seq<ScopeV>, ss: Seq<StmtV>, n: nat)
    ensures
        block_spec(g, scopes, ss, n) matches Ok((_, g2, _)) ==> g.label <= g2.label,
    decreases ss, n,
{
    if n > 0 && n <= ss.len() {
        lemma_block_labels(g, scopes, ss, (n - 1) as nat);
        if let Ok((_, g2, sc2)) = block_spec(g, scopes, ss, (n - 1) as nat) {
            lemma_local_labels(g2, sc2, ss[n - 1]);
        }
    }
}

/// The label counter never moves backwards: every expression, statement
/// and program leaves it at or beyond where it started, so each label that
/// `GlobalContext::get_label` mints later differs from every label minted
/// before.
pub proof fn lemma_labels_monotone(g: GlobalV, ss: Seq<StmtV>, n: nat)
    ensures
        program_spec(g, ss, n) matches Ok((_, g2)) ==> g.label <= g2.label,
    decreases n,
{
    if n > 0 && n <= ss.len() {
        lemma_labels_monotone(g, ss, (n - 1) as nat);
        if let Ok((_, g1)) = program_spec(g, ss, (n - 1) as nat) {
            match ss[n - 1] {
                StmtV::Def(name, ps, ret, body) => {
                    let gd = GlobalV { fns: g1.fns.push((name, param_types(ps), ret)), ..g1 };
                    let frames = seq![ScopeV::FnDecl(ps, ret), ScopeV::Scope(seq![])];
                    lemma_block_labels(gd, frames, body, body.len());
                },
                _ => {},
            }
        }
    }
}

} // verus!
