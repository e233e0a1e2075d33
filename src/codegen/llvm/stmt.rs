//! The model of IR emission for statements and whole programs.
use vstd::prelude::*;
use crate::parser::expression::{ExprV, LiteralV, Operator};
use crate::parser::statement::{StmtV, IfV, BranchV};
use crate::types::{DataType, SignedInteger};
use crate::error::IRErr;
use crate::text::{decimal, int_decimal, utf8_len};
use super::{GlobalV, ScopeV, label_name};
use super::expr::{expr_spec, literal_type, promote_spec, ident_spec, literal_spec, innermost, last_index, Emitted};
use super::types::{mnemonic, cast_spec, infix_spec};
use super::types::op::cmp_mnemonic;

verus! {

/// The name of the basic block numbered `k`.
pub open spec fn block_name(k: nat) -> Seq<char> {
    seq!['l'] + decimal(k)
}

/// The IR array type that holds the UTF-8 bytes of `s` and a terminating zero byte.
pub open spec fn byte_array(s: Seq<char>) -> Seq<char> {
    "["@ + decimal(utf8_len(s) + 1) + " x i8]"@
}

/// A global variable initialised with a literal.
pub open spec fn global_let_spec(g: GlobalV, name: Seq<char>, e: ExprV) -> Result<(Seq<char>, GlobalV), IRErr> {
    match e {
        ExprV::Literal(lit, _) => {
            let code = match lit {
                LiteralV::Signed(n, _) => "@"@ + name + " = global "@ + mnemonic(literal_type(lit)) + " "@
                    + int_decimal(n as int) + "\n"@,
                LiteralV::Unsigned(n, _) => "@"@ + name + " = global "@ + mnemonic(literal_type(lit)) + " "@
                    + decimal(n as nat) + "\n"@,
                LiteralV::Str(s) => "@"@ + name + " = private unnamed_addr constant "@ + byte_array(s)
                    + " c\""@ + s + "\\00\"\n"@,
            };
            Ok((code, GlobalV { globals: g.globals.push((name, lit)), ..g }))
        },
        _ => Err(IRErr::NotConstant),
    }
}

/// The parameter types of a parameter list.
pub open spec fn param_types(ps: Seq<(Seq<char>, DataType)>) -> Seq<DataType> {
    ps.map_values(|p: (Seq<char>, DataType)| p.1)
}

/// The type names of the first `n` parameters, joined by `, `.
pub open spec fn extern_params_text(ps: Seq<(Seq<char>, DataType)>, n: nat) -> Seq<char>
    decreases n,
{
    if n == 0 || n > ps.len() {
        seq![]
    } else {
        (if n == 1 { seq![] } else { extern_params_text(ps, (n - 1) as nat) + ", "@ }) + mnemonic(ps[n - 1].1)
    }
}

/// The first `n` parameters as `type %name`, joined by `, `.
pub open spec fn def_params_text(ps: Seq<(Seq<char>, DataType)>, n: nat) -> Seq<char>
    decreases n,
{
    if n == 0 || n > ps.len() {
        seq![]
    } else {
        (if n == 1 { seq![] } else { def_params_text(ps, (n - 1) as nat) + ", "@ })
            + mnemonic(ps[n - 1].1) + " %"@ + ps[n - 1].0
    }
}

/// An external declaration, which also declares the function.
pub open spec fn extern_spec(g: GlobalV, name: Seq<char>, ps: Seq<(Seq<char>, DataType)>, ret: DataType)
    -> (Seq<char>, GlobalV)
{
    ("declare "@ + mnemonic(ret) + " @"@ + name + "("@ + extern_params_text(ps, ps.len()) + ") nounwind\n"@,
     GlobalV { fns: g.fns.push((name, param_types(ps), ret)), ..g })
}

/// The return type of the innermost function frame.
pub open spec fn return_type(scopes: Seq<ScopeV>) -> Option<DataType>
    decreases scopes.len(),
{
    if scopes.len() == 0 {
        None
    } else {
        match scopes.last() {
            ScopeV::FnDecl(_, t) => Some(t),
            _ => return_type(scopes.drop_last()),
        }
    }
}

/// The result of emitting a statement inside a function: its code, the
/// global state and the scope stack afterwards.
pub type LocalOut = (Seq<char>, GlobalV, Seq<ScopeV>);

/// A local variable: a stack slot initialised with a literal and recorded
/// in the innermost scope.
pub open spec fn local_let_spec(g: GlobalV, scopes: Seq<ScopeV>, name: Seq<char>, e: ExprV) -> Result<LocalOut, IRErr> {
    match e {
        ExprV::Literal(lit, _) => if scopes.len() == 0 {
            Err(IRErr::IllegalLocal)
        } else {
            match scopes.last() {
                ScopeV::Scope(vs) => {
                    let code = match lit {
                        LiteralV::Str(s) => "%"@ + name + " = private unnamed_addr constant "@ + byte_array(s)
                            + " c\""@ + s + "\\00\"\n"@,
                        LiteralV::Signed(n, _) => "%"@ + name + " = alloca "@ + mnemonic(literal_type(lit))
                            + ", align 4\n"@ + "store "@ + mnemonic(literal_type(lit)) + " "@ + int_decimal(n as int)
                            + ", ptr %"@ + name + ", align 4\n"@,
                        LiteralV::Unsigned(n, _) => "%"@ + name + " = alloca "@ + mnemonic(literal_type(lit))
                            + ", align 4\n"@ + "store "@ + mnemonic(literal_type(lit)) + " "@ + decimal(n as nat)
                            + ", ptr %"@ + name + ", align 4\n"@,
                    };
                    Ok((code, g, scopes.update(scopes.len() - 1, ScopeV::Scope(vs.push((name, lit))))))
                },
                _ => Err(IRErr::IllegalLocal),
            }
        },
        _ => Err(IRErr::NotConstant),
    }
}

/// A `return`: the value, converted to the function's return type where
/// the types differ.
pub open spec fn return_spec(g: GlobalV, scopes: Seq<ScopeV>, e: ExprV) -> Result<LocalOut, IRErr> {
    match expr_spec(g, scopes, e) {
        Err(e) => Err(e),
        Ok((c, v, t, l)) => match return_type(scopes) {
            None => Err(IRErr::ReturnOutsideFunction),
            Some(rt) => if t == rt {
                Ok((c + "ret "@ + mnemonic(rt) + " "@ + v + "\n"@, GlobalV { label: l, ..g }, scopes))
            } else {
                match cast_spec(l, t, rt, v) {
                    Err(e) => Err(e),
                    Ok((v2, cc, _, l2)) =>
                        Ok((c + cc + "ret "@ + mnemonic(rt) + " "@ + v2 + "\n"@, GlobalV { label: l2, ..g }, scopes)),
                }
            },
        },
    }
}

/// A statement inside a function body.
pub open spec fn local_spec(g: GlobalV, scopes: Seq<ScopeV>, s: StmtV) -> Result<LocalOut, IRErr>
    decreases s, 1nat,
{
    match s {
        StmtV::Let(name, _, e) => local_let_spec(g, scopes, name, e),
        StmtV::Expression(e) => match expr_spec(g, scopes, e) {
            Err(e) => Err(e),
            Ok((c, _, _, l)) => Ok((c, GlobalV { label: l, ..g }, scopes)),
        },
        StmtV::Return(e) => return_spec(g, scopes, e),
        StmtV::If(i) => if_spec(g, scopes, i),
        StmtV::While(c, body) => {
            if g.label + 2 >= u64::MAX {
                Err(IRErr::LabelOverflow)
            } else {
                let h = g.label;
                let b = g.label + 1;
                let x = g.label + 2;
                match expr_spec(GlobalV { label: g.label + 3, ..g }, scopes, c) {
                    Err(e) => Err(e),
                    Ok((cc, v, t, l)) => if t != DataType::bool {
                        Err(IRErr::UnsupportedOperation)
                    } else {
                        match block_spec(GlobalV { label: l, ..g }, scopes, body, body.len()) {
                            Err(e) => Err(e),
                            Ok((bc, g2, sc2)) => Ok((
                                "br label %"@ + block_name(h) + "\n"@ + block_name(h) + ":\n"@ + cc
                                    + "br i1 "@ + v + ", label %"@ + block_name(b) + ", label %"@ + block_name(x) + "\n"@
                                    + block_name(b) + ":\n"@ + bc + "br label %"@ + block_name(h) + "\n"@
                                    + block_name(x) + ":\n"@,
                                g2, sc2)),
                        }
                    },
                }
            }
        },
        _ => Err(IRErr::IllegalLocal),
    }
}

/// An `if`: the two block labels are minted first, then the condition
/// (which must be a `bool`) branches to them.
pub open spec fn if_spec(g: GlobalV, scopes: Seq<ScopeV>, i: IfV) -> Result<LocalOut, IRErr>
    decreases i, 0nat,
{
    if g.label + 1 >= u64::MAX {
        Err(IRErr::LabelOverflow)
    } else {
        let t = g.label;
        let e = g.label + 1;
        match expr_spec(GlobalV { label: g.label + 2, ..g }, scopes, i.condition) {
            Err(e) => Err(e),
            Ok((cc, v, ct, l)) => if ct != DataType::bool {
                Err(IRErr::UnsupportedOperation)
            } else {
                let head = cc + "br i1 "@ + v + ", label %"@ + block_name(t) + ", label %"@ + block_name(e) + "\n"@
                    + block_name(t) + ":\n"@;
                match block_spec(GlobalV { label: l, ..g }, scopes, i.body, i.body.len()) {
                    Err(e) => Err(e),
                    Ok((bc, g2, sc2)) => match i.otherwise {
                        BranchV::Nothing => Ok((head + bc + block_name(e) + ":\n"@ + "\n"@, g2, sc2)),
                        BranchV::Else(eb) => match block_spec(g2, sc2, eb, eb.len()) {
                            Err(e) => Err(e),
                            Ok((ec, g3, sc3)) => Ok((head + bc + block_name(e) + ":\n"@ + ec + "\n"@, g3, sc3)),
                        },
                        BranchV::Elif(inner) => match if_spec(g2, sc2, *inner) {
                            Err(e) => Err(e),
                            Ok((ec, g3, sc3)) => Ok((head + bc + block_name(e) + ":\n"@ + ec + "\n"@, g3, sc3)),
                        },
                    },
                }
            },
        }
    }
}

/// The first `n` statements of a block, in order.
pub open spec fn block_spec(g: GlobalV, scopes: Seq<ScopeV>, ss: Seq<StmtV>, n: nat) -> Result<LocalOut, IRErr>
    decreases ss, n,
{
    if n == 0 || n > ss.len() {
        Ok((seq![], g, scopes))
    } else {
        match block_spec(g, scopes, ss, (n - 1) as nat) {
            Err(e) => Err(e),
            Ok((c, g2, sc2)) => match local_spec(g2, sc2, ss[n - 1]) {
                Err(e) => Err(e),
                Ok((c2, g3, sc3)) => Ok((c + c2, g3, sc3)),
            },
        }
    }
}

/// A function definition: declared first (so it may call itself), then its
/// body under a frame of its parameters and a fresh local scope.
pub open spec fn def_spec(g: GlobalV, name: Seq<char>, ps: Seq<(Seq<char>, DataType)>, ret: DataType, body: Seq<StmtV>)
    -> Result<(Seq<char>, GlobalV), IRErr>
{
    let g1 = GlobalV { fns: g.fns.push((name, param_types(ps), ret)), ..g };
    let frames = seq![ScopeV::FnDecl(ps, ret), ScopeV::Scope(seq![])];
    match block_spec(g1, frames, body, body.len()) {
        Err(e) => Err(e),
        Ok((bc, g2, _)) => Ok((
            "define "@ + mnemonic(ret) + " @"@ + name + "("@ + def_params_text(ps, ps.len()) + ") {\n"@ + bc + "}\n"@,
            g2)),
    }
}

/// A top-level statement: a global, an external declaration or a definition.
pub open spec fn global_spec(g: GlobalV, s: StmtV) -> Result<(Seq<char>, GlobalV), IRErr> {
    match s {
        StmtV::Let(name, _, e) => global_let_spec(g, name, e),
        StmtV::Extern(name, ps, ret) => Ok(extern_spec(g, name, ps, ret)),
        StmtV::Def(name, ps, ret, body) => def_spec(g, name, ps, ret, body),
        _ => Err(IRErr::IllegalTopLevel),
    }
}

/// The first `n` top-level statements, in order.
pub open spec fn program_spec(g: GlobalV, ss: Seq<StmtV>, n: nat) -> Result<(Seq<char>, GlobalV), IRErr>
    decreases n,
{
    if n == 0 || n > ss.len() {
        Ok((seq![], g))
    } else {
        match program_spec(g, ss, (n - 1) as nat) {
            Err(e) => Err(e),
            Ok((c, g2)) => match global_spec(g2, ss[n - 1]) {
                Err(e) => Err(e),
                Ok((c2, g3)) => Ok((c + c2, g3)),
            },
        }
    }
}

} // verus!

verus! {

/// The code of a `return` ends with its `ret` line.
#[verifier::rlimit(100)]
proof fn lemma_return_ret(g: GlobalV, scopes: Seq<ScopeV>, e: ExprV)
    ensures
        return_spec(g, scopes, e) matches Ok((c, _, _)) ==>
            exists|x: Seq<char>, y: Seq<char>| #![all_triggers] c == x + "ret "@ + y,
{
    if let Ok((c, _, _)) = return_spec(g, scopes, e) {
        let (c0, v, t, l) = expr_spec(g, scopes, e)->Ok_0;
        let rt = return_type(scopes)->Some_0;
        if t == rt {
            let y = mnemonic(rt) + " "@ + v + "\n"@;
            assert(c =~= c0 + "ret "@ + y);
        } else {
            let (v2, cc, _, _) = cast_spec(l, t, rt, v)->Ok_0;
            let y = mnemonic(rt) + " "@ + v2 + "\n"@;
            assert(c =~= (c0 + cc) + "ret "@ + y);
        }
    }
}

/// A block of one `return` emits that `return`'s code.
proof fn lemma_block_single(g: GlobalV, scopes: Seq<ScopeV>, e: ExprV)
    ensures
        block_spec(g, scopes, seq![StmtV::Return(e)], 1) matches Ok((c, _, _)) ==>
            (return_spec(g, scopes, e) matches Ok((c2, _, _)) && c == c2),
{
    let ss = seq![StmtV::Return(e)];
    assert(ss[0] == StmtV::Return(e));
    assert(block_spec(g, scopes, ss, 0) == Ok::<LocalOut, IRErr>((seq![], g, scopes)));
    assert(local_spec(g, scopes, ss[0]) == return_spec(g, scopes, e));
    if let Ok((c2, _, _)) = return_spec(g, scopes, e) {
        assert(seq![] + c2 =~= c2);
    }
}

/// An equality condition ends with the `icmp eq` that defines its value.
#[verifier::rlimit(100)]
proof fn lemma_eq_condition(g: GlobalV, scopes: Seq<ScopeV>, x: ExprV, y: ExprV)
    ensures
        expr_spec(g, scopes, ExprV::Infix(Operator::Equal, Box::new(x), Box::new(y))) matches Ok((cc, v, _, _)) ==>
            exists|pre: Seq<char>, k: nat, rest: Seq<char>| #![all_triggers]
                cc == pre + label_name(k) + " = icmp "@ + "eq"@ + rest && v == label_name(k),
{
    let cond = ExprV::Infix(Operator::Equal, Box::new(x), Box::new(y));
    if let Ok((cc, v, _, _)) = expr_spec(g, scopes, cond) {
        let (c1, v1, t1, l1) = expr_spec(g, scopes, x)->Ok_0;
        let (c2, v2, t2, l2) = expr_spec(GlobalV { label: l1, ..g }, scopes, y)->Ok_0;
        let (a, b, pc, t, l3) = promote_spec(l2, v1, t1, v2, t2)->Ok_0;
        assert(infix_spec(l3, t, Operator::Equal, a, b) is Ok);
        let rest = " "@ + mnemonic(t) + " "@ + a + ", "@ + b + "\n"@;
        let (vi, ci, _, _) = infix_spec(l3, t, Operator::Equal, a, b)->Ok_0;
        assert(ci == label_name(l3) + " = icmp "@ + cmp_mnemonic(Operator::Equal) + " "@ + mnemonic(t) + " "@ + a + ", "@ + b + "\n"@);
        assert(cmp_mnemonic(Operator::Equal) == "eq"@);
        assert(cc =~= (c1 + c2 + pc) + label_name(l3) + " = icmp "@ + "eq"@ + rest);
    }
}

/// Branching: an `if` whose condition is an equality and whose two arms
/// each return emits, in order, an `icmp eq` that defines a value `%k`, a
/// `br i1 %k` to the two block labels minted first (`l<n>` and `l<n+1>`),
/// the `l<n>:` block with a `ret`, and the `l<n+1>:` block with a `ret`.
#[verifier::rlimit(50)]
pub proof fn lemma_branch_layout(g: GlobalV, scopes: Seq<ScopeV>, x: ExprV, y: ExprV, r1: ExprV, r2: ExprV)
    ensures
        ({
            let i = IfV {
                condition: ExprV::Infix(Operator::Equal, Box::new(x), Box::new(y)),
                body: seq![StmtV::Return(r1)],
                otherwise: BranchV::Else(seq![StmtV::Return(r2)]),
            };
            let tn = block_name(g.label);
            let en = block_name(g.label + 1);
            if_spec(g, scopes, i) matches Ok((c, _, _)) ==> exists|pre: Seq<char>, k: nat, rest: Seq<char>,
                x1: Seq<char>, y1: Seq<char>, x2: Seq<char>, y2: Seq<char>| #![all_triggers]
                c == pre + label_name(k) + " = icmp "@ + "eq"@ + rest
                    + "br i1 "@ + label_name(k) + ", label %"@ + tn + ", label %"@ + en + "\n"@
                    + tn + ":\n"@ + x1 + "ret "@ + y1
                    + en + ":\n"@ + x2 + "ret "@ + y2 + "\n"@
        }),
{
    let cond = ExprV::Infix(Operator::Equal, Box::new(x), Box::new(y));
    let b1 = seq![StmtV::Return(r1)];
    let b2 = seq![StmtV::Return(r2)];
    let i = IfV { condition: cond, body: b1, otherwise: BranchV::Else(b2) };
    if let Ok((c, _, _)) = if_spec(g, scopes, i) {
        let g1 = GlobalV { label: g.label + 2, ..g };
        let (cc, v, ct, l) = expr_spec(g1, scopes, cond)->Ok_0;
        let gb = GlobalV { label: l, ..g };
        let (bc, g2, sc2) = block_spec(gb, scopes, b1, 1)->Ok_0;
        let (ec, g3, sc3) = block_spec(g2, sc2, b2, 1)->Ok_0;
        let tn = block_name(g.label);
        let en = block_name(g.label + 1);
        let head = cc + "br i1 "@ + v + ", label %"@ + tn + ", label %"@ + en + "\n"@ + tn + ":\n"@;
        assert(c == head + bc + en + ":\n"@ + ec + "\n"@);
        lemma_eq_condition(g1, scopes, x, y);
        let (pre, k, rest) = choose|pre: Seq<char>, k: nat, rest: Seq<char>| #![all_triggers]
            cc == pre + label_name(k) + " = icmp "@ + "eq"@ + rest && v == label_name(k);
        lemma_block_single(gb, scopes, r1);
        lemma_block_single(g2, sc2, r2);
        lemma_return_ret(gb, scopes, r1);
        lemma_return_ret(g2, sc2, r2);
        let (x1, y1) = choose|x1: Seq<char>, y1: Seq<char>| #![all_triggers] bc == x1 + "ret "@ + y1;
        let (x2, y2) = choose|x2: Seq<char>, y2: Seq<char>| #![all_triggers] ec == x2 + "ret "@ + y2;
        assert(c =~= pre + label_name(k) + " = icmp "@ + "eq"@ + rest
            + "br i1 "@ + label_name(k) + ", label %"@ + tn + ", label %"@ + en + "\n"@
            + tn + ":\n"@ + x1 + "ret "@ + y1
            + en + ":\n"@ + x2 + "ret "@ + y2 + "\n"@);
    }
}

} // verus!

verus! {

/// `x` names an `i32` parameter of the innermost frame that binds it.
pub open spec fn i32_param(scopes: Seq<ScopeV>, x: Seq<char>) -> bool {
    innermost(scopes, x) matches Some(i) && (scopes[i] matches ScopeV::FnDecl(ps, _)
        && ps[last_index(ps, x).unwrap()].1 == DataType::SignedInteger(SignedInteger::i32))
}

/// The `i32` literal `n`.
pub open spec fn i32_lit(n: i128) -> ExprV {
    ExprV::Literal(LiteralV::Signed(n, SignedInteger::i32), DataType::SignedInteger(SignedInteger::i32))
}

proof fn lemma_return_i32(g: GlobalV, scopes: Seq<ScopeV>, n: i128)
    requires
        return_type(scopes) == Some(DataType::SignedInteger(SignedInteger::i32)),
        g.label + 2 < u64::MAX,
    ensures
        block_spec(g, scopes, seq![StmtV::Return(i32_lit(n))], 1) matches Ok((_, g2, sc2))
            && g2.label == g.label + 2 && sc2 == scopes && g2.fns == g.fns && g2.globals == g.globals,
{
    let ss = seq![StmtV::Return(i32_lit(n))];
    assert(ss[0] == StmtV::Return(i32_lit(n)));
    assert(block_spec(g, scopes, ss, 0) == Ok::<LocalOut, IRErr>((seq![], g, scopes)));
    let i32t = DataType::SignedInteger(SignedInteger::i32);
    assert(literal_spec(g.label, LiteralV::Signed(n, SignedInteger::i32)) is Ok);
    let (c, v, t, l) = expr_spec(g, scopes, i32_lit(n))->Ok_0;
    assert(t == i32t && l == g.label + 2);
    let r = return_spec(g, scopes, i32_lit(n));
    assert(r == Ok::<LocalOut, IRErr>((c + "ret "@ + mnemonic(i32t) + " "@ + v + "\n"@, GlobalV { label: l, ..g }, scopes)));
    assert(local_spec(g, scopes, ss[0]) == r);
}

/// The branching `if x == 0: return 1; else: return 2;` compiles inside a
/// function returning `i32` whose parameter `x` is an `i32`, wherever enough
/// labels are left.
#[verifier::rlimit(100)]
pub proof fn lemma_branch_compiles(g: GlobalV, scopes: Seq<ScopeV>, x: Seq<char>)
    requires
        i32_param(scopes, x),
        return_type(scopes) == Some(DataType::SignedInteger(SignedInteger::i32)),
        g.label + 10 < u64::MAX,
    ensures
        if_spec(g, scopes, IfV {
            condition: ExprV::Infix(Operator::Equal, Box::new(ExprV::Ident(x)), Box::new(i32_lit(0))),
            body: seq![StmtV::Return(i32_lit(1))],
            otherwise: BranchV::Else(seq![StmtV::Return(i32_lit(2))]),
        }) is Ok,
{
    let i32t = DataType::SignedInteger(SignedInteger::i32);
    let g1 = GlobalV { label: g.label + 2, ..g };
    let cond = ExprV::Infix(Operator::Equal, Box::new(ExprV::Ident(x)), Box::new(i32_lit(0)));
    let xv = seq!['%'] + x;
    assert(ident_spec(g1, scopes, x) == Ok::<Emitted, IRErr>((seq![], xv, i32t, g1.label)));
    assert(expr_spec(g1, scopes, ExprV::Ident(x)) == ident_spec(g1, scopes, x));
    let (lc, lv, lt, ll) = literal_spec(g1.label, LiteralV::Signed(0, SignedInteger::i32))->Ok_0;
    assert(expr_spec(GlobalV { label: g1.label, ..g1 }, scopes, i32_lit(0)) is Ok);
    assert(promote_spec(ll, xv, i32t, lv, i32t) is Ok);
    assert(infix_spec(ll, i32t, Operator::Equal, xv, lv) is Ok);
    assert(expr_spec(g1, scopes, cond) is Ok);
    let (cc, v, ct, l) = expr_spec(g1, scopes, cond)->Ok_0;
    assert(ct == DataType::bool);
    assert(l == g.label + 5);
    let gb = GlobalV { label: l, ..g };
    lemma_return_i32(gb, scopes, 1);
    let (_, g2, sc2) = block_spec(gb, scopes, seq![StmtV::Return(i32_lit(1))], 1)->Ok_0;
    lemma_return_i32(g2, sc2, 2);
}

} // verus!

verus! {

/// Width promotion compiles: with `a` an `i32` parameter and `n` an `i64`
/// literal, `a + n` yields an `i64` value (its code is given by
/// `lemma_width_promotion`), wherever enough labels are left.
#[verifier::rlimit(100)]
pub proof fn lemma_promotion_compiles(g: GlobalV, scopes: Seq<ScopeV>, a: Seq<char>, n: i128)
    requires
        i32_param(scopes, a),
        g.label + 5 < u64::MAX,
    ensures
        expr_spec(g, scopes, ExprV::Infix(Operator::Plus, Box::new(ExprV::Ident(a)), Box::new(
            ExprV::Literal(LiteralV::Signed(n, SignedInteger::i64), DataType::SignedInteger(SignedInteger::i64)))))
            matches Ok((_, _, t, _)) && t == DataType::SignedInteger(SignedInteger::i64),
{
    let i32t = DataType::SignedInteger(SignedInteger::i32);
    let i64t = DataType::SignedInteger(SignedInteger::i64);
    let b = ExprV::Literal(LiteralV::Signed(n, SignedInteger::i64), i64t);
    let av = seq!['%'] + a;
    assert(ident_spec(g, scopes, a) == Ok::<Emitted, IRErr>((seq![], av, i32t, g.label)));
    assert(expr_spec(g, scopes, ExprV::Ident(a)) == ident_spec(g, scopes, a));
    assert(literal_spec(g.label, LiteralV::Signed(n, SignedInteger::i64)) is Ok);
    let (bc, bv, bt, bl) = expr_spec(GlobalV { label: g.label, ..g }, scopes, b)->Ok_0;
    assert(bt == i64t && bl == g.label + 2);
    assert(cast_spec(bl, i32t, i64t, av) is Ok);
    assert(promote_spec(bl, av, i32t, bv, i64t) is Ok);
    let (x, y, pc, t, l3) = promote_spec(bl, av, i32t, bv, i64t)->Ok_0;
    assert(t == i64t && l3 == bl + 1);
    assert(infix_spec(l3, i64t, Operator::Plus, x, y) is Ok);
}

} // verus!
