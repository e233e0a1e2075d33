//! IR emission for expressions.
use vstd::prelude::*;
use crate::error::{IRGenError, IRErr};
use crate::lexer::Literal;
use crate::parser::expression::{Expression, ExprV, LiteralV, Operator, InfixExpression, FnCallExpression, args_view, lemma_args_view_index};
use crate::types::{DataType, SignedInteger};
use crate::text::{decimal, int_decimal, i128_text, u128_text, utf8_len, utf8_byte_len};
use super::{GlobalContext, ScopedContext, ScopeV, GlobalV, scopes_view, label_name, push_label, label_text};
use super::types::{mnemonic, int_width, cast, cast_spec, unary_op, unary_spec, infix_op, infix_spec};
use super::types::op::is_comparison;

verus! {

// ---------------------------------------------------------------------------
// Name resolution
// ---------------------------------------------------------------------------

/// The index of the last entry of `list` whose key is `name`.
pub open spec fn last_index<V>(list: Seq<(Seq<char>, V)>, name: Seq<char>) -> Option<int>
    decreases list.len(),
{
    if list.len() == 0 {
        None
    } else if list.last().0 == name {
        Some(list.len() - 1)
    } else {
        last_index(list.drop_last(), name)
    }
}

/// Whether a scope frame binds `name`.
pub open spec fn frame_binds(f: ScopeV, name: Seq<char>) -> bool {
    match f {
        ScopeV::FnDecl(ps, _) => last_index(ps, name) is Some,
        ScopeV::Scope(vs) => last_index(vs, name) is Some,
    }
}

/// The innermost frame of the stack that binds `name`.
pub open spec fn innermost(scopes: Seq<ScopeV>, name: Seq<char>) -> Option<int>
    decreases scopes.len(),
{
    if scopes.len() == 0 {
        None
    } else if frame_binds(scopes.last(), name) {
        Some(scopes.len() - 1)
    } else {
        innermost(scopes.drop_last(), name)
    }
}

proof fn lemma_innermost_binds(scopes: Seq<ScopeV>, name: Seq<char>)
    ensures
        innermost(scopes, name) matches Some(i) ==> 0 <= i < scopes.len() && frame_binds(scopes[i], name),
    decreases scopes.len(),
{
    if scopes.len() > 0 && !frame_binds(scopes.last(), name) {
        lemma_innermost_binds(scopes.drop_last(), name);
    }
}

/// The index of the last declared function named `name`.
pub open spec fn fn_index(fns: Seq<(Seq<char>, Seq<DataType>, DataType)>, name: Seq<char>) -> Option<int>
    decreases fns.len(),
{
    if fns.len() == 0 {
        None
    } else if fns.last().0 == name {
        Some(fns.len() - 1)
    } else {
        fn_index(fns.drop_last(), name)
    }
}

// ---------------------------------------------------------------------------
// The emitted code
// ---------------------------------------------------------------------------

/// The result of emitting an expression: its code, the value that holds it,
/// its type, and the label counter afterwards.
pub type Emitted = (Seq<char>, Seq<char>, DataType, nat);

/// Loading the variable at `ptr` that holds `lit`: integers are loaded into
/// a fresh value; a string is used through its pointer.
pub open spec fn load_spec(label: nat, lit: LiteralV, ptr: Seq<char>) -> Result<Emitted, IRErr> {
    let t = match lit {
        LiteralV::Signed(_, w) => DataType::SignedInteger(w),
        LiteralV::Unsigned(_, w) => DataType::UnsignedInteger(w),
        LiteralV::Str(_) => DataType::str,
    };
    if t == DataType::str {
        Ok((seq![], ptr, t, label))
    } else if label >= u64::MAX {
        Err(IRErr::LabelOverflow)
    } else {
        let k = label_name(label);
        Ok((k + " = load "@ + mnemonic(t) + ", ptr "@ + ptr + ", align 4\n"@, k, t, label + 1))
    }
}

/// The value of the identifier `name`: a parameter is used directly, a local
/// or global variable is loaded; the innermost binding wins, globals last.
pub open spec fn ident_spec(g: GlobalV, scopes: Seq<ScopeV>, name: Seq<char>) -> Result<Emitted, IRErr> {
    match innermost(scopes, name) {
        Some(i) => match scopes[i] {
            ScopeV::FnDecl(ps, _) => Ok((seq![], seq!['%'] + name, ps[last_index(ps, name).unwrap()].1, g.label)),
            ScopeV::Scope(vs) => load_spec(g.label, vs[last_index(vs, name).unwrap()].1, seq!['%'] + name),
        },
        None => match last_index(g.globals, name) {
            Some(j) => load_spec(g.label, g.globals[j].1, seq!['@'] + name),
            None => Err(IRErr::UnknownIdentifier(name)),
        },
    }
}

/// The type of a literal.
pub open spec fn literal_type(lit: LiteralV) -> DataType {
    match lit {
        LiteralV::Signed(_, w) => DataType::SignedInteger(w),
        LiteralV::Unsigned(_, w) => DataType::UnsignedInteger(w),
        LiteralV::Str(_) => DataType::str,
    }
}

/// The decimal text of an integer literal.
pub open spec fn literal_digits(lit: LiteralV) -> Seq<char> {
    match lit {
        LiteralV::Signed(n, _) => int_decimal(n as int),
        LiteralV::Unsigned(n, _) => decimal(n as nat),
        LiteralV::Str(s) => s,
    }
}

/// Materialising a literal: an integer is stored to a stack slot and loaded
/// back; a string is stored to a byte array.
pub open spec fn literal_spec(label: nat, lit: LiteralV) -> Result<Emitted, IRErr> {
    let a = label_name(label);
    match lit {
        LiteralV::Str(s) => if label >= u64::MAX {
            Err(IRErr::LabelOverflow)
        } else {
            let arr = "["@ + decimal(utf8_len(s) + 1) + " x i8]"@;
            Ok((a + " = alloca "@ + arr + ", align 4\n"@
                + "store "@ + arr + " c\""@ + s + "\\00\", ptr "@ + a + ", align 4\n"@,
                a, DataType::str, label + 1))
        },
        _ => if label + 1 >= u64::MAX {
            Err(IRErr::LabelOverflow)
        } else {
            let b = label_name(label + 1);
            let m = mnemonic(literal_type(lit));
            Ok((a + " = alloca "@ + m + ", align 4\n"@
                + "store "@ + m + " "@ + literal_digits(lit) + ", ptr "@ + a + ", align 4\n"@
                + b + " = load "@ + m + ", ptr "@ + a + ", align 4\n"@,
                b, literal_type(lit), label + 2))
        },
    }
}

/// Bringing two operand values to one type: the narrower is converted to
/// the wider; at equal widths the right one takes the left one's type.
/// Yields the two values, the conversion code, the common type and the
/// counter afterwards.
pub open spec fn promote_spec(label: nat, lv: Seq<char>, lt: DataType, rv: Seq<char>, rt: DataType)
    -> Result<(Seq<char>, Seq<char>, Seq<char>, DataType, nat), IRErr>
{
    if lt == rt {
        Ok((lv, rv, seq![], lt, label))
    } else {
        match (int_width(lt), int_width(rt)) {
            (Some(wl), Some(wr)) => if wl < wr {
                match cast_spec(label, lt, rt, lv) {
                    Ok((v, c, _, l)) => Ok((v, rv, c, rt, l)),
                    Err(e) => Err(e),
                }
            } else {
                match cast_spec(label, rt, lt, rv) {
                    Ok((v, c, _, l)) => Ok((lv, v, c, lt, l)),
                    Err(e) => Err(e),
                }
            },
            _ => Err(IRErr::BadCast),
        }
    }
}

/// The code of an expression, under the globals and functions of `g`, the
/// scope stack `scopes`, and the counter at `g.label`; `None` where the
/// expression names an unknown identifier or function, or applies an
/// operator or conversion that the tables do not hold.
pub open spec fn expr_spec(g: GlobalV, scopes: Seq<ScopeV>, e: ExprV) -> Result<Emitted, IRErr>
    decreases e, 0nat,
{
    match e {
        ExprV::Literal(lit, _) => literal_spec(g.label, lit),
        ExprV::Ident(name) => ident_spec(g, scopes, name),
        ExprV::Unary(op, right) => match expr_spec(g, scopes, *right) {
            Err(e) => Err(e),
            Ok((c1, v1, t1, l1)) => match unary_spec(l1, t1, op, v1) {
                Err(e) => Err(e),
                Ok((v2, c2, l2)) => Ok((c1 + c2, v2, t1, l2)),
            },
        },
        ExprV::Infix(op, left, right) => match expr_spec(g, scopes, *left) {
            Err(e) => Err(e),
            Ok((c1, v1, t1, l1)) => match expr_spec(GlobalV { label: l1, ..g }, scopes, *right) {
                Err(e) => Err(e),
                Ok((c2, v2, t2, l2)) => match promote_spec(l2, v1, t1, v2, t2) {
                    Err(e) => Err(e),
                    Ok((a, b, cc, t, l3)) => match infix_spec(l3, t, op, a, b) {
                        Err(e) => Err(e),
                        Ok((v, c, rt, l4)) => Ok((c1 + c2 + cc + c, v, rt, l4)),
                    },
                },
            },
        },
        ExprV::FnCall(name, args) => match fn_index(g.fns, name) {
            None => Err(IRErr::UnknownFunction(name)),
            Some(i) => match args_spec(g, scopes, args, args.len()) {
                Err(e) => Err(e),
                Ok((c, text, l)) => if l >= u64::MAX {
                    Err(IRErr::LabelOverflow)
                } else {
                    let ret = g.fns[i].2;
                    let k = label_name(l);
                    Ok((c + k + " = call "@ + mnemonic(ret) + " @"@ + name + "("@ + text + ")\n"@,
                        k, ret, l + 1))
                },
            },
        },
    }
}

/// The code of the first `n` call arguments, their `type value` list joined
/// by `, `, and the counter afterwards.
pub open spec fn args_spec(g: GlobalV, scopes: Seq<ScopeV>, args: Seq<ExprV>, n: nat)
    -> Result<(Seq<char>, Seq<char>, nat), IRErr>
    decreases args, n,
{
    if n == 0 || n > args.len() {
        Ok((seq![], seq![], g.label))
    } else {
        match args_spec(g, scopes, args, (n - 1) as nat) {
            Err(e) => Err(e),
            Ok((c, text, l)) => match expr_spec(GlobalV { label: l, ..g }, scopes, args[n - 1]) {
                Err(e) => Err(e),
                Ok((c2, v, t, l2)) => Ok((c + c2,
                    (if n == 1 { seq![] } else { text + ", "@ }) + mnemonic(t) + " "@ + v, l2)),
            },
        }
    }
}

} // verus!

verus! {

/// The last entry of a variable list named `name`.
pub fn find_var(vs: &Vec<(String, Literal)>, name: &String) -> (r: Option<usize>)
    ensures
        match last_index(vs@.map_values(|v: (String, Literal)| (v.0@, v.1.view())), name@) {
            Some(i) => r matches Some(j) && j == i,
            None => r is None,
        },
        r matches Some(j) ==> j < vs@.len(),
{
    let ghost l = vs@.map_values(|v: (String, Literal)| (v.0@, v.1.view()));
    let mut i: usize = vs.len();
    assert(l.subrange(0, i as int) =~= l);
    while i > 0
        invariant
            i <= vs@.len(),
            l == vs@.map_values(|v: (String, Literal)| (v.0@, v.1.view())),
            last_index(l, name@) == last_index(l.subrange(0, i as int), name@),
        decreases i,
    {
        assert(l.subrange(0, i as int).drop_last() =~= l.subrange(0, i - 1));
        if vs[i - 1].0 == *name {
            return Some(i - 1);
        }
        i -= 1;
    }
    None
}

/// The last parameter named `name`.
pub fn find_param(ps: &Vec<(String, DataType)>, name: &String) -> (r: Option<usize>)
    ensures
        match last_index(ps@.map_values(|p: (String, DataType)| (p.0@, p.1)), name@) {
            Some(i) => r matches Some(j) && j == i,
            None => r is None,
        },
        r matches Some(j) ==> j < ps@.len(),
{
    let ghost l = ps@.map_values(|p: (String, DataType)| (p.0@, p.1));
    let mut i: usize = ps.len();
    assert(l.subrange(0, i as int) =~= l);
    while i > 0
        invariant
            i <= ps@.len(),
            l == ps@.map_values(|p: (String, DataType)| (p.0@, p.1)),
            last_index(l, name@) == last_index(l.subrange(0, i as int), name@),
        decreases i,
    {
        assert(l.subrange(0, i as int).drop_last() =~= l.subrange(0, i - 1));
        if ps[i - 1].0 == *name {
            return Some(i - 1);
        }
        i -= 1;
    }
    None
}

/// The last declared function named `name`.
pub fn find_fn(fns: &Vec<(String, Vec<DataType>, DataType)>, name: &String) -> (r: Option<usize>)
    ensures
        match fn_index(fns@.map_values(|f: (String, Vec<DataType>, DataType)| (f.0@, f.1@, f.2)), name@) {
            Some(i) => r matches Some(j) && j == i,
            None => r is None,
        },
        r matches Some(j) ==> j < fns@.len(),
{
    let ghost l = fns@.map_values(|f: (String, Vec<DataType>, DataType)| (f.0@, f.1@, f.2));
    let mut i: usize = fns.len();
    assert(l.subrange(0, i as int) =~= l);
    while i > 0
        invariant
            i <= fns@.len(),
            l == fns@.map_values(|f: (String, Vec<DataType>, DataType)| (f.0@, f.1@, f.2)),
            fn_index(l, name@) == fn_index(l.subrange(0, i as int), name@),
        decreases i,
    {
        assert(l.subrange(0, i as int).drop_last() =~= l.subrange(0, i - 1));
        if fns[i - 1].0 == *name {
            return Some(i - 1);
        }
        i -= 1;
    }
    None
}

/// The innermost frame of the stack that binds `name`.
fn find_frame(scopes: &Vec<ScopedContext>, name: &String) -> (r: Option<usize>)
    ensures
        match innermost(scopes_view(scopes@), name@) {
            Some(i) => r matches Some(j) && j == i,
            None => r is None,
        },
        r matches Some(j) ==> j < scopes@.len(),
{
    let ghost l = scopes_view(scopes@);
    let mut i: usize = scopes.len();
    assert(l.subrange(0, i as int) =~= l);
    while i > 0
        invariant
            i <= scopes@.len(),
            l == scopes_view(scopes@),
            innermost(l, name@) == innermost(l.subrange(0, i as int), name@),
        decreases i,
    {
        assert(l.subrange(0, i as int).drop_last() =~= l.subrange(0, i - 1));
        assert(l[i - 1] == scopes@[i - 1].view());
        let binds = match &scopes[i - 1] {
            ScopedContext::FnDecl(ps, _) => find_param(ps, name).is_some(),
            ScopedContext::Scope(vs) => find_var(vs, name).is_some(),
        };
        if binds {
            return Some(i - 1);
        }
        i -= 1;
    }
    None
}

/// A name with a one-character sigil before it.
fn sigil(c: &str, name: &String) -> (r: String)
    requires
        c@.len() == 1,
    ensures
        r@ == c@ + name@,
{
    let mut s = c.to_owned();
    s.append(name.as_str());
    s
}

/// Loads the variable at `ptr` that holds `lit`.
fn load(ctx: &mut GlobalContext, lit: &Literal, ptr: String) -> (r: Result<(String, String, DataType), IRGenError>)
    ensures
        final(ctx).global_var@ == old(ctx).global_var@,
        final(ctx).fn_decl@ == old(ctx).fn_decl@,
        match load_spec(old(ctx).label_idx as nat, lit.view(), ptr@) {
            Ok((c, v, t, l)) => r matches Ok((c2, v2, t2)) && c2@ == c && v2@ == v && t2 == t
                && final(ctx).label_idx == l,
            Err(k) => r matches Err(e) && e.view() == k,
        },
{
    let t = match lit {
        Literal::SignedInteger(_, w) => DataType::SignedInteger(*w),
        Literal::UnsignedInteger(_, w) => DataType::UnsignedInteger(*w),
        Literal::String(_) => { return Ok((String::new(), ptr, DataType::str)); },
    };
    let k = match ctx.get_label() {
        Ok(k) => k,
        Err(e) => { return Err(e); },
    };
    let mut code = String::new();
    push_label(&mut code, k);
    code.append(" = load ");
    code.append(t.to_mnemonic());
    code.append(", ptr ");
    code.append(ptr.as_str());
    code.append(", align 4\n");
    assert(code@ =~= label_name(k as nat) + " = load "@ + mnemonic(t) + ", ptr "@ + ptr@ + ", align 4\n"@);
    Ok((code, label_text(k), t))
}

/// Materialises a literal into a value: its code, the value and its type.
pub fn generate_literal(ctx: &mut GlobalContext, lit: &Literal) -> (r: Result<(String, String, DataType), IRGenError>)
    ensures
        final(ctx).global_var@ == old(ctx).global_var@,
        final(ctx).fn_decl@ == old(ctx).fn_decl@,
        match literal_spec(old(ctx).label_idx as nat, lit.view()) {
            Ok((c, v, t, l)) => r matches Ok((c2, v2, t2)) && c2@ == c && v2@ == v && t2 == t
                && final(ctx).label_idx == l,
            Err(k) => r matches Err(e) && e.view() == k,
        },
{
    if let Literal::String(s) = lit {
        let a = match ctx.get_label() {
            Ok(k) => k,
            Err(e) => { return Err(e); },
        };
        let n: u128 = utf8_byte_len(s.as_str()) + 1;
        let mut arr = String::new();
        arr.append("[");
        arr.append(u128_text(n).as_str());
        arr.append(" x i8]");
        let mut code = String::new();
        push_label(&mut code, a);
        code.append(" = alloca ");
        code.append(arr.as_str());
        code.append(", align 4\n");
        code.append("store ");
        code.append(arr.as_str());
        code.append(" c\"");
        code.append(s.as_str());
        code.append("\\00\", ptr ");
        push_label(&mut code, a);
        code.append(", align 4\n");
        let ghost arrv = "["@ + decimal(utf8_len(s@) + 1) + " x i8]"@;
        assert(arr@ =~= arrv);
        assert(code@ =~= label_name(a as nat) + " = alloca "@ + arrv + ", align 4\n"@
            + "store "@ + arrv + " c\""@ + s@ + "\\00\", ptr "@ + label_name(a as nat) + ", align 4\n"@);
        return Ok((code, label_text(a), DataType::str));
    }
    if ctx.label_idx >= u64::MAX - 1 {
        return Err(IRGenError::LabelOverflow);
    }
    let (digits, t) = match lit {
        Literal::SignedInteger(n, w) => (i128_text(*n), DataType::SignedInteger(*w)),
        Literal::UnsignedInteger(n, w) => (u128_text(*n), DataType::UnsignedInteger(*w)),
        Literal::String(_) => { return Err(IRGenError::BadCast); },
    };
    let a = match ctx.get_label() {
        Ok(k) => k,
        Err(e) => { return Err(e); },
    };
    let b = match ctx.get_label() {
        Ok(k) => k,
        Err(e) => { return Err(e); },
    };
    let m = t.to_mnemonic();
    let mut code = String::new();
    push_label(&mut code, a);
    code.append(" = alloca ");
    code.append(m);
    code.append(", align 4\n");
    code.append("store ");
    code.append(m);
    code.append(" ");
    code.append(digits.as_str());
    code.append(", ptr ");
    push_label(&mut code, a);
    code.append(", align 4\n");
    push_label(&mut code, b);
    code.append(" = load ");
    code.append(m);
    code.append(", ptr ");
    push_label(&mut code, a);
    code.append(", align 4\n");
    let ghost av = label_name(a as nat);
    let ghost bv = label_name(b as nat);
    let ghost mv = mnemonic(t);
    assert(code@ =~= av + " = alloca "@ + mv + ", align 4\n"@
        + "store "@ + mv + " "@ + literal_digits(lit.view()) + ", ptr "@ + av + ", align 4\n"@
        + bv + " = load "@ + mv + ", ptr "@ + av + ", align 4\n"@);
    Ok((code, label_text(b), t))
}

} // verus!

verus! {

/// A copy of a literal.
pub fn copy_literal(lit: &Literal) -> (r: Literal)
    ensures
        r.view() == lit.view(),
{
    match lit {
        Literal::SignedInteger(n, w) => Literal::SignedInteger(*n, *w),
        Literal::UnsignedInteger(n, w) => Literal::UnsignedInteger(*n, *w),
        Literal::String(s) => Literal::String(s.clone()),
    }
}

/// The value of an identifier.
fn generate_ident(ctx: &mut GlobalContext, scopes: &Vec<ScopedContext>, name: &String)
    -> (r: Result<(String, String, DataType), IRGenError>)
    ensures
        final(ctx).global_var@ == old(ctx).global_var@,
        final(ctx).fn_decl@ == old(ctx).fn_decl@,
        match ident_spec(old(ctx).view(), scopes_view(scopes@), name@) {
            Ok((c, v, t, l)) => r matches Ok((c2, v2, t2)) && c2@ == c && v2@ == v && t2 == t
                && final(ctx).label_idx == l,
            Err(k) => r matches Err(e) && e.view() == k,
        },
{
    proof {
        reveal_strlit("%");
        reveal_strlit("@");
    }
    match find_frame(scopes, name) {
        Some(i) => {
            proof { lemma_innermost_binds(scopes_view(scopes@), name@); }
            assert(scopes_view(scopes@)[i as int] == scopes@[i as int].view());
            match &scopes[i] {
                ScopedContext::FnDecl(ps, _) => {
                    match find_param(ps, name) {
                        Some(j) => {
                            let t = ps[j].1;
                            Ok((String::new(), sigil("%", name), t))
                        },
                        None => Err(IRGenError::UnknownIdentifier(name.clone())),
                    }
                },
                ScopedContext::Scope(vs) => {
                    match find_var(vs, name) {
                        Some(j) => load(ctx, &vs[j].1, sigil("%", name)),
                        None => Err(IRGenError::UnknownIdentifier(name.clone())),
                    }
                },
            }
        },
        None => {
            match find_var(&ctx.global_var, name) {
                Some(j) => {
                    let lit = copy_literal(&ctx.global_var[j].1);
                    load(ctx, &lit, sigil("@", name))
                },
                None => Err(IRGenError::UnknownIdentifier(name.clone())),
            }
        },
    }
}

} // verus!

verus! {

/// The type of an infix operation's result on operands of type `t`.
fn infix_type(t: DataType, op: Operator) -> (r: DataType)
    ensures
        r == if is_comparison(op) { DataType::bool } else { t },
{
    match op {
        Operator::Equal | Operator::NotEqual | Operator::Greater | Operator::GreaterEqual
        | Operator::Less | Operator::LessEqual => DataType::bool,
        _ => t,
    }
}

proof fn lemma_args_spec_none(g: GlobalV, scopes: Seq<ScopeV>, args: Seq<ExprV>, k: nat, m: nat)
    requires
        0 < k <= m <= args.len(),
        args_spec(g, scopes, args, k) is Err,
    ensures
        args_spec(g, scopes, args, m) == args_spec(g, scopes, args, k),
    decreases m - k,
{
    if k < m {
        lemma_args_spec_none(g, scopes, args, k, (m - 1) as nat);
    }
}

/// Emits an expression: its code, the value that holds it, and its type.
fn gen_expr(ctx: &mut GlobalContext, scopes: &Vec<ScopedContext>, expr: &Expression)
    -> (r: Result<(String, String, DataType), IRGenError>)
    ensures
        final(ctx).global_var@ == old(ctx).global_var@,
        final(ctx).fn_decl@ == old(ctx).fn_decl@,
        match expr_spec(old(ctx).view(), scopes_view(scopes@), expr.view()) {
            Ok((c, v, t, l)) => r matches Ok((c2, v2, t2)) && c2@ == c && v2@ == v && t2 == t
                && final(ctx).label_idx == l,
            Err(k) => r matches Err(e) && e.view() == k,
        },
    decreases expr, 1nat,
{
    match expr {
        Expression::Literal(lit, _) => generate_literal(ctx, lit),
        Expression::Identifier(name) => generate_ident(ctx, scopes, name),
        Expression::Unary(u) => {
            let (c1, v1, t1) = match gen_expr(ctx, scopes, &u.right) {
                Ok(x) => x,
                Err(e) => { return Err(e); },
            };
            let (v2, c2) = match unary_op(ctx, t1, u.operator, v1.as_str()) {
                Ok(x) => x,
                Err(e) => { return Err(e); },
            };
            let mut code = c1;
            code.append(c2.as_str());
            Ok((code, v2, t1))
        },
        Expression::Infix(i) => gen_infix(ctx, scopes, i),
        Expression::FnCall(f) => gen_call(ctx, scopes, f),
    }
}

fn gen_infix(ctx: &mut GlobalContext, scopes: &Vec<ScopedContext>, i: &InfixExpression)
    -> (r: Result<(String, String, DataType), IRGenError>)
    ensures
        final(ctx).global_var@ == old(ctx).global_var@,
        final(ctx).fn_decl@ == old(ctx).fn_decl@,
        match expr_spec(old(ctx).view(), scopes_view(scopes@), Expression::Infix(*i).view()) {
            Ok((c, v, t, l)) => r matches Ok((c2, v2, t2)) && c2@ == c && v2@ == v && t2 == t
                && final(ctx).label_idx == l,
            Err(k) => r matches Err(e) && e.view() == k,
        },
    decreases i, 0nat,
{
    let (c1, v1, t1) = match gen_expr(ctx, scopes, &i.left) {
        Ok(x) => x,
        Err(e) => { return Err(e); },
    };
    let (c2, v2, t2) = match gen_expr(ctx, scopes, &i.right) {
        Ok(x) => x,
        Err(e) => { return Err(e); },
    };
    let (a, b, cc, t) = if t1 == t2 {
        (v1, v2, String::new(), t1)
    } else {
        match (t1.width(), t2.width()) {
            (Some(w1), Some(w2)) => {
                if w1 < w2 {
                    match cast(ctx, t1, t2, v1.as_str()) {
                        Ok((v, c, _)) => (v, v2, c, t2),
                        Err(e) => { return Err(e); },
                    }
                } else {
                    match cast(ctx, t2, t1, v2.as_str()) {
                        Ok((v, c, _)) => (v1, v, c, t1),
                        Err(e) => { return Err(e); },
                    }
                }
            },
            _ => { return Err(IRGenError::BadCast); },
        }
    };
    let (v, c) = match infix_op(ctx, t, i.operator, a.as_str(), b.as_str()) {
        Ok(x) => x,
        Err(e) => { return Err(e); },
    };
    let mut code = c1;
    code.append(c2.as_str());
    code.append(cc.as_str());
    code.append(c.as_str());
    Ok((code, v, infix_type(t, i.operator)))
}

#[verifier::rlimit(50)]
fn gen_call(ctx: &mut GlobalContext, scopes: &Vec<ScopedContext>, f: &FnCallExpression)
    -> (r: Result<(String, String, DataType), IRGenError>)
    ensures
        final(ctx).global_var@ == old(ctx).global_var@,
        final(ctx).fn_decl@ == old(ctx).fn_decl@,
        match expr_spec(old(ctx).view(), scopes_view(scopes@), Expression::FnCall(*f).view()) {
            Ok((c, v, t, l)) => r matches Ok((c2, v2, t2)) && c2@ == c && v2@ == v && t2 == t
                && final(ctx).label_idx == l,
            Err(k) => r matches Err(e) && e.view() == k,
        },
    decreases f, 0nat,
{
    let idx = match find_fn(&ctx.fn_decl, &f.ident) {
        Some(idx) => idx,
        None => { return Err(IRGenError::UnknownFunction(f.ident.clone())); },
    };
    let ret = ctx.fn_decl[idx].2;
    let ghost g = ctx.view();
    let ghost sv = scopes_view(scopes@);
    let ghost av = args_view(f.args@);
    proof { lemma_args_view_index(f.args@); }
    let mut code = String::new();
    let mut text = String::new();
    let mut j: usize = 0;
    while j < f.args.len()
        invariant
            j <= f.args@.len(),
            av == args_view(f.args@),
            av.len() == f.args@.len(),
            forall|k: int| 0 <= k < f.args@.len() ==> #[trigger] av[k] == f.args@[k].view(),
            ctx.global_var@ == old(ctx).global_var@,
            ctx.fn_decl@ == old(ctx).fn_decl@,
            g == old(ctx).view(),
            sv == scopes_view(scopes@),
            fn_index(g.fns, f.ident@) is Some,
            args_spec(g, sv, av, j as nat) == Ok::<(Seq<char>, Seq<char>, nat), IRErr>((code@, text@, ctx.label_idx as nat)),
        decreases f.args@.len() - j,
    {
        let ghost before = (code@, text@, ctx.label_idx as nat);
        let ghost old_view = ctx.view();
        assert(GlobalV { label: ctx.label_idx as nat, ..g } == ctx.view());
        proof {
            assert(decreases_to!(f.args => f.args@[j as int])) by {
                broadcast use vstd::std_specs::vec::axiom_vec_index_decreases;
            }
        }
        let (c2, v, t) = match gen_expr(ctx, scopes, &f.args[j]) {
            Ok(x) => x,
            Err(e) => {
                proof {
                    assert(GlobalV { label: before.2, ..g } == old_view);
                    assert(args_spec(g, sv, av, (j + 1) as nat)
                        == Err::<(Seq<char>, Seq<char>, nat), IRErr>(e.view()));
                    lemma_args_spec_none(g, sv, av, (j + 1) as nat, av.len());
                    assert(Expression::FnCall(*f).view() == ExprV::FnCall(f.ident@, av));
                    assert(fn_index(g.fns, f.ident@) is Some);
                }
                return Err(e);
            },
        };
        code.append(c2.as_str());
        if j > 0 {
            text.append(", ");
        }
        text.append(t.to_mnemonic());
        text.append(" ");
        text.append(v.as_str());
        j += 1;
        assert(code@ =~= before.0 + c2@);
        assert(text@ =~= (if j == 1 { seq![] } else { before.1 + ", "@ }) + mnemonic(t) + " "@ + v@);
    }
    let k = match ctx.get_label() {
        Ok(k) => k,
        Err(e) => { return Err(e); },
    };
    let ghost pre = code@;
    push_label(&mut code, k);
    code.append(" = call ");
    code.append(ret.to_mnemonic());
    code.append(" @");
    code.append(f.ident.as_str());
    code.append("(");
    code.append(text.as_str());
    code.append(")\n");
    assert(code@ =~= pre + label_name(k as nat) + " = call "@ + mnemonic(ret) + " @"@ + f.ident@ + "("@
        + text@ + ")\n"@);
    Ok((code, label_text(k), ret))
}

/// Emits an expression under the global context and the scope stack: its
/// code, the value that holds it, and its type.
pub fn generate_expr(global_ctx: &mut GlobalContext, scoped_ctx: &mut Vec<ScopedContext>, expr: &Expression)
    -> (r: Result<(String, String, DataType), IRGenError>)
    ensures
        final(global_ctx).global_var@ == old(global_ctx).global_var@,
        final(global_ctx).fn_decl@ == old(global_ctx).fn_decl@,
        final(scoped_ctx)@ == old(scoped_ctx)@,
        match expr_spec(old(global_ctx).view(), scopes_view(old(scoped_ctx)@), expr.view()) {
            Ok((c, v, t, l)) => r matches Ok((c2, v2, t2)) && c2@ == c && v2@ == v && t2 == t
                && final(global_ctx).label_idx == l,
            Err(k) => r matches Err(e) && e.view() == k,
        },
{
    gen_expr(global_ctx, scoped_ctx, expr)
}

} // verus!

verus! {

/// Width promotion: in `a + b` with `a` an `i32` value and `b` an `i64`
/// value, the code of `a` and of `b` is followed by a `zext` of `a`'s value
/// to `i64`, then an `add nsw i64` of the extended value and `b`'s value;
/// the sum has type `i64`.
#[verifier::rlimit(50)]
pub proof fn lemma_width_promotion(g: GlobalV, scopes: Seq<ScopeV>, a: ExprV, b: ExprV)
    requires
        expr_spec(g, scopes, a) matches Ok((_, _, t, _)) && t == DataType::SignedInteger(SignedInteger::i32),
        expr_spec(GlobalV { label: expr_spec(g, scopes, a)->Ok_0.3, ..g }, scopes, b) matches Ok((_, _, t, l))
            && t == DataType::SignedInteger(SignedInteger::i64) && l + 1 < u64::MAX,
    ensures
        ({
            let (c1, v1, _, l1) = expr_spec(g, scopes, a)->Ok_0;
            let (c2, v2, _, l2) = expr_spec(GlobalV { label: l1, ..g }, scopes, b)->Ok_0;
            let z = label_name(l2);
            let s = label_name(l2 + 1);
            expr_spec(g, scopes, ExprV::Infix(Operator::Plus, Box::new(a), Box::new(b))) == Ok::<Emitted, IRErr>((
                c1 + c2 + (z + " = "@ + "zext "@ + "i32"@ + " "@ + v1 + " to "@ + "i64"@ + "\n"@)
                    + (s + " = "@ + "add nsw"@ + " "@ + "i64"@ + " "@ + z + ", "@ + v2 + "\n"@),
                s, DataType::SignedInteger(SignedInteger::i64), l2 + 2))
        }),
{
    let i32t = DataType::SignedInteger(SignedInteger::i32);
    let i64t = DataType::SignedInteger(SignedInteger::i64);
    let (c1, v1, _, l1) = expr_spec(g, scopes, a)->Ok_0;
    let (c2, v2, _, l2) = expr_spec(GlobalV { label: l1, ..g }, scopes, b)->Ok_0;
    let z = label_name(l2);
    let s = label_name(l2 + 1);
    assert(mnemonic(i32t) == "i32"@);
    assert(mnemonic(i64t) == "i64"@);
    let zext = z + " = "@ + "zext "@ + mnemonic(i32t) + " "@ + v1 + " to "@ + mnemonic(i64t) + "\n"@;
    assert(cast_spec(l2, i32t, i64t, v1) == Ok::<(Seq<char>, Seq<char>, DataType, nat), IRErr>((z, zext, i64t, l2 + 1)));
    assert(promote_spec(l2, v1, i32t, v2, i64t)
        == Ok::<(Seq<char>, Seq<char>, Seq<char>, DataType, nat), IRErr>((z, v2, zext, i64t, l2 + 1)));
    let add = s + " = "@ + "add nsw"@ + " "@ + mnemonic(i64t) + " "@ + z + ", "@ + v2 + "\n"@;
    assert(infix_spec(l2 + 1, i64t, Operator::Plus, z, v2)
        == Ok::<(Seq<char>, Seq<char>, DataType, nat), IRErr>((s, add, i64t, l2 + 2)));
    assert(expr_spec(g, scopes, ExprV::Infix(Operator::Plus, Box::new(a), Box::new(b)))
        == Ok::<Emitted, IRErr>((c1 + c2 + zext + add, s, i64t, l2 + 2)));
}

} // verus!
