//! The LLVM IR generator.
pub mod calls;
pub mod expr;
pub mod labels;
pub mod stmt;
pub mod types;

use vstd::prelude::*;
use crate::error::{IRGenError, IRErr};
use crate::lexer::Literal;
use crate::parser::expression::{Expression, LiteralV};
use crate::parser::statement::{Statement, LetStatement, DefStatement, ExternStatement, IfStatement, IfBranch,
    ReturnStatement, WhileStatement, StmtV, stmts_view, params_view, lemma_stmts_view_index};
pub use expr::generate_expr;
use types::cast;
use crate::types::DataType;
use crate::text::{decimal, push_u64};

verus! {

/// The name of the SSA value numbered `k`.
pub open spec fn label_name(k: nat) -> Seq<char> {
    seq!['%'] + decimal(k)
}

/// The state of one compilation shared by all functions: global variables,
/// declared functions, and the counter that numbers SSA values and blocks.
pub struct GlobalContext {
    pub global_var: Vec<(String, Literal)>,
    pub fn_decl: Vec<(String, Vec<DataType>, DataType)>,
    pub label_idx: u64,
}

/// The frames of the scope stack: a function's parameters and return type,
/// or a block's local variables.
pub enum ScopedContext {
    FnDecl(Vec<(String, DataType)>, DataType),
    Scope(Vec<(String, Literal)>),
}

/// The view of a global context.
pub struct GlobalV {
    pub globals: Seq<(Seq<char>, LiteralV)>,
    pub fns: Seq<(Seq<char>, Seq<DataType>, DataType)>,
    pub label: nat,
}

/// The view of a scope frame.
pub enum ScopeV {
    FnDecl(Seq<(Seq<char>, DataType)>, DataType),
    Scope(Seq<(Seq<char>, LiteralV)>),
}

impl GlobalContext {
    pub open spec fn view(&self) -> GlobalV {
        GlobalV {
            globals: self.global_var@.map_values(|g: (String, Literal)| (g.0@, g.1.view())),
            fns: self.fn_decl@.map_values(|f: (String, Vec<DataType>, DataType)| (f.0@, f.1@, f.2)),
            label: self.label_idx as nat,
        }
    }

    /// An empty context whose counter starts at zero.
    pub fn new() -> (r: GlobalContext)
        ensures
            r.view().globals.len() == 0,
            r.view().fns.len() == 0,
            r.view().label == 0,
    {
        GlobalContext { global_var: Vec::new(), fn_decl: Vec::new(), label_idx: 0 }
    }

    /// Mints a fresh label: the counter's value, which then moves on by one.
    pub fn get_label(&mut self) -> (r: Result<u64, IRGenError>)
        ensures
            final(self).global_var@ == old(self).global_var@,
            final(self).fn_decl@ == old(self).fn_decl@,
            old(self).label_idx < u64::MAX ==> (r matches Ok(k) && k == old(self).label_idx
                && final(self).label_idx == old(self).label_idx + 1),
            old(self).label_idx == u64::MAX ==> (r matches Err(e) && e.view() == IRErr::LabelOverflow)
                && final(self).label_idx == old(self).label_idx,
    {
        if self.label_idx == u64::MAX {
            return Err(IRGenError::LabelOverflow);
        }
        let result = self.label_idx;
        self.label_idx = self.label_idx + 1;
        Ok(result)
    }
}

impl ScopedContext {
    pub open spec fn view(&self) -> ScopeV {
        match self {
            ScopedContext::FnDecl(ps, t) => ScopeV::FnDecl(params_view(ps@), *t),
            ScopedContext::Scope(vs) => ScopeV::Scope(vs@.map_values(|v: (String, Literal)| (v.0@, v.1.view()))),
        }
    }
}

/// The views of a scope stack.
pub open spec fn scopes_view(s: Seq<ScopedContext>) -> Seq<ScopeV> {
    s.map_values(|c: ScopedContext| c.view())
}

/// Appends the name of the SSA value numbered `k`.
pub fn push_label(out: &mut String, k: u64)
    ensures
        final(out)@ == old(out)@ + label_name(k as nat),
{
    out.append("%");
    push_u64(out, k);
    proof { reveal_strlit("%"); }
    assert(final(out)@ =~= old(out)@ + label_name(k as nat));
}

/// The name of the SSA value numbered `k`.
pub fn label_text(k: u64) -> (r: String)
    ensures
        r@ == label_name(k as nat),
{
    let mut s = String::new();
    push_label(&mut s, k);
    assert(s@ =~= label_name(k as nat));
    s
}

} // verus!

verus! {

/// Appends the name of the basic block numbered `k`.
pub fn push_block(out: &mut String, k: u64)
    ensures
        final(out)@ == old(out)@ + stmt::block_name(k as nat),
{
    out.append("l");
    push_u64(out, k);
    proof { reveal_strlit("l"); }
    assert(final(out)@ =~= old(out)@ + stmt::block_name(k as nat));
}

/// Appends the IR array type that holds `s` and its zero byte.
fn push_byte_array(out: &mut String, s: &String)
    ensures
        final(out)@ == old(out)@ + stmt::byte_array(s@),
{
    let n: u128 = crate::text::utf8_byte_len(s.as_str()) + 1;
    out.append("[");
    out.append(crate::text::u128_text(n).as_str());
    out.append(" x i8]");
    assert(final(out)@ =~= old(out)@ + stmt::byte_array(s@));
}

/// Appends the decimal text of an integer literal.
fn push_literal_digits(out: &mut String, lit: &Literal)
    requires
        !(lit is String),
    ensures
        final(out)@ == old(out)@ + expr::literal_digits(lit.view()),
{
    match lit {
        Literal::SignedInteger(n, _) => out.append(crate::text::i128_text(*n).as_str()),
        Literal::UnsignedInteger(n, _) => out.append(crate::text::u128_text(*n).as_str()),
        Literal::String(_) => {},
    }
}

/// The type of a literal.
fn literal_type(lit: &Literal) -> (r: DataType)
    ensures
        r == expr::literal_type(lit.view()),
{
    match lit {
        Literal::SignedInteger(_, w) => DataType::SignedInteger(*w),
        Literal::UnsignedInteger(_, w) => DataType::UnsignedInteger(*w),
        Literal::String(_) => DataType::str,
    }
}

} // verus!

verus! {

/// The IR generator: a program and the state of its compilation.
pub struct IRGen {
    ast: Vec<Statement>,
    context: GlobalContext,
}

impl IRGen {
    /// The statements being compiled.
    pub closed spec fn program(&self) -> Seq<StmtV> {
        stmts_view(self.ast@)
    }

    /// A generator for `ast` with an empty context.
    pub fn new(ast: Vec<Statement>) -> (r: IRGen)
        ensures
            r.program() == stmts_view(ast@),
            r.state() == (GlobalV { globals: seq![], fns: seq![], label: 0 }),
    {
        let r = IRGen { ast, context: GlobalContext::new() };
        assert(r.state().globals =~= seq![]);
        assert(r.state().fns =~= seq![]);
        r
    }

    /// A global variable initialised with a literal.
    fn generate_global_variable(global_ctx: &mut GlobalContext, stmt: &LetStatement) -> (r: Result<String, IRGenError>)
        ensures
            match stmt::global_let_spec(old(global_ctx).view(), stmt.ident@, stmt.expr.view()) {
                Ok((c, g)) => r matches Ok(x) && x@ == c && final(global_ctx).view() == g,
                Err(k) => r matches Err(e) && e.view() == k,
            },
    {
        let lit = match &stmt.expr {
            Expression::Literal(lit, _) => lit,
            _ => { return Err(IRGenError::NotConstant); },
        };
        let mut code = String::new();
        code.append("@");
        code.append(stmt.ident.as_str());
        match lit {
            Literal::String(s) => {
                code.append(" = private unnamed_addr constant ");
                push_byte_array(&mut code, s);
                code.append(" c\"");
                code.append(s.as_str());
                code.append("\\00\"\n");
                assert(code@ =~= "@"@ + stmt.ident@ + " = private unnamed_addr constant "@ + stmt::byte_array(s@)
                    + " c\""@ + s@ + "\\00\"\n"@);
            },
            _ => {
                code.append(" = global ");
                code.append(literal_type(lit).to_mnemonic());
                code.append(" ");
                push_literal_digits(&mut code, lit);
                code.append("\n");
                assert(code@ =~= "@"@ + stmt.ident@ + " = global "@ + types::mnemonic(expr::literal_type(lit.view()))
                    + " "@ + expr::literal_digits(lit.view()) + "\n"@);
            },
        }
        let ghost g = global_ctx.view();
        global_ctx.global_var.push((stmt.ident.clone(), expr::copy_literal(lit)));
        assert(global_ctx.view().globals =~= g.globals.push((stmt.ident@, lit.view())));
        Ok(code)
    }

    /// An external declaration.
    fn generate_extern(global_ctx: &mut GlobalContext, stmt: &ExternStatement) -> (r: Result<String, IRGenError>)
        ensures
            ({
                let (c, g) = stmt::extern_spec(old(global_ctx).view(), stmt.name@, params_view(stmt.params@), stmt.dtype);
                r matches Ok(x) && x@ == c && final(global_ctx).view() == g
            }),
    {
        let ghost ps = params_view(stmt.params@);
        let mut code = String::new();
        code.append("declare ");
        code.append(stmt.dtype.to_mnemonic());
        code.append(" @");
        code.append(stmt.name.as_str());
        code.append("(");
        let ghost head = code@;
        let mut text = String::new();
        let mut types: Vec<DataType> = Vec::new();
        let mut i: usize = 0;
        while i < stmt.params.len()
            invariant
                i <= stmt.params@.len(),
                ps == params_view(stmt.params@),
                text@ == stmt::extern_params_text(ps, i as nat),
                types@ == stmt::param_types(ps).subrange(0, i as int),
            decreases stmt.params@.len() - i,
        {
            let ghost before = text@;
            if i > 0 {
                text.append(", ");
            }
            text.append(stmt.params[i].1.to_mnemonic());
            types.push(stmt.params[i].1);
            i += 1;
            assert(text@ =~= (if i == 1 { seq![] } else { before + ", "@ }) + types::mnemonic(ps[i - 1].1));
            assert(types@ =~= stmt::param_types(ps).subrange(0, i as int));
        }
        code.append(text.as_str());
        code.append(") nounwind\n");
        assert(code@ =~= head + text@ + ") nounwind\n"@);
        assert(types@ =~= stmt::param_types(ps));
        let ghost g = global_ctx.view();
        global_ctx.fn_decl.push((stmt.name.clone(), types, stmt.dtype));
        assert(global_ctx.view().fns =~= g.fns.push((stmt.name@, stmt::param_types(ps), stmt.dtype)));
        Ok(code)
    }
}

} // verus!

verus! {

impl IRGen {
    /// A local variable: a stack slot initialised with a literal, recorded
    /// in the innermost scope.
    fn generate_local_variable(scoped_ctx: &mut Vec<ScopedContext>, stmt: &LetStatement) -> (r: Result<String, IRGenError>)
        ensures
            match stmt::local_let_spec(GlobalV { globals: seq![], fns: seq![], label: 0 }, scopes_view(old(scoped_ctx)@),
                stmt.ident@, stmt.expr.view()) {
                Ok((c, _, sc)) => r matches Ok(x) && x@ == c && scopes_view(final(scoped_ctx)@) == sc,
                Err(k) => r matches Err(e) && e.view() == k,
            },
    {
        let lit = match &stmt.expr {
            Expression::Literal(lit, _) => lit,
            _ => { return Err(IRGenError::NotConstant); },
        };
        let ghost sv = scopes_view(scoped_ctx@);
        let frame = match scoped_ctx.pop() {
            Some(f) => f,
            None => { return Err(IRGenError::IllegalLocal); },
        };
        assert(sv.last() == frame.view());
        let mut vs = match frame {
            ScopedContext::Scope(vs) => vs,
            ScopedContext::FnDecl(ps, t) => {
                scoped_ctx.push(ScopedContext::FnDecl(ps, t));
                return Err(IRGenError::IllegalLocal);
            },
        };
        let mut code = String::new();
        code.append("%");
        code.append(stmt.ident.as_str());
        match lit {
            Literal::String(s) => {
                code.append(" = private unnamed_addr constant ");
                push_byte_array(&mut code, s);
                code.append(" c\"");
                code.append(s.as_str());
                code.append("\\00\"\n");
                assert(code@ =~= "%"@ + stmt.ident@ + " = private unnamed_addr constant "@ + stmt::byte_array(s@)
                    + " c\""@ + s@ + "\\00\"\n"@);
            },
            _ => {
                let m = literal_type(lit).to_mnemonic();
                code.append(" = alloca ");
                code.append(m);
                code.append(", align 4\n");
                code.append("store ");
                code.append(m);
                code.append(" ");
                push_literal_digits(&mut code, lit);
                code.append(", ptr %");
                code.append(stmt.ident.as_str());
                code.append(", align 4\n");
                assert(code@ =~= "%"@ + stmt.ident@ + " = alloca "@ + types::mnemonic(expr::literal_type(lit.view()))
                    + ", align 4\n"@ + "store "@ + types::mnemonic(expr::literal_type(lit.view())) + " "@
                    + expr::literal_digits(lit.view()) + ", ptr %"@ + stmt.ident@ + ", align 4\n"@);
            },
        }
        let ghost vv = vs@.map_values(|v: (String, Literal)| (v.0@, v.1.view()));
        vs.push((stmt.ident.clone(), expr::copy_literal(lit)));
        assert(vs@.map_values(|v: (String, Literal)| (v.0@, v.1.view())) =~= vv.push((stmt.ident@, lit.view())));
        scoped_ctx.push(ScopedContext::Scope(vs));
        assert(scopes_view(scoped_ctx@) =~= sv.update(sv.len() - 1,
            ScopeV::Scope(vv.push((stmt.ident@, lit.view())))));
        Ok(code)
    }

    /// The return type of the innermost function frame.
    fn return_type(scoped_ctx: &Vec<ScopedContext>) -> (r: Option<DataType>)
        ensures
            r == stmt::return_type(scopes_view(scoped_ctx@)),
    {
        let ghost l = scopes_view(scoped_ctx@);
        let mut i: usize = scoped_ctx.len();
        assert(l.subrange(0, i as int) =~= l);
        while i > 0
            invariant
                i <= scoped_ctx@.len(),
                l == scopes_view(scoped_ctx@),
                stmt::return_type(l) == stmt::return_type(l.subrange(0, i as int)),
            decreases i,
        {
            assert(l.subrange(0, i as int).drop_last() =~= l.subrange(0, i - 1));
            assert(l[i - 1] == scoped_ctx@[i - 1].view());
            if let ScopedContext::FnDecl(_, t) = &scoped_ctx[i - 1] {
                return Some(*t);
            }
            i -= 1;
        }
        None
    }

    /// A `return`, converting the value to the function's return type.
    fn generate_ret(global_ctx: &mut GlobalContext, scoped_ctx: &mut Vec<ScopedContext>, stmt: &ReturnStatement)
        -> (r: Result<String, IRGenError>)
        ensures
            final(scoped_ctx)@ == old(scoped_ctx)@,
            match stmt::return_spec(old(global_ctx).view(), scopes_view(old(scoped_ctx)@), stmt.expr.view()) {
                Ok((c, g, _)) => r matches Ok(x) && x@ == c && final(global_ctx).view() == g,
                Err(k) => r matches Err(e) && e.view() == k,
            },
    {
        let (code, idx, dtype) = match generate_expr(global_ctx, scoped_ctx, &stmt.expr) {
            Ok(x) => x,
            Err(e) => { return Err(e); },
        };
        let ret = match Self::return_type(scoped_ctx) {
            Some(t) => t,
            None => { return Err(IRGenError::ReturnOutsideFunction); },
        };
        let (value, cast_code) = if ret != dtype {
            match cast(global_ctx, dtype, ret, idx.as_str()) {
                Ok((v, c, _)) => (v, c),
                Err(e) => { return Err(e); },
            }
        } else {
            (idx, String::new())
        };
        let mut result = code;
        let ghost pre = result@;
        result.append(cast_code.as_str());
        result.append("ret ");
        result.append(ret.to_mnemonic());
        result.append(" ");
        result.append(value.as_str());
        result.append("\n");
        assert(result@ =~= pre + cast_code@ + "ret "@ + types::mnemonic(ret) + " "@ + value@ + "\n"@);
        proof {
            if ret == dtype {
                assert(pre + cast_code@ =~= pre);
            }
        }
        Ok(result)
    }
}

} // verus!

verus! {

impl IRGen {
    /// A statement inside a function body.
    #[verifier::rlimit(100)]
    fn generate_local_stmt(global_ctx: &mut GlobalContext, scoped_ctx: &mut Vec<ScopedContext>, stmt: &Statement)
        -> (r: Result<String, IRGenError>)
        ensures
            match stmt::local_spec(old(global_ctx).view(), scopes_view(old(scoped_ctx)@), stmt.view()) {
                Ok((c, g, sc)) => r matches Ok(x) && x@ == c && final(global_ctx).view() == g
                    && scopes_view(final(scoped_ctx)@) == sc,
                Err(k) => r matches Err(e) && e.view() == k,
            },
        decreases stmt, 1nat,
    {
        match stmt {
            Statement::Let(s) => Self::generate_local_variable(scoped_ctx, s),
            Statement::If(s) => Self::generate_if(global_ctx, scoped_ctx, s),
            Statement::Return(s) => Self::generate_ret(global_ctx, scoped_ctx, s),
            Statement::Expression(s) => match generate_expr(global_ctx, scoped_ctx, &s.expr) {
                Ok((code, _, _)) => Ok(code),
                Err(e) => Err(e),
            },
            Statement::While(s) => Self::generate_while(global_ctx, scoped_ctx, s),
            _ => Err(IRGenError::IllegalLocal),
        }
    }

    /// The statements of a block, in order.
    fn generate_block(global_ctx: &mut GlobalContext, scoped_ctx: &mut Vec<ScopedContext>, stmts: &Vec<Statement>)
        -> (r: Result<String, IRGenError>)
        ensures
            match stmt::block_spec(old(global_ctx).view(), scopes_view(old(scoped_ctx)@), stmts_view(stmts@),
                stmts@.len()) {
                Ok((c, g, sc)) => r matches Ok(x) && x@ == c && final(global_ctx).view() == g
                    && scopes_view(final(scoped_ctx)@) == sc,
                Err(k) => r matches Err(e) && e.view() == k,
            },
        decreases stmts, 0nat,
    {
        let ghost g0 = global_ctx.view();
        let ghost sc0 = scopes_view(scoped_ctx@);
        let ghost ss = stmts_view(stmts@);
        proof { lemma_stmts_view_index(stmts@); }
        let mut result = String::new();
        let mut i: usize = 0;
        while i < stmts.len()
            invariant
                i <= stmts@.len(),
                ss == stmts_view(stmts@),
                ss.len() == stmts@.len(),
                forall|k: int| 0 <= k < stmts@.len() ==> #[trigger] ss[k] == stmts@[k].view(),
                g0 == old(global_ctx).view(),
                sc0 == scopes_view(old(scoped_ctx)@),
                stmt::block_spec(g0, sc0, ss, i as nat)
                    == Ok::<stmt::LocalOut, IRErr>((result@, global_ctx.view(), scopes_view(scoped_ctx@))),
            decreases stmts@.len() - i,
        {
            proof {
                assert(decreases_to!(stmts => stmts@[i as int])) by {
                    broadcast use vstd::std_specs::vec::axiom_vec_index_decreases;
                }
            }
            let ghost pre = result@;
            let code = match Self::generate_local_stmt(global_ctx, scoped_ctx, &stmts[i]) {
                Ok(c) => c,
                Err(e) => {
                    proof { lemma_block_none(g0, sc0, ss, (i + 1) as nat, ss.len()); }
                    return Err(e);
                },
            };
            result.append(code.as_str());
            i += 1;
            assert(result@ =~= pre + code@);
        }
        Ok(result)
    }

    /// A loop: a header block that tests the condition, the body, and the
    /// exit block.
    #[verifier::rlimit(60)]
    fn generate_while(global_ctx: &mut GlobalContext, scoped_ctx: &mut Vec<ScopedContext>, stmt: &WhileStatement)
        -> (r: Result<String, IRGenError>)
        ensures
            match stmt::local_spec(old(global_ctx).view(), scopes_view(old(scoped_ctx)@), Statement::While(*stmt).view()) {
                Ok((c, g, sc)) => r matches Ok(x) && x@ == c && final(global_ctx).view() == g
                    && scopes_view(final(scoped_ctx)@) == sc,
                Err(k) => r matches Err(e) && e.view() == k,
            },
        decreases stmt, 0nat,
    {
        proof { lemma_stmts_view_index(stmt.blocks@); }
        if global_ctx.label_idx >= u64::MAX - 2 {
            return Err(IRGenError::LabelOverflow);
        }
        let h = match global_ctx.get_label() { Ok(k) => k, Err(e) => { return Err(e); } };
        let b = match global_ctx.get_label() { Ok(k) => k, Err(e) => { return Err(e); } };
        let x = match global_ctx.get_label() { Ok(k) => k, Err(e) => { return Err(e); } };
        assert(global_ctx.view() == GlobalV { label: global_ctx.label_idx as nat, ..old(global_ctx).view() });
        let (cc, v, ct) = match generate_expr(global_ctx, scoped_ctx, &stmt.condition) {
            Ok(r) => r,
            Err(e) => { return Err(e); },
        };
        if ct != DataType::bool {
            return Err(IRGenError::UnsupportedOperation);
        }
        assert(global_ctx.view() == GlobalV { label: global_ctx.label_idx as nat, ..old(global_ctx).view() });
        let body = match Self::generate_block(global_ctx, scoped_ctx, &stmt.blocks) {
            Ok(c) => c,
            Err(e) => { return Err(e); },
        };
        Ok(while_text(h, b, x, &cc, &v, &body))
    }

    /// An `if` with its branches.
    fn generate_if(global_ctx: &mut GlobalContext, scoped_ctx: &mut Vec<ScopedContext>, stmt: &IfStatement)
        -> (r: Result<String, IRGenError>)
        ensures
            match stmt::if_spec(old(global_ctx).view(), scopes_view(old(scoped_ctx)@), stmt.view()) {
                Ok((c, g, sc)) => r matches Ok(x) && x@ == c && final(global_ctx).view() == g
                    && scopes_view(final(scoped_ctx)@) == sc,
                Err(k) => r matches Err(e) && e.view() == k,
            },
        decreases stmt, 0nat,
    {
        proof {
            lemma_stmts_view_index(stmt.body@);
            if *stmt.otherwise matches IfBranch::Else(_) {
                lemma_stmts_view_index((*stmt.otherwise)->Else_0@);
            }
        }
        if global_ctx.label_idx >= u64::MAX - 1 {
            return Err(IRGenError::LabelOverflow);
        }
        let then_idx = match global_ctx.get_label() { Ok(k) => k, Err(e) => { return Err(e); } };
        let else_idx = match global_ctx.get_label() { Ok(k) => k, Err(e) => { return Err(e); } };
        assert(global_ctx.view() == GlobalV { label: global_ctx.label_idx as nat, ..old(global_ctx).view() });
        let (cc, v, ct) = match generate_expr(global_ctx, scoped_ctx, &stmt.condition) {
            Ok(r) => r,
            Err(e) => { return Err(e); },
        };
        if ct != DataType::bool {
            return Err(IRGenError::UnsupportedOperation);
        }
        assert(global_ctx.view() == GlobalV { label: global_ctx.label_idx as nat, ..old(global_ctx).view() });
        let mut result = cc;
        result.append("br i1 ");
        result.append(v.as_str());
        result.append(", label %");
        push_block(&mut result, then_idx);
        result.append(", label %");
        push_block(&mut result, else_idx);
        result.append("\n");
        push_block(&mut result, then_idx);
        result.append(":\n");
        let ghost tn = stmt::block_name(then_idx as nat);
        let ghost en = stmt::block_name(else_idx as nat);
        assert(result@ =~= cc@ + "br i1 "@ + v@ + ", label %"@ + tn + ", label %"@ + en + "\n"@ + tn + ":\n"@);
        let ghost head = result@;
        let body = match Self::generate_block(global_ctx, scoped_ctx, &stmt.body) {
            Ok(c) => c,
            Err(e) => { return Err(e); },
        };
        result.append(body.as_str());
        push_block(&mut result, else_idx);
        result.append(":\n");
        let ghost mid = result@;
        assert(mid =~= head + body@ + en + ":\n"@);
        match &*stmt.otherwise {
            IfBranch::Nothing => {},
            IfBranch::Else(eb) => {
                let ec = match Self::generate_block(global_ctx, scoped_ctx, eb) {
                    Ok(c) => c,
                    Err(e) => { return Err(e); },
                };
                result.append(ec.as_str());
                assert(result@ =~= mid + ec@);
            },
            IfBranch::Elif(inner) => {
                let ec = match Self::generate_if(global_ctx, scoped_ctx, inner) {
                    Ok(c) => c,
                    Err(e) => { return Err(e); },
                };
                result.append(ec.as_str());
                assert(result@ =~= mid + ec@);
            },
        }
        let ghost fin = result@;
        result.append("\n");
        assert(result@ =~= fin + "\n"@);
        Ok(result)
    }
}

/// The text of a loop from its labels, condition code and value, and body.
fn while_text(h: u64, b: u64, x: u64, cc: &String, v: &String, body: &String) -> (r: String)
    ensures
        ({
            let hn = stmt::block_name(h as nat);
            let bn = stmt::block_name(b as nat);
            let xn = stmt::block_name(x as nat);
            r@ == "br label %"@ + hn + "\n"@ + hn + ":\n"@ + cc@
                + "br i1 "@ + v@ + ", label %"@ + bn + ", label %"@ + xn + "\n"@
                + bn + ":\n"@ + body@ + "br label %"@ + hn + "\n"@ + xn + ":\n"@
        }),
{
    let mut result = String::new();
    result.append("br label %");
    push_block(&mut result, h);
    result.append("\n");
    push_block(&mut result, h);
    result.append(":\n");
    result.append(cc.as_str());
    result.append("br i1 ");
    result.append(v.as_str());
    result.append(", label %");
    push_block(&mut result, b);
    result.append(", label %");
    push_block(&mut result, x);
    result.append("\n");
    push_block(&mut result, b);
    result.append(":\n");
    result.append(body.as_str());
    result.append("br label %");
    push_block(&mut result, h);
    result.append("\n");
    push_block(&mut result, x);
    result.append(":\n");
    let ghost hn = stmt::block_name(h as nat);
    let ghost bn = stmt::block_name(b as nat);
    let ghost xn = stmt::block_name(x as nat);
    assert(result@ =~= "br label %"@ + hn + "\n"@ + hn + ":\n"@ + cc@
        + "br i1 "@ + v@ + ", label %"@ + bn + ", label %"@ + xn + "\n"@
        + bn + ":\n"@ + body@ + "br label %"@ + hn + "\n"@ + xn + ":\n"@);
    result
}

proof fn lemma_block_none(g: GlobalV, scopes: Seq<ScopeV>, ss: Seq<StmtV>, k: nat, m: nat)
    requires
        0 < k <= m <= ss.len(),
        stmt::block_spec(g, scopes, ss, k) is Err,
    ensures
        stmt::block_spec(g, scopes, ss, m) == stmt::block_spec(g, scopes, ss, k),
    decreases m - k,
{
    if k < m {
        lemma_block_none(g, scopes, ss, k, (m - 1) as nat);
    }
}

} // verus!

verus! {

/// The text that opens every module.
pub open spec fn prelude_text() -> Seq<char> {
    "; ModuleID = 'mamba'\nsource_filename = \"mamba\"\n\n"@
}

fn prelude() -> (r: &'static str)
    ensures
        r@ == prelude_text(),
{
    "; ModuleID = 'mamba'\nsource_filename = \"mamba\"\n\n"
}

/// A copy of a parameter list.
fn copy_params(ps: &Vec<(String, DataType)>) -> (r: Vec<(String, DataType)>)
    ensures
        params_view(r@) == params_view(ps@),
{
    let mut r: Vec<(String, DataType)> = Vec::new();
    let mut i: usize = 0;
    while i < ps.len()
        invariant
            i <= ps@.len(),
            params_view(r@) == params_view(ps@).subrange(0, i as int),
        decreases ps@.len() - i,
    {
        let ghost before = params_view(r@);
        r.push((ps[i].0.clone(), ps[i].1));
        assert(params_view(r@) =~= before.push((ps@[i as int].0@, ps@[i as int].1)));
        i += 1;
        assert(params_view(r@) =~= params_view(ps@).subrange(0, i as int));
    }
    assert(params_view(ps@).subrange(0, i as int) =~= params_view(ps@));
    r
}

impl IRGen {
    /// The global state of the compilation.
    pub closed spec fn state(&self) -> GlobalV {
        self.context.view()
    }

    /// A function definition: declared first, then its body under a frame
    /// of its parameters and a fresh local scope.
    fn generate_def(global_ctx: &mut GlobalContext, stmt: &DefStatement) -> (r: Result<String, IRGenError>)
        ensures
            match stmt::def_spec(old(global_ctx).view(), stmt.name@, params_view(stmt.params@), stmt.dtype,
                stmts_view(stmt.stmts@)) {
                Ok((c, g)) => r matches Ok(x) && x@ == c && final(global_ctx).view() == g,
                Err(k) => r matches Err(e) && e.view() == k,
            },
    {
        let ghost ps = params_view(stmt.params@);
        proof { lemma_stmts_view_index(stmt.stmts@); }
        let mut code = String::new();
        code.append("define ");
        code.append(stmt.dtype.to_mnemonic());
        code.append(" @");
        code.append(stmt.name.as_str());
        code.append("(");
        let ghost head = code@;
        let mut text = String::new();
        let mut types: Vec<DataType> = Vec::new();
        let mut i: usize = 0;
        while i < stmt.params.len()
            invariant
                i <= stmt.params@.len(),
                ps == params_view(stmt.params@),
                text@ == stmt::def_params_text(ps, i as nat),
                types@ == stmt::param_types(ps).subrange(0, i as int),
            decreases stmt.params@.len() - i,
        {
            let ghost before = text@;
            if i > 0 {
                text.append(", ");
            }
            text.append(stmt.params[i].1.to_mnemonic());
            text.append(" %");
            text.append(stmt.params[i].0.as_str());
            types.push(stmt.params[i].1);
            i += 1;
            assert(text@ =~= (if i == 1 { seq![] } else { before + ", "@ }) + types::mnemonic(ps[i - 1].1)
                + " %"@ + ps[i - 1].0);
            assert(types@ =~= stmt::param_types(ps).subrange(0, i as int));
        }
        code.append(text.as_str());
        code.append(") {\n");
        assert(types@ =~= stmt::param_types(ps));
        let ghost g = global_ctx.view();
        global_ctx.fn_decl.push((stmt.name.clone(), types, stmt.dtype));
        assert(global_ctx.view().fns =~= g.fns.push((stmt.name@, stmt::param_types(ps), stmt.dtype)));
        assert(global_ctx.view().globals =~= g.globals);
        let mut scopes: Vec<ScopedContext> = Vec::new();
        let frame_params = copy_params(&stmt.params);
        let locals: Vec<(String, Literal)> = Vec::new();
        let f0 = ScopedContext::FnDecl(frame_params, stmt.dtype);
        let f1 = ScopedContext::Scope(locals);
        assert(f0.view() == ScopeV::FnDecl(ps, stmt.dtype));
        assert(locals@.map_values(|v: (String, Literal)| (v.0@, v.1.view())) =~= seq![]);
        assert(f1.view() == ScopeV::Scope(seq![]));
        scopes.push(f0);
        scopes.push(f1);
        assert(scopes_view(scopes@) =~= seq![ScopeV::FnDecl(ps, stmt.dtype), ScopeV::Scope(seq![])]);
        let body = match Self::generate_block(global_ctx, &mut scopes, &stmt.stmts) {
            Ok(c) => c,
            Err(e) => { return Err(e); },
        };
        let ghost pre = code@;
        code.append(body.as_str());
        code.append("}\n");
        assert(pre =~= "define "@ + types::mnemonic(stmt.dtype) + " @"@ + stmt.name@ + "("@
            + stmt::def_params_text(ps, ps.len()) + ") {\n"@);
        assert(code@ =~= pre + body@ + "}\n"@);
        Ok(code)
    }

    /// A top-level statement: a global, an external declaration or a definition.
    fn generate_global_stmt(global_ctx: &mut GlobalContext, stmt: &Statement) -> (r: Result<String, IRGenError>)
        ensures
            match stmt::global_spec(old(global_ctx).view(), stmt.view()) {
                Ok((c, g)) => r matches Ok(x) && x@ == c && final(global_ctx).view() == g,
                Err(k) => r matches Err(e) && e.view() == k,
            },
    {
        match stmt {
            Statement::Let(s) => Self::generate_global_variable(global_ctx, s),
            Statement::Def(s) => Self::generate_def(global_ctx, s),
            Statement::Extern(s) => Self::generate_extern(global_ctx, s),
            _ => Err(IRGenError::IllegalTopLevel),
        }
    }

    /// The IR of the whole program: the prelude, then each top-level
    /// statement's code in order.
    pub fn generate_ir(&mut self) -> (r: Result<String, IRGenError>)
        ensures
            final(self).program() == old(self).program(),
            match stmt::program_spec(old(self).state(), old(self).program(), old(self).program().len()) {
                Ok((c, g)) => r matches Ok(x) && x@ == prelude_text() + c && final(self).state() == g,
                Err(k) => r matches Err(e) && e.view() == k,
            },
    {
        let ghost g0 = self.context.view();
        let ghost ss = stmts_view(self.ast@);
        proof { lemma_stmts_view_index(self.ast@); }
        let mut result = String::new();
        result.append(prelude());
        let mut i: usize = 0;
        while i < self.ast.len()
            invariant
                i <= self.ast@.len(),
                ss == stmts_view(self.ast@),
                ss.len() == self.ast@.len(),
                forall|k: int| 0 <= k < self.ast@.len() ==> #[trigger] ss[k] == self.ast@[k].view(),
                g0 == old(self).context.view(),
                self.ast@ == old(self).ast@,
                stmt::program_spec(g0, ss, i as nat) matches Ok((c, g))
                    && result@ == prelude_text() + c && self.context.view() == g,
            decreases self.ast@.len() - i,
        {
            let ghost pre = result@;
            let code = match Self::generate_global_stmt(&mut self.context, &self.ast[i]) {
                Ok(c) => c,
                Err(e) => {
                    proof { lemma_program_none(g0, ss, (i + 1) as nat, ss.len()); }
                    return Err(e);
                },
            };
            result.append(code.as_str());
            i += 1;
            assert(result@ =~= pre + code@);
        }
        Ok(result)
    }
}

proof fn lemma_program_none(g: GlobalV, ss: Seq<StmtV>, k: nat, m: nat)
    requires
        0 < k <= m <= ss.len(),
        stmt::program_spec(g, ss, k) is Err,
    ensures
        stmt::program_spec(g, ss, m) == stmt::program_spec(g, ss, k),
    decreases m - k,
{
    if k < m {
        lemma_program_none(g, ss, k, (m - 1) as nat);
    }
}

} // verus!
