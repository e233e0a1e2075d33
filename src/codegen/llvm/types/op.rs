//! The operator tables: unary and infix operations on integer types.
use vstd::prelude::*;
use crate::error::{IRGenError, IRErr};
use crate::types::DataType;
use crate::parser::expression::Operator;
use crate::codegen::llvm::{GlobalContext, label_name, push_label, label_text};
use super::mnemonic;

verus! {

/// The `icmp` condition of a comparison operator; empty for the others.
pub open spec fn cmp_mnemonic(op: Operator) -> Seq<char> {
    match op {
        Operator::Equal => "eq"@,
        Operator::NotEqual => "ne"@,
        Operator::Greater => "sgt"@,
        Operator::GreaterEqual => "sge"@,
        Operator::Less => "slt"@,
        Operator::LessEqual => "sle"@,
        _ => seq![],
    }
}

pub open spec fn is_comparison(op: Operator) -> bool {
    match op {
        Operator::Equal | Operator::NotEqual | Operator::Greater | Operator::GreaterEqual
        | Operator::Less | Operator::LessEqual => true,
        _ => false,
    }
}

/// The instruction of an arithmetic, bitwise or shift operator.
pub open spec fn arith_opcode(op: Operator) -> Option<Seq<char>> {
    match op {
        Operator::Plus => Some("add nsw"@),
        Operator::Minus => Some("sub nsw"@),
        Operator::Multiply => Some("mul nsw"@),
        Operator::Divide => Some("sdiv"@),
        Operator::Modulo => Some("srem"@),
        Operator::LeftShift => Some("shl"@),
        Operator::RightShift => Some("ashr"@),
        Operator::BitwiseAnd => Some("and"@),
        Operator::BitwiseOr => Some("or"@),
        Operator::BitwiseXor => Some("xor"@),
        _ => None,
    }
}

pub open spec fn is_int(t: DataType) -> bool {
    t matches DataType::SignedInteger(_) || t matches DataType::UnsignedInteger(_)
}

/// A unary operation on the value `src` of type `ty` when the counter stands
/// at `label`: the result value, the code and the counter afterwards.
/// Signed types take `+`, `-` and `~`, unsigned types `~`.
pub open spec fn unary_spec(label: nat, ty: DataType, op: Operator, src: Seq<char>) -> Result<(Seq<char>, Seq<char>, nat), IRErr> {
    let k = label_name(label);
    let m = mnemonic(ty);
    if ty matches DataType::SignedInteger(_) && op == Operator::UnaryPlus {
        Ok((src, seq![], label))
    } else if label >= u64::MAX {
        Err(IRErr::LabelOverflow)
    } else if ty matches DataType::SignedInteger(_) && op == Operator::UnaryMinus {
        Ok((k, k + " = sub nsw "@ + m + " 0, "@ + src + "\n"@, label + 1))
    } else if is_int(ty) && op == Operator::BitwiseNot {
        Ok((k, k + " = xor "@ + m + " "@ + src + ", -1\n"@, label + 1))
    } else {
        Err(IRErr::UnsupportedOperation)
    }
}

/// An infix operation on the values `l` and `r` of type `ty` when the
/// counter stands at `label`: the result value, the code, the result type
/// and the counter afterwards. Comparisons yield `bool` (`i1`).
pub open spec fn infix_spec(label: nat, ty: DataType, op: Operator, l: Seq<char>, r: Seq<char>)
    -> Result<(Seq<char>, Seq<char>, DataType, nat), IRErr>
{
    let k = label_name(label);
    let m = mnemonic(ty);
    if !is_int(ty) || (!is_comparison(op) && arith_opcode(op) is None) {
        Err(IRErr::UnsupportedOperation)
    } else if label >= u64::MAX {
        Err(IRErr::LabelOverflow)
    } else if is_comparison(op) {
        Ok((k, k + " = icmp "@ + cmp_mnemonic(op) + " "@ + m + " "@ + l + ", "@ + r + "\n"@, DataType::bool, label + 1))
    } else {
        Ok((k, k + " = "@ + arith_opcode(op).unwrap() + " "@ + m + " "@ + l + ", "@ + r + "\n"@, ty, label + 1))
    }
}

impl Operator {
    /// The `icmp` condition of a comparison; empty for other operators.
    pub fn to_mnemonic(&self) -> (r: &'static str)
        ensures
            r@ == cmp_mnemonic(*self),
    {
        match self {
            Operator::Equal => "eq",
            Operator::NotEqual => "ne",
            Operator::Greater => "sgt",
            Operator::GreaterEqual => "sge",
            Operator::Less => "slt",
            Operator::LessEqual => "sle",
            _ => {
                proof { reveal_strlit(""); }
                ""
            },
        }
    }
}

fn arith(op: Operator) -> (r: Option<&'static str>)
    ensures
        match arith_opcode(op) {
            Some(s) => r matches Some(x) && x@ == s,
            None => r is None,
        },
{
    match op {
        Operator::Plus => Some("add nsw"),
        Operator::Minus => Some("sub nsw"),
        Operator::Multiply => Some("mul nsw"),
        Operator::Divide => Some("sdiv"),
        Operator::Modulo => Some("srem"),
        Operator::LeftShift => Some("shl"),
        Operator::RightShift => Some("ashr"),
        Operator::BitwiseAnd => Some("and"),
        Operator::BitwiseOr => Some("or"),
        Operator::BitwiseXor => Some("xor"),
        _ => None,
    }
}

/// Emits the unary operation `op` on the value `src` of type `ty`: the
/// result value and the code.
pub fn unary_op(ctx: &mut GlobalContext, ty: DataType, op: Operator, src: &str) -> (r: Result<(String, String), IRGenError>)
    ensures
        final(ctx).global_var@ == old(ctx).global_var@,
        final(ctx).fn_decl@ == old(ctx).fn_decl@,
        match unary_spec(old(ctx).label_idx as nat, ty, op, src@) {
            Ok((v, c, l)) => r matches Ok((v2, c2)) && v2@ == v && c2@ == c && final(ctx).label_idx == l,
            Err(k) => (r matches Err(e) && e.view() == k) && final(ctx).label_idx == old(ctx).label_idx,
        },
{
    let signed = matches!(ty, DataType::SignedInteger(_));
    let unsigned = matches!(ty, DataType::UnsignedInteger(_));
    let plus = matches!(op, Operator::UnaryPlus);
    let minus = matches!(op, Operator::UnaryMinus);
    let not = matches!(op, Operator::BitwiseNot);
    if signed && plus {
        return Ok((src.to_owned(), String::new()));
    }
    if !((signed && minus) || ((signed || unsigned) && not)) {
        if ctx.label_idx == u64::MAX {
            return Err(IRGenError::LabelOverflow);
        }
        return Err(IRGenError::UnsupportedOperation);
    }
    let k = match ctx.get_label() {
        Ok(k) => k,
        Err(e) => { return Err(e); },
    };
    let value = label_text(k);
    let mut code = String::new();
    push_label(&mut code, k);
    if minus {
        code.append(" = sub nsw ");
        code.append(ty.to_mnemonic());
        code.append(" 0, ");
        code.append(src);
        code.append("\n");
        assert(code@ =~= label_name(k as nat) + " = sub nsw "@ + mnemonic(ty) + " 0, "@ + src@ + "\n"@);
    } else {
        code.append(" = xor ");
        code.append(ty.to_mnemonic());
        code.append(" ");
        code.append(src);
        code.append(", -1\n");
        assert(code@ =~= label_name(k as nat) + " = xor "@ + mnemonic(ty) + " "@ + src@ + ", -1\n"@);
    }
    Ok((value, code))
}

/// Emits the infix operation `op` on the values `left` and `right` of type
/// `ty`: the result value and the code. The result type is `bool` for a
/// comparison and `ty` otherwise.
pub fn infix_op(ctx: &mut GlobalContext, ty: DataType, op: Operator, left: &str, right: &str)
    -> (r: Result<(String, String), IRGenError>)
    ensures
        final(ctx).global_var@ == old(ctx).global_var@,
        final(ctx).fn_decl@ == old(ctx).fn_decl@,
        match infix_spec(old(ctx).label_idx as nat, ty, op, left@, right@) {
            Ok((v, c, _t, l)) => r matches Ok((v2, c2)) && v2@ == v && c2@ == c && final(ctx).label_idx == l,
            Err(k) => (r matches Err(e) && e.view() == k) && final(ctx).label_idx == old(ctx).label_idx,
        },
{
    let integer = matches!(ty, DataType::SignedInteger(_)) || matches!(ty, DataType::UnsignedInteger(_));
    if !integer {
        return Err(IRGenError::UnsupportedOperation);
    }
    let cmp = matches!(op, Operator::Equal) || matches!(op, Operator::NotEqual) || matches!(op, Operator::Greater)
        || matches!(op, Operator::GreaterEqual) || matches!(op, Operator::Less) || matches!(op, Operator::LessEqual);
    let opc = arith(op);
    if !cmp && opc.is_none() {
        return Err(IRGenError::UnsupportedOperation);
    }
    let k = match ctx.get_label() {
        Ok(k) => k,
        Err(e) => { return Err(e); },
    };
    let value = label_text(k);
    let mut code = String::new();
    push_label(&mut code, k);
    if cmp {
        code.append(" = icmp ");
        code.append(op.to_mnemonic());
        code.append(" ");
        code.append(ty.to_mnemonic());
        code.append(" ");
        code.append(left);
        code.append(", ");
        code.append(right);
        code.append("\n");
        assert(code@ =~= label_name(k as nat) + " = icmp "@ + cmp_mnemonic(op) + " "@ + mnemonic(ty) + " "@
            + left@ + ", "@ + right@ + "\n"@);
    } else {
        let o = opc.unwrap();
        code.append(" = ");
        code.append(o);
        code.append(" ");
        code.append(ty.to_mnemonic());
        code.append(" ");
        code.append(left);
        code.append(", ");
        code.append(right);
        code.append("\n");
        assert(code@ =~= label_name(k as nat) + " = "@ + arith_opcode(op).unwrap() + " "@ + mnemonic(ty) + " "@
            + left@ + ", "@ + right@ + "\n"@);
    }
    Ok((value, code))
}

} // verus!
