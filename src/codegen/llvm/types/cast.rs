//! The cast table: conversions between integer types.
use vstd::prelude::*;
use crate::error::{IRGenError, IRErr};
use crate::types::DataType;
use crate::codegen::llvm::{GlobalContext, label_name, push_label};
use super::{int_width, mnemonic};

verus! {

/// The conversion of the value `src` from `from` to `to` when the counter
/// stands at `label`: the converted value, the emitted code, the result type
/// and the counter afterwards. Widening emits `zext`, narrowing `trunc`; a
/// change of sign at the same width emits nothing. `BadCast` where the table
/// holds no entry (equal types, a non-integer type); `LabelOverflow` where
/// no label is left.
pub open spec fn cast_spec(label: nat, from: DataType, to: DataType, src: Seq<char>)
    -> Result<(Seq<char>, Seq<char>, DataType, nat), IRErr>
{
    match (int_width(from), int_width(to)) {
        (Some(wf), Some(wt)) => if from == to {
            Err(IRErr::BadCast)
        } else if wf == wt {
            Ok((src, seq![], to, label))
        } else if label >= u64::MAX {
            Err(IRErr::LabelOverflow)
        } else {
            let instr = if wf < wt { "zext "@ } else { "trunc "@ };
            Ok((label_name(label),
                label_name(label) + " = "@ + instr + mnemonic(from) + " "@ + src + " to "@ + mnemonic(to) + "\n"@,
                to, label + 1))
        },
        _ => Err(IRErr::BadCast),
    }
}

/// Converts the value `src` of type `from` to type `to`: the converted
/// value, the emitted code and the new type.
pub fn cast(ctx: &mut GlobalContext, from: DataType, to: DataType, src: &str)
    -> (r: Result<(String, String, DataType), IRGenError>)
    ensures
        final(ctx).global_var@ == old(ctx).global_var@,
        final(ctx).fn_decl@ == old(ctx).fn_decl@,
        match cast_spec(old(ctx).label_idx as nat, from, to, src@) {
            Ok((v, c, t, l)) => r matches Ok((v2, c2, t2)) && v2@ == v && c2@ == c && t2 == t
                && final(ctx).label_idx == l,
            Err(k) => (r matches Err(e) && e.view() == k) && final(ctx).label_idx == old(ctx).label_idx,
        },
{
    let (wf, wt) = match (from.width(), to.width()) {
        (Some(a), Some(b)) => (a, b),
        _ => { return Err(IRGenError::BadCast); },
    };
    if from == to {
        return Err(IRGenError::BadCast);
    }
    if wf == wt {
        return Ok((src.to_owned(), String::new(), to));
    }
    let k = match ctx.get_label() {
        Ok(k) => k,
        Err(e) => { return Err(e); },
    };
    let value = crate::codegen::llvm::label_text(k);
    let mut code = String::new();
    push_label(&mut code, k);
    code.append(" = ");
    if wf < wt {
        code.append("zext ");
    } else {
        code.append("trunc ");
    }
    code.append(from.to_mnemonic());
    code.append(" ");
    code.append(src);
    code.append(" to ");
    code.append(to.to_mnemonic());
    code.append("\n");
    let ghost instr = if wf < wt { "zext "@ } else { "trunc "@ };
    assert(code@ =~= label_name(k as nat) + " = "@ + instr + mnemonic(from) + " "@ + src@ + " to "@ + mnemonic(to) + "\n"@);
    Ok((value, code, to))
}

} // verus!
