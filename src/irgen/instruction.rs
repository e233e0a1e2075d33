use vstd::prelude::*;
use crate::text::{int_decimal, i128_text};

verus! {

/// An instruction: an opcode and its operands.
pub struct Instruction {
    pub opcode: String,
    pub operands: Vec<Operand>,
}

/// An operand of an instruction.
pub enum Operand {
    Condition(Condition),
    Value(Value),
    Register(Register),
}

/// A comparison condition of `icmp`.
#[derive(Debug, Clone, Copy, PartialEq, Eq, Structural)]
pub enum Condition {
    Eq,
    Ne,
    Ugt,
    Uge,
    Ult,
    Ule,
    Sgt,
    Sge,
    Slt,
    Sle,
}

/// A typed integer constant.
#[allow(non_camel_case_types)]
#[derive(Debug, Clone, Copy, PartialEq, Eq, Structural)]
pub enum Value {
    i8(i8),
    i16(i16),
    i32(i32),
    i64(i64),
}

/// A named register.
pub struct Register(pub String);

/// The text of a condition.
pub open spec fn condition_text(c: Condition) -> Seq<char> {
    match c {
        Condition::Eq => "eq"@,
        Condition::Ne => "ne"@,
        Condition::Ugt => "ugt"@,
        Condition::Uge => "uge"@,
        Condition::Ult => "ult"@,
        Condition::Ule => "ule"@,
        Condition::Sgt => "sgt"@,
        Condition::Sge => "sge"@,
        Condition::Slt => "slt"@,
        Condition::Sle => "sle"@,
    }
}

/// The text of a value: its type, a space, its decimal digits.
pub open spec fn value_text(v: Value) -> Seq<char> {
    match v {
        Value::i8(n) => "i8 "@ + int_decimal(n as int),
        Value::i16(n) => "i16 "@ + int_decimal(n as int),
        Value::i32(n) => "i32 "@ + int_decimal(n as int),
        Value::i64(n) => "i64 "@ + int_decimal(n as int),
    }
}

/// The text of an operand; a register is written `%name`.
pub open spec fn operand_text(o: Operand) -> Seq<char> {
    match o {
        Operand::Condition(c) => condition_text(c),
        Operand::Value(v) => value_text(v),
        Operand::Register(r) => "%"@ + r.0@,
    }
}

/// The texts of the first `n` operands, joined by `, `.
pub open spec fn operands_text(os: Seq<Operand>, n: nat) -> Seq<char>
    decreases n,
{
    if n == 0 || n > os.len() {
        seq![]
    } else {
        (if n == 1 { seq![] } else { operands_text(os, (n - 1) as nat) + ", "@ }) + operand_text(os[n - 1])
    }
}

impl Condition {
    /// The text of this condition.
    pub fn as_str(&self) -> (r: &'static str)
        ensures
            r@ == condition_text(*self),
    {
        match self {
            Condition::Eq => "eq",
            Condition::Ne => "ne",
            Condition::Ugt => "ugt",
            Condition::Uge => "uge",
            Condition::Ult => "ult",
            Condition::Ule => "ule",
            Condition::Sgt => "sgt",
            Condition::Sge => "sge",
            Condition::Slt => "slt",
            Condition::Sle => "sle",
        }
    }
}

impl Value {
    /// The text of this value, such as `i32 123`.
    pub fn to_string(&self) -> (r: String)
        ensures
            r@ == value_text(*self),
    {
        let (ty, n): (&str, i128) = match self {
            Value::i8(n) => ("i8 ", *n as i128),
            Value::i16(n) => ("i16 ", *n as i128),
            Value::i32(n) => ("i32 ", *n as i128),
            Value::i64(n) => ("i64 ", *n as i128),
        };
        let mut s = ty.to_owned();
        s.append(i128_text(n).as_str());
        s
    }
}

impl Operand {
    /// The text of this operand.
    pub fn to_string(&self) -> (r: String)
        ensures
            r@ == operand_text(*self),
    {
        match self {
            Operand::Condition(c) => c.as_str().to_owned(),
            Operand::Value(v) => v.to_string(),
            Operand::Register(reg) => {
                let mut s = "%".to_owned();
                s.append(reg.0.as_str());
                s
            },
        }
    }
}

impl Instruction {
    /// The text of this instruction: the opcode, a space, and the operands
    /// joined by `, `.
    pub fn to_string(&self) -> (r: String)
        ensures
            r@ == self.opcode@ + " "@ + operands_text(self.operands@, self.operands@.len()),
    {
        let mut result = self.opcode.clone();
        result.append(" ");
        let ghost head = result@;
        let mut text = String::new();
        let mut i: usize = 0;
        while i < self.operands.len()
            invariant
                i <= self.operands@.len(),
                text@ == operands_text(self.operands@, i as nat),
            decreases self.operands@.len() - i,
        {
            let ghost before = text@;
            if i > 0 {
                text.append(", ");
            }
            text.append(self.operands[i].to_string().as_str());
            i += 1;
            assert(text@ =~= (if i == 1 { seq![] } else { before + ", "@ }) + operand_text(self.operands@[i - 1]));
        }
        result.append(text.as_str());
        assert(result@ =~= head + text@);
        result
    }
}

} // verus!
