//! LLVM type names, and the cast and operator tables.
pub mod cast;
pub mod op;

use vstd::prelude::*;
use crate::types::{DataType, FloatingPoint, SignedInteger, UnsignedInteger};
pub use cast::{cast, cast_spec};
pub use op::{unary_op, infix_op, unary_spec, infix_spec};


verus! {

/// The LLVM name of a signed integer type.
pub open spec fn signed_mnemonic(t: SignedInteger) -> Seq<char> {
    match t {
        SignedInteger::i8 => "i8"@,
        SignedInteger::i16 => "i16"@,
        SignedInteger::i32 => "i32"@,
        SignedInteger::i64 => "i64"@,
        SignedInteger::i128 => "i128"@,
    }
}

/// The LLVM name of an unsigned integer type (LLVM integers carry no sign).
pub open spec fn unsigned_mnemonic(t: UnsignedInteger) -> Seq<char> {
    match t {
        UnsignedInteger::u8 => "i8"@,
        UnsignedInteger::u16 => "i16"@,
        UnsignedInteger::u32 => "i32"@,
        UnsignedInteger::u64 => "i64"@,
        UnsignedInteger::u128 => "i128"@,
    }
}

/// The LLVM name of a floating-point type.
pub open spec fn float_mnemonic(t: FloatingPoint) -> Seq<char> {
    match t {
        FloatingPoint::Float32 => "float"@,
        FloatingPoint::Float64 => "double"@,
        FloatingPoint::Float128 => "fp128"@,
    }
}

/// The LLVM name of a type.
pub open spec fn mnemonic(t: DataType) -> Seq<char> {
    match t {
        DataType::void => "void"@,
        DataType::bool => "i1"@,
        DataType::str => "i8*"@,
        DataType::SignedInteger(s) => signed_mnemonic(s),
        DataType::UnsignedInteger(u) => unsigned_mnemonic(u),
        DataType::FloatingPoint(f) => float_mnemonic(f),
    }
}

/// The bit width of an integer type; `None` for the other types.
pub open spec fn int_width(t: DataType) -> Option<nat> {
    match t {
        DataType::SignedInteger(SignedInteger::i8) | DataType::UnsignedInteger(UnsignedInteger::u8) => Some(8),
        DataType::SignedInteger(SignedInteger::i16) | DataType::UnsignedInteger(UnsignedInteger::u16) => Some(16),
        DataType::SignedInteger(SignedInteger::i32) | DataType::UnsignedInteger(UnsignedInteger::u32) => Some(32),
        DataType::SignedInteger(SignedInteger::i64) | DataType::UnsignedInteger(UnsignedInteger::u64) => Some(64),
        DataType::SignedInteger(SignedInteger::i128) | DataType::UnsignedInteger(UnsignedInteger::u128) => Some(128),
        _ => None,
    }
}

impl DataType {
    /// The LLVM name of this type.
    pub fn to_mnemonic(&self) -> (r: &'static str)
        ensures
            r@ == mnemonic(*self),
    {
        match self {
            DataType::void => "void",
            DataType::bool => "i1",
            DataType::str => "i8*",
            DataType::SignedInteger(t) => t.to_mnemonic(),
            DataType::UnsignedInteger(t) => t.to_mnemonic(),
            DataType::FloatingPoint(t) => t.to_mnemonic(),
        }
    }

    /// The bit width of an integer type; `None` for the other types.
    pub fn width(&self) -> (r: Option<u32>)
        ensures
            match int_width(*self) {
                Some(w) => r matches Some(x) && x == w,
                None => r is None,
            },
    {
        match self {
            DataType::SignedInteger(SignedInteger::i8) | DataType::UnsignedInteger(UnsignedInteger::u8) => Some(8),
            DataType::SignedInteger(SignedInteger::i16) | DataType::UnsignedInteger(UnsignedInteger::u16) => Some(16),
            DataType::SignedInteger(SignedInteger::i32) | DataType::UnsignedInteger(UnsignedInteger::u32) => Some(32),
            DataType::SignedInteger(SignedInteger::i64) | DataType::UnsignedInteger(UnsignedInteger::u64) => Some(64),
            DataType::SignedInteger(SignedInteger::i128) | DataType::UnsignedInteger(UnsignedInteger::u128) => Some(128),
            _ => None,
        }
    }
}

impl SignedInteger {
    /// The LLVM name of this type.
    pub fn to_mnemonic(&self) -> (r: &'static str)
        ensures
            r@ == signed_mnemonic(*self),
    {
        match self {
            SignedInteger::i8 => "i8",
            SignedInteger::i16 => "i16",
            SignedInteger::i32 => "i32",
            SignedInteger::i64 => "i64",
            SignedInteger::i128 => "i128",
        }
    }
}

impl UnsignedInteger {
    /// The LLVM name of this type.
    pub fn to_mnemonic(&self) -> (r: &'static str)
        ensures
            r@ == unsigned_mnemonic(*self),
    {
        match self {
            UnsignedInteger::u8 => "i8",
            UnsignedInteger::u16 => "i16",
            UnsignedInteger::u32 => "i32",
            UnsignedInteger::u64 => "i64",
            UnsignedInteger::u128 => "i128",
        }
    }
}

impl FloatingPoint {
    /// The LLVM name of this type.
    pub fn to_mnemonic(&self) -> (r: &'static str)
        ensures
            r@ == float_mnemonic(*self),
    {
        match self {
            FloatingPoint::Float32 => "float",
            FloatingPoint::Float64 => "double",
            FloatingPoint::Float128 => "fp128",
        }
    }
}

} // verus!
