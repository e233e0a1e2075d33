use vstd::prelude::*;

verus! {

/// The data types of the surface language.
#[allow(non_camel_case_types)]
#[derive(Debug, PartialEq, Eq, Structural, Clone, Copy, Hash)]
pub enum DataType {
    void,
    bool,
    str,
    SignedInteger(SignedInteger),
    UnsignedInteger(UnsignedInteger),
    FloatingPoint(FloatingPoint),
}

#[allow(non_camel_case_types)]
#[derive(Debug, PartialEq, Eq, Structural, Clone, Copy, Hash)]
pub enum SignedInteger {
    i8,
    i16,
    i32,
    i64,
    i128,
}

#[allow(non_camel_case_types)]
#[derive(Debug, PartialEq, Eq, Structural, Clone, Copy, Hash)]
pub enum UnsignedInteger {
    u8,
    u16,
    u32,
    u64,
    u128,
}

#[allow(non_camel_case_types)]
#[derive(Debug, PartialEq, Eq, Structural, Clone, Copy, Hash)]
pub enum FloatingPoint {
    Float32,
    Float64,
    Float128,
}

} // verus!
