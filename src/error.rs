use vstd::prelude::*;

verus! {

/// An error of the lexer, with its message.
#[derive(Debug)]
pub struct LexerError(pub String);

/// An error of the parser, with its message.
#[derive(Debug)]
pub struct ParseError(pub String);

/// An error of a compilation phase, with its message.
#[derive(Debug)]
pub struct CompileError(pub String);

} // verus!

verus! {

/// An error of the IR generator.
#[derive(Debug)]
pub enum IRGenError {
    /// A name that no scope and no global declares.
    UnknownIdentifier(String),
    /// A call of a function that is neither defined nor declared before it.
    UnknownFunction(String),
    /// An operator that the operand type does not support.
    UnsupportedOperation,
    /// A conversion between types that the cast table does not hold.
    BadCast,
    /// A statement that cannot stand at the top level.
    IllegalTopLevel,
    /// A statement that cannot stand inside a function body.
    IllegalLocal,
    /// A `let` whose value is not a literal.
    NotConstant,
    /// A `return` outside a function.
    ReturnOutsideFunction,
    /// The label counter is exhausted.
    LabelOverflow,
}

} // verus!

verus! {

/// The view of an IR generator error: its kind, with the name it reports.
pub enum IRErr {
    UnknownIdentifier(Seq<char>),
    UnknownFunction(Seq<char>),
    UnsupportedOperation,
    BadCast,
    IllegalTopLevel,
    IllegalLocal,
    NotConstant,
    ReturnOutsideFunction,
    LabelOverflow,
}

impl IRGenError {
    pub open spec fn view(self) -> IRErr {
        match self {
            IRGenError::UnknownIdentifier(s) => IRErr::UnknownIdentifier(s@),
            IRGenError::UnknownFunction(s) => IRErr::UnknownFunction(s@),
            IRGenError::UnsupportedOperation => IRErr::UnsupportedOperation,
            IRGenError::BadCast => IRErr::BadCast,
            IRGenError::IllegalTopLevel => IRErr::IllegalTopLevel,
            IRGenError::IllegalLocal => IRErr::IllegalLocal,
            IRGenError::NotConstant => IRErr::NotConstant,
            IRGenError::ReturnOutsideFunction => IRErr::ReturnOutsideFunction,
            IRGenError::LabelOverflow => IRErr::LabelOverflow,
        }
    }
}

} // verus!
