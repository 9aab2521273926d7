use vstd::prelude::*;

verus! {

/// Why execution stopped.
#[derive(Debug, Clone, PartialEq)]
pub enum RuntimeError {
    /// An error of another stage: its label, then its message.
    ExternalError(String, String),
    Bytecode(BytecodeError),
    Arithmetic(ArithmeticError),
}

/// A failure of an operation on values.
#[derive(Debug, Clone, Copy, PartialEq, Eq, Structural)]
pub enum ArithmeticError {
    /// An operand does not have the type that the operation is defined on.
    TypeConflict,
}

/// A fault of the bytecode that is run.
#[derive(Debug, Clone, PartialEq)]
pub enum BytecodeError {
    /// The bytecode of the chunk at fault, the offset at fault, and the reason.
    Malformed(Vec<u8>, usize, &'static str),
}

/// What a step of the machine returns.
pub type RuntimeResult<T = ()> = Result<T, RuntimeError>;

impl RuntimeError {
    /// This error reports malformed bytecode `code` at `position`, for the reason `why`.
    pub open spec fn is_malformed(self, code: Seq<u8>, position: usize, why: Seq<char>) -> bool {
        self matches RuntimeError::Bytecode(BytecodeError::Malformed(c, p, w)) && c@ == code && p
            == position && w@ == why
    }

    /// This error reports a type conflict.
    pub open spec fn is_type_conflict(self) -> bool {
        self == RuntimeError::Arithmetic(ArithmeticError::TypeConflict)
    }
}

/// The error for malformed bytecode `code` at `position`.
pub fn malformed_bytecode(code: &Vec<u8>, position: usize, why: &'static str) -> (error:
    RuntimeError)
    ensures
        error.is_malformed(code@, position, why@),
{
    RuntimeError::Bytecode(BytecodeError::Malformed(code.clone(), position, why))
}

/// The error for an operand of the wrong type.
pub fn type_conflict() -> (error: RuntimeError)
    ensures
        error.is_type_conflict(),
{
    RuntimeError::Arithmetic(ArithmeticError::TypeConflict)
}

} // verus!
