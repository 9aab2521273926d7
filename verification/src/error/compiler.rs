use crate::scanner::TokenKind;
use vstd::prelude::*;

verus! {

/// Why compilation stopped.
#[derive(Debug, Clone, PartialEq)]
pub enum CompilerError {
    /// An error of another stage: its label, then its message.
    ExternalError(String, String),
    TokenError(TokenError),
    RegisterError(RegisterError),
}

/// A token that the grammar does not allow where it stands.
#[derive(Debug, Clone, Copy, PartialEq)]
pub enum TokenError {
    /// Another token stood where `expected` was required. `None` stands for
    /// the end of the input.
    ExpectedToken { reason: &'static str, expected: Option<TokenKind>, recieved: Option<TokenKind> },
    /// The input ended where an expression had to follow.
    EarlyEof,
}

/// A failure of the register pool.
#[derive(Debug, Clone, Copy, PartialEq, Eq, Structural)]
pub enum RegisterError {
    /// Every register is in use.
    NoEmptyRegisters,
}

/// The two families of errors that the compiler raises by itself.
#[derive(Debug, Clone, Copy, PartialEq, Eq, Structural)]
pub enum CompileError {
    /// A token was not in the correct position.
    TokenError,
    /// Any error involving registers.
    RegisterError,
}

/// What a step of the compiler returns.
pub type CompilerResult<O = ()> = Result<O, CompilerError>;

impl CompilerError {
    /// This error says that `recieved` stood where `expected` was required.
    pub open spec fn is_expected_token(
        self,
        reason: Seq<char>,
        expected: Option<TokenKind>,
        recieved: Option<TokenKind>,
    ) -> bool {
        self matches CompilerError::TokenError(TokenError::ExpectedToken { reason: r, expected: e, recieved: g })
            && r@ == reason && e == expected && g == recieved
    }

    /// The family of this error; `None` for an error of another stage.
    pub open spec fn spec_kind(self) -> Option<CompileError> {
        match self {
            CompilerError::TokenError(_) => Some(CompileError::TokenError),
            CompilerError::RegisterError(_) => Some(CompileError::RegisterError),
            CompilerError::ExternalError(_, _) => None,
        }
    }

    /// The family of this error; `None` for an error of another stage.
    pub fn kind(&self) -> (kind: Option<CompileError>)
        ensures
            kind == self.spec_kind(),
    {
        match self {
            CompilerError::TokenError(_) => Some(CompileError::TokenError),
            CompilerError::RegisterError(_) => Some(CompileError::RegisterError),
            CompilerError::ExternalError(_, _) => None,
        }
    }
}

} // verus!
