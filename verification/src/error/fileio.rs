use vstd::prelude::*;

verus! {

/// Why a program file could not be written or read.
#[derive(Debug, Clone, PartialEq)]
pub enum FileIOError {
    /// An error of another stage: its label, then its message.
    ExternalError(String, String),
    MalformedBytecode(MalformedBytecodeError),
    MalformedHeader(MalformedHeaderError),
}

/// A fault in the chunks or in the scope of a file.
#[derive(Debug, Clone, PartialEq)]
pub enum MalformedBytecodeError {
    /// The encoded scope could not be decoded; the text says why.
    ValueDeser(String),
    /// A chunk's two length bytes are not both there.
    MissingLenghtDecl,
    /// The input ended inside a chunk's buffers.
    UnexpectedEof,
}

/// The marker of the file format that did not match.
#[derive(Debug, Clone, Copy, PartialEq, Eq, Structural)]
pub enum MalformedHeaderError {
    BlushProgramDecl,
    ProgStart,
    ProgEnd,
    ScopeStart,
    NumBags,
}

/// What the reading and the writing of a file return.
pub type FileIOResult<O = ()> = Result<O, FileIOError>;

} // verus!
