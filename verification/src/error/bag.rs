use vstd::prelude::*;

verus! {

/// Why a chunk refused an append.
#[derive(Debug, Clone, PartialEq)]
pub enum BagError {
    /// An error of another stage: its label, then its message.
    ExternalError(String, String),
    /// The named buffer has no room for what was to be appended.
    Full(BagItem),
}

/// The buffers of a chunk.
#[derive(Debug, Clone, Copy, PartialEq, Eq, Structural)]
pub enum BagItem {
    Bytecode,
    Constants,
    Both,
}

/// What an append to a chunk returns.
pub type BagResult<O = ()> = Result<O, BagError>;

} // verus!
