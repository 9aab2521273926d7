//! A small expression language compiled to a compact register bytecode.
//!
//! The crate holds the three stages that share one binary contract: the
//! fixed-capacity bytecode container ([`bag`]), the single-pass compiler
//! ([`compiler`]) and the register machine ([`runtime`]), together with the
//! program file format ([`fileio`]). Numbers are single-precision floats and
//! are carried as their IEEE-754 bit patterns: the machine hands every
//! numeric operation to its caller and takes the answer back.

pub mod bag;
pub mod block;
pub mod codec;
pub mod compiler;
pub mod error;
pub mod fileio;
pub mod instruction;
pub mod runtime;
pub mod scanner;
pub mod value;

pub use bag::{Bag, OpenedBag, ZippedBag};
pub use block::{Block, SealedBlock};
pub use compiler::Compiler;
pub use instruction::Instruction;
pub use runtime::Runtime;
pub use scanner::{Token, TokenKind};
pub use value::Value;
