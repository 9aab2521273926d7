//! A chunk that is sealed without padding: the plain form of the container,
//! for code that is run where it was compiled.

use crate::bag::{BagView, CAPACITY};
use crate::codec::{encode_value, value_bytes};
use crate::instruction::Instruction;
use crate::value::Value;
use vstd::prelude::*;

verus! {

/// A chunk in the making, with the count of its bytes in one byte each.
#[derive(Debug, Clone, PartialEq)]
pub struct Block {
    constants: Vec<u8>,
    bytecode: Vec<u8>,
    num_constants: u8,
    num_bytes: u8,
}

/// A finished chunk: the two buffers as they were filled.
#[derive(Debug, Default, Clone, PartialEq)]
pub struct SealedBlock {
    pub constants: Vec<u8>,
    pub bytecode: Vec<u8>,
}

impl View for SealedBlock {
    type V = BagView;

    open spec fn view(&self) -> BagView {
        BagView { constants: self.constants@, bytecode: self.bytecode@ }
    }
}

impl View for Block {
    type V = BagView;

    closed spec fn view(&self) -> BagView {
        BagView { constants: self.constants@, bytecode: self.bytecode@ }
    }
}

impl Default for Block {
    /// An empty chunk.
    fn default() -> (block: Self)
        ensures
            block.wf(),
            block@ == BagView::empty(),
    {
        Block::new()
    }
}

impl Block {
    /// The counters agree with the buffers.
    pub closed spec fn counted(&self) -> bool {
        self.num_constants == self.constants@.len() && self.num_bytes == self.bytecode@.len()
    }

    /// The chunk is valid: it counts its bytes, and neither buffer has
    /// reached [`CAPACITY`].
    pub open spec fn wf(&self) -> bool {
        self.counted() && self@.bytecode.len() < CAPACITY && self@.constants.len() < CAPACITY
    }

    /// An empty chunk.
    pub fn new() -> (block: Self)
        ensures
            block.wf(),
            block@ == BagView::empty(),
    {
        Block { constants: Vec::new(), bytecode: Vec::new(), num_constants: 0, num_bytes: 0 }
    }

    /// Appends one instruction with its operands, or nothing at all if the
    /// bytecode has no room for all of it.
    pub fn emit_byte(&mut self, instruction: Instruction, arguments: &Vec<u8>) -> (result: Result<
        (),
        (),
    >)
        requires
            old(self).wf(),
        ensures
            final(self).wf(),
            result is Err <==> old(self)@.bytecode.len() + 1 + arguments@.len() >= CAPACITY,
            result is Err ==> final(self)@ == old(self)@,
            result is Ok ==> final(self)@ == old(self)@.with_instruction(instruction, arguments@),
    {
        if arguments.len() >= CAPACITY || self.check_bytes_length(1 + arguments.len()) {
            return Err(());
        }
        self.bytecode.push(instruction.opcode());
        self.bytecode.extend_from_slice(arguments.as_slice());
        self.num_bytes += (1 + arguments.len()) as u8;
        assert(self@.bytecode =~= old(self)@.bytecode + instruction.encode(arguments@));
        assert(self@.constants =~= old(self)@.constants + Seq::<u8>::empty());
        Ok(())
    }

    /// Whether `increase` more bytes of constants would fill the pool.
    pub fn check_consts_length(&self, increase: usize) -> (full: bool)
        requires
            self.wf(),
        ensures
            full == (self@.constants.len() + increase >= CAPACITY),
    {
        increase >= CAPACITY - self.num_constants as usize
    }

    /// Whether `increase` more bytes of bytecode would fill the buffer.
    pub fn check_bytes_length(&self, increase: usize) -> (full: bool)
        requires
            self.wf(),
        ensures
            full == (self@.bytecode.len() + increase >= CAPACITY),
    {
        increase >= CAPACITY - self.num_bytes as usize
    }

    /// Encodes `value`, appends it to the constants, and appends the `Const`
    /// instruction that loads it into the register `store`. Appends nothing
    /// at all if either buffer has no room.
    pub fn emit_const(&mut self, value: &Value, store: u8) -> (result: Result<(), ()>)
        requires
            old(self).wf(),
        ensures
            final(self).wf(),
            result is Err <==> old(self)@.overflow(4, value_bytes(value@).len()) is Some,
            result is Err ==> final(self)@ == old(self)@,
            result is Ok ==> final(self)@ == old(self)@.with_constant(value_bytes(value@), store),
    {
        let idx = self.constants.len();
        let serialized = encode_value(value);
        let len = serialized.len();
        if self.check_consts_length(len) || self.check_bytes_length(4) {
            return Err(());
        }
        self.constants.extend_from_slice(serialized.as_slice());
        self.num_constants += len as u8;
        self.bytecode.push(Instruction::Const.opcode());
        self.bytecode.push(idx as u8);
        self.bytecode.push(len as u8);
        self.bytecode.push(store);
        self.num_bytes += 4;
        assert(self@.bytecode =~= old(self)@.bytecode + Instruction::Const.encode(
            seq![idx as u8, len as u8, store],
        ));
        assert(self@.constants =~= old(self)@.constants + value_bytes(value@));
        Ok(())
    }

    /// The finished chunk: the two buffers, as they are.
    pub fn seal(self) -> (sealed: SealedBlock)
        ensures
            sealed@ == self@,
    {
        SealedBlock { constants: self.constants, bytecode: self.bytecode }
    }
}

} // verus!
