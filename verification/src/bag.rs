//! The bytecode container: a chunk of bounded size, its sealed wire form and
//! its opened form.

use crate::codec::{encode_value, value_bytes};
use crate::error::bag::{BagError, BagItem, BagResult};
use crate::instruction::Instruction;
use crate::value::Value;
use vstd::array::array_as_slice;
use vstd::prelude::*;
use vstd::slice::{slice_subrange, slice_to_vec};

verus! {

/// The size of each buffer of a sealed chunk. A chunk in the making holds
/// fewer bytes of each kind.
pub const CAPACITY: usize = 255;

/// A chunk in the making: a bytecode buffer and a constant pool, each with
/// the count of its bytes.
#[derive(Debug, Clone, PartialEq)]
pub struct Bag {
    constants: Vec<u8>,
    bytecode: Vec<u8>,
    num_constants: usize,
    num_bytes: usize,
}

/// A sealed chunk: both buffers padded to [`CAPACITY`], with the count of
/// the bytes that are in use.
#[derive(Debug, Clone, PartialEq)]
pub struct ZippedBag {
    pub constants: [u8; 255],
    pub bytecode: [u8; 255],
    pub consts_len: u8,
    pub bytes_len: u8,
}

/// An opened chunk: the bytes in use of both buffers, ready to be run.
#[derive(Debug, Default, Clone, PartialEq)]
pub struct OpenedBag {
    pub constants: Vec<u8>,
    pub bytecode: Vec<u8>,
}

/// The bytes in use of a chunk.
pub struct BagView {
    pub constants: Seq<u8>,
    pub bytecode: Seq<u8>,
}

/// A sealed chunk as sequences.
pub struct ZippedView {
    pub constants: Seq<u8>,
    pub bytecode: Seq<u8>,
    pub consts_len: u8,
    pub bytes_len: u8,
}

/// `bytes`, then zeros up to [`CAPACITY`].
pub open spec fn padded(bytes: Seq<u8>) -> Seq<u8> {
    bytes + Seq::new((CAPACITY - bytes.len()) as nat, |i: int| 0u8)
}

impl BagView {
    /// The chunk without bytes.
    pub open spec fn empty() -> BagView {
        BagView { constants: Seq::empty(), bytecode: Seq::empty() }
    }

    /// The buffer that has no room for `bytes` more bytes of bytecode and
    /// `constants` more bytes of constants: a buffer has room as long as it
    /// stays below [`CAPACITY`].
    pub open spec fn overflow(self, bytes: nat, constants: nat) -> Option<BagItem> {
        let bytecode_full = self.bytecode.len() + bytes >= CAPACITY;
        let constants_full = self.constants.len() + constants >= CAPACITY;
        if bytecode_full && constants_full {
            Some(BagItem::Both)
        } else if bytecode_full {
            Some(BagItem::Bytecode)
        } else if constants_full {
            Some(BagItem::Constants)
        } else {
            None
        }
    }

    /// The chunk with both buffers extended.
    pub open spec fn with(self, bytecode: Seq<u8>, constants: Seq<u8>) -> BagView {
        BagView { constants: self.constants + constants, bytecode: self.bytecode + bytecode }
    }

    /// The chunk with one more instruction.
    pub open spec fn with_instruction(self, instruction: Instruction, operands: Seq<u8>) -> BagView {
        self.with(instruction.encode(operands), Seq::empty())
    }

    /// The chunk with one more constant, and the `Const` instruction that
    /// loads it into the register `store`.
    pub open spec fn with_constant(self, encoded: Seq<u8>, store: u8) -> BagView {
        self.with(
            Instruction::Const.encode(
                seq![self.constants.len() as u8, encoded.len() as u8, store],
            ),
            encoded,
        )
    }

    /// The wire form of the chunk, for buffers that do not exceed [`CAPACITY`].
    pub open spec fn seal(self) -> ZippedView {
        ZippedView {
            constants: padded(self.constants),
            bytecode: padded(self.bytecode),
            consts_len: self.constants.len() as u8,
            bytes_len: self.bytecode.len() as u8,
        }
    }
}

impl ZippedView {
    /// Both buffers have the size of the wire form.
    pub open spec fn wf(self) -> bool {
        self.constants.len() == CAPACITY && self.bytecode.len() == CAPACITY
    }

    /// The bytes in use.
    pub open spec fn open(self) -> BagView {
        BagView {
            constants: self.constants.subrange(0, self.consts_len as int),
            bytecode: self.bytecode.subrange(0, self.bytes_len as int),
        }
    }
}

impl View for ZippedBag {
    type V = ZippedView;

    open spec fn view(&self) -> ZippedView {
        ZippedView {
            constants: self.constants@,
            bytecode: self.bytecode@,
            consts_len: self.consts_len,
            bytes_len: self.bytes_len,
        }
    }
}

impl View for OpenedBag {
    type V = BagView;

    open spec fn view(&self) -> BagView {
        BagView { constants: self.constants@, bytecode: self.bytecode@ }
    }
}

impl View for Bag {
    type V = BagView;

    closed spec fn view(&self) -> BagView {
        BagView { constants: self.constants@, bytecode: self.bytecode@ }
    }
}

/// The views of a list of sealed chunks, in order.
pub open spec fn zipped_views(bags: Seq<ZippedBag>) -> Seq<ZippedView> {
    bags.map_values(|bag: ZippedBag| bag@)
}

/// The views of a list of opened chunks, in order.
pub open spec fn opened_views(bags: Seq<OpenedBag>) -> Seq<BagView> {
    bags.map_values(|bag: OpenedBag| bag@)
}

impl Default for Bag {
    /// An empty chunk.
    fn default() -> (bag: Self)
        ensures
            bag.wf(),
            bag@ == BagView::empty(),
    {
        Bag::new()
    }
}

impl Default for ZippedBag {
    /// The wire form of an empty chunk.
    fn default() -> (bag: Self)
        ensures
            bag@ == BagView::empty().seal(),
    {
        let bag = ZippedBag {
            constants: [0u8; 255],
            bytecode: [0u8; 255],
            consts_len: 0,
            bytes_len: 0,
        };
        assert(bag@.constants =~= padded(Seq::empty()));
        assert(bag@.bytecode =~= padded(Seq::empty()));
        bag
    }
}

impl ZippedBag {
    /// Opens the chunk: the bytes in use of both buffers, without the padding.
    pub fn unzip(&self) -> (opened: OpenedBag)
        ensures
            opened@ == self@.open(),
    {
        let constants = slice_to_vec(
            slice_subrange(array_as_slice(&self.constants), 0, self.consts_len as usize),
        );
        let bytecode = slice_to_vec(
            slice_subrange(array_as_slice(&self.bytecode), 0, self.bytes_len as usize),
        );
        OpenedBag { constants, bytecode }
    }
}

impl vstd::std_specs::convert::FromSpecImpl<ZippedBag> for OpenedBag {
    open spec fn obeys_from_spec() -> bool {
        false
    }

    open spec fn from_spec(sealed: ZippedBag) -> Self {
        arbitrary()
    }
}

impl From<ZippedBag> for OpenedBag {
    /// Opens the chunk, as [`ZippedBag::unzip`] does.
    fn from(sealed: ZippedBag) -> (opened: Self)
        ensures
            opened@ == sealed@.open(),
    {
        sealed.unzip()
    }
}

/// The wire form of `bytes`: a buffer of [`CAPACITY`] bytes that begins with them.
fn pad(bytes: &Vec<u8>) -> (buffer: [u8; 255])
    requires
        bytes@.len() <= CAPACITY,
    ensures
        buffer@ == padded(bytes@),
{
    let mut buffer = [0u8; 255];
    let mut i: usize = 0;
    while i < bytes.len()
        invariant
            i <= bytes@.len() <= CAPACITY,
            buffer@.len() == CAPACITY,
            forall|k: int| 0 <= k < i ==> buffer@[k] == bytes@[k],
            forall|k: int| i <= k < CAPACITY ==> buffer@[k] == 0u8,
        decreases bytes@.len() - i,
    {
        buffer[i] = bytes[i];
        i = i + 1;
    }
    assert(buffer@ =~= padded(bytes@));
    buffer
}

impl Bag {
    /// The counters agree with the buffers.
    pub closed spec fn counted(&self) -> bool {
        self.num_constants == self.constants@.len() && self.num_bytes == self.bytecode@.len()
    }

    /// The chunk is valid: it counts its bytes, and neither buffer has
    /// reached [`CAPACITY`].
    pub open spec fn wf(&self) -> bool {
        self.counted() && self@.bytecode.len() < CAPACITY && self@.constants.len() < CAPACITY
    }

    /// An empty chunk.
    pub fn new() -> (bag: Self)
        ensures
            bag.wf(),
            bag@ == BagView::empty(),
    {
        Bag { constants: Vec::new(), bytecode: Vec::new(), num_constants: 0, num_bytes: 0 }
    }

    /// The bytecode written so far.
    pub fn bytecode(&self) -> (bytes: &Vec<u8>)
        ensures
            bytes@ == self@.bytecode,
    {
        &self.bytecode
    }

    /// The constants written so far.
    pub fn constants(&self) -> (bytes: &Vec<u8>)
        ensures
            bytes@ == self@.constants,
    {
        &self.constants
    }

    /// Tells whether the chunk has room for `increase.0` more bytes of
    /// bytecode and `increase.1` more bytes of constants, and if not, which
    /// buffer is full.
    pub fn check_length(&mut self, increase: (usize, usize)) -> (result: BagResult)
        requires
            old(self).wf(),
        ensures
            *final(self) == *old(self),
            match old(self)@.overflow(increase.0 as nat, increase.1 as nat) {
                Some(item) => result == Err::<(), BagError>(BagError::Full(item)),
                None => result is Ok,
            },
    {
        let bytecode = increase.0 >= CAPACITY - self.num_bytes;
        let constants = increase.1 >= CAPACITY - self.num_constants;
        if bytecode && constants {
            Err(BagError::Full(BagItem::Both))
        } else if bytecode {
            Err(BagError::Full(BagItem::Bytecode))
        } else if constants {
            Err(BagError::Full(BagItem::Constants))
        } else {
            Ok(())
        }
    }

    /// Appends one instruction with its operands, or nothing at all if the
    /// bytecode buffer has no room for all of it.
    pub fn emit_byte(&mut self, instruction: Instruction, arguments: &Vec<u8>) -> (result:
        BagResult)
        requires
            old(self).wf(),
        ensures
            final(self).wf(),
            match old(self)@.overflow(1 + arguments@.len(), 0) {
                Some(item) => result == Err::<(), BagError>(BagError::Full(item)) && final(self)@
                    == old(self)@,
                None => result is Ok && final(self)@ == old(self)@.with_instruction(
                    instruction,
                    arguments@,
                ),
            },
    {
        let needed = if arguments.len() < CAPACITY {
            1 + arguments.len()
        } else {
            CAPACITY
        };
        self.check_length((needed, 0))?;
        self.bytecode.push(instruction.opcode());
        self.bytecode.extend_from_slice(arguments.as_slice());
        self.num_bytes += needed;
        assert(self@.bytecode =~= old(self)@.bytecode + instruction.encode(arguments@));
        assert(self@.constants =~= old(self)@.constants + Seq::<u8>::empty());
        Ok(())
    }

    /// Encodes `value`, appends it to the constants, and appends the `Const`
    /// instruction that loads it into the register `store`: the offset of the
    /// constant, its length, the register. Appends nothing at all if either
    /// buffer has no room.
    pub fn emit_const(&mut self, value: &Value, store: u8) -> (result: BagResult)
        requires
            old(self).wf(),
        ensures
            final(self).wf(),
            match old(self)@.overflow(4, value_bytes(value@).len()) {
                Some(item) => result == Err::<(), BagError>(BagError::Full(item)) && final(self)@
                    == old(self)@,
                None => result is Ok && final(self)@ == old(self)@.with_constant(
                    value_bytes(value@),
                    store,
                ),
            },
    {
        let encoded = encode_value(value);
        self.check_length((4, encoded.len()))?;
        let idx = self.constants.len();
        let len = encoded.len();
        self.constants.extend_from_slice(encoded.as_slice());
        self.num_constants += len;
        self.bytecode.push(Instruction::Const.opcode());
        self.bytecode.push(idx as u8);
        self.bytecode.push(len as u8);
        self.bytecode.push(store);
        self.num_bytes += 4;
        assert(self@.bytecode =~= old(self)@.bytecode + Instruction::Const.encode(
            seq![idx as u8, len as u8, store],
        ));
        assert(self@.constants =~= old(self)@.constants + value_bytes(value@));
        Ok(())
    }

    /// Appends `bytecode` and `constants`, or nothing at all if either buffer
    /// has no room.
    pub fn populate(&mut self, bytecode: Vec<u8>, constants: Vec<u8>) -> (result: BagResult)
        requires
            old(self).wf(),
        ensures
            final(self).wf(),
            match old(self)@.overflow(bytecode@.len(), constants@.len()) {
                Some(item) => result == Err::<(), BagError>(BagError::Full(item)) && final(self)@
                    == old(self)@,
                None => result is Ok && final(self)@ == old(self)@.with(bytecode@, constants@),
            },
    {
        self.check_length((bytecode.len(), constants.len()))?;
        self.bytecode.extend_from_slice(bytecode.as_slice());
        self.constants.extend_from_slice(constants.as_slice());
        self.num_bytes += bytecode.len();
        self.num_constants += constants.len();
        assert(self@.bytecode =~= old(self)@.bytecode + bytecode@);
        assert(self@.constants =~= old(self)@.constants + constants@);
        Ok(())
    }

    /// Seals the chunk: both buffers padded with zeros to [`CAPACITY`], and
    /// the counts of the bytes in use.
    pub fn zip_up(self) -> (sealed: ZippedBag)
        requires
            self.wf(),
        ensures
            sealed@ == self@.seal(),
    {
        ZippedBag {
            constants: pad(&self.constants),
            bytecode: pad(&self.bytecode),
            consts_len: self.num_constants as u8,
            bytes_len: self.num_bytes as u8,
        }
    }
}

/// A sealed chunk opens to the bytes that were sealed.
pub proof fn lemma_seal_open(bag: BagView)
    requires
        bag.bytecode.len() <= CAPACITY,
        bag.constants.len() <= CAPACITY,
    ensures
        bag.seal().wf(),
        bag.seal().open() == bag,
{
    assert(bag.seal().open().bytecode =~= bag.bytecode);
    assert(bag.seal().open().constants =~= bag.constants);
}

/// Sealing an opened chunk again keeps the counts and the bytes in use, so
/// that only the padding can differ; a second round of opening and sealing
/// changes nothing at all.
pub proof fn lemma_open_seal(sealed: ZippedView)
    requires
        sealed.wf(),
    ensures
        sealed.open().seal().wf(),
        sealed.open().seal().bytes_len == sealed.bytes_len,
        sealed.open().seal().consts_len == sealed.consts_len,
        sealed.open().seal().open() == sealed.open(),
        sealed.open().seal().open().seal() == sealed.open().seal(),
{
    lemma_seal_open(sealed.open());
}

} // verus!
