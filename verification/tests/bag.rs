use blush::bag::{Bag, OpenedBag, ZippedBag};
use blush::block::Block;
use blush::error::bag::{BagError, BagItem};
use blush::{Instruction, Value};

#[test]
fn emit_overflow() {
    let mut block = Bag::new();
    block
        .populate(vec![0; (u8::MAX - 1) as usize], vec![0; (u8::MAX - 1) as usize])
        .unwrap();

    assert!(block.emit_byte(Instruction::Add, &vec![10u8, 100u8, 80u8]).is_err());
}

#[test]
fn emit_const_overflow() {
    let mut block = Block::new();
    // 254 bytes of bytecode: one opcode and 253 operand bytes
    block.emit_byte(Instruction::Add, &vec![0u8; (u8::MAX - 2) as usize]).unwrap();
    assert!(block.emit_const(&Value::VBool(false), 0).is_err());
}

#[test]
fn overflow_names_the_full_buffer() {
    let mut bag = Bag::new();
    bag.populate(vec![0; 250], vec![0; 10]).unwrap();
    assert_eq!(bag.check_length((5, 0)), Err(BagError::Full(BagItem::Bytecode)));
    assert_eq!(bag.check_length((0, 245)), Err(BagError::Full(BagItem::Constants)));
    assert_eq!(bag.check_length((5, 245)), Err(BagError::Full(BagItem::Both)));
    assert_eq!(bag.check_length((4, 244)), Ok(()));
}

#[test]
fn refused_append_changes_nothing() {
    let mut bag = Bag::new();
    bag.populate(vec![7; 252], vec![9; 250]).unwrap();
    let before = bag.clone();
    assert_eq!(
        bag.emit_byte(Instruction::Add, &vec![1, 2, 3]),
        Err(BagError::Full(BagItem::Bytecode))
    );
    assert_eq!(bag, before);
    assert_eq!(
        bag.emit_const(&Value::VNumber(1.0f32.to_bits()), 0),
        Err(BagError::Full(BagItem::Both))
    );
    assert_eq!(bag, before);
    assert_eq!(bag.populate(vec![], vec![1; 5]), Err(BagError::Full(BagItem::Constants)));
    assert_eq!(bag, before);
}

#[test]
fn emit_byte_appends_opcode_and_operands() {
    let mut bag = Bag::new();
    bag.emit_byte(Instruction::Add, &vec![10, 100, 80]).unwrap();
    bag.emit_byte(Instruction::Not, &vec![4, 5]).unwrap();
    assert_eq!(bag.bytecode(), &vec![1u8, 10, 100, 80, 9, 4, 5]);
    assert_eq!(bag.constants(), &Vec::<u8>::new());
}

#[test]
fn emit_const_appends_constant_and_instruction() {
    let mut bag = Bag::new();
    bag.emit_const(&Value::VBool(true), 3).unwrap();
    bag.emit_const(&Value::VNumber(8.0f32.to_bits()), 4).unwrap();
    // a truth value takes 5 bytes, a number 8
    assert_eq!(bag.constants().len(), 13);
    assert_eq!(bag.bytecode(), &vec![0u8, 0, 5, 3, 0, 5, 8, 4]);
    let mut constants = bincode::serialize(&(2u32, true)).unwrap();
    constants.extend(bincode::serialize(&(1u32, 8.0f32)).unwrap());
    assert_eq!(bag.constants(), &constants);
}

#[test]
fn seal_then_open_gives_the_bytes_back() {
    let mut bag = Bag::new();
    bag.populate(vec![1, 2, 3, 4, 5], vec![9, 8, 7]).unwrap();
    let sealed = bag.zip_up();
    assert_eq!(sealed.bytes_len, 5);
    assert_eq!(sealed.consts_len, 3);
    assert_eq!(&sealed.bytecode[..5], &[1, 2, 3, 4, 5]);
    assert!(sealed.bytecode[5..].iter().all(|byte| *byte == 0));
    assert!(sealed.constants[3..].iter().all(|byte| *byte == 0));
    let opened = sealed.unzip();
    assert_eq!(opened, OpenedBag { bytecode: vec![1, 2, 3, 4, 5], constants: vec![9, 8, 7] });
}

#[test]
fn open_then_seal_is_idempotent() {
    // a sealed chunk whose padding is not zero
    let mut sealed = ZippedBag::default();
    sealed.bytecode = [0xAA; 255];
    sealed.constants = [0xBB; 255];
    sealed.bytes_len = 4;
    sealed.consts_len = 2;
    let opened = sealed.unzip();
    let mut bag = Bag::new();
    bag.populate(opened.bytecode.clone(), opened.constants.clone()).unwrap();
    let again = bag.zip_up();
    assert_eq!(again.bytes_len, 4);
    assert_eq!(again.consts_len, 2);
    assert_eq!(again.unzip(), opened);
    let mut bag = Bag::new();
    let reopened = again.unzip();
    bag.populate(reopened.bytecode, reopened.constants).unwrap();
    assert_eq!(bag.zip_up(), again);
}

#[test]
fn a_sealed_chunk_converts_to_its_opened_form() {
    let mut bag = Bag::new();
    bag.emit_const(&Value::VBool(true), 9).unwrap();
    let sealed = bag.zip_up();
    assert_eq!(OpenedBag::from(sealed.clone()), sealed.unzip());
    let opened: OpenedBag = sealed.into();
    assert_eq!(opened.bytecode, vec![0, 0, 5, 9]);
}

#[test]
fn empty_chunk_seals_to_zeros() {
    let sealed = Bag::new().zip_up();
    assert_eq!(sealed, ZippedBag::default());
    assert_eq!(sealed.unzip(), OpenedBag::default());
}

#[test]
fn block_counts_what_it_appends() {
    let mut block = Block::new();
    assert!(!block.check_bytes_length(254));
    assert!(block.check_bytes_length(255));
    block.emit_const(&Value::VBool(true), 1).unwrap();
    assert!(block.check_bytes_length(251));
    assert!(!block.check_bytes_length(250));
    assert!(block.check_consts_length(250));
    assert!(!block.check_consts_length(249));
    let sealed = block.seal();
    assert_eq!(sealed.bytecode, vec![0, 0, 5, 1]);
    assert_eq!(sealed.constants, vec![2, 0, 0, 0, 1]);
}
