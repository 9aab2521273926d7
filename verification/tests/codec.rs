use blush::codec::{decode_value, encode_value};
use blush::instruction::Instruction;
use blush::Value;

#[test]
fn number_is_tag_and_bits() {
    let encoded = encode_value(&Value::VNumber(33.2f32.to_bits()));
    assert_eq!(encoded, bincode::serialize(&(1u32, 33.2f32)).unwrap());
    assert_eq!(encoded.len(), 8);
    assert_eq!(&encoded[..4], &[1, 0, 0, 0]);
    assert_eq!(&encoded[4..], &33.2f32.to_le_bytes());
}

#[test]
fn truth_is_tag_and_byte() {
    assert_eq!(encode_value(&Value::VBool(true)), vec![2, 0, 0, 0, 1]);
    assert_eq!(encode_value(&Value::VBool(false)), vec![2, 0, 0, 0, 0]);
}

#[test]
fn text_is_tag_length_and_bytes() {
    let encoded = encode_value(&Value::VString("asdf".to_string()));
    assert_eq!(encoded, bincode::serialize(&(0u32, "asdf")).unwrap());
    assert_eq!(encoded, vec![0, 0, 0, 0, 4, 0, 0, 0, 0, 0, 0, 0, b'a', b's', b'd', b'f']);
}

#[test]
fn a_value_converts_to_its_encoding() {
    let bytes: Vec<u8> = Value::VNumber(8f32.to_bits()).into();
    assert_eq!(bytes, vec![1, 0, 0, 0, 0, 0, 0, 0x41]);
    assert_eq!(Vec::<u8>::from(Value::VBool(true)), vec![2, 0, 0, 0, 1]);
}

#[test]
fn not_is_defined_on_truth_values() {
    assert_eq!(Value::VBool(true).not(), Ok(Value::VBool(false)));
    assert_eq!(Value::VBool(false).not(), Ok(Value::VBool(true)));
    let conflict = blush::error::runtime::RuntimeError::Arithmetic(
        blush::error::runtime::ArithmeticError::TypeConflict,
    );
    assert_eq!(Value::VNumber(0).not(), Err(conflict.clone()));
    assert_eq!(Value::VString("true".into()).not(), Err(conflict.clone()));
    assert_eq!(Value::VNumber(7).number(), Ok(7));
    assert_eq!(Value::VBool(true).number(), Err(conflict));
    assert_eq!(Value::default(), Value::VBool(false));
    assert!(Value::VString("a".into()).same(&Value::VString("a".into())));
    assert!(!Value::VString("a".into()).same(&Value::VBool(true)));
}

#[test]
fn decode_inverts_encode() {
    let values = vec![
        Value::VNumber(1523.23f32.to_bits()),
        Value::VNumber(f32::NAN.to_bits()),
        Value::VBool(true),
        Value::VBool(false),
        Value::VString(String::new()),
        Value::VString("héllo wörld".to_string()),
    ];
    for value in values {
        let mut bytes = encode_value(&value);
        assert_eq!(decode_value(&bytes), Ok(value.clone()));
        // bytes that follow a value are ignored
        bytes.extend(vec![0xFF, 0xFE]);
        assert_eq!(decode_value(&bytes), Ok(value));
    }
}

#[test]
fn decode_refuses_what_is_no_value() {
    assert!(decode_value(&[]).is_err());
    assert!(decode_value(&[1, 0, 0]).is_err());
    // no such tag
    assert!(decode_value(&[3, 0, 0, 0, 0, 0, 0, 0]).is_err());
    // a number with three bytes
    assert!(decode_value(&[1, 0, 0, 0, 1, 2, 3]).is_err());
    // a truth value that is neither 0 nor 1
    assert!(decode_value(&[2, 0, 0, 0, 2]).is_err());
    // a text shorter than its length says
    assert!(decode_value(&[0, 0, 0, 0, 5, 0, 0, 0, 0, 0, 0, 0, b'a']).is_err());
    // a text that is not UTF-8
    assert!(decode_value(&[0, 0, 0, 0, 1, 0, 0, 0, 0, 0, 0, 0, 0xFF]).is_err());
}

#[test]
fn opcodes_are_numbered_in_order() {
    let all = [
        Instruction::Const,
        Instruction::Add,
        Instruction::Sub,
        Instruction::Mul,
        Instruction::Div,
        Instruction::Eq,
        Instruction::Ne,
        Instruction::Lt,
        Instruction::Le,
        Instruction::Not,
        Instruction::Neg,
        Instruction::Let,
        Instruction::Read,
        Instruction::Assign,
    ];
    for (number, instruction) in all.iter().enumerate() {
        assert_eq!(instruction.opcode(), number as u8);
        assert_eq!(Instruction::from_byte(number as u8), Some(*instruction));
    }
    assert_eq!(Instruction::from_byte(14), None);
    assert_eq!(Instruction::from_byte(255), None);
    assert_eq!(Instruction::Const.operands(), 3);
    assert_eq!(Instruction::Div.operands(), 3);
    assert_eq!(Instruction::Lt.operands(), 2);
    assert_eq!(Instruction::Assign.operands(), 2);
}
