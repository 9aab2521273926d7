use blush::bag::{Bag, OpenedBag, ZippedBag};
use blush::codec::{decode_value, encode_value};
use blush::error::runtime::{ArithmeticError, BytecodeError, RuntimeError};
use blush::runtime::{CompilerScope, Local, RawScope, Runtime, RuntimeScope, Step, Variable};
use blush::{Instruction, Value};

fn number(value: f32) -> Value {
    Value::VNumber(value.to_bits())
}

fn make_bag(bytecode: Vec<u8>, constants: Vec<u8>) -> ZippedBag {
    let mut bag = Bag::new();
    bag.populate(bytecode, constants).unwrap();
    bag.zip_up()
}

/// Runs to the end, with the float unit that the machine asks for.
fn drive(runtime: &mut Runtime) -> Result<(), RuntimeError> {
    loop {
        match runtime.exec()? {
            Step::Halt => return Ok(()),
            Step::Continue => {}
            Step::Arithmetic { op, lhs, rhs } => {
                let (x, y) = (f32::from_bits(lhs), f32::from_bits(rhs));
                let result = match op {
                    Instruction::Add => x + y,
                    Instruction::Sub => x - y,
                    Instruction::Mul => x * y,
                    Instruction::Div => x / y,
                    _ => unreachable!(),
                };
                runtime.resume_number(result.to_bits())?;
            }
            Step::Negation { operand } => {
                runtime.resume_number((-f32::from_bits(operand)).to_bits())?;
            }
            Step::Comparison { op, lhs, rhs } => {
                let (x, y) = (f32::from_bits(lhs), f32::from_bits(rhs));
                let holds = match op {
                    Instruction::Eq => x == y,
                    Instruction::Ne => x != y,
                    Instruction::Lt => x < y,
                    Instruction::Le => x <= y,
                    _ => unreachable!(),
                };
                runtime.resume_comparison(holds)?;
            }
        }
    }
}

fn runtime(baggage: Vec<ZippedBag>, scope: Option<CompilerScope>) -> Runtime {
    let mut runtime = Runtime::new(
        baggage.iter().map(|bag| bag.unzip()).collect(),
        None,
        scope.unwrap_or(CompilerScope::default()),
    )
    .unwrap();
    drive(&mut runtime).unwrap();
    runtime
}

fn vm(instructions: Vec<u8>, constants: Vec<u8>, scope: Option<CompilerScope>) -> Runtime {
    let mut runtime = Runtime::new(
        vec![OpenedBag { bytecode: instructions, constants }],
        None,
        scope.unwrap_or(CompilerScope::default()),
    )
    .unwrap();
    drive(&mut runtime).unwrap();
    runtime
}

fn failing(bytecode: Vec<u8>, constants: Vec<u8>) -> (Runtime, RuntimeError) {
    let mut runtime =
        Runtime::new(vec![OpenedBag { bytecode, constants }], None, CompilerScope::default())
            .unwrap();
    let error = drive(&mut runtime).unwrap_err();
    (runtime, error)
}

fn binop_program(op: Instruction) -> (Vec<u8>, Vec<u8>, Value, Value) {
    let v1 = number(33.2);
    let v1s: Vec<u8> = encode_value(&v1);
    assert!(decode_value(&v1s).is_ok());
    let v2 = number(234.0);
    let v2s: Vec<u8> = encode_value(&v2);
    assert!(decode_value(&v2s).is_ok());
    let mut constants = vec![];
    constants.extend(v1s.clone());
    constants.extend(v2s.clone());
    let instructions = vec![
        Instruction::Const as u8, 0, v1s.len() as u8, 0,
        Instruction::Const as u8, v1s.len() as u8, v2s.len() as u8, 1,
        op as u8, 0, 1, 2,
    ];
    let v1v = decode_value(&constants[0..v1s.len()]);
    let v2v = decode_value(&constants[v1s.len()..v1s.len() + v2s.len()]);
    assert!(v1v.is_ok());
    assert!(v2v.is_ok());
    (instructions, constants, v1, v2)
}

fn binop_registers(v1: Value, v2: Value, result: f32) -> Vec<Value> {
    let mut registers = vec![Value::VBool(false); 256];
    registers[0] = v1;
    registers[1] = v2;
    registers[2] = number(result);
    registers
}

fn runtime_binop_test(op: Instruction, result: f32) {
    let (instructions, constants, v1, v2) = binop_program(op);
    let bag = make_bag(instructions, constants);
    let runtime = runtime(vec![bag], None);
    assert_eq!(runtime.registers(), &binop_registers(v1, v2, result));
}

fn vm_binop_test(op: Instruction, result: f32) {
    let (instructions, constants, v1, v2) = binop_program(op);
    let runtime = vm(instructions, constants, None);
    assert_eq!(runtime.registers(), &binop_registers(v1, v2, result));
}

#[test]
fn runtime_add() {
    runtime_binop_test(Instruction::Add, 33.2 + 234.0);
}

#[test]
fn runtime_sub() {
    runtime_binop_test(Instruction::Sub, 33.2 - 234.0);
}

#[test]
fn runtime_div() {
    runtime_binop_test(Instruction::Div, 33.2 / 234.0);
}

#[test]
fn runtime_mul() {
    runtime_binop_test(Instruction::Mul, 33.2 * 234.0);
}

fn asdf_scope() -> CompilerScope {
    RawScope { depth: 0, num_vars: 1, vars: vec![Local { depth: 0, name: "asdf".into() }] }
}

fn asdf_bound(value: Value) -> RuntimeScope {
    RawScope {
        depth: 0,
        num_vars: 1,
        vars: vec![Variable { depth: 0, name: "asdf".into(), value }],
    }
}

#[test]
fn runtime_let_declr() {
    let v1 = number(33.2);
    let v1s: Vec<u8> = encode_value(&v1);
    let bag = make_bag(vec![0, 0, v1s.len() as u8, 0, 11, 0, 0], v1s);
    let runtime = runtime(vec![bag], Some(asdf_scope()));

    assert_eq!(runtime.scope(), &asdf_bound(v1));
}

#[test]
fn vm_add() {
    vm_binop_test(Instruction::Add, 33.2 + 234.0);
}

#[test]
fn vm_sub() {
    vm_binop_test(Instruction::Sub, 33.2 - 234.0);
}

#[test]
fn vm_div() {
    vm_binop_test(Instruction::Div, 33.2 / 234.0);
}

#[test]
fn vm_mul() {
    vm_binop_test(Instruction::Mul, 33.2 * 234.0);
}

#[test]
fn vm_let_declr() {
    let v1 = number(33.2);
    let v1s: Vec<u8> = encode_value(&v1);
    let runtime = vm(vec![0, 0, v1s.len() as u8, 0, 11, 0, 0], v1s, Some(asdf_scope()));

    assert_eq!(runtime.scope(), &asdf_bound(v1));
}

#[test]
fn a_new_run_has_256_registers_of_false() {
    let runtime = Runtime::new(vec![], None, asdf_scope()).unwrap();
    assert_eq!(runtime.registers(), &vec![Value::VBool(false); 256]);
    assert_eq!(runtime.scope(), &asdf_bound(Value::VBool(false)));
    assert_eq!(runtime.ic(), 0);
    assert_eq!(runtime.current_bag(), 0);
}

#[test]
fn a_given_scope_is_kept() {
    let given = asdf_bound(number(1.5));
    let runtime = Runtime::new(vec![], Some(given.clone()), CompilerScope::default()).unwrap();
    assert_eq!(runtime.scope(), &given);
}

#[test]
fn runtime_scope_is_derived_one_to_one() {
    let locals = RawScope {
        depth: 3,
        num_vars: 2,
        vars: vec![Local { name: "a".into(), depth: 0 }, Local { name: "b".into(), depth: 2 }],
    };
    let derived = RuntimeScope::from(locals);
    assert_eq!(
        derived,
        RawScope {
            depth: 0,
            num_vars: 2,
            vars: vec![
                Variable { name: "a".into(), value: Value::VBool(false), depth: 0 },
                Variable { name: "b".into(), value: Value::VBool(false), depth: 2 },
            ],
        }
    );
}

#[test]
fn empty_program_halts() {
    let mut runtime = Runtime::new(vec![], None, CompilerScope::default()).unwrap();
    assert_eq!(runtime.step(), Ok(Step::Halt));
    assert_eq!(runtime.exec(), Ok(Step::Halt));
    let mut runtime =
        Runtime::new(vec![OpenedBag::default()], None, CompilerScope::default()).unwrap();
    assert_eq!(runtime.step(), Ok(Step::Continue));
    assert_eq!(runtime.current_bag(), 1);
    assert_eq!(runtime.step(), Ok(Step::Halt));
}

#[test]
fn arithmetic_asks_and_stores_the_answer() {
    let (instructions, constants, v1, v2) = binop_program(Instruction::Mul);
    let mut runtime = Runtime::new(
        vec![OpenedBag { bytecode: instructions, constants }],
        None,
        CompilerScope::default(),
    )
    .unwrap();
    let request = runtime.exec().unwrap();
    assert_eq!(
        request,
        Step::Arithmetic { op: Instruction::Mul, lhs: 33.2f32.to_bits(), rhs: 234.0f32.to_bits() }
    );
    assert_eq!(runtime.ic(), 8);
    // the state waits: the same request comes again
    assert_eq!(runtime.step(), Ok(request));
    // an answer of the wrong kind is refused, and nothing changes
    assert!(runtime.resume_comparison(true).is_err());
    assert_eq!(runtime.ic(), 8);
    runtime.resume_number(7.0f32.to_bits()).unwrap();
    assert_eq!(runtime.ic(), 12);
    assert_eq!(runtime.registers(), &binop_registers(v1, v2, 7.0));
    assert_eq!(runtime.exec(), Ok(Step::Halt));
    assert!(runtime.resume_number(0).is_err());
}

#[test]
fn arithmetic_on_other_than_numbers_is_a_type_conflict() {
    // R(0) = 1.0, R(1) stays false
    let constants = encode_value(&number(1.0));
    for op in [Instruction::Add, Instruction::Sub, Instruction::Mul, Instruction::Div] {
        for operands in [[0u8, 1], [1, 0], [1, 1]] {
            let code = vec![0, 0, 8, 0, op as u8, operands[0], operands[1], 2];
            let (runtime, error) = failing(code, constants.clone());
            assert_eq!(error, RuntimeError::Arithmetic(ArithmeticError::TypeConflict));
            // the failing instruction is not executed
            assert_eq!(runtime.ic(), 4);
            assert_eq!(runtime.registers()[2], Value::VBool(false));
        }
    }
    for op in [Instruction::Lt, Instruction::Le] {
        let (_, error) = failing(vec![0, 0, 8, 0, op as u8, 0, 1], constants.clone());
        assert_eq!(error, RuntimeError::Arithmetic(ArithmeticError::TypeConflict));
    }
    let (_, error) = failing(vec![0, 0, 8, 0, Instruction::Not as u8, 0, 1], constants.clone());
    assert_eq!(error, RuntimeError::Arithmetic(ArithmeticError::TypeConflict));
    let (_, error) = failing(vec![Instruction::Neg as u8, 0, 1], vec![]);
    assert_eq!(error, RuntimeError::Arithmetic(ArithmeticError::TypeConflict));
}

#[test]
fn not_and_neg_write_the_second_operand() {
    let mut constants = encode_value(&Value::VBool(true));
    constants.extend(encode_value(&number(2.5)));
    let runtime = vm(
        vec![0, 0, 5, 0, 0, 5, 8, 1, Instruction::Not as u8, 0, 10, Instruction::Neg as u8, 1, 11],
        constants,
        None,
    );
    assert_eq!(runtime.registers()[0], Value::VBool(true));
    assert_eq!(runtime.registers()[10], Value::VBool(false));
    assert_eq!(runtime.registers()[1], number(2.5));
    assert_eq!(runtime.registers()[11], number(-2.5));
}

fn comparison_program(op: Instruction, lhs: f32, rhs: f32) -> (Vec<u8>, Vec<u8>) {
    let mut constants = encode_value(&number(lhs));
    constants.extend(encode_value(&number(rhs)));
    constants.extend(encode_value(&Value::VBool(true)));
    // the comparison is followed by two bytes that are skipped when it fails;
    // here they are the first half of a four-byte Const into register 7
    let code = vec![0, 0, 8, 0, 0, 8, 8, 1, op as u8, 0, 1, 0, 16, 5, 7, 0, 16, 5, 9];
    (code, constants)
}

#[test]
fn a_comparison_that_holds_goes_on_with_the_next_byte() {
    for (op, lhs, rhs) in [
        (Instruction::Lt, 1.0, 2.0),
        (Instruction::Le, 2.0, 2.0),
        (Instruction::Eq, 0.0, -0.0),
        (Instruction::Ne, 1.0, 2.0),
    ] {
        let (code, constants) = comparison_program(op, lhs, rhs);
        let runtime = vm(code, constants, None);
        assert_eq!(runtime.registers()[7], Value::VBool(true));
        assert_eq!(runtime.registers()[9], Value::VBool(true));
    }
}

#[test]
fn a_comparison_that_fails_skips_two_bytes() {
    let (code, constants) = comparison_program(Instruction::Lt, 2.0, 1.0);
    let mut runtime =
        Runtime::new(vec![OpenedBag { bytecode: code, constants }], None, CompilerScope::default())
            .unwrap();
    assert_eq!(
        runtime.exec(),
        Ok(Step::Comparison { op: Instruction::Lt, lhs: 2.0f32.to_bits(), rhs: 1.0f32.to_bits() })
    );
    assert_eq!(runtime.ic(), 8);
    runtime.resume_comparison(false).unwrap();
    assert_eq!(runtime.ic(), 13);
    let (code, constants) = comparison_program(Instruction::Lt, 2.0, 1.0);
    let mut runtime =
        Runtime::new(vec![OpenedBag { bytecode: code, constants }], None, CompilerScope::default())
            .unwrap();
    runtime.exec().unwrap();
    runtime.resume_comparison(true).unwrap();
    assert_eq!(runtime.ic(), 11);
}

#[test]
fn equality_of_other_than_numbers_is_decided_by_the_machine() {
    let mut constants = encode_value(&Value::VString("a".into()));
    constants.extend(encode_value(&Value::VString("a".into())));
    constants.extend(encode_value(&Value::VString("b".into())));
    let load = vec![0, 0, 13, 0, 0, 13, 13, 1, 0, 26, 13, 2];
    let run = |op: Instruction, a: u8, b: u8| {
        let mut code = load.clone();
        code.extend(vec![op as u8, a, b]);
        let mut runtime = Runtime::new(
            vec![OpenedBag { bytecode: code, constants: constants.clone() }],
            None,
            CompilerScope::default(),
        )
        .unwrap();
        while runtime.ic() < 12 {
            assert_eq!(runtime.step(), Ok(Step::Continue));
        }
        assert_eq!(runtime.step(), Ok(Step::Continue));
        runtime.ic()
    };
    // equal texts: Eq holds, Ne fails
    assert_eq!(run(Instruction::Eq, 0, 1), 15);
    assert_eq!(run(Instruction::Ne, 0, 1), 17);
    // different texts
    assert_eq!(run(Instruction::Eq, 0, 2), 17);
    assert_eq!(run(Instruction::Ne, 0, 2), 15);
    // a text and a truth value
    assert_eq!(run(Instruction::Eq, 0, 5), 17);
    assert_eq!(run(Instruction::Ne, 0, 5), 15);
    // two truth values
    assert_eq!(run(Instruction::Eq, 5, 6), 15);
}

#[test]
fn read_and_assign_go_by_the_name_in_the_register() {
    let scope = RawScope {
        depth: 0,
        num_vars: 2,
        vars: vec![Local { name: "x".into(), depth: 0 }, Local { name: "x".into(), depth: 1 }],
    };
    let mut constants = encode_value(&Value::VString("x".into()));
    constants.extend(encode_value(&number(4.0)));
    let code = vec![
        0, 0, 13, 0, // R0 = "x"
        0, 13, 8, 1, // R1 = 4.0
        Instruction::Let as u8, 0, 1, // V0 = R1
        Instruction::Read as u8, 0, 2, // R2 = x: the x declared last, still false
        Instruction::Assign as u8, 0, 1, // x = R1
        Instruction::Read as u8, 0, 3, // R3 = x
    ];
    let runtime = vm(code, constants, Some(scope));
    assert_eq!(runtime.registers()[2], Value::VBool(false));
    assert_eq!(runtime.registers()[3], number(4.0));
    assert_eq!(runtime.scope().vars[0].value, number(4.0));
    assert_eq!(runtime.scope().vars[1].value, number(4.0));
}

#[test]
fn malformed_bytecode_is_reported_with_code_and_position() {
    let (_, error) = failing(vec![14], vec![]);
    assert_eq!(
        error,
        RuntimeError::Bytecode(BytecodeError::Malformed(vec![14], 0, "Unexpected byte"))
    );
    let code = vec![Instruction::Not as u8, 0, 1, 200, 0];
    let (_, error) = failing(code.clone(), vec![]);
    assert_eq!(error, RuntimeError::Bytecode(BytecodeError::Malformed(code, 3, "Unexpected byte")));
    // operands that are not there
    let code = vec![Instruction::Add as u8, 0, 1];
    let (_, error) = failing(code.clone(), vec![]);
    assert_eq!(
        error,
        RuntimeError::Bytecode(BytecodeError::Malformed(code, 3, "Unexpected end of bytecode"))
    );
    // operands behind the ceiling of a chunk
    let mut code = vec![Instruction::Not as u8, 0, 0];
    code = code.repeat(84);
    code.extend(vec![Instruction::Add as u8, 0, 0, 0, 0]);
    assert_eq!(code.len(), 257);
    let (_, error) = failing(code.clone(), vec![]);
    assert_eq!(
        error,
        RuntimeError::Bytecode(BytecodeError::Malformed(code, 255, "Block is too large"))
    );
    // a constant that is not in the pool
    let code = vec![0, 2, 8, 0];
    let (_, error) = failing(code.clone(), vec![1, 0, 0, 0, 0, 0, 0, 0]);
    assert_eq!(
        error,
        RuntimeError::Bytecode(BytecodeError::Malformed(code, 0, "Constant out of range"))
    );
    // a constant that is no value
    let code = vec![0, 0, 4, 0];
    let (_, error) = failing(code.clone(), vec![9, 0, 0, 0]);
    assert_eq!(
        error,
        RuntimeError::Bytecode(BytecodeError::Malformed(code, 0, "Constant is not a value"))
    );
    // a slot that is not declared
    let code = vec![Instruction::Let as u8, 0, 0];
    let (_, error) = failing(code.clone(), vec![]);
    assert_eq!(
        error,
        RuntimeError::Bytecode(BytecodeError::Malformed(code, 0, "No such variable"))
    );
}

#[test]
fn an_instruction_is_executed_under_its_own_name_only() {
    let constants = encode_value(&Value::VBool(true));
    let code = vec![0, 0, 5, 0, Instruction::Not as u8, 0, 1, Instruction::Let as u8, 0, 1];
    let mut runtime = Runtime::new(
        vec![OpenedBag { bytecode: code.clone(), constants }],
        None,
        asdf_scope(),
    )
    .unwrap();
    let unexpected =
        Err(RuntimeError::Bytecode(BytecodeError::Malformed(code.clone(), 0, "Unexpected byte")));
    assert_eq!(runtime.add(), unexpected);
    assert_eq!(runtime.not(), unexpected);
    assert_eq!(runtime.ic(), 0);
    assert_eq!(runtime.constant(), Ok(Step::Continue));
    assert_eq!(runtime.ic(), 4);
    assert_eq!(runtime.not(), Ok(Step::Continue));
    assert_eq!(runtime.registers()[1], Value::VBool(false));
    assert_eq!(runtime.let_declr(), Ok(Step::Continue));
    assert_eq!(runtime.scope(), &asdf_bound(Value::VBool(false)));
    // at the end of the chunk there is no instruction
    assert_eq!(
        runtime.let_declr(),
        Err(RuntimeError::Bytecode(BytecodeError::Malformed(code, 10, "Unexpected byte")))
    );
}

#[test]
fn the_handlers_of_numbers_ask_for_them() {
    let mut constants = encode_value(&number(6.0));
    constants.extend(encode_value(&number(3.0)));
    let run = |op: Instruction| {
        let mut runtime = Runtime::new(
            vec![OpenedBag {
                bytecode: vec![0, 0, 8, 0, 0, 8, 8, 1, op as u8, 0, 1, 2],
                constants: constants.clone(),
            }],
            None,
            CompilerScope::default(),
        )
        .unwrap();
        runtime.constant().unwrap();
        runtime.constant().unwrap();
        runtime
    };
    let (lhs, rhs) = (6.0f32.to_bits(), 3.0f32.to_bits());
    assert_eq!(run(Instruction::Add).add(), Ok(Step::Arithmetic { op: Instruction::Add, lhs, rhs }));
    assert_eq!(run(Instruction::Sub).sub(), Ok(Step::Arithmetic { op: Instruction::Sub, lhs, rhs }));
    assert_eq!(run(Instruction::Mul).mul(), Ok(Step::Arithmetic { op: Instruction::Mul, lhs, rhs }));
    assert_eq!(run(Instruction::Div).div(), Ok(Step::Arithmetic { op: Instruction::Div, lhs, rhs }));
    assert_eq!(run(Instruction::Eq).eq(), Ok(Step::Comparison { op: Instruction::Eq, lhs, rhs }));
    assert_eq!(run(Instruction::Ne).ne(), Ok(Step::Comparison { op: Instruction::Ne, lhs, rhs }));
    assert_eq!(run(Instruction::Lt).lt(), Ok(Step::Comparison { op: Instruction::Lt, lhs, rhs }));
    assert_eq!(run(Instruction::Le).le(), Ok(Step::Comparison { op: Instruction::Le, lhs, rhs }));
    assert_eq!(run(Instruction::Neg).neg(), Ok(Step::Negation { operand: lhs }));
}

#[test]
fn registers_persist_across_chunks() {
    let constants = encode_value(&Value::VBool(true));
    let first = OpenedBag { bytecode: vec![0, 0, 5, 4], constants };
    let second = OpenedBag { bytecode: vec![Instruction::Not as u8, 4, 5], constants: vec![] };
    let mut runtime = Runtime::new(vec![first, second], None, CompilerScope::default()).unwrap();
    drive(&mut runtime).unwrap();
    assert_eq!(runtime.registers()[4], Value::VBool(true));
    assert_eq!(runtime.registers()[5], Value::VBool(false));
    assert_eq!(runtime.current_bag(), 2);
    assert_eq!(runtime.ic(), 0);
}
