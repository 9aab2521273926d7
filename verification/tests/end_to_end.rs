use blush::compiler::Compiler;
use blush::error::runtime::RuntimeError;
use blush::fileio::{de, ser};
use blush::runtime::{RawScope, Runtime, Step, Variable};
use blush::{Instruction, Token, TokenKind, Value};

/// Splits the sources of these tests into tokens.
fn lex(source: &str) -> Vec<Token> {
    let chars: Vec<char> = source.chars().collect();
    let mut tokens = vec![];
    let mut at = 0;
    while at < chars.len() {
        let start = at;
        let c = chars[at];
        let digit_follows = at + 1 < chars.len() && chars[at + 1].is_ascii_digit();
        let kind = if c == ' ' || c == '\t' {
            at += 1;
            continue;
        } else if c.is_ascii_digit() || (c == '-' && digit_follows) {
            at += 1;
            while at < chars.len() && (chars[at].is_ascii_digit() || chars[at] == '.') {
                at += 1;
            }
            let text: String = chars[start..at].iter().collect();
            TokenKind::Number(text.parse::<f32>().unwrap().to_bits())
        } else if c.is_ascii_alphabetic() || c == '_' {
            while at < chars.len() && (chars[at].is_ascii_alphanumeric() || chars[at] == '_') {
                at += 1;
            }
            let text: String = chars[start..at].iter().collect();
            match text.as_str() {
                "let" => TokenKind::Let,
                "true" => TokenKind::Bool(true),
                "false" => TokenKind::Bool(false),
                _ => TokenKind::Identifier,
            }
        } else {
            let two: String = chars[at..chars.len().min(at + 2)].iter().collect();
            let (kind, width) = match two.as_str() {
                "==" => (TokenKind::EqualEqual, 2),
                "!=" => (TokenKind::BangEqual, 2),
                "<=" => (TokenKind::LessEqual, 2),
                ">=" => (TokenKind::GreaterEqual, 2),
                _ => (
                    match c {
                        '(' => TokenKind::LeftParen,
                        ')' => TokenKind::RightParen,
                        '{' => TokenKind::LeftBrace,
                        '}' => TokenKind::RightBrace,
                        '-' => TokenKind::Minus,
                        '+' => TokenKind::Plus,
                        '/' => TokenKind::Slash,
                        '*' => TokenKind::Star,
                        ';' => TokenKind::Semicolon,
                        '!' => TokenKind::Bang,
                        '=' => TokenKind::Equal,
                        '>' => TokenKind::Greater,
                        '<' => TokenKind::Less,
                        ',' => TokenKind::Comma,
                        _ => TokenKind::Error,
                    },
                    1,
                ),
            };
            at += width;
            kind
        };
        tokens.push(Token::new(kind, chars[start..at].iter().collect()));
    }
    tokens
}

/// Runs to the end, with the float unit that the machine asks for.
fn drive(runtime: &mut Runtime) -> Result<(), RuntimeError> {
    loop {
        match runtime.exec()? {
            Step::Halt => return Ok(()),
            Step::Continue => {}
            Step::Arithmetic { op, lhs, rhs } => {
                let (x, y) = (f32::from_bits(lhs), f32::from_bits(rhs));
                let result = match op {
                    Instruction::Add => x + y,
                    Instruction::Sub => x - y,
                    Instruction::Mul => x * y,
                    Instruction::Div => x / y,
                    _ => unreachable!(),
                };
                runtime.resume_number(result.to_bits())?;
            }
            Step::Negation { operand } => {
                runtime.resume_number((-f32::from_bits(operand)).to_bits())?;
            }
            Step::Comparison { op, lhs, rhs } => {
                let (x, y) = (f32::from_bits(lhs), f32::from_bits(rhs));
                let holds = match op {
                    Instruction::Eq => x == y,
                    Instruction::Ne => x != y,
                    Instruction::Lt => x < y,
                    Instruction::Le => x <= y,
                    _ => unreachable!(),
                };
                runtime.resume_comparison(holds)?;
            }
        }
    }
}

/// Compiles, writes the file, reads it back and runs it.
fn run(source: &str) -> Runtime {
    let mut compiler = Compiler::new(lex(source));
    compiler.compile().unwrap();
    let (chunks, scope) = de(ser(&compiler).unwrap()).unwrap();
    let mut runtime = Runtime::new(chunks, None, scope).unwrap();
    drive(&mut runtime).unwrap();
    runtime
}

fn number(value: f32) -> Value {
    Value::VNumber(value.to_bits())
}

#[test]
fn eight_plus_twelve_is_twenty() {
    let runtime = run("8 + 12;");
    assert_eq!(runtime.registers()[0], number(8.0));
    assert_eq!(runtime.registers()[1], number(12.0));
    assert_eq!(runtime.registers()[2], number(20.0));
    assert_eq!(runtime.registers()[3], Value::VBool(false));
}

#[test]
fn let_binds_the_declared_variable() {
    let runtime = run("let x = true;");
    assert_eq!(
        runtime.scope(),
        &RawScope {
            vars: vec![Variable { name: "x".to_string(), value: Value::VBool(true), depth: 0 }],
            num_vars: 1,
            depth: 0,
        }
    );
}

#[test]
fn variables_are_read_and_assigned() {
    let runtime = run("let a = 2; let b = a * 3; a = b - 1;");
    assert_eq!(runtime.scope().vars[1].value, number(6.0));
    assert_eq!(runtime.scope().vars[0].value, number(5.0));
}

#[test]
fn arithmetic_follows_precedence() {
    let runtime = run("1 + 2 * 3 - 8 / 4;");
    // the last register taken holds the value of the statement
    assert_eq!(runtime.registers()[8], number(5.0));
    let runtime = run("-(1 + 2) * 3;");
    assert_eq!(runtime.registers()[5], number(-9.0));
}

#[test]
fn a_program_of_several_chunks_runs_through() {
    let source = format!("let x = 1; {} x = 2;", "3 < 4; ".repeat(40));
    let runtime = run(&source);
    assert!(runtime.baggage().len() > 1);
    assert_eq!(runtime.current_bag(), runtime.baggage().len());
    assert_eq!(runtime.scope().vars[0].value, number(2.0));
}

#[test]
fn a_type_conflict_stops_the_run() {
    let mut compiler = Compiler::new(lex("true + 1; let x = 2;"));
    compiler.compile().unwrap();
    let chunks = compiler.baggage().iter().map(|bag| bag.unzip()).collect();
    let mut runtime = Runtime::new(chunks, None, compiler.scope().clone()).unwrap();
    assert!(drive(&mut runtime).is_err());
    // what follows the conflict is not run
    assert_eq!(runtime.scope().vars[0].value, Value::VBool(false));
}
