use blush::bag::{Bag, OpenedBag, ZippedBag};
use blush::compiler::Compiler;
use blush::error::fileio::{FileIOError, MalformedBytecodeError, MalformedHeaderError};
use blush::fileio::{consume, de, decode_scope, encode_scope, ser, BLUSH_VER};
use blush::runtime::{CompilerScope, Local, RawScope};
use blush::{Token, TokenKind};

/// Splits the sources of these tests into tokens.
fn lex(source: &str) -> Vec<Token> {
    let chars: Vec<char> = source.chars().collect();
    let mut tokens = vec![];
    let mut at = 0;
    while at < chars.len() {
        let start = at;
        let c = chars[at];
        let digit_follows = at + 1 < chars.len() && chars[at + 1].is_ascii_digit();
        let kind = if c == ' ' || c == '\t' {
            at += 1;
            continue;
        } else if c.is_ascii_digit() || (c == '-' && digit_follows) {
            at += 1;
            while at < chars.len() && (chars[at].is_ascii_digit() || chars[at] == '.') {
                at += 1;
            }
            let text: String = chars[start..at].iter().collect();
            TokenKind::Number(text.parse::<f32>().unwrap().to_bits())
        } else if c.is_ascii_alphabetic() || c == '_' {
            while at < chars.len() && (chars[at].is_ascii_alphanumeric() || chars[at] == '_') {
                at += 1;
            }
            let text: String = chars[start..at].iter().collect();
            match text.as_str() {
                "let" => TokenKind::Let,
                "true" => TokenKind::Bool(true),
                "false" => TokenKind::Bool(false),
                _ => TokenKind::Identifier,
            }
        } else {
            let two: String = chars[at..chars.len().min(at + 2)].iter().collect();
            let (kind, width) = match two.as_str() {
                "==" => (TokenKind::EqualEqual, 2),
                "!=" => (TokenKind::BangEqual, 2),
                "<=" => (TokenKind::LessEqual, 2),
                ">=" => (TokenKind::GreaterEqual, 2),
                _ => (
                    match c {
                        '(' => TokenKind::LeftParen,
                        ')' => TokenKind::RightParen,
                        '{' => TokenKind::LeftBrace,
                        '}' => TokenKind::RightBrace,
                        '-' => TokenKind::Minus,
                        '+' => TokenKind::Plus,
                        '/' => TokenKind::Slash,
                        '*' => TokenKind::Star,
                        ';' => TokenKind::Semicolon,
                        '!' => TokenKind::Bang,
                        '=' => TokenKind::Equal,
                        '>' => TokenKind::Greater,
                        '<' => TokenKind::Less,
                        ',' => TokenKind::Comma,
                        _ => TokenKind::Error,
                    },
                    1,
                ),
            };
            at += width;
            kind
        };
        tokens.push(Token::new(kind, chars[start..at].iter().collect()));
    }
    tokens
}

fn compiled(source: &str) -> Compiler {
    let mut compiler = Compiler::new(lex(source));
    compiler.compile().unwrap();
    compiler
}

fn header() -> Vec<u8> {
    format!("BLUSHPROGRAM\n{}\n", BLUSH_VER).into_bytes()
}

/// A file with the given chunks, written by hand
fn file(chunks: &[ZippedBag], scope: &[u8]) -> Vec<u8> {
    let mut bytes = header();
    bytes.push(chunks.len() as u8);
    bytes.extend(b"PROGSTART\n");
    for chunk in chunks {
        bytes.push(chunk.bytes_len);
        bytes.push(chunk.consts_len);
        bytes.extend(chunk.bytecode);
        bytes.extend(chunk.constants);
    }
    bytes.extend(b"\nPROGEND");
    bytes.extend(b"\nSCOPESTART\n");
    bytes.extend(scope);
    bytes
}

fn empty_scope() -> Vec<u8> {
    vec![0, 0, 0, 0, 0, 0, 0, 0, 0, 0]
}

#[test]
fn decode() {
    let compiler = compiled("1 + 1;");
    let binary = ser(&compiler).unwrap();
    let res = de(binary);
    assert_eq!(res, Ok((vec![compiler.baggage()[0].unzip()], compiler.scope().clone())))
}

#[test]
fn the_file_has_the_documented_layout() {
    let compiler = compiled("let asdf = true;");
    let binary = ser(&compiler).unwrap();
    let scope = bincode::serialize(&(vec![("asdf", 0u8)], 1u8, 0u8)).unwrap();
    assert_eq!(binary, file(compiler.baggage(), &scope));
    assert_eq!(binary.len(), header().len() + 1 + 10 + 512 + 8 + 12 + scope.len());
    assert_eq!(&binary[..13], b"BLUSHPROGRAM\n");
    assert_eq!(&binary[13..29], b"0.0.1-pre_alpha\n");
    assert_eq!(binary[29], 1);
}

#[test]
fn a_program_comes_back_from_its_file() {
    let source = format!("let a = 1; {{ let b = a; }} {}", "1 < 2; ".repeat(40));
    let compiler = compiled(&source);
    assert!(compiler.baggage().len() > 1);
    let (chunks, scope) = de(ser(&compiler).unwrap()).unwrap();
    let opened: Vec<OpenedBag> = compiler.baggage().iter().map(|bag| bag.unzip()).collect();
    assert_eq!(chunks, opened);
    assert_eq!(&scope, compiler.scope());
}

#[test]
fn the_padding_of_a_chunk_is_discarded() {
    let mut chunk = ZippedBag::default();
    chunk.bytecode = [0xAA; 255];
    chunk.constants = [0xBB; 255];
    chunk.bytes_len = 3;
    chunk.consts_len = 255;
    let (chunks, scope) = de(file(&[chunk], &empty_scope())).unwrap();
    assert_eq!(chunks, vec![OpenedBag { bytecode: vec![0xAA; 3], constants: vec![0xBB; 255] }]);
    assert_eq!(scope, CompilerScope::default());
}

#[test]
fn a_file_without_chunks_is_a_program() {
    assert_eq!(de(file(&[], &empty_scope())), Ok((vec![], CompilerScope::default())));
}

#[test]
fn a_wrong_first_line_is_a_malformed_header() {
    let declared = Err(FileIOError::MalformedHeader(MalformedHeaderError::BlushProgramDecl));
    assert_eq!(de(vec![]), declared);
    assert_eq!(de(b"BLUSHPROGRAM".to_vec()), declared);
    assert_eq!(de(b"blushprogram\n0.0.1-pre_alpha\n\0PROGSTART\n".to_vec()), declared);
    let mut bytes = file(&[], &empty_scope());
    bytes[0] = b'X';
    assert_eq!(de(bytes), declared);
    // another version
    let mut bytes = file(&[], &empty_scope());
    bytes[13] = b'9';
    assert_eq!(de(bytes), declared);
}

#[test]
fn each_marker_has_its_error() {
    assert_eq!(de(header()), Err(FileIOError::MalformedHeader(MalformedHeaderError::NumBags)));
    let good = file(&[Bag::new().zip_up()], &empty_scope());
    let start = header().len() + 1;
    let mut bytes = good.clone();
    bytes[start] = b'p';
    assert_eq!(de(bytes), Err(FileIOError::MalformedHeader(MalformedHeaderError::ProgStart)));
    let end = start + 10 + 512;
    let mut bytes = good.clone();
    bytes[end + 1] = b'p';
    assert_eq!(de(bytes), Err(FileIOError::MalformedHeader(MalformedHeaderError::ProgEnd)));
    let mut bytes = good.clone();
    bytes[end + 8 + 1] = b's';
    assert_eq!(de(bytes), Err(FileIOError::MalformedHeader(MalformedHeaderError::ScopeStart)));
    assert_eq!(
        de(good[..end + 8].to_vec()),
        Err(FileIOError::MalformedHeader(MalformedHeaderError::ScopeStart))
    );
    assert_eq!(
        de(good[..end].to_vec()),
        Err(FileIOError::MalformedHeader(MalformedHeaderError::ProgEnd))
    );
}

#[test]
fn a_chunk_cut_short_has_its_error() {
    let good = file(&[Bag::new().zip_up(), Bag::new().zip_up()], &empty_scope());
    let first = header().len() + 1 + 10;
    let missing = Err(FileIOError::MalformedBytecode(MalformedBytecodeError::MissingLenghtDecl));
    let eof = Err(FileIOError::MalformedBytecode(MalformedBytecodeError::UnexpectedEof));
    assert_eq!(de(good[..first].to_vec()), missing);
    assert_eq!(de(good[..first + 1].to_vec()), missing);
    assert_eq!(de(good[..first + 2].to_vec()), eof);
    assert_eq!(de(good[..first + 511].to_vec()), eof);
    assert_eq!(de(good[..first + 512].to_vec()), missing);
    assert_eq!(de(good[..first + 1023].to_vec()), eof);
    // more chunks announced than there are
    let mut bytes = good.clone();
    bytes[header().len()] = 3;
    assert_eq!(de(bytes), eof);
}

#[test]
fn a_scope_that_cannot_be_decoded_has_its_error() {
    for scope in [
        vec![],
        vec![0, 0, 0, 0, 0, 0, 0, 0, 0],
        vec![1, 0, 0, 0, 0, 0, 0, 0, 0, 0],
        vec![1, 0, 0, 0, 0, 0, 0, 0, 1, 0, 0, 0, 0, 0, 0, 0, 0xFF, 0, 1, 0],
    ] {
        let result = de(file(&[], &scope));
        assert!(matches!(
            result,
            Err(FileIOError::MalformedBytecode(MalformedBytecodeError::ValueDeser(_)))
        ));
    }
}

#[test]
fn the_scope_is_encoded_field_by_field() {
    let scope: CompilerScope = RawScope {
        vars: vec![
            Local { name: "first".to_string(), depth: 0 },
            Local { name: "zweite".to_string(), depth: 7 },
        ],
        num_vars: 2,
        depth: 3,
    };
    let encoded = encode_scope(&scope);
    assert_eq!(encoded, bincode::serialize(&(vec![("first", 0u8), ("zweite", 7u8)], 2u8, 3u8)).unwrap());
    assert_eq!(decode_scope(&encoded), Ok(scope.clone()));
    let mut followed = encoded.clone();
    followed.push(0x55);
    assert_eq!(decode_scope(&followed), Ok(scope));
    assert!(decode_scope(&encoded[..encoded.len() - 1]).is_err());
}

#[test]
fn consume_moves_behind_a_marker_that_matches() {
    let input = b"xxPROGSTART\nyy";
    let mut position = 2;
    assert_eq!(consume(input, &mut position, "PROGSTART\n", MalformedHeaderError::ProgStart), Ok(()));
    assert_eq!(position, 12);
    assert_eq!(
        consume(input, &mut position, "yyy", MalformedHeaderError::ProgEnd),
        Err(FileIOError::MalformedHeader(MalformedHeaderError::ProgEnd))
    );
    assert_eq!(position, 12);
    assert_eq!(consume(input, &mut position, "yy", MalformedHeaderError::ProgEnd), Ok(()));
    assert_eq!(position, 14);
    assert_eq!(consume(input, &mut position, "", MalformedHeaderError::ProgEnd), Ok(()));
    let mut position = 99;
    assert!(consume(input, &mut position, "", MalformedHeaderError::ProgEnd).is_err());
}

#[test]
fn the_number_of_chunks_is_written_modulo_256() {
    let mut compiler = Compiler::new(vec![]);
    for _ in 0..257 {
        compiler.new_block();
    }
    let binary = ser(&compiler).unwrap();
    assert_eq!(binary[header().len()], 1);
    assert_eq!(binary.len(), header().len() + 1 + 10 + 257 * 512 + 8 + 12 + 10);
}
