//! The file format of a compiled program.
//!
//! ```text
//! "BLUSHPROGRAM\n" <version> "\n"
//! <1 byte: the number of chunks>
//! "PROGSTART\n"
//! for each chunk:
//!   <1 byte: the bytes of bytecode in use>
//!   <1 byte: the bytes of constants in use>
//!   <255 bytes: the bytecode, padded>
//!   <255 bytes: the constants, padded>
//! "\nPROGEND"
//! "\nSCOPESTART\n"
//! <the scope: the number of variables as a `u64`; for each variable its
//!  name as a text and its depth as a byte; the count as a byte; the depth
//!  as a byte>
//! ```

use crate::bag::{opened_views, zipped_views, BagView, OpenedBag, ZippedView, CAPACITY};
use crate::codec::{
    decode_text, decode_u64, encode_text, encode_u64, le_bytes, le_value, lemma_le_round_trip, lemma_radix, lemma_text_bytes_len, lemma_text_round_trip, parse_text,
    parse_u64, radix, text_bytes, text_width,
};
use crate::compiler::Compiler;
use crate::error::fileio::{
    FileIOError, FileIOResult, MalformedBytecodeError, MalformedHeaderError,
};
use crate::runtime::environment::{CompilerScope, Local, LocalView, RawScope, ScopeView};
use vstd::array::array_as_slice;
use vstd::prelude::*;
use vstd::slice::{slice_subrange, slice_to_vec};
use vstd::string::StringExecFns;
use vstd::utf8::encode_utf8;

verus! {

/// The version of the format, as the header of a file names it.
pub const BLUSH_VER: &'static str = "0.0.1-pre_alpha";

/// The encoding of a variable: its name, then its depth.
pub open spec fn local_bytes(local: LocalView) -> Seq<u8> {
    text_bytes(local.name) + seq![local.depth]
}

/// The encodings of a list of variables, one after the other.
pub open spec fn locals_bytes(vars: Seq<LocalView>) -> Seq<u8>
    decreases vars.len(),
{
    if vars.len() == 0 {
        Seq::empty()
    } else {
        locals_bytes(vars.drop_last()) + local_bytes(vars.last())
    }
}

/// The encoding of a scope.
pub open spec fn scope_bytes(scope: ScopeView<LocalView>) -> Seq<u8> {
    le_bytes(scope.vars.len(), 8) + locals_bytes(scope.vars) + seq![scope.num_vars, scope.depth]
}

/// The variable that `bytes` begins with, and the number of bytes that it takes.
pub open spec fn parse_local(bytes: Seq<u8>) -> Option<(LocalView, nat)> {
    match parse_text(bytes) {
        None => None,
        Some(name) => {
            let width = text_width(bytes);
            if width < bytes.len() {
                Some((LocalView { name, depth: bytes[width as int] }, width + 1))
            } else {
                None
            }
        },
    }
}

/// The `count` variables that `bytes` begins with, and the number of bytes
/// that they take.
pub open spec fn parse_locals(bytes: Seq<u8>, count: nat) -> Option<(Seq<LocalView>, nat)>
    decreases count,
{
    if count == 0 {
        Some((Seq::empty(), 0))
    } else {
        match parse_locals(bytes, (count - 1) as nat) {
            None => None,
            Some((vars, used)) => if used > bytes.len() {
                None
            } else {
                match parse_local(bytes.skip(used as int)) {
                    None => None,
                    Some((local, width)) => Some((vars.push(local), used + width)),
                }
            },
        }
    }
}

/// The scope that `bytes` begins with, if it begins with one.
pub open spec fn parse_scope(bytes: Seq<u8>) -> Option<ScopeView<LocalView>> {
    match parse_u64(bytes) {
        None => None,
        Some(count) => match parse_locals(bytes.skip(8), count as nat) {
            None => None,
            Some((vars, used)) => if 8 + used + 2 <= bytes.len() {
                Some(
                    ScopeView {
                        vars,
                        num_vars: bytes[8 + used as int],
                        depth: bytes[8 + used as int + 1],
                    },
                )
            } else {
                None
            },
        },
    }
}

/// Every name of `vars` is short enough for its length to be written in eight bytes.
pub open spec fn encodable(vars: Seq<LocalView>) -> bool {
    forall|i: int| 0 <= i < vars.len() ==> encode_utf8(#[trigger] vars[i].name).len() < radix(8)
}

/// Where the parsing of `count` variables fails, so does that of more.
pub proof fn lemma_parse_locals_fails(bytes: Seq<u8>, count: nat, more: nat)
    requires
        parse_locals(bytes, count) is None,
        count <= more,
    ensures
        parse_locals(bytes, more) is None,
    decreases more,
{
    if count < more {
        lemma_parse_locals_fails(bytes, count, (more - 1) as nat);
    }
}

/// Encoded variables, whatever follows them, parse as those variables.
pub proof fn lemma_locals_round_trip(vars: Seq<LocalView>, rest: Seq<u8>)
    requires
        encodable(vars),
    ensures
        parse_locals(locals_bytes(vars) + rest, vars.len()) == Some(
            (vars, locals_bytes(vars).len()),
        ),
    decreases vars.len(),
{
    if vars.len() > 0 {
        let front = vars.drop_last();
        let last = vars.last();
        let bytes = locals_bytes(vars) + rest;
        assert(bytes =~= locals_bytes(front) + (local_bytes(last) + rest));
        lemma_locals_round_trip(front, local_bytes(last) + rest);
        let used = locals_bytes(front).len();
        assert(bytes.skip(used as int) =~= text_bytes(last.name) + (seq![last.depth] + rest));
        lemma_text_round_trip(last.name, seq![last.depth] + rest);
        lemma_text_bytes_len(last.name);
        assert(front.push(last) =~= vars);
    } else {
        assert(locals_bytes(vars) =~= Seq::<u8>::empty());
    }
}

/// An encoded scope, whatever follows it, parses as that scope.
pub proof fn lemma_scope_round_trip(scope: ScopeView<LocalView>, rest: Seq<u8>)
    requires
        encodable(scope.vars),
        scope.vars.len() < radix(8),
    ensures
        parse_scope(scope_bytes(scope) + rest) == Some(scope),
{
    lemma_radix();
    let bytes = scope_bytes(scope) + rest;
    let count = scope.vars.len();
    let tail = seq![scope.num_vars, scope.depth] + rest;
    lemma_le_round_trip(count, 8);
    assert(bytes.subrange(0, 8) =~= le_bytes(count, 8));
    assert(bytes.skip(8) =~= locals_bytes(scope.vars) + tail);
    lemma_locals_round_trip(scope.vars, tail);
    let used = locals_bytes(scope.vars).len();
    assert(bytes[8 + used as int] == scope.num_vars);
    assert(bytes[8 + used as int + 1] == scope.depth);
}

/// The encoding of a scope. It is one that [`parse_scope`] reads back as
/// the scope.
pub fn encode_scope(scope: &CompilerScope) -> (bytes: Vec<u8>)
    ensures
        bytes@ == scope_bytes(scope@),
        encodable(scope@.vars),
        scope@.vars.len() < radix(8),
        parse_scope(bytes@) == Some(scope@),
{
    proof {
        lemma_radix();
    }
    let mut bytes = encode_u64(scope.vars.len() as u64);
    let ghost count = bytes@;
    let mut i: usize = 0;
    while i < scope.vars.len()
        invariant
            i <= scope.vars@.len(),
            bytes@ == count + locals_bytes(scope@.vars.take(i as int)),
            encodable(scope@.vars.take(i as int)),
        decreases scope.vars@.len() - i,
    {
        let local = &scope.vars[i];
        let name = encode_text(local.name.as_str());
        let ghost width = name.len();
        bytes.extend_from_slice(name.as_slice());
        bytes.push(local.depth);
        proof {
            let next = scope@.vars.take(i + 1);
            assert(next.drop_last() =~= scope@.vars.take(i as int));
            assert(next.last() == local@);
            assert(bytes@ =~= count + locals_bytes(next));
            lemma_radix();
            lemma_text_bytes_len(local.name@);
            assert forall|k: int| 0 <= k < next.len() implies encode_utf8(
                #[trigger] next[k].name,
            ).len() < radix(8) by {
                if k < i {
                    assert(next[k] == scope@.vars.take(i as int)[k]);
                } else {
                    assert(next[k].name == local.name@);
                    assert(encode_utf8(local.name@).len() + 8 == width);
                }
            }
        }
        i += 1;
    }
    assert(scope@.vars.take(i as int) =~= scope@.vars);
    proof {
        lemma_scope_round_trip(scope@, Seq::empty());
        assert(scope_bytes(scope@) + Seq::<u8>::empty() =~= scope_bytes(scope@));
    }
    bytes.push(scope.num_vars);
    bytes.push(scope.depth);
    assert(bytes@ =~= scope_bytes(scope@));
    bytes
}

/// The scope at the start of `bytes`, or the reason why there is none.
pub fn decode_scope(bytes: &[u8]) -> (result: Result<CompilerScope, String>)
    ensures
        result is Ok <==> parse_scope(bytes@) is Some,
        result matches Ok(scope) ==> parse_scope(bytes@) == Some(scope@),
{
    let count = decode_u64(bytes)?;
    let body = slice_subrange(bytes, 8, bytes.len());
    assert(body@ =~= bytes@.skip(8));
    let mut vars: Vec<Local> = Vec::new();
    let mut used: usize = 0;
    let mut i: u64 = 0;
    while i < count
        invariant
            i <= count,
            parse_u64(bytes@) == Some(count),
            body@ == bytes@.skip(8),
            used <= body@.len(),
            parse_locals(body@, i as nat) == Some(
                (vars@.map_values(|local: Local| local@), used as nat),
            ),
        decreases count - i,
    {
        let ghost views = vars@.map_values(|local: Local| local@);
        let rest = slice_subrange(body, used, body.len());
        assert(rest@ =~= body@.skip(used as int));
        let name = match decode_text(rest) {
            Ok(name) => name,
            Err(error) => {
                proof {
                    lemma_parse_locals_fails(body@, (i + 1) as nat, count as nat);
                }
                return Err(error);
            },
        };
        proof {
            vstd::utf8::decode_utf8_encode_utf8(
                rest@.subrange(8, 8 + le_value(rest@.subrange(0, 8)) as int),
            );
        }
        let width = 8 + name.as_str().as_bytes().len();
        if width >= rest.len() {
            proof {
                lemma_parse_locals_fails(body@, (i + 1) as nat, count as nat);
            }
            return Err("unexpected end of input in a variable".to_owned());
        }
        let depth = rest[width];
        vars.push(Local { name, depth });
        used = used + width + 1;
        i += 1;
        proof {
            assert(vars@.map_values(|local: Local| local@) =~= views.push(
                LocalView { name: name@, depth },
            ));
        }
    }
    if body.len() - used < 2 {
        return Err("unexpected end of input in the scope".to_owned());
    }
    let num_vars = body[used];
    let depth = body[used + 1];
    let scope = RawScope { vars, num_vars, depth };
    Ok(scope)
}

/// Why a file is not a program.
pub enum FileFault {
    /// The marker did not match, or, for `NumBags`, the number of chunks is missing.
    Header(MalformedHeaderError),
    /// The two length bytes of a chunk are not both there.
    MissingLength,
    /// The input ends inside the buffers of a chunk.
    UnexpectedEof,
    /// The scope cannot be decoded.
    Scope,
}

impl FileFault {
    /// `error` reports this fault.
    pub open spec fn reported(self, error: FileIOError) -> bool {
        match self {
            FileFault::Header(marker) => error == FileIOError::MalformedHeader(marker),
            FileFault::MissingLength => error == FileIOError::MalformedBytecode(
                MalformedBytecodeError::MissingLenghtDecl,
            ),
            FileFault::UnexpectedEof => error == FileIOError::MalformedBytecode(
                MalformedBytecodeError::UnexpectedEof,
            ),
            FileFault::Scope => error matches FileIOError::MalformedBytecode(
                MalformedBytecodeError::ValueDeser(_),
            ),
        }
    }
}

/// The number of bytes that a chunk takes in a file.
pub open spec fn bag_width() -> nat {
    2 + 2 * CAPACITY as nat
}

/// The first line of a file and its second, which names the version.
pub open spec fn header() -> Seq<u8> {
    encode_utf8("BLUSHPROGRAM\n"@ + BLUSH_VER@ + "\n"@)
}

/// The marker before the chunks.
pub open spec fn prog_start() -> Seq<u8> {
    encode_utf8("PROGSTART\n"@)
}

/// The marker behind the chunks.
pub open spec fn prog_end() -> Seq<u8> {
    encode_utf8("\nPROGEND"@)
}

/// The marker before the scope.
pub open spec fn scope_start() -> Seq<u8> {
    encode_utf8("\nSCOPESTART\n"@)
}

/// `expected` stands in `input` at the offset `at`.
pub open spec fn matches_at(input: Seq<u8>, at: nat, expected: Seq<u8>) -> bool {
    at + expected.len() <= input.len() && input.subrange(at as int, (at + expected.len()) as int)
        == expected
}

/// A sealed chunk as it stands in a file.
pub open spec fn bag_bytes(bag: ZippedView) -> Seq<u8> {
    seq![bag.bytes_len, bag.consts_len] + bag.bytecode + bag.constants
}

/// Sealed chunks as they stand in a file, one after the other.
pub open spec fn bags_bytes(bags: Seq<ZippedView>) -> Seq<u8>
    decreases bags.len(),
{
    if bags.len() == 0 {
        Seq::empty()
    } else {
        bags_bytes(bags.drop_last()) + bag_bytes(bags.last())
    }
}

/// The file of a program: its sealed chunks and its scope. The number of
/// chunks is written in one byte, and so modulo 256.
pub open spec fn program_bytes(bags: Seq<ZippedView>, scope: ScopeView<LocalView>) -> Seq<u8> {
    header() + seq![(bags.len() % 256) as u8] + prog_start() + bags_bytes(bags) + prog_end()
        + scope_start() + scope_bytes(scope)
}

/// The chunk that stands in `input` at the offset `at`, opened.
pub open spec fn parse_bag(input: Seq<u8>, at: nat) -> Result<BagView, FileFault> {
    if at + 2 > input.len() {
        Err(FileFault::MissingLength)
    } else if at + bag_width() > input.len() {
        Err(FileFault::UnexpectedEof)
    } else {
        Ok(
            BagView {
                bytecode: input.subrange(at as int + 2, at as int + 2 + input[at as int] as int),
                constants: input.subrange(
                    at as int + 2 + CAPACITY as int,
                    at as int + 2 + CAPACITY as int + input[at as int + 1] as int,
                ),
            },
        )
    }
}

/// The `count` chunks that stand in `input` from the offset `start` on, opened.
pub open spec fn parse_bags(input: Seq<u8>, start: nat, count: nat) -> Result<
    Seq<BagView>,
    FileFault,
>
    decreases count,
{
    if count == 0 {
        Ok(Seq::empty())
    } else {
        match parse_bags(input, start, (count - 1) as nat) {
            Err(fault) => Err(fault),
            Ok(bags) => match parse_bag(input, start + bag_width() * (count - 1) as nat) {
                Err(fault) => Err(fault),
                Ok(bag) => Ok(bags.push(bag)),
            },
        }
    }
}

/// The program that the file `input` holds: its chunks, opened, and its
/// scope; or the first fault of the file.
pub open spec fn parse(input: Seq<u8>) -> Result<(Seq<BagView>, ScopeView<LocalView>), FileFault> {
    let counted = header().len();
    let started = counted + 1 + prog_start().len();
    if !matches_at(input, 0, header()) {
        Err(FileFault::Header(MalformedHeaderError::BlushProgramDecl))
    } else if counted >= input.len() {
        Err(FileFault::Header(MalformedHeaderError::NumBags))
    } else if !matches_at(input, counted + 1, prog_start()) {
        Err(FileFault::Header(MalformedHeaderError::ProgStart))
    } else {
        let count = input[counted as int] as nat;
        let ended = started + bag_width() * count;
        let scoped = ended + prog_end().len() + scope_start().len();
        match parse_bags(input, started, count) {
            Err(fault) => Err(fault),
            Ok(bags) => if !matches_at(input, ended, prog_end()) {
                Err(FileFault::Header(MalformedHeaderError::ProgEnd))
            } else if !matches_at(input, ended + prog_end().len(), scope_start()) {
                Err(FileFault::Header(MalformedHeaderError::ScopeStart))
            } else {
                match parse_scope(input.skip(scoped as int)) {
                    None => Err(FileFault::Scope),
                    Some(scope) => Ok((bags, scope)),
                }
            },
        }
    }
}

/// The text of the first two lines of a file.
fn header_text() -> (text: String)
    ensures
        encode_utf8(text@) == header(),
{
    let mut text = String::from_str("BLUSHPROGRAM\n");
    text.append(BLUSH_VER);
    text.append("\n");
    text
}

/// The file of the program that `compiler` has compiled: its sealed chunks
/// and its scope. A file of up to 255 chunks is one that [`de`] reads back
/// as the program.
pub fn ser(compiler: &Compiler) -> (result: FileIOResult<Vec<u8>>)
    ensures
        result matches Ok(bytes) && bytes@ == program_bytes(
            compiler@.baggage,
            compiler@.scope,
        ) && (compiler@.baggage.len() <= 255 ==> parse(bytes@) == Ok::<
            (Seq<BagView>, ScopeView<LocalView>),
            FileFault,
        >((opened(compiler@.baggage), compiler@.scope))),
{
    let baggage = compiler.baggage();
    let mut output: Vec<u8> = Vec::new();
    let first = header_text();
    output.extend_from_slice(first.as_str().as_bytes());
    output.push((baggage.len() % 256) as u8);
    output.extend_from_slice("PROGSTART\n".as_bytes());
    let ghost front = output@;
    assert(front =~= header() + seq![(compiler@.baggage.len() % 256) as u8] + prog_start());
    let mut i: usize = 0;
    while i < baggage.len()
        invariant
            i <= baggage@.len(),
            output@ == front + bags_bytes(zipped_views(baggage@).take(i as int)),
        decreases baggage@.len() - i,
    {
        let bag = &baggage[i];
        output.push(bag.bytes_len);
        output.push(bag.consts_len);
        output.extend_from_slice(array_as_slice(&bag.bytecode));
        output.extend_from_slice(array_as_slice(&bag.constants));
        proof {
            let next = zipped_views(baggage@).take(i + 1);
            assert(next.drop_last() =~= zipped_views(baggage@).take(i as int));
            assert(next.last() == bag@);
            assert(output@ =~= front + bags_bytes(next));
        }
        i += 1;
    }
    assert(zipped_views(baggage@).take(i as int) =~= zipped_views(baggage@));
    output.extend_from_slice("\nPROGEND".as_bytes());
    output.extend_from_slice("\nSCOPESTART\n".as_bytes());
    let scope = encode_scope(compiler.scope());
    output.extend_from_slice(scope.as_slice());
    assert(output@ =~= program_bytes(compiler@.baggage, compiler@.scope));
    proof {
        if compiler@.baggage.len() <= 255 {
            assert(sealed(compiler@.baggage)) by {
                assert forall|k: int| 0 <= k < compiler@.baggage.len() implies (
                #[trigger] compiler@.baggage[k]).wf() by {
                    assert(compiler@.baggage[k] == baggage@[k]@);
                }
            }
            lemma_program_round_trip(compiler@.baggage, compiler@.scope);
        }
    }
    Ok(output)
}

/// Reads the marker `expected` from `input` at `position`, and moves
/// `position` behind it. Where other bytes stand there, or too few, the
/// result is the malformed header `kind`, and `position` stays.
pub fn consume(
    input: &[u8],
    position: &mut usize,
    expected: &str,
    kind: MalformedHeaderError,
) -> (result: FileIOResult<()>)
    ensures
        matches_at(input@, *old(position) as nat, encode_utf8(expected@)) ==> result is Ok
            && *final(position) == *old(position) + encode_utf8(expected@).len(),
        !matches_at(input@, *old(position) as nat, encode_utf8(expected@)) ==> result == Err::<
            (),
            FileIOError,
        >(FileIOError::MalformedHeader(kind)) && *final(position) == *old(position),
{
    let bytes = expected.as_bytes();
    let start = *position;
    if start > input.len() || bytes.len() > input.len() - start {
        return Err(FileIOError::MalformedHeader(kind));
    }
    let mut i: usize = 0;
    while i < bytes.len()
        invariant
            i <= bytes@.len(),
            start + bytes@.len() <= input@.len() <= usize::MAX,
            bytes@ == encode_utf8(expected@),
            *position == start,
            input@.subrange(start as int, start + i) == bytes@.subrange(0, i as int),
        decreases bytes@.len() - i,
    {
        if input[start + i] != bytes[i] {
            proof {
                let found = input@.subrange(start as int, start + bytes@.len());
                assert(found[i as int] != bytes@[i as int]);
            }
            return Err(FileIOError::MalformedHeader(kind));
        }
        proof {
            assert(input@.subrange(start as int, start + i + 1) =~= input@.subrange(
                start as int,
                start + i,
            ).push(input@[start + i]));
            assert(bytes@.subrange(0, i + 1) =~= bytes@.subrange(0, i as int).push(bytes@[i as int]));
        }
        i += 1;
    }
    assert(bytes@.subrange(0, i as int) =~= bytes@);
    *position = start + bytes.len();
    Ok(())
}

/// Reads the file of a program: its chunks, opened, and its scope. The
/// first fault of the file is the error.
pub fn de(input: Vec<u8>) -> (result: FileIOResult<(Vec<OpenedBag>, CompilerScope)>)
    ensures
        match parse(input@) {
            Ok((bags, scope)) => result matches Ok((found, declared)) && opened_views(found@)
                == bags && declared@ == scope,
            Err(fault) => result matches Err(error) && fault.reported(error),
        },
{
    let bytes = input.as_slice();
    let mut position: usize = 0;
    let first = header_text();
    consume(bytes, &mut position, first.as_str(), MalformedHeaderError::BlushProgramDecl)?;
    if position >= bytes.len() {
        return Err(FileIOError::MalformedHeader(MalformedHeaderError::NumBags));
    }
    let num_bags = bytes[position];
    position += 1;
    consume(bytes, &mut position, "PROGSTART\n", MalformedHeaderError::ProgStart)?;
    let ghost started = position as nat;
    let mut bags: Vec<OpenedBag> = Vec::new();
    let mut i: u8 = 0;
    assert(opened_views(bags@) =~= Seq::empty());
    while i < num_bags
        invariant
            i <= num_bags,
            bytes@ == input@,
            bytes@.len() <= usize::MAX,
            matches_at(input@, 0, header()),
            header().len() < input@.len(),
            input@[header().len() as int] == num_bags,
            matches_at(input@, header().len() + 1, prog_start()),
            started == header().len() + 1 + prog_start().len(),
            position == started + bag_width() * i as nat,
            position <= bytes@.len(),
            parse_bags(input@, started, i as nat) == Ok::<Seq<BagView>, FileFault>(
                opened_views(bags@),
            ),
        decreases num_bags - i,
    {
        let ghost views = opened_views(bags@);
        if bytes.len() - position < 2 {
            proof {
                lemma_parse_bags_fails(input@, started, (i + 1) as nat, num_bags as nat);
            }
            return Err(FileIOError::MalformedBytecode(MalformedBytecodeError::MissingLenghtDecl));
        }
        let bytes_len = bytes[position] as usize;
        let consts_len = bytes[position + 1] as usize;
        if bytes.len() - position < 2 + 2 * CAPACITY {
            proof {
                lemma_parse_bags_fails(input@, started, (i + 1) as nat, num_bags as nat);
            }
            return Err(FileIOError::MalformedBytecode(MalformedBytecodeError::UnexpectedEof));
        }
        let bytecode = slice_to_vec(slice_subrange(bytes, position + 2, position + 2 + bytes_len));
        let constants = slice_to_vec(
            slice_subrange(
                bytes,
                position + 2 + CAPACITY,
                position + 2 + CAPACITY + consts_len,
            ),
        );
        bags.push(OpenedBag { bytecode, constants });
        proof {
            assert(bag_width() * (i + 1) as nat == bag_width() * i as nat + bag_width())
                by (nonlinear_arith);
            assert(opened_views(bags@) =~= views.push(
                BagView { bytecode: bytecode@, constants: constants@ },
            ));
        }
        position += 2 + 2 * CAPACITY;
        i += 1;
    }
    consume(bytes, &mut position, "\nPROGEND", MalformedHeaderError::ProgEnd)?;
    consume(bytes, &mut position, "\nSCOPESTART\n", MalformedHeaderError::ScopeStart)?;
    let rest = slice_subrange(bytes, position, bytes.len());
    assert(rest@ =~= input@.skip(position as int));
    match decode_scope(rest) {
        Ok(scope) => Ok((bags, scope)),
        Err(error) => Err(
            FileIOError::MalformedBytecode(MalformedBytecodeError::ValueDeser(error)),
        ),
    }
}

/// Where the parsing of `count` chunks fails, that of more fails in the same way.
pub proof fn lemma_parse_bags_fails(input: Seq<u8>, start: nat, count: nat, more: nat)
    requires
        parse_bags(input, start, count) is Err,
        count <= more,
    ensures
        parse_bags(input, start, more) == parse_bags(input, start, count),
    decreases more,
{
    if count < more {
        lemma_parse_bags_fails(input, start, count, (more - 1) as nat);
    }
}

/// Every chunk of `bags` has buffers of the size of the wire form.
pub open spec fn sealed(bags: Seq<ZippedView>) -> bool {
    forall|i: int| 0 <= i < bags.len() ==> (#[trigger] bags[i]).wf()
}

/// The chunks of `bags`, opened.
pub open spec fn opened(bags: Seq<ZippedView>) -> Seq<BagView> {
    bags.map_values(|bag: ZippedView| bag.open())
}

/// Sealed chunks take the same number of bytes each.
pub proof fn lemma_bags_bytes_len(bags: Seq<ZippedView>)
    requires
        sealed(bags),
    ensures
        bags_bytes(bags).len() == bag_width() * bags.len(),
    decreases bags.len(),
{
    if bags.len() > 0 {
        lemma_bags_bytes_len(bags.drop_last());
        assert(bags.last().wf());
        assert(bag_width() * bags.len() == bag_width() * (bags.len() - 1) as nat + bag_width())
            by (nonlinear_arith)
            requires
                bags.len() > 0,
        ;
    }
}

/// Where sealed chunks stand in a file, the first `count` of them are
/// parsed as they were, opened.
pub proof fn lemma_parse_written_bags(
    before: Seq<u8>,
    bags: Seq<ZippedView>,
    behind: Seq<u8>,
    count: nat,
)
    requires
        sealed(bags),
        count <= bags.len(),
    ensures
        parse_bags(before + bags_bytes(bags) + behind, before.len(), count) == Ok::<
            Seq<BagView>,
            FileFault,
        >(opened(bags.take(count as int))),
    decreases bags.len(), count,
{
    let input = before + bags_bytes(bags) + behind;
    if count == 0 {
        assert(opened(bags.take(0)) =~= Seq::empty());
    } else if count < bags.len() {
        let front = bags.drop_last();
        assert(sealed(front));
        assert(input =~= before + bags_bytes(front) + (bag_bytes(bags.last()) + behind));
        lemma_parse_written_bags(before, front, bag_bytes(bags.last()) + behind, count);
        assert(front.take(count as int) =~= bags.take(count as int));
    } else {
        let front = bags.drop_last();
        let last = bags.last();
        assert(sealed(front));
        assert(last.wf());
        assert(input =~= before + bags_bytes(front) + (bag_bytes(last) + behind));
        lemma_parse_written_bags(before, front, bag_bytes(last) + behind, (count - 1) as nat);
        lemma_bags_bytes_len(front);
        assert(front.take(count - 1) =~= front);
        let at = before.len() + bag_width() * (count - 1) as nat;
        assert(input.subrange(at as int, (at + bag_width()) as int) =~= bag_bytes(last));
        assert(input[at as int] == bag_bytes(last)[0]);
        assert(input[at as int + 1] == bag_bytes(last)[1]);
        let parsed = parse_bag(input, at)->Ok_0;
        assert(parsed.bytecode =~= last.open().bytecode);
        assert(parsed.constants =~= last.open().constants);
        assert(opened(front).push(last.open()) =~= opened(bags.take(count as int)));
    }
}

/// A program that is read back from its file is the program that was
/// written: the same chunks in the same order, opened, and the same scope.
/// This holds of up to 255 sealed chunks, since the file gives their number
/// in one byte.
pub proof fn lemma_program_round_trip(bags: Seq<ZippedView>, scope: ScopeView<LocalView>)
    requires
        sealed(bags),
        bags.len() <= 255,
        encodable(scope.vars),
        scope.vars.len() < radix(8),
    ensures
        parse(program_bytes(bags, scope)) == Ok::<
            (Seq<BagView>, ScopeView<LocalView>),
            FileFault,
        >((opened(bags), scope)),
{
    let input = program_bytes(bags, scope);
    let count = seq![(bags.len() % 256) as u8];
    let before = header() + count + prog_start();
    let behind = prog_end() + scope_start() + scope_bytes(scope);
    let counted = header().len();
    let started = counted + 1 + prog_start().len();
    let ended = started + bag_width() * bags.len();
    let scoped = ended + prog_end().len() + scope_start().len();
    lemma_bags_bytes_len(bags);
    assert(input =~= before + bags_bytes(bags) + behind);
    assert(input.subrange(0, counted as int) =~= header());
    assert(input[counted as int] == bags.len());
    assert(input.subrange(counted as int + 1, started as int) =~= prog_start());
    lemma_parse_written_bags(before, bags, behind, bags.len());
    assert(bags.take(bags.len() as int) =~= bags);
    assert(input.subrange(ended as int, (ended + prog_end().len()) as int) =~= prog_end());
    assert(input.subrange((ended + prog_end().len()) as int, scoped as int) =~= scope_start());
    assert(input.skip(scoped as int) =~= scope_bytes(scope));
    lemma_scope_round_trip(scope, Seq::empty());
    assert(scope_bytes(scope) + Seq::<u8>::empty() =~= scope_bytes(scope));
}

/// The encoding of a text that is made of two is made of their encodings.
pub proof fn lemma_encode_utf8_concat(first: Seq<char>, second: Seq<char>)
    ensures
        encode_utf8(first + second) == encode_utf8(first) + encode_utf8(second),
    decreases first.len(),
{
    if first.len() == 0 {
        assert(first + second =~= second);
        assert(encode_utf8(first) + encode_utf8(second) =~= encode_utf8(second));
    } else {
        assert((first + second).drop_first() =~= first.drop_first() + second);
        lemma_encode_utf8_concat(first.drop_first(), second);
        assert(encode_utf8(first + second) =~= encode_utf8(first) + encode_utf8(second));
    }
}

/// A file that does not begin with the line `BLUSHPROGRAM` is no program:
/// its fault is the malformed header of that name.
pub proof fn lemma_wrong_first_line(input: Seq<u8>)
    requires
        !matches_at(input, 0, encode_utf8("BLUSHPROGRAM\n"@)),
    ensures
        parse(input) == Err::<(Seq<BagView>, ScopeView<LocalView>), FileFault>(
            FileFault::Header(MalformedHeaderError::BlushProgramDecl),
        ),
{
    let line = encode_utf8("BLUSHPROGRAM\n"@);
    let rest = encode_utf8(BLUSH_VER@ + "\n"@);
    assert("BLUSHPROGRAM\n"@ + BLUSH_VER@ + "\n"@ =~= "BLUSHPROGRAM\n"@ + (BLUSH_VER@ + "\n"@));
    lemma_encode_utf8_concat("BLUSHPROGRAM\n"@, BLUSH_VER@ + "\n"@);
    if matches_at(input, 0, header()) {
        assert(input.subrange(0, line.len() as int) =~= header().subrange(0, line.len() as int));
        assert(header().subrange(0, line.len() as int) =~= line);
    }
}

} // verus!
