//! What the compiler computes, as functions on a mathematical state.
//!
//! Every function takes the state before and gives either the state after,
//! with a result, or the error that stops the compilation, with the state
//! in which it stops.

use crate::bag::{BagView, ZippedView, CAPACITY};
use crate::codec::value_bytes;
use crate::error::compiler::{CompilerError, RegisterError, TokenError};
use crate::instruction::Instruction;
use crate::runtime::environment::{LocalView, ScopeView};
use crate::scanner::{Token, TokenKind};
use crate::value::ValueView;
use vstd::prelude::*;

verus! {

/// A token with its text as a sequence of characters.
pub struct TokenView {
    pub kind: TokenKind,
    pub lexeme: Seq<char>,
}

impl View for Token {
    type V = TokenView;

    open spec fn view(&self) -> TokenView {
        TokenView { kind: self.kind, lexeme: self.lexeme@ }
    }
}

/// A compiler error with its texts as sequences of characters.
pub enum ErrorView {
    External(Seq<char>, Seq<char>),
    Expected { reason: Seq<char>, expected: Option<TokenKind>, recieved: Option<TokenKind> },
    EarlyEof,
    NoEmptyRegisters,
}

impl View for CompilerError {
    type V = ErrorView;

    open spec fn view(&self) -> ErrorView {
        match self {
            CompilerError::ExternalError(label, message) => ErrorView::External(label@, message@),
            CompilerError::TokenError(TokenError::ExpectedToken { reason, expected, recieved }) => {
                ErrorView::Expected { reason: reason@, expected: *expected, recieved: *recieved }
            },
            CompilerError::TokenError(TokenError::EarlyEof) => ErrorView::EarlyEof,
            CompilerError::RegisterError(RegisterError::NoEmptyRegisters) => {
                ErrorView::NoEmptyRegisters
            },
        }
    }
}

/// The state of a compilation.
pub struct State {
    /// The tokens of the source.
    pub tokens: Seq<TokenView>,
    /// The number of tokens read so far.
    pub position: nat,
    /// The chunks that are sealed.
    pub baggage: Seq<ZippedView>,
    /// The chunk in the making.
    pub bag: BagView,
    /// The registers that are free, the next to be handed out first.
    pub registers: Seq<u8>,
    /// The variables declared so far.
    pub scope: ScopeView<LocalView>,
}

/// The end of a compilation by an error: the error, and the state in which
/// the compilation stops.
pub struct Failure {
    pub state: State,
    pub error: ErrorView,
}

/// The state after a step together with the step's result, or the failure
/// that ends the compilation.
pub type Outcome<T> = Result<(State, T), Failure>;

/// The operators of a precedence level, from 1 (`*` and `/`) to 4 (`==` and
/// `!=`): for each its token, its opcode, and whether its operands are
/// emitted in reverse.
pub open spec fn operators(level: nat) -> Seq<(TokenKind, Instruction, bool)> {
    if level == 1 {
        seq![
            (TokenKind::Star, Instruction::Mul, false),
            (TokenKind::Slash, Instruction::Div, false),
        ]
    } else if level == 2 {
        seq![
            (TokenKind::Plus, Instruction::Add, false),
            (TokenKind::Minus, Instruction::Sub, false),
        ]
    } else if level == 3 {
        seq![
            (TokenKind::Less, Instruction::Lt, false),
            (TokenKind::Greater, Instruction::Lt, true),
            (TokenKind::LessEqual, Instruction::Le, false),
            (TokenKind::GreaterEqual, Instruction::Le, true),
        ]
    } else {
        seq![
            (TokenKind::EqualEqual, Instruction::Eq, false),
            (TokenKind::BangEqual, Instruction::Ne, false),
        ]
    }
}

/// Whether the operators of a level put their result into a register of its own.
pub open spec fn stores(level: nat) -> bool {
    level <= 2
}

/// The prefix operators: for each its token and its opcode.
pub open spec fn prefix_operators() -> Seq<(TokenKind, Instruction)> {
    seq![(TokenKind::Minus, Instruction::Neg), (TokenKind::Bang, Instruction::Not)]
}

/// The tokens of a list of operators.
pub open spec fn operator_tokens(operators: Seq<(TokenKind, Instruction, bool)>) -> Seq<
    TokenKind,
> {
    operators.map_values(|operator: (TokenKind, Instruction, bool)| operator.0)
}

/// The tokens of the prefix operators.
pub open spec fn prefix_tokens() -> Seq<TokenKind> {
    prefix_operators().map_values(|operator: (TokenKind, Instruction)| operator.0)
}

/// The first place at or after `from` at which `kind` stands in `expected`.
pub open spec fn first_match(expected: Seq<TokenKind>, kind: TokenKind, from: nat) -> Option<
    usize,
>
    decreases expected.len() - from,
{
    if from >= expected.len() {
        None
    } else if expected[from as int] == kind {
        Some(from as usize)
    } else {
        first_match(expected, kind, from + 1)
    }
}

/// The error for a sub-parse that succeeds without reading a token. No
/// sequence of tokens leads here, as the module `progress` proves; the
/// branches that hold it show that every parse comes to an end.
pub open spec fn stuck() -> ErrorView {
    ErrorView::EarlyEof
}

impl State {
    /// The state in which the compilation of `tokens` begins: nothing read,
    /// no chunk sealed, an empty chunk, the registers 0 to 15 free, no
    /// variable declared.
    pub open spec fn start(tokens: Seq<TokenView>) -> State {
        State {
            tokens,
            position: 0,
            baggage: Seq::empty(),
            bag: BagView::empty(),
            registers: Seq::new(16, |i: int| i as u8),
            scope: ScopeView::<LocalView>::empty(),
        }
    }

    /// The state is valid: the cursor is within the tokens, and neither
    /// buffer of the chunk in the making has reached [`CAPACITY`].
    pub open spec fn wf(self) -> bool {
        self.position <= self.tokens.len() && self.bag.bytecode.len() < CAPACITY
            && self.bag.constants.len() < CAPACITY
    }

    /// The number of tokens not read yet.
    pub open spec fn left(self) -> nat {
        if self.position <= self.tokens.len() {
            (self.tokens.len() - self.position) as nat
        } else {
            0
        }
    }

    /// The class of the next token; `None` at the end of the input.
    pub open spec fn peek(self) -> Option<TokenKind> {
        if self.position < self.tokens.len() {
            Some(self.tokens[self.position as int].kind)
        } else {
            None
        }
    }

    /// The state with the next token read; at the end of the input, the state itself.
    pub open spec fn advance(self) -> State {
        if self.position < self.tokens.len() {
            State { position: self.position + 1, ..self }
        } else {
            self
        }
    }

    /// The text of the token read last.
    pub open spec fn lexeme(self) -> Seq<char> {
        if 0 < self.position <= self.tokens.len() {
            self.tokens[self.position - 1].lexeme
        } else {
            Seq::empty()
        }
    }

    /// The failure with `error` in this state.
    pub open spec fn fails<T>(self, error: ErrorView) -> Outcome<T> {
        Err(Failure { state: self, error })
    }

    /// The state without chunks: none sealed, and an empty one in the making.
    pub open spec fn cleared(self) -> State {
        State { baggage: Seq::empty(), bag: BagView::empty(), ..self }
    }

    /// Reads the next token, which has to be of the class `kind` (`None`:
    /// the input has to be at its end). The token is read even if it is
    /// another.
    pub open spec fn consume(self, kind: Option<TokenKind>, why: Seq<char>) -> Outcome<()> {
        if self.peek() == kind {
            Ok((self.advance(), ()))
        } else {
            self.advance().fails(
                ErrorView::Expected { reason: why, expected: kind, recieved: self.peek() },
            )
        }
    }

    /// Reads the next token if it is of the class `expected`, and tells whether it was.
    pub open spec fn tag(self, expected: Option<TokenKind>) -> (State, bool) {
        if self.peek() == expected {
            (self.advance(), true)
        } else {
            (self, false)
        }
    }

    /// Reads the next token if its class is one of `expected`, and tells the
    /// first place at which it stands there.
    pub open spec fn tag_any(self, expected: Seq<TokenKind>) -> (State, Option<usize>) {
        match self.peek() {
            Some(kind) => match first_match(expected, kind, 0) {
                Some(place) => (self.advance(), Some(place)),
                None => (self, None),
            },
            None => (self, None),
        }
    }

    /// Takes the register that has been free for longest. Where none is
    /// free, the state stays as it is.
    pub open spec fn use_register(self) -> Outcome<u8> {
        if self.registers.len() == 0 {
            self.fails(ErrorView::NoEmptyRegisters)
        } else {
            Ok((State { registers: self.registers.remove(0), ..self }, self.registers[0]))
        }
    }

    /// Hands a register back: it is the last to be handed out again.
    pub open spec fn free_register(self, register: u8) -> State {
        State { registers: self.registers.push(register), ..self }
    }

    /// Seals the chunk in the making and begins an empty one.
    pub open spec fn new_block(self) -> State {
        State { baggage: self.baggage.push(self.bag.seal()), bag: BagView::empty(), ..self }
    }

    /// Whether an instruction with `operands` operand bytes does not fit the
    /// chunk in the making.
    pub open spec fn instruction_overflows(self, operands: nat) -> bool {
        self.bag.overflow(1 + operands, 0) is Some
    }

    /// Appends an instruction to the chunk in the making; if it does not fit,
    /// seals that chunk first and appends to a new one.
    pub open spec fn emit_byte(self, instruction: Instruction, arguments: Seq<u8>) -> State {
        let target = if self.instruction_overflows(arguments.len()) {
            self.new_block()
        } else {
            self
        };
        State { bag: target.bag.with_instruction(instruction, arguments), ..target }
    }

    /// Takes a register and appends to the chunk in the making the constant
    /// `value` and the instruction that loads it into that register; if they
    /// do not fit, seals that chunk first and appends to a new one. Where no
    /// register is free, and where the constant does not fit an empty chunk,
    /// this is an error, and the state stays as it is: no register is taken,
    /// no chunk sealed, nothing appended.
    pub open spec fn emit_const(self, value: ValueView) -> Outcome<u8> {
        match self.use_register() {
            Err(failure) => Err(failure),
            Ok((taken, store)) => {
                let encoded = value_bytes(value);
                if taken.bag.overflow(4, encoded.len()) is None {
                    Ok((State { bag: taken.bag.with_constant(encoded, store), ..taken }, store))
                } else if encoded.len() >= CAPACITY {
                    self.fails(ErrorView::External("BagError"@, "Full(Constants)"@))
                } else {
                    let fresh = taken.new_block();
                    Ok((State { bag: fresh.bag.with_constant(encoded, store), ..fresh }, store))
                }
            },
        }
    }

    /// Enters a block.
    pub open spec fn begin_scope(self) -> State {
        State { scope: self.scope.begin(), ..self }
    }

    /// Leaves a block.
    pub open spec fn end_scope(self) -> State {
        State { scope: self.scope.end(), ..self }
    }

    /// Declares a variable with the text of the token read last as its name,
    /// and gives its slot.
    pub open spec fn declare_variable(self) -> (State, u8) {
        (State { scope: self.scope.declare(self.lexeme()), ..self }, self.scope.num_vars)
    }

    /// Emits the text of the token read last as a constant.
    pub open spec fn ident_const(self) -> Outcome<u8> {
        self.emit_const(ValueView::Text(self.lexeme()))
    }

    /// Reads the name of a variable, declares it, and emits its name as a
    /// constant; gives the slot of the variable.
    pub open spec fn parse_variable(self, why: Seq<char>) -> Outcome<u8> {
        match self.consume(Some(TokenKind::Identifier), why) {
            Err(error) => Err(error),
            Ok((named, _)) => {
                let (declared, slot) = named.declare_variable();
                match declared.ident_const() {
                    Err(error) => Err(error),
                    Ok((emitted, _)) => Ok((emitted, slot)),
                }
            },
        }
    }

    /// Emits `Let` for the variable in `slot` and the value in the register `value`.
    pub open spec fn define_variable(self, slot: u8, value: u8) -> State {
        self.emit_byte(Instruction::Let, seq![slot, value])
    }

    /// `program := (let-decl | statement)* EOF`, and the last chunk sealed.
    /// After an error no chunk is left.
    pub open spec fn compile(self) -> Outcome<()> {
        match self.program() {
            Err(failure) => failure.state.cleared().fails(failure.error),
            Ok(done) => Ok(done),
        }
    }

    /// `program := (let-decl | statement)* EOF`, and the last chunk sealed.
    pub open spec fn program(self) -> Outcome<()> {
        match self.declarations(None) {
            Err(error) => Err(error),
            Ok((parsed, _)) => match parsed.consume(None, "Expected end of expression"@) {
                Err(error) => Err(error),
                Ok((ended, _)) => Ok((ended.new_block(), ())),
            },
        }
    }

    /// `(let-decl | statement)*`, up to the end of the input or, if `closing`
    /// names a token, up to that token.
    pub open spec fn declarations(self, closing: Option<TokenKind>) -> Outcome<()>
        decreases self.left(), 16nat,
    {
        if self.peek() is None || self.peek() == closing {
            Ok((self, ()))
        } else {
            match self.declaration() {
                Err(error) => Err(error),
                Ok((declared, _)) => if declared.left() < self.left() {
                    declared.declarations(closing)
                } else {
                    self.fails(stuck())
                },
            }
        }
    }

    /// `let-decl | statement`
    pub open spec fn declaration(self) -> Outcome<()>
        decreases self.left(), 15nat,
    {
        let (read, is_let) = self.tag(Some(TokenKind::Let));
        if is_let {
            read.let_declaration()
        } else {
            match self.statement() {
                Err(error) => Err(error),
                Ok((stated, _)) => Ok((stated, ())),
            }
        }
    }

    /// `let-decl := 'let' IDENT '=' expression ';'`, after the `let`.
    pub open spec fn let_declaration(self) -> Outcome<()>
        decreases self.left(), 14nat,
    {
        match self.parse_variable("Expected variable name after 'let'."@) {
            Err(error) => Err(error),
            Ok((named, slot)) => match named.consume(
                Some(TokenKind::Equal),
                "Variables must be initialized."@,
            ) {
                Err(error) => Err(error),
                Ok((assigned, _)) => if assigned.left() <= self.left() {
                    match assigned.expression() {
                        Err(error) => Err(error),
                        Ok((valued, value)) => match valued.consume(
                            Some(TokenKind::Semicolon),
                            "Expected ';' after variable declaration"@,
                        ) {
                            Err(error) => Err(error),
                            Ok((ended, _)) => Ok((ended.define_variable(slot, value), ())),
                        },
                    }
                } else {
                    self.fails(stuck())
                },
            },
        }
    }

    /// `statement := block | expr-stmt`; gives the register of the value.
    pub open spec fn statement(self) -> Outcome<u8>
        decreases self.left(), 14nat,
    {
        let (read, braced) = self.tag(Some(TokenKind::LeftBrace));
        if braced {
            match read.begin_scope().block() {
                Err(error) => Err(error),
                Ok((closed, value)) => Ok((closed.end_scope(), value)),
            }
        } else {
            self.expression_stmt()
        }
    }

    /// `block := '{' (let-decl | statement)* '}'`, after the `{`; gives the register 0.
    pub open spec fn block(self) -> Outcome<u8>
        decreases self.left(), 17nat,
    {
        match self.declarations(Some(TokenKind::RightBrace)) {
            Err(error) => Err(error),
            Ok((parsed, _)) => match parsed.consume(
                Some(TokenKind::RightBrace),
                "Expect '}' after block."@,
            ) {
                Err(error) => Err(error),
                Ok((closed, _)) => Ok((closed, 0u8)),
            },
        }
    }

    /// `expr-stmt := expression ';'`
    pub open spec fn expression_stmt(self) -> Outcome<u8>
        decreases self.left(), 13nat,
    {
        match self.expression() {
            Err(error) => Err(error),
            Ok((valued, value)) => match valued.consume(
                Some(TokenKind::Semicolon),
                "Expected ';' at end of expression"@,
            ) {
                Err(error) => Err(error),
                Ok((ended, _)) => Ok((ended, value)),
            },
        }
    }

    /// `expression := equality`
    pub open spec fn expression(self) -> Outcome<u8>
        decreases self.left(), 12nat,
    {
        self.binop(4)
    }

    /// The expressions of a level: an operand, then any number of the
    /// level's operators, each with one more operand.
    ///
    /// `equality := comparison (('=='|'!=') comparison)*`,
    /// `comparison := term (('<'|'>'|'<='|'>=') term)*`,
    /// `term := factor (('+'|'-') factor)*`,
    /// `factor := unary (('*'|'/') unary)*`.
    pub open spec fn binop(self, level: nat) -> Outcome<u8>
        decreases self.left(), 2 * level + 3,
    {
        if 1 <= level <= 4 {
            match self.operand(level) {
                Err(error) => Err(error),
                Ok((read, lhs)) => if read.left() < self.left() {
                    read.binop_rest(level, lhs)
                } else {
                    self.fails(stuck())
                },
            }
        } else {
            self.fails(stuck())
        }
    }

    /// An operand of a level: an expression of the level below, or, below
    /// the lowest level, a unary expression.
    pub open spec fn operand(self, level: nat) -> Outcome<u8>
        decreases self.left(), 2 * level + 2,
    {
        if level <= 1 {
            self.unary()
        } else {
            self.binop((level - 1) as nat)
        }
    }

    /// What follows the first operand of a level, whose value is in `lhs`:
    /// for each operator, the right operand is parsed, the instruction is
    /// emitted with the two operands (in reverse for `>` and `>=`) and, on a
    /// level that stores, a register taken for the result, and then both
    /// operand registers are freed. The result, which is the left operand of
    /// the next operator, is that register, or 0 on a level that does not store.
    pub open spec fn binop_rest(self, level: nat, lhs: u8) -> Outcome<u8>
        decreases self.left(), 0nat,
    {
        let (read, found) = self.tag_any(operator_tokens(operators(level)));
        match found {
            None => Ok((self, lhs)),
            Some(place) => match read.operand(level) {
                Err(error) => Err(error),
                Ok((parsed, rhs)) => {
                    let operator = operators(level)[place as int];
                    let arguments = if operator.2 {
                        seq![rhs, lhs]
                    } else {
                        seq![lhs, rhs]
                    };
                    if parsed.left() > read.left() {
                        self.fails(stuck())
                    } else if stores(level) {
                        match parsed.use_register() {
                            Err(error) => Err(error),
                            Ok((taken, store)) => taken.emit_byte(
                                operator.1,
                                arguments.push(store),
                            ).free_register(lhs).free_register(rhs).binop_rest(level, store),
                        }
                    } else {
                        parsed.emit_byte(operator.1, arguments).free_register(lhs).free_register(
                            rhs,
                        ).binop_rest(level, 0u8)
                    }
                },
            },
        }
    }

    /// `unary := ('-'|'!') primitive | primitive`
    pub open spec fn unary(self) -> Outcome<u8>
        decreases self.left(), 1nat,
    {
        let (read, found) = self.tag_any(prefix_tokens());
        match found {
            None => self.primitive(),
            Some(place) => match read.primitive() {
                Err(error) => Err(error),
                Ok((parsed, rhs)) => match parsed.use_register() {
                    Err(error) => Err(error),
                    Ok((taken, store)) => Ok(
                        (
                            taken.emit_byte(
                                prefix_operators()[place as int].1,
                                seq![rhs, store],
                            ).free_register(rhs),
                            store,
                        ),
                    ),
                },
            },
        }
    }

    /// `primitive := NUMBER | BOOL | IDENTIFIER | '(' expression ')'`. At
    /// the end of the input this is the early end of file, in the state as
    /// it is; another token is read, and is the error.
    pub open spec fn primitive(self) -> Outcome<u8>
        decreases self.left(), 0nat,
    {
        match self.peek() {
            None => self.fails(ErrorView::EarlyEof),
            Some(kind) => {
                let read = self.advance();
                match kind {
                    TokenKind::Number(bits) => read.emit_const(ValueView::Number(bits)),
                    TokenKind::Bool(truth) => read.emit_const(ValueView::Truth(truth)),
                    TokenKind::Identifier => read.load_variable(),
                    TokenKind::LeftParen => read.grouping(),
                    _ => read.fails(
                        ErrorView::Expected {
                            reason: "Expected expression"@,
                            expected: None,
                            recieved: Some(kind),
                        },
                    ),
                }
            },
        }
    }

    /// `'(' expression ')'`, after the `(`.
    pub open spec fn grouping(self) -> Outcome<u8>
        decreases self.left(), 13nat,
    {
        match self.expression() {
            Err(error) => Err(error),
            Ok((valued, value)) => match valued.consume(
                Some(TokenKind::RightParen),
                "Expected ')' following expression."@,
            ) {
                Err(error) => Err(error),
                Ok((closed, _)) => Ok((closed, value)),
            },
        }
    }

    /// A use of a variable, after its name: the name is emitted as a
    /// constant; if `=` follows, the expression after it is compiled and
    /// `Assign` emitted; then a register is taken and `Read` emitted into it.
    pub open spec fn load_variable(self) -> Outcome<u8>
        decreases self.left(), 13nat,
    {
        match self.ident_const() {
            Err(error) => Err(error),
            Ok((named, name)) => {
                let (read, assigned) = named.tag(Some(TokenKind::Equal));
                if !assigned {
                    read.read_variable(name)
                } else if read.left() < self.left() {
                    match read.expression() {
                        Err(error) => Err(error),
                        Ok((valued, value)) => valued.emit_byte(
                            Instruction::Assign,
                            seq![name, value],
                        ).read_variable(name),
                    }
                } else {
                    self.fails(stuck())
                }
            },
        }
    }

    /// Takes a register and emits `Read` of the variable whose name is in
    /// the register `name` into it.
    pub open spec fn read_variable(self, name: u8) -> Outcome<u8> {
        match self.use_register() {
            Err(error) => Err(error),
            Ok((taken, store)) => Ok(
                (taken.emit_byte(Instruction::Read, seq![name, store]), store),
            ),
        }
    }
}

/// An instruction that does not fit the chunk in the making seals that
/// chunk, and no other, and stands alone in the new chunk; one that fits
/// seals nothing. A chunk with 254 bytes of bytecode has room for none.
pub proof fn lemma_emit_byte_seals_once(state: State, instruction: Instruction, arguments: Seq<u8>)
    requires
        state.wf(),
        1 + arguments.len() < CAPACITY,
    ensures
        state.bag.bytecode.len() == CAPACITY - 1 ==> state.instruction_overflows(arguments.len()),
        state.instruction_overflows(arguments.len()) <==> state.bag.bytecode.len() + 1
            + arguments.len() >= CAPACITY,
        state.instruction_overflows(arguments.len()) ==> state.emit_byte(
            instruction,
            arguments,
        ).baggage == state.baggage.push(state.bag.seal()) && state.emit_byte(
            instruction,
            arguments,
        ).bag == BagView::empty().with_instruction(instruction, arguments),
        !state.instruction_overflows(arguments.len()) ==> state.emit_byte(
            instruction,
            arguments,
        ).baggage == state.baggage && state.emit_byte(instruction, arguments).bag
            == state.bag.with_instruction(instruction, arguments),
        BagView::empty().with_instruction(instruction, arguments).bytecode.len() < CAPACITY,
{
}

/// A constant that does not fit the chunk in the making, but fits an empty
/// chunk, seals that chunk, and no other, and stands alone in the new
/// chunk, with the register that it would have had in the old one; one that
/// fits seals nothing. A chunk with 254 bytes of either kind has room for none.
pub proof fn lemma_emit_const_seals_once(state: State, value: ValueView)
    requires
        state.wf(),
        state.registers.len() > 0,
        value_bytes(value).len() < CAPACITY,
    ensures
        state.emit_const(value) matches Ok((next, store)) && store == state.registers[0]
            && if state.bag.overflow(4, value_bytes(value).len()) is Some {
            next.baggage == state.baggage.push(state.bag.seal()) && next.bag
                == BagView::empty().with_constant(value_bytes(value), store)
        } else {
            next.baggage == state.baggage && next.bag == state.bag.with_constant(
                value_bytes(value),
                store,
            )
        },
        state.bag.bytecode.len() == CAPACITY - 1 || state.bag.constants.len() == CAPACITY - 1
            ==> state.bag.overflow(4, value_bytes(value).len()) is Some,
{
    crate::codec::lemma_value_bytes_len(value);
}

} // verus!
