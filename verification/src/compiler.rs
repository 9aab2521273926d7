//! The single-pass compiler: tokens in, sealed chunks out.

pub mod model;
pub mod pool;
pub mod progress;

use crate::bag::{zipped_views, Bag, BagView, ZippedBag, CAPACITY};
use crate::error::compiler::{CompilerError, CompilerResult, RegisterError, TokenError};
use crate::instruction::Instruction;
pub use crate::runtime::environment::Local;
use crate::runtime::environment::CompilerScope;
use crate::scanner::{Token, TokenKind};
use crate::value::Value;
use model::{Outcome, State, TokenView};
use vstd::prelude::*;

verus! {

/// The scope that the compiler keeps: the variables declared so far and the
/// current block depth.
pub type Scope = CompilerScope;

/// The views of a list of tokens, in order.
pub open spec fn token_views(tokens: Seq<Token>) -> Seq<TokenView> {
    tokens.map_values(|token: Token| token@)
}

/// `result`, with `after` as the state after the call, is what `expected`
/// says, in success and in failure.
pub open spec fn refines<T>(result: CompilerResult<T>, after: State, expected: Outcome<T>) -> bool {
    match expected {
        Ok((state, value)) => result matches Ok(found) && found == value && after == state,
        Err(failure) => result matches Err(found) && found@ == failure.error && after
            == failure.state,
    }
}

/// A compiler: the tokens of a source with a cursor over them, the chunks
/// sealed so far, the chunk in the making, the pool of free registers and
/// the scope.
pub struct Compiler {
    tokens: Vec<Token>,
    position: usize,
    baggage: Vec<ZippedBag>,
    current_bag: Bag,
    registers: Vec<u8>,
    scope: CompilerScope,
}

impl View for Compiler {
    type V = State;

    closed spec fn view(&self) -> State {
        State {
            tokens: token_views(self.tokens@),
            position: self.position as nat,
            baggage: zipped_views(self.baggage@),
            bag: self.current_bag@,
            registers: self.registers@,
            scope: self.scope@,
        }
    }
}

impl Default for Compiler {
    /// A compiler of the empty source.
    fn default() -> (compiler: Self)
        ensures
            compiler.wf(),
            compiler@ == State::start(Seq::empty()),
    {
        let compiler = Compiler::new(Vec::new());
        assert(token_views(Seq::<Token>::empty()) =~= Seq::empty());
        compiler
    }
}

/// Whether two optional token classes are the same.
fn same_kind(a: Option<TokenKind>, b: Option<TokenKind>) -> (same: bool)
    ensures
        same == (a == b),
{
    match (a, b) {
        (Some(x), Some(y)) => x == y,
        (None, None) => true,
        _ => false,
    }
}

impl Compiler {
    /// The chunk in the making counts its bytes.
    pub closed spec fn counted(&self) -> bool {
        self.current_bag.counted()
    }

    /// The compiler is valid: its state is, and the chunk in the making
    /// counts its bytes.
    pub open spec fn wf(&self) -> bool {
        self.counted() && self@.wf()
    }

    /// A compiler at the start of `tokens`.
    pub fn new(tokens: Vec<Token>) -> (compiler: Self)
        ensures
            compiler.wf(),
            compiler@ == State::start(token_views(tokens@)),
    {
        let mut registers: Vec<u8> = Vec::new();
        let mut register: u8 = 0;
        while register < 16
            invariant
                register <= 16,
                registers@.len() == register,
                forall|i: int| 0 <= i < register ==> registers@[i] == i as u8,
            decreases 16 - register,
        {
            registers.push(register);
            register += 1;
        }
        let compiler = Compiler {
            tokens,
            position: 0,
            baggage: Vec::new(),
            current_bag: Bag::new(),
            registers,
            scope: CompilerScope::new(),
        };
        assert(compiler@.registers =~= State::start(token_views(tokens@)).registers);
        assert(compiler@.baggage =~= Seq::empty());
        compiler
    }

    /// The chunks sealed so far.
    pub fn baggage(&self) -> (bags: &Vec<ZippedBag>)
        ensures
            zipped_views(bags@) == self@.baggage,
    {
        &self.baggage
    }

    /// The chunk in the making.
    pub fn current_bag(&self) -> (bag: &Bag)
        ensures
            bag@ == self@.bag,
    {
        &self.current_bag
    }

    /// The free registers, the next to be handed out first.
    pub fn registers(&self) -> (registers: &Vec<u8>)
        ensures
            registers@ == self@.registers,
    {
        &self.registers
    }

    /// The variables declared so far.
    pub fn scope(&self) -> (scope: &CompilerScope)
        ensures
            scope@ == self@.scope,
    {
        &self.scope
    }

    /// Reads the next token and returns its class; `None` at the end of the input.
    pub fn next(&mut self) -> (kind: Option<TokenKind>)
        requires
            old(self).wf(),
        ensures
            final(self).wf(),
            kind == old(self)@.peek(),
            final(self)@ == old(self)@.advance(),
    {
        if self.position < self.tokens.len() {
            let kind = self.tokens[self.position].kind;
            self.position += 1;
            Some(kind)
        } else {
            None
        }
    }

    /// The class of the next token, without reading it.
    pub fn peek(&self) -> (kind: Option<TokenKind>)
        requires
            self.wf(),
        ensures
            kind == self@.peek(),
    {
        if self.position < self.tokens.len() {
            Some(self.tokens[self.position].kind)
        } else {
            None
        }
    }

    /// The text of the token read last; empty before the first.
    pub fn slice(&self) -> (text: String)
        requires
            self.wf(),
        ensures
            text@ == self@.lexeme(),
    {
        if self.position > 0 {
            self.tokens[self.position - 1].lexeme.clone()
        } else {
            String::new()
        }
    }

    /// Reads the next token, which has to be of the class `kind`; `None`
    /// asks for the end of the input. Another token is an error that carries
    /// `why`, what was asked for and what was found.
    pub fn consume(&mut self, kind: Option<TokenKind>, why: &'static str) -> (result:
        CompilerResult<()>)
        requires
            old(self).wf(),
        ensures
            final(self).wf(),
            refines(result, final(self)@, old(self)@.consume(kind, why@)),
            final(self)@ == old(self)@.advance(),
    {
        let found = self.next();
        if same_kind(found, kind) {
            Ok(())
        } else {
            Err(
                CompilerError::TokenError(
                    TokenError::ExpectedToken { reason: why, expected: kind, recieved: found },
                ),
            )
        }
    }

    /// Reads the next token if it is of the class `expected`, and tells
    /// whether it was.
    pub fn tag(&mut self, expected: Option<TokenKind>) -> (matched: bool)
        requires
            old(self).wf(),
        ensures
            final(self).wf(),
            (final(self)@, matched) == old(self)@.tag(expected),
    {
        if same_kind(self.peek(), expected) {
            self.next();
            true
        } else {
            false
        }
    }

    /// Reads the next token if its class is one of `expected`, and tells the
    /// first place at which it stands there.
    pub fn tag_any(&mut self, expected: &Vec<TokenKind>) -> (place: Option<usize>)
        requires
            old(self).wf(),
        ensures
            final(self).wf(),
            (final(self)@, place) == old(self)@.tag_any(expected@),
    {
        let mut idx: usize = 0;
        while idx < expected.len()
            invariant
                idx <= expected@.len(),
                self.wf(),
                self@ == old(self)@,
                match self@.peek() {
                    Some(kind) => model::first_match(expected@, kind, 0) == model::first_match(
                        expected@,
                        kind,
                        idx as nat,
                    ),
                    None => true,
                },
            decreases expected@.len() - idx,
        {
            if self.tag(Some(expected[idx])) {
                return Some(idx);
            }
            idx += 1;
        }
        None
    }

    /// Takes the register that has been free for longest.
    pub fn use_register(&mut self) -> (result: CompilerResult<u8>)
        requires
            old(self).wf(),
        ensures
            final(self).wf(),
            refines(result, final(self)@, old(self)@.use_register()),
            result is Err ==> *final(self) == *old(self),
    {
        if self.registers.len() == 0 {
            Err(CompilerError::RegisterError(RegisterError::NoEmptyRegisters))
        } else {
            Ok(self.registers.remove(0))
        }
    }

    /// Hands a register back to the pool.
    pub fn free_register(&mut self, register: u8)
        requires
            old(self).wf(),
        ensures
            final(self).wf(),
            final(self)@ == old(self)@.free_register(register),
    {
        self.registers.push(register)
    }

    /// Seals the chunk in the making, adds it to the sealed chunks, and
    /// begins an empty chunk.
    pub fn new_block(&mut self)
        requires
            old(self).wf(),
        ensures
            final(self).wf(),
            final(self)@ == old(self)@.new_block(),
    {
        let mut finished = Bag::new();
        std::mem::swap(&mut finished, &mut self.current_bag);
        self.baggage.push(finished.zip_up());
        assert(self@.baggage =~= old(self)@.baggage.push(old(self)@.bag.seal()));
    }

    /// Appends an instruction to the chunk in the making. If that chunk has
    /// no room for it, the chunk is sealed and the instruction goes to a new
    /// one.
    pub fn emit_byte(&mut self, instruction: Instruction, arguments: Vec<u8>)
        requires
            old(self).wf(),
            1 + arguments@.len() < CAPACITY,
        ensures
            final(self).wf(),
            final(self)@ == old(self)@.emit_byte(instruction, arguments@),
    {
        match self.current_bag.emit_byte(instruction, &arguments) {
            Ok(()) => {},
            Err(_) => {
                self.new_block();
                let retried = self.current_bag.emit_byte(instruction, &arguments);
                assert(retried is Ok);
            },
        }
    }

    /// Takes a register, and appends to the chunk in the making the
    /// constant `value` and the instruction that loads it into that
    /// register. If that chunk has no room for both, the chunk is sealed and
    /// they go to a new one. Where no register is free, and where an empty
    /// chunk has no room for the constant, this is an error and nothing
    /// changes.
    pub fn emit_const(&mut self, value: Value) -> (result: CompilerResult<u8>)
        requires
            old(self).wf(),
        ensures
            final(self).wf(),
            refines(result, final(self)@, old(self)@.emit_const(value@)),
            final(self)@.tokens == old(self)@.tokens,
            final(self)@.position == old(self)@.position,
    {
        if self.registers.len() == 0 {
            return Err(CompilerError::RegisterError(RegisterError::NoEmptyRegisters));
        }
        let store = self.registers[0];
        match self.current_bag.emit_const(&value, store) {
            Ok(()) => {},
            Err(_) => {
                let mut fresh = Bag::new();
                match fresh.emit_const(&value, store) {
                    Ok(()) => {},
                    Err(_) => {
                        return Err(
                            CompilerError::ExternalError(
                                "BagError".to_owned(),
                                "Full(Constants)".to_owned(),
                            ),
                        );
                    },
                }
                std::mem::swap(&mut fresh, &mut self.current_bag);
                self.baggage.push(fresh.zip_up());
                assert(self@.baggage =~= old(self)@.baggage.push(old(self)@.bag.seal()));
            },
        }
        self.registers.remove(0);
        Ok(store)
    }

    /// Enters a block.
    pub fn begin_scope(&mut self)
        requires
            old(self).wf(),
        ensures
            final(self).wf(),
            final(self)@ == old(self)@.begin_scope(),
    {
        self.scope.begin();
    }

    /// Leaves a block.
    pub fn end_scope(&mut self)
        requires
            old(self).wf(),
        ensures
            final(self).wf(),
            final(self)@ == old(self)@.end_scope(),
    {
        self.scope.end();
    }

    /// Declares a variable with the text of the token read last as its
    /// name, and returns its slot.
    pub fn declare_variable(&mut self) -> (slot: u8)
        requires
            old(self).wf(),
        ensures
            final(self).wf(),
            (final(self)@, slot) == old(self)@.declare_variable(),
    {
        let name = self.slice();
        self.scope.declare(name)
    }

    /// Emits the text of the token read last as a constant, and returns the
    /// register that it is loaded into.
    pub fn ident_const(&mut self) -> (result: CompilerResult<u8>)
        requires
            old(self).wf(),
        ensures
            final(self).wf(),
            refines(result, final(self)@, old(self)@.ident_const()),
            final(self)@.tokens == old(self)@.tokens,
            final(self)@.position == old(self)@.position,
    {
        let name = self.slice();
        self.emit_const(Value::VString(name))
    }

    /// Reads the name of a variable, declares it, and emits its name as a
    /// constant; returns the slot of the variable.
    pub fn parse_variable(&mut self, why: &'static str) -> (result: CompilerResult<u8>)
        requires
            old(self).wf(),
        ensures
            final(self).wf(),
            refines(result, final(self)@, old(self)@.parse_variable(why@)),
            final(self)@.tokens == old(self)@.tokens,
            final(self)@.left() <= old(self)@.left(),
    {
        self.consume(Some(TokenKind::Identifier), why)?;
        let slot = self.declare_variable();
        self.ident_const()?;
        Ok(slot)
    }

    /// Emits `Let` for the variable in `slot` and the value in the register `value`.
    pub fn define_variable(&mut self, slot: u8, value: u8)
        requires
            old(self).wf(),
        ensures
            final(self).wf(),
            final(self)@ == old(self)@.define_variable(slot, value),
    {
        self.emit_byte(Instruction::Let, vec![slot, value]);
    }
}

/// Where `first_match` finds a token, the token stands.
pub proof fn lemma_first_match(expected: Seq<TokenKind>, kind: TokenKind, from: nat)
    requires
        expected.len() <= usize::MAX,
    ensures
        model::first_match(expected, kind, from) matches Some(place) ==> from <= place
            < expected.len() && expected[place as int] == kind,
    decreases expected.len() - from,
{
    if from < expected.len() && expected[from as int] != kind {
        lemma_first_match(expected, kind, from + 1);
    }
}

/// The operators of a precedence level.
fn operators_of(level: u8) -> (table: Vec<(TokenKind, Instruction, bool)>)
    ensures
        table@ == model::operators(level as nat),
{
    let table = if level == 1 {
        vec![(TokenKind::Star, Instruction::Mul, false), (TokenKind::Slash, Instruction::Div, false)]
    } else if level == 2 {
        vec![(TokenKind::Plus, Instruction::Add, false), (TokenKind::Minus, Instruction::Sub, false)]
    } else if level == 3 {
        vec![
            (TokenKind::Less, Instruction::Lt, false),
            (TokenKind::Greater, Instruction::Lt, true),
            (TokenKind::LessEqual, Instruction::Le, false),
            (TokenKind::GreaterEqual, Instruction::Le, true),
        ]
    } else {
        vec![
            (TokenKind::EqualEqual, Instruction::Eq, false),
            (TokenKind::BangEqual, Instruction::Ne, false),
        ]
    };
    assert(table@ =~= model::operators(level as nat));
    table
}

/// The tokens of a list of operators.
fn tokens_of(table: &Vec<(TokenKind, Instruction, bool)>) -> (tokens: Vec<TokenKind>)
    ensures
        tokens@ == model::operator_tokens(table@),
{
    let mut tokens: Vec<TokenKind> = Vec::new();
    let mut i: usize = 0;
    while i < table.len()
        invariant
            i <= table@.len(),
            tokens@.len() == i,
            forall|k: int| 0 <= k < i ==> tokens@[k] == table@[k].0,
        decreases table@.len() - i,
    {
        tokens.push(table[i].0);
        i += 1;
    }
    assert(tokens@ =~= model::operator_tokens(table@));
    tokens
}

impl Compiler {
    /// Compiles the whole input, `program := (let-decl | statement)* EOF`,
    /// and seals the last chunk, so that every chunk of the program is in
    /// the list of sealed chunks. After an error no chunk is left.
    pub fn compile(&mut self) -> (result: CompilerResult<()>)
        requires
            old(self).wf(),
        ensures
            final(self).wf(),
            refines(result, final(self)@, old(self)@.compile()),
            result is Err ==> final(self)@.baggage == Seq::<crate::bag::ZippedView>::empty()
                && final(self)@.bag == BagView::empty(),
    {
        match self.program() {
            Ok(()) => Ok(()),
            Err(error) => {
                self.baggage = Vec::new();
                self.current_bag = Bag::new();
                assert(self@.baggage =~= Seq::empty());
                Err(error)
            },
        }
    }

    /// Compiles the whole input and seals the last chunk.
    fn program(&mut self) -> (result: CompilerResult<()>)
        requires
            old(self).wf(),
        ensures
            final(self).wf(),
            refines(result, final(self)@, old(self)@.program()),
    {
        self.declarations(None)?;
        self.consume(None, "Expected end of expression")?;
        self.new_block();
        Ok(())
    }

    /// `(let-decl | statement)*`, up to the end of the input or, if
    /// `closing` names a token, up to that token.
    pub fn declarations(&mut self, closing: Option<TokenKind>) -> (result: CompilerResult<()>)
        requires
            old(self).wf(),
        ensures
            final(self).wf(),
            refines(result, final(self)@, old(self)@.declarations(closing)),
            final(self)@.tokens == old(self)@.tokens,
            final(self)@.left() <= old(self)@.left(),
        decreases old(self)@.left(), 17nat,
    {
        let ghost goal = self@.declarations(closing);
        loop
            invariant
                self.wf(),
                self@.tokens == old(self)@.tokens,
                self@.left() <= old(self)@.left(),
                self@.declarations(closing) == goal,
                goal == old(self)@.declarations(closing),
            decreases self@.left(),
        {
            let next = self.peek();
            if next.is_none() || same_kind(next, closing) {
                return Ok(());
            }
            self.declaration()?;
        }
    }

    /// `let-decl | statement`
    pub fn declaration(&mut self) -> (result: CompilerResult<()>)
        requires
            old(self).wf(),
        ensures
            final(self).wf(),
            refines(result, final(self)@, old(self)@.declaration()),
            final(self)@.tokens == old(self)@.tokens,
            final(self)@.left() <= old(self)@.left(),
            result is Ok ==> final(self)@.left() < old(self)@.left(),
        decreases old(self)@.left(), 16nat,
    {
        if self.tag(Some(TokenKind::Let)) {
            self.let_declaration()
        } else {
            self.statement()?;
            Ok(())
        }
    }

    /// `let-decl := 'let' IDENT '=' expression ';'`, after the `let`: the
    /// variable is declared, its name emitted as a constant, the expression
    /// compiled, and `Let` emitted with the slot of the variable and the
    /// register of the value.
    pub fn let_declaration(&mut self) -> (result: CompilerResult<()>)
        requires
            old(self).wf(),
        ensures
            final(self).wf(),
            refines(result, final(self)@, old(self)@.let_declaration()),
            final(self)@.tokens == old(self)@.tokens,
            final(self)@.left() <= old(self)@.left(),
        decreases old(self)@.left(), 15nat,
    {
        let slot = self.parse_variable("Expected variable name after 'let'.")?;
        self.consume(Some(TokenKind::Equal), "Variables must be initialized.")?;
        let value = self.expression()?;
        self.consume(Some(TokenKind::Semicolon), "Expected ';' after variable declaration")?;
        self.define_variable(slot, value);
        Ok(())
    }

    /// `statement := block | expr-stmt`; returns the register of the value.
    pub fn statement(&mut self) -> (result: CompilerResult<u8>)
        requires
            old(self).wf(),
        ensures
            final(self).wf(),
            refines(result, final(self)@, old(self)@.statement()),
            final(self)@.tokens == old(self)@.tokens,
            final(self)@.left() <= old(self)@.left(),
            result is Ok ==> final(self)@.left() < old(self)@.left(),
        decreases old(self)@.left(), 15nat,
    {
        if self.tag(Some(TokenKind::LeftBrace)) {
            self.begin_scope();
            let value = self.block()?;
            self.end_scope();
            Ok(value)
        } else {
            self.expression_stmt()
        }
    }

    /// `expr-stmt := expression ';'`
    pub fn expression_stmt(&mut self) -> (result: CompilerResult<u8>)
        requires
            old(self).wf(),
        ensures
            final(self).wf(),
            refines(result, final(self)@, old(self)@.expression_stmt()),
            final(self)@.tokens == old(self)@.tokens,
            final(self)@.left() <= old(self)@.left(),
            result is Ok ==> final(self)@.left() < old(self)@.left(),
        decreases old(self)@.left(), 14nat,
    {
        let value = self.expression()?;
        self.consume(Some(TokenKind::Semicolon), "Expected ';' at end of expression")?;
        Ok(value)
    }

    /// `block := '{' (let-decl | statement)* '}'`, after the `{`; returns
    /// the register 0.
    pub fn block(&mut self) -> (result: CompilerResult<u8>)
        requires
            old(self).wf(),
        ensures
            final(self).wf(),
            refines(result, final(self)@, old(self)@.block()),
            final(self)@.tokens == old(self)@.tokens,
            final(self)@.left() <= old(self)@.left(),
        decreases old(self)@.left(), 18nat,
    {
        self.declarations(Some(TokenKind::RightBrace))?;
        self.consume(Some(TokenKind::RightBrace), "Expect '}' after block.")?;
        Ok(0)
    }

    /// `expression := equality`; returns the register of the value.
    pub fn expression(&mut self) -> (result: CompilerResult<u8>)
        requires
            old(self).wf(),
        ensures
            final(self).wf(),
            refines(result, final(self)@, old(self)@.expression()),
            final(self)@.tokens == old(self)@.tokens,
            final(self)@.left() <= old(self)@.left(),
            result is Ok ==> final(self)@.left() < old(self)@.left(),
        decreases old(self)@.left(), 13nat,
    {
        self.equality()
    }

    /// `equality := comparison (('=='|'!=') comparison)*`
    pub fn equality(&mut self) -> (result: CompilerResult<u8>)
        requires
            old(self).wf(),
        ensures
            final(self).wf(),
            refines(result, final(self)@, old(self)@.binop(4)),
            final(self)@.tokens == old(self)@.tokens,
            final(self)@.left() <= old(self)@.left(),
            result is Ok ==> final(self)@.left() < old(self)@.left(),
        decreases old(self)@.left(), 12nat,
    {
        self.binop(4)
    }

    /// `comparison := term (('<'|'>'|'<='|'>=') term)*`
    pub fn comparison(&mut self) -> (result: CompilerResult<u8>)
        requires
            old(self).wf(),
        ensures
            final(self).wf(),
            refines(result, final(self)@, old(self)@.binop(3)),
            final(self)@.tokens == old(self)@.tokens,
            final(self)@.left() <= old(self)@.left(),
            result is Ok ==> final(self)@.left() < old(self)@.left(),
        decreases old(self)@.left(), 12nat,
    {
        self.binop(3)
    }

    /// `term := factor (('+'|'-') factor)*`
    pub fn term(&mut self) -> (result: CompilerResult<u8>)
        requires
            old(self).wf(),
        ensures
            final(self).wf(),
            refines(result, final(self)@, old(self)@.binop(2)),
            final(self)@.tokens == old(self)@.tokens,
            final(self)@.left() <= old(self)@.left(),
            result is Ok ==> final(self)@.left() < old(self)@.left(),
        decreases old(self)@.left(), 12nat,
    {
        self.binop(2)
    }

    /// `factor := unary (('*'|'/') unary)*`
    pub fn factor(&mut self) -> (result: CompilerResult<u8>)
        requires
            old(self).wf(),
        ensures
            final(self).wf(),
            refines(result, final(self)@, old(self)@.binop(1)),
            final(self)@.tokens == old(self)@.tokens,
            final(self)@.left() <= old(self)@.left(),
            result is Ok ==> final(self)@.left() < old(self)@.left(),
        decreases old(self)@.left(), 12nat,
    {
        self.binop(1)
    }

    /// An operand of a level: an expression of the level below, or, below
    /// the lowest level, a unary expression.
    fn operand(&mut self, level: u8) -> (result: CompilerResult<u8>)
        requires
            old(self).wf(),
            1 <= level <= 4,
        ensures
            final(self).wf(),
            refines(result, final(self)@, old(self)@.operand(level as nat)),
            final(self)@.tokens == old(self)@.tokens,
            final(self)@.left() <= old(self)@.left(),
            result is Ok ==> final(self)@.left() < old(self)@.left(),
        decreases old(self)@.left(), 2 * level + 2,
    {
        if level <= 1 {
            self.unary()
        } else {
            self.binop(level - 1)
        }
    }

    /// The expressions of a precedence level, from 1 (`*` and `/`) to 4
    /// (`==` and `!=`): an operand, then any number of the level's
    /// operators, each with one more operand. For each operator the
    /// instruction is emitted with the registers of the two operands, in
    /// reverse for `>` and `>=`, and on the levels 1 and 2 with a register
    /// taken for the result; then both operand registers are freed.
    pub fn binop(&mut self, level: u8) -> (result: CompilerResult<u8>)
        requires
            old(self).wf(),
            1 <= level <= 4,
        ensures
            final(self).wf(),
            refines(result, final(self)@, old(self)@.binop(level as nat)),
            final(self)@.tokens == old(self)@.tokens,
            final(self)@.left() <= old(self)@.left(),
            result is Ok ==> final(self)@.left() < old(self)@.left(),
        decreases old(self)@.left(), 2 * level + 3,
    {
        let table = operators_of(level);
        let tokens = tokens_of(&table);
        let store = level <= 2;
        let mut lhs = self.operand(level)?;
        let ghost goal = self@.binop_rest(level as nat, lhs);
        loop
            invariant
                self.wf(),
                1 <= level <= 4,
                store == model::stores(level as nat),
                table@ == model::operators(level as nat),
                tokens@ == model::operator_tokens(table@),
                self@.tokens == old(self)@.tokens,
                self@.left() < old(self)@.left(),
                self@.binop_rest(level as nat, lhs) == goal,
                goal == old(self)@.binop(level as nat),
            decreases self@.left(),
        {
            let ghost before = self@;
            let place = match self.tag_any(&tokens) {
                Some(place) => place,
                None => {
                    return Ok(lhs);
                },
            };
            proof {
                lemma_first_match(tokens@, before.peek().unwrap(), 0);
            }
            let rhs = self.operand(level)?;
            let operator = table[place];
            let mut arguments = if operator.2 {
                vec![rhs, lhs]
            } else {
                vec![lhs, rhs]
            };
            let result = if store {
                let register = self.use_register()?;
                arguments.push(register);
                register
            } else {
                0
            };
            proof {
                let pair = if operator.2 {
                    seq![rhs, lhs]
                } else {
                    seq![lhs, rhs]
                };
                if store {
                    assert(arguments@ =~= pair.push(result));
                } else {
                    assert(arguments@ =~= pair);
                }
            }
            self.emit_byte(operator.1, arguments);
            self.free_register(lhs);
            self.free_register(rhs);
            lhs = result;
        }
    }

    /// `unary := ('-'|'!') primitive | primitive`: after a prefix operator
    /// a register is taken for the result, the instruction emitted, and the
    /// register of the operand freed.
    pub fn unary(&mut self) -> (result: CompilerResult<u8>)
        requires
            old(self).wf(),
        ensures
            final(self).wf(),
            refines(result, final(self)@, old(self)@.unary()),
            final(self)@.tokens == old(self)@.tokens,
            final(self)@.left() <= old(self)@.left(),
            result is Ok ==> final(self)@.left() < old(self)@.left(),
        decreases old(self)@.left(), 1nat,
    {
        let tokens = vec![TokenKind::Minus, TokenKind::Bang];
        assert(tokens@ =~= model::prefix_tokens());
        proof {
            if self@.peek() is Some {
                lemma_first_match(tokens@, self@.peek().unwrap(), 0);
            }
        }
        match self.tag_any(&tokens) {
            Some(place) => {
                let rhs = self.primitive()?;
                let store = self.use_register()?;
                let instruction = if place == 0 {
                    Instruction::Neg
                } else {
                    Instruction::Not
                };
                self.emit_byte(instruction, vec![rhs, store]);
                self.free_register(rhs);
                Ok(store)
            },
            None => self.primitive(),
        }
    }

    /// `primitive := NUMBER | BOOL | IDENTIFIER | '(' expression ')'`: a
    /// literal is emitted as a constant; the end of the input and any other
    /// token are errors.
    pub fn primitive(&mut self) -> (result: CompilerResult<u8>)
        requires
            old(self).wf(),
        ensures
            final(self).wf(),
            refines(result, final(self)@, old(self)@.primitive()),
            old(self)@.peek() is None ==> final(self)@ == old(self)@,
            final(self)@.tokens == old(self)@.tokens,
            final(self)@.left() <= old(self)@.left(),
            result is Ok ==> final(self)@.left() < old(self)@.left(),
        decreases old(self)@.left(), 0nat,
    {
        match self.next() {
            None => Err(CompilerError::TokenError(TokenError::EarlyEof)),
            Some(kind) => match kind {
                TokenKind::Number(bits) => self.emit_const(Value::VNumber(bits)),
                TokenKind::Bool(truth) => self.emit_const(Value::VBool(truth)),
                TokenKind::Identifier => self.load_variable(),
                TokenKind::LeftParen => self.grouping(),
                _ => Err(
                    CompilerError::TokenError(
                        TokenError::ExpectedToken {
                            reason: "Expected expression",
                            expected: None,
                            recieved: Some(kind),
                        },
                    ),
                ),
            },
        }
    }

    /// `'(' expression ')'`, after the `(`.
    pub fn grouping(&mut self) -> (result: CompilerResult<u8>)
        requires
            old(self).wf(),
        ensures
            final(self).wf(),
            refines(result, final(self)@, old(self)@.grouping()),
            final(self)@.tokens == old(self)@.tokens,
            final(self)@.left() <= old(self)@.left(),
        decreases old(self)@.left(), 14nat,
    {
        let value = self.expression()?;
        self.consume(Some(TokenKind::RightParen), "Expected ')' following expression.")?;
        Ok(value)
    }

    /// A use of a variable, after its name: the name is emitted as a
    /// constant; if `=` follows, the expression after it is compiled and
    /// `Assign` emitted; then a register is taken and `Read` emitted into it.
    pub fn load_variable(&mut self) -> (result: CompilerResult<u8>)
        requires
            old(self).wf(),
        ensures
            final(self).wf(),
            refines(result, final(self)@, old(self)@.load_variable()),
            final(self)@.tokens == old(self)@.tokens,
            final(self)@.left() <= old(self)@.left(),
        decreases old(self)@.left(), 14nat,
    {
        let name = self.ident_const()?;
        if self.tag(Some(TokenKind::Equal)) {
            let value = self.expression()?;
            self.emit_byte(Instruction::Assign, vec![name, value]);
        }
        let store = self.use_register()?;
        self.emit_byte(Instruction::Read, vec![name, store]);
        Ok(store)
    }
}

} // verus!
