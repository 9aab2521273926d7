//! The register machine.
//!
//! The machine runs the chunks of a program in order, against a register
//! file of 256 registers and the variables of the program. It does every
//! step by itself but the arithmetic and the comparison of numbers: where
//! an instruction needs one of these, [`Runtime::step`] and
//! [`Runtime::exec`] return the request, and the run goes on when the
//! caller hands the answer to [`Runtime::resume_number`] or
//! [`Runtime::resume_comparison`].

pub mod environment;
pub mod machine;

pub use environment::{CompilerScope, Local, RawScope, RuntimeScope, Variable};

use crate::bag::{opened_views, OpenedBag, CAPACITY};
use crate::codec::decode_value;
use crate::error::runtime::{malformed_bytecode, type_conflict, RuntimeError, RuntimeResult};
use crate::instruction::Instruction;
use crate::value::{views, Value, ValueView};
use machine::{lookup, Effect, Fault, Machine};
use vstd::prelude::*;
use vstd::slice::slice_subrange;

verus! {

/// What a step of the machine came to.
#[derive(Clone, Copy, Debug, PartialEq, Eq, Structural)]
pub enum Step {
    /// The step is done; the run can go on.
    Continue,
    /// The run is over.
    Halt,
    /// The machine waits for the number `lhs op rhs`, where `op` is one of
    /// `Add`, `Sub`, `Mul` and `Div`.
    Arithmetic { op: Instruction, lhs: u32, rhs: u32 },
    /// The machine waits for the number `-operand`.
    Negation { operand: u32 },
    /// The machine waits for the answer whether `lhs op rhs` holds, where
    /// `op` is one of `Eq`, `Ne`, `Lt` and `Le`.
    Comparison { op: Instruction, lhs: u32, rhs: u32 },
}

/// `result` is what a step with the effect `effect` returns.
pub open spec fn reports(result: RuntimeResult<Step>, effect: Effect) -> bool {
    match effect {
        Effect::Halt => result matches Ok(step) && step == Step::Halt,
        Effect::Continue(_) => result matches Ok(step) && step == Step::Continue,
        Effect::Arithmetic { op, lhs, rhs, store } => result matches Ok(step) && step
            == (Step::Arithmetic { op, lhs, rhs }),
        Effect::Negation { operand, store } => result matches Ok(step) && step
            == (Step::Negation { operand }),
        Effect::Comparison { op, lhs, rhs } => result matches Ok(step) && step
            == (Step::Comparison { op, lhs, rhs }),
        Effect::Fault(fault) => result matches Err(error) && fault.reported(error),
    }
}

/// The state after a step with the effect `effect` from the state `before`.
pub open spec fn after(before: Machine, effect: Effect) -> Machine {
    match effect {
        Effect::Continue(next) => next,
        _ => before,
    }
}

/// `result`, with `next` as the state after the call, is a step from the
/// state `before` that executes `instruction`: the step itself where that
/// is the opcode at the cursor, and malformed bytecode `code` otherwise.
pub open spec fn steps_as(
    result: RuntimeResult<Step>,
    next: Machine,
    before: Machine,
    code: Seq<u8>,
    instruction: Instruction,
) -> bool {
    if before.instruction() == Some(instruction) {
        reports(result, before.step()) && next == after(before, before.step())
    } else {
        result matches Err(error) && error.is_malformed(
            code,
            before.ic as usize,
            "Unexpected byte"@,
        ) && next == before
    }
}

/// A run of a program.
pub struct Runtime {
    scope: RuntimeScope,
    ic: usize,
    registers: Vec<Value>,
    baggage: Vec<OpenedBag>,
    current_bag: usize,
}

impl View for Runtime {
    type V = Machine;

    closed spec fn view(&self) -> Machine {
        Machine {
            chunks: opened_views(self.baggage@),
            chunk: self.current_bag as nat,
            ic: self.ic as nat,
            registers: views(self.registers@),
            scope: self.scope@,
        }
    }
}

/// What the machine has to do for the step at the cursor.
enum Action {
    Halt,
    Enter,
    Store { register: u8, value: Value, width: u8 },
    Skip { width: u8 },
    Bind { slot: usize, value: Value },
    Arithmetic { op: Instruction, lhs: u32, rhs: u32, store: u8 },
    Negation { operand: u32, store: u8 },
    Comparison { op: Instruction, lhs: u32, rhs: u32 },
}

impl Action {
    /// The effect that the action brings about in the state `machine`.
    spec fn effect(self, machine: Machine) -> Effect {
        match self {
            Action::Halt => Effect::Halt,
            Action::Enter => Effect::Continue(
                Machine { chunk: machine.chunk + 1, ic: 0, ..machine },
            ),
            Action::Store { register, value, width } => Effect::Continue(
                Machine { ic: machine.ic + width as nat, ..machine }.stored(register, value@),
            ),
            Action::Skip { width } => Effect::Continue(
                Machine { ic: machine.ic + width as nat, ..machine },
            ),
            Action::Bind { slot, value } => Effect::Continue(
                machine.past(2).assigned(slot as int, value@),
            ),
            Action::Arithmetic { op, lhs, rhs, store } => Effect::Arithmetic {
                op,
                lhs,
                rhs,
                store,
            },
            Action::Negation { operand, store } => Effect::Negation { operand, store },
            Action::Comparison { op, lhs, rhs } => Effect::Comparison { op, lhs, rhs },
        }
    }
}

impl Runtime {
    /// The cursor can move on without leaving the range of its counters.
    pub closed spec fn bounded(&self) -> bool {
        self.current_bag <= self.baggage@.len() && self.ic <= usize::MAX - 8
    }

    /// The run is valid: its state is, and the cursor can move on.
    pub open spec fn wf(&self) -> bool {
        self.bounded() && self@.wf()
    }

    /// A run of `baggage` from its start, with `false` in every register.
    /// The variables are `scope`, or, where none is given, those that
    /// `compiler_scope` declares, each with the value `false`.
    pub fn new(
        baggage: Vec<OpenedBag>,
        scope: Option<RuntimeScope>,
        compiler_scope: CompilerScope,
    ) -> (result: RuntimeResult<Self>)
        ensures
            result matches Ok(runtime) && runtime.wf() && runtime@ == Machine::start(
                opened_views(baggage@),
                match scope {
                    Some(given) => given@,
                    None => compiler_scope@.runtime(),
                },
            ),
    {
        let mut registers: Vec<Value> = Vec::new();
        let mut i: usize = 0;
        while i < 256
            invariant
                i <= 256,
                registers@.len() == i,
                forall|k: int| 0 <= k < i ==> (#[trigger] registers@[k])@ == ValueView::Truth(false),
            decreases 256 - i,
        {
            registers.push(Value::VBool(false));
            i += 1;
        }
        let scope = match scope {
            Some(given) => given,
            None => RuntimeScope::from(compiler_scope),
        };
        let runtime = Runtime {
            scope,
            ic: 0,
            registers,
            baggage,
            current_bag: 0,
        };
        assert(runtime@.registers =~= Seq::new(256, |i: int| ValueView::Truth(false)));
        Ok(runtime)
    }

    /// The register file.
    pub fn registers(&self) -> (registers: &Vec<Value>)
        ensures
            views(registers@) == self@.registers,
    {
        &self.registers
    }

    /// The variables.
    pub fn scope(&self) -> (scope: &RuntimeScope)
        ensures
            scope@ == self@.scope,
    {
        &self.scope
    }

    /// The chunks of the program.
    pub fn baggage(&self) -> (bags: &Vec<OpenedBag>)
        ensures
            opened_views(bags@) == self@.chunks,
    {
        &self.baggage
    }

    /// The number of the chunk that the cursor is in.
    pub fn current_bag(&self) -> (chunk: usize)
        ensures
            chunk == self@.chunk,
    {
        self.current_bag
    }

    /// The offset of the cursor in its chunk.
    pub fn ic(&self) -> (ic: usize)
        ensures
            ic == self@.ic,
    {
        self.ic
    }

    /// The slot of the variable `name`: where several variables have the
    /// name, the one declared last.
    fn find(&self, name: &String) -> (slot: Option<usize>)
        ensures
            match lookup(self@.scope.vars, name@) {
                Some(found) => slot matches Some(place) && place == found && place
                    < self.scope.vars@.len(),
                None => slot is None,
            },
    {
        let mut i: usize = self.scope.vars.len();
        assert(self@.scope.vars.take(i as int) =~= self@.scope.vars);
        while i > 0
            invariant
                i <= self.scope.vars@.len(),
                lookup(self@.scope.vars, name@) == lookup(self@.scope.vars.take(i as int), name@),
            decreases i,
        {
            let ghost vars = self@.scope.vars.take(i as int);
            assert(vars.drop_last() =~= self@.scope.vars.take(i - 1));
            if self.scope.vars[i - 1].name == *name {
                return Some(i - 1);
            }
            i -= 1;
        }
        None
    }

    /// The state has room for the action.
    spec fn fits(&self, action: Action) -> bool {
        match action {
            Action::Enter => self.current_bag < self.baggage@.len() <= usize::MAX,
            Action::Store { register, value, width } => self.ic + width <= 260,
            Action::Skip { width } => self.ic + width <= 260,
            Action::Bind { slot, value } => slot < self.scope.vars@.len() && self.ic + 3 <= 260,
            _ => true,
        }
    }

    /// What the step at the cursor comes to, as an action on the state.
    fn decide(&self) -> (result: RuntimeResult<Action>)
        requires
            self.wf(),
        ensures
            result matches Ok(action) ==> self.fits(action),
            match self@.step() {
                Effect::Fault(fault) => result matches Err(error) && fault.reported(error),
                effect => result matches Ok(action) && action.effect(self@) == effect,
            },
    {
        if self.current_bag >= self.baggage.len() {
            return Ok(Action::Halt);
        }
        let chunk = &self.baggage[self.current_bag];
        let code = &chunk.bytecode;
        assert(code@ == self@.code());
        assert(chunk.constants@ == self@.pool());
        if self.ic >= code.len() {
            return Ok(Action::Enter);
        }
        let instruction = match Instruction::from_byte(code[self.ic]) {
            Some(instruction) => instruction,
            None => {
                return Err(malformed_bytecode(code, self.ic, "Unexpected byte"));
            },
        };
        let operands = instruction.operands();
        let limit = if code.len() < CAPACITY {
            code.len()
        } else {
            CAPACITY
        };
        if self.ic + 1 + operands > limit {
            let position = if self.ic + 1 >= limit {
                self.ic + 1
            } else {
                limit
            };
            let why = if position >= CAPACITY {
                "Block is too large"
            } else {
                "Unexpected end of bytecode"
            };
            return Err(malformed_bytecode(code, position, why));
        }
        let a = code[self.ic + 1];
        let b = code[self.ic + 2];
        match instruction {
            Instruction::Const => {
                let c = code[self.ic + 3];
                let from = a as usize;
                let to = from + b as usize;
                if to > chunk.constants.len() {
                    return Err(malformed_bytecode(code, self.ic, "Constant out of range"));
                }
                match decode_value(slice_subrange(chunk.constants.as_slice(), from, to)) {
                    Ok(value) => Ok(Action::Store { register: c, value, width: 4 }),
                    Err(_) => Err(malformed_bytecode(code, self.ic, "Constant is not a value")),
                }
            },
            Instruction::Add | Instruction::Sub | Instruction::Mul | Instruction::Div => {
                let c = code[self.ic + 3];
                let lhs = self.registers[a as usize].number()?;
                let rhs = self.registers[b as usize].number()?;
                Ok(Action::Arithmetic { op: instruction, lhs, rhs, store: c })
            },
            Instruction::Eq | Instruction::Ne => {
                match (&self.registers[a as usize], &self.registers[b as usize]) {
                    (Value::VNumber(lhs), Value::VNumber(rhs)) => Ok(
                        Action::Comparison { op: instruction, lhs: *lhs, rhs: *rhs },
                    ),
                    (left, right) => {
                        let same = left.same(right);
                        let holds = (instruction == Instruction::Eq) == same;
                        Ok(
                            Action::Skip {
                                width: if holds {
                                    3
                                } else {
                                    5
                                },
                            },
                        )
                    },
                }
            },
            Instruction::Lt | Instruction::Le => {
                let lhs = self.registers[a as usize].number()?;
                let rhs = self.registers[b as usize].number()?;
                Ok(Action::Comparison { op: instruction, lhs, rhs })
            },
            Instruction::Not => {
                let value = self.registers[a as usize].clone().not()?;
                Ok(Action::Store { register: b, value, width: 3 })
            },
            Instruction::Neg => {
                let operand = self.registers[a as usize].number()?;
                Ok(Action::Negation { operand, store: b })
            },
            Instruction::Let => {
                if (a as usize) < self.scope.vars.len() {
                    Ok(Action::Bind { slot: a as usize, value: self.registers[b as usize].clone() })
                } else {
                    Err(malformed_bytecode(code, self.ic, "No such variable"))
                }
            },
            Instruction::Read => {
                match &self.registers[a as usize] {
                    Value::VString(name) => match self.find(name) {
                        Some(slot) => Ok(
                            Action::Store {
                                register: b,
                                value: self.scope.vars[slot].value.clone(),
                                width: 3,
                            },
                        ),
                        None => Err(malformed_bytecode(code, self.ic, "No such variable")),
                    },
                    _ => Err(type_conflict()),
                }
            },
            Instruction::Assign => {
                match &self.registers[a as usize] {
                    Value::VString(name) => match self.find(name) {
                        Some(slot) => Ok(
                            Action::Bind { slot, value: self.registers[b as usize].clone() },
                        ),
                        None => Err(malformed_bytecode(code, self.ic, "No such variable")),
                    },
                    _ => Err(type_conflict()),
                }
            },
        }
    }

    /// Brings a continuing action about.
    fn apply(&mut self, action: Action)
        requires
            old(self).wf(),
            action.effect(old(self)@) == old(self)@.step(),
            old(self)@.step() is Continue,
            old(self).fits(action),
        ensures
            final(self).wf(),
            final(self)@ == old(self)@.step()->Continue_0,
    {
        match action {
            Action::Enter => {
                self.current_bag += 1;
                self.ic = 0;
            },
            Action::Store { register, value, width } => {
                self.registers[register as usize] = value;
                self.ic += width as usize;
                assert(self@.registers =~= old(self)@.registers.update(register as int, value@));
            },
            Action::Skip { width } => {
                self.ic += width as usize;
            },
            Action::Bind { slot, value } => {
                let variable = Variable {
                    name: self.scope.vars[slot].name.clone(),
                    value,
                    depth: self.scope.vars[slot].depth,
                };
                self.scope.vars[slot] = variable;
                self.ic += 3;
                assert(self@.scope.vars =~= old(self)@.step()->Continue_0.scope.vars);
            },
            _ => {},
        }
    }

    /// Takes one step: at the end of a chunk the cursor moves to the start
    /// of the next chunk; behind the last chunk the run is over; elsewhere
    /// the instruction at the cursor is executed. An instruction on numbers
    /// is not executed: the state stays as it is, and the request is
    /// returned. An error leaves the state as it is, too.
    pub fn step(&mut self) -> (result: RuntimeResult<Step>)
        requires
            old(self).wf(),
        ensures
            final(self).wf(),
            reports(result, old(self)@.step()),
            final(self)@ == after(old(self)@, old(self)@.step()),
    {
        let action = self.decide()?;
        match action {
            Action::Halt => Ok(Step::Halt),
            Action::Arithmetic { op, lhs, rhs, store } => Ok(Step::Arithmetic { op, lhs, rhs }),
            Action::Negation { operand, store } => Ok(Step::Negation { operand }),
            Action::Comparison { op, lhs, rhs } => Ok(Step::Comparison { op, lhs, rhs }),
            action => {
                self.apply(action);
                Ok(Step::Continue)
            },
        }
    }

    /// Runs the program from the cursor on, up to the first step that does
    /// not continue: the end of the run, a request for an operation on
    /// numbers, or an error. The state is then the one in which that step
    /// was taken.
    pub fn exec(&mut self) -> (result: RuntimeResult<Step>)
        requires
            old(self).wf(),
        ensures
            final(self).wf(),
            reports(result, old(self)@.run().1),
            final(self)@ == old(self)@.run().0,
    {
        loop
            invariant
                self.wf(),
                self@.run() == old(self)@.run(),
            decreases self@.distance().0, self@.distance().1,
        {
            proof {
                machine::lemma_step_advances(self@);
            }
            match self.step() {
                Ok(Step::Continue) => {},
                other => {
                    return other;
                },
            }
        }
    }

    /// The bytecode of the chunk that the cursor is in; behind the last
    /// chunk, no bytecode.
    pub open spec fn spec_code(&self) -> Seq<u8> {
        if self@.halted() {
            Seq::empty()
        } else {
            self@.code()
        }
    }

    /// The error for bytecode that is malformed at the cursor.
    fn malformed_here(&self, why: &'static str) -> (error: RuntimeError)
        requires
            self.wf(),
        ensures
            error.is_malformed(self.spec_code(), self@.ic as usize, why@),
    {
        if self.current_bag < self.baggage.len() {
            malformed_bytecode(&self.baggage[self.current_bag].bytecode, self.ic, why)
        } else {
            let code: Vec<u8> = Vec::new();
            malformed_bytecode(&code, self.ic, why)
        }
    }

    /// Hands the machine the number that it waits for: the result of the
    /// arithmetic instruction or of the negation at the cursor. The number
    /// goes to the register of the result, and the cursor behind the
    /// instruction. Where the machine does not wait for a number, this is
    /// an error, and the state stays as it is.
    pub fn resume_number(&mut self, bits: u32) -> (result: RuntimeResult)
        requires
            old(self).wf(),
        ensures
            final(self).wf(),
            match old(self)@.resume_number(bits) {
                Some(next) => result is Ok && final(self)@ == next,
                None => result matches Err(error) && error.is_malformed(
                    old(self).spec_code(),
                    old(self)@.ic as usize,
                    "No number is awaited"@,
                ) && final(self)@ == old(self)@,
            },
    {
        let (store, width) = match self.decide() {
            Ok(Action::Arithmetic { op, lhs, rhs, store }) => (store, 4usize),
            Ok(Action::Negation { operand, store }) => (store, 3usize),
            _ => {
                return Err(self.malformed_here("No number is awaited"));
            },
        };
        self.registers[store as usize] = Value::VNumber(bits);
        self.ic += width;
        assert(self@.registers =~= old(self)@.registers.update(
            store as int,
            ValueView::Number(bits),
        ));
        Ok(())
    }

    /// Hands the machine the answer that it waits for: whether the
    /// comparison at the cursor holds. The cursor goes behind the
    /// instruction, and two bytes further if the comparison does not hold.
    /// Where the machine does not wait for an answer, this is an error, and
    /// the state stays as it is.
    pub fn resume_comparison(&mut self, holds: bool) -> (result: RuntimeResult)
        requires
            old(self).wf(),
        ensures
            final(self).wf(),
            match old(self)@.resume_comparison(holds) {
                Some(next) => result is Ok && final(self)@ == next,
                None => result matches Err(error) && error.is_malformed(
                    old(self).spec_code(),
                    old(self)@.ic as usize,
                    "No answer is awaited"@,
                ) && final(self)@ == old(self)@,
            },
    {
        match self.decide() {
            Ok(Action::Comparison { op, lhs, rhs }) => {},
            _ => {
                return Err(self.malformed_here("No answer is awaited"));
            },
        }
        self.ic += if holds {
            3
        } else {
            5
        };
        Ok(())
    }

    /// Takes a step if the opcode at the cursor is `instruction`; anything
    /// else there is malformed bytecode, and the state stays as it is.
    fn step_as(&mut self, instruction: Instruction) -> (result: RuntimeResult<Step>)
        requires
            old(self).wf(),
        ensures
            final(self).wf(),
            steps_as(result, final(self)@, old(self)@, old(self).spec_code(), instruction),
    {
        if self.current_bag < self.baggage.len() {
            let code = &self.baggage[self.current_bag].bytecode;
            if self.ic < code.len() {
                match Instruction::from_byte(code[self.ic]) {
                    Some(found) => {
                        if found == instruction {
                            return self.step();
                        }
                    },
                    None => {},
                }
            }
        }
        Err(self.malformed_here("Unexpected byte"))
    }

    /// Executes the `Const` at the cursor: decodes the constant bytes
    /// `[I, I+L)` into the register `A`.
    pub fn constant(&mut self) -> (result: RuntimeResult<Step>)
        requires
            old(self).wf(),
        ensures
            final(self).wf(),
            steps_as(result, final(self)@, old(self)@, old(self).spec_code(), Instruction::Const),
    {
        self.step_as(Instruction::Const)
    }

    /// Executes the `Add` at the cursor: asks for `R(A) + R(B)`.
    pub fn add(&mut self) -> (result: RuntimeResult<Step>)
        requires
            old(self).wf(),
        ensures
            final(self).wf(),
            steps_as(result, final(self)@, old(self)@, old(self).spec_code(), Instruction::Add),
    {
        self.step_as(Instruction::Add)
    }

    /// Executes the `Sub` at the cursor: asks for `R(A) - R(B)`.
    pub fn sub(&mut self) -> (result: RuntimeResult<Step>)
        requires
            old(self).wf(),
        ensures
            final(self).wf(),
            steps_as(result, final(self)@, old(self)@, old(self).spec_code(), Instruction::Sub),
    {
        self.step_as(Instruction::Sub)
    }

    /// Executes the `Mul` at the cursor: asks for `R(A) * R(B)`.
    pub fn mul(&mut self) -> (result: RuntimeResult<Step>)
        requires
            old(self).wf(),
        ensures
            final(self).wf(),
            steps_as(result, final(self)@, old(self)@, old(self).spec_code(), Instruction::Mul),
    {
        self.step_as(Instruction::Mul)
    }

    /// Executes the `Div` at the cursor: asks for `R(A) / R(B)`.
    pub fn div(&mut self) -> (result: RuntimeResult<Step>)
        requires
            old(self).wf(),
        ensures
            final(self).wf(),
            steps_as(result, final(self)@, old(self)@, old(self).spec_code(), Instruction::Div),
    {
        self.step_as(Instruction::Div)
    }

    /// Executes the `Eq` at the cursor: skips two bytes unless `R(A) == R(B)`.
    pub fn eq(&mut self) -> (result: RuntimeResult<Step>)
        requires
            old(self).wf(),
        ensures
            final(self).wf(),
            steps_as(result, final(self)@, old(self)@, old(self).spec_code(), Instruction::Eq),
    {
        self.step_as(Instruction::Eq)
    }

    /// Executes the `Ne` at the cursor: skips two bytes unless `R(A) != R(B)`.
    pub fn ne(&mut self) -> (result: RuntimeResult<Step>)
        requires
            old(self).wf(),
        ensures
            final(self).wf(),
            steps_as(result, final(self)@, old(self)@, old(self).spec_code(), Instruction::Ne),
    {
        self.step_as(Instruction::Ne)
    }

    /// Executes the `Lt` at the cursor: skips two bytes unless `R(A) < R(B)`.
    pub fn lt(&mut self) -> (result: RuntimeResult<Step>)
        requires
            old(self).wf(),
        ensures
            final(self).wf(),
            steps_as(result, final(self)@, old(self)@, old(self).spec_code(), Instruction::Lt),
    {
        self.step_as(Instruction::Lt)
    }

    /// Executes the `Le` at the cursor: skips two bytes unless `R(A) <= R(B)`.
    pub fn le(&mut self) -> (result: RuntimeResult<Step>)
        requires
            old(self).wf(),
        ensures
            final(self).wf(),
            steps_as(result, final(self)@, old(self)@, old(self).spec_code(), Instruction::Le),
    {
        self.step_as(Instruction::Le)
    }

    /// Executes the `Not` at the cursor: `R(B) = !R(A)`.
    pub fn not(&mut self) -> (result: RuntimeResult<Step>)
        requires
            old(self).wf(),
        ensures
            final(self).wf(),
            steps_as(result, final(self)@, old(self)@, old(self).spec_code(), Instruction::Not),
    {
        self.step_as(Instruction::Not)
    }

    /// Executes the `Neg` at the cursor: asks for `-R(A)`.
    pub fn neg(&mut self) -> (result: RuntimeResult<Step>)
        requires
            old(self).wf(),
        ensures
            final(self).wf(),
            steps_as(result, final(self)@, old(self)@, old(self).spec_code(), Instruction::Neg),
    {
        self.step_as(Instruction::Neg)
    }

    /// Executes the `Let` at the cursor: `V(L) = R(A)`.
    pub fn let_declr(&mut self) -> (result: RuntimeResult<Step>)
        requires
            old(self).wf(),
        ensures
            final(self).wf(),
            steps_as(result, final(self)@, old(self)@, old(self).spec_code(), Instruction::Let),
    {
        self.step_as(Instruction::Let)
    }
}

} // verus!
