//! What the machine computes, as functions on a mathematical state.

use crate::bag::{BagView, CAPACITY};
use crate::codec::{parse_value, value_bytes};
use crate::error::runtime::RuntimeError;
use crate::instruction::Instruction;
use crate::runtime::environment::{ScopeView, VariableView};
use crate::value::ValueView;
use vstd::prelude::*;

verus! {

/// The state of a run.
pub struct Machine {
    /// The chunks of the program, in the order in which they run.
    pub chunks: Seq<BagView>,
    /// The number of the chunk that the cursor is in.
    pub chunk: nat,
    /// The offset of the cursor in the bytecode of that chunk.
    pub ic: nat,
    /// The register file.
    pub registers: Seq<ValueView>,
    /// The variables.
    pub scope: ScopeView<VariableView>,
}

/// Why a run stops with an error.
pub enum Fault {
    /// The bytecode `code` is malformed at the offset `position`.
    Malformed { code: Seq<u8>, position: nat, why: Seq<char> },
    /// An operand does not have the type that the instruction is defined on.
    TypeConflict,
}

/// What one step of the machine comes to.
pub enum Effect {
    /// The cursor is behind the last chunk: the run is over.
    Halt,
    /// The step is done, and this is the state after it.
    Continue(Machine),
    /// The instruction at the cursor is `R(store) = lhs op rhs` on two
    /// numbers; the state waits for the result.
    Arithmetic { op: Instruction, lhs: u32, rhs: u32, store: u8 },
    /// The instruction at the cursor is `R(store) = -operand` on a number;
    /// the state waits for the result.
    Negation { operand: u32, store: u8 },
    /// The instruction at the cursor compares two numbers; the state waits
    /// for the answer.
    Comparison { op: Instruction, lhs: u32, rhs: u32 },
    /// The step fails.
    Fault(Fault),
}

impl Fault {
    /// `error` reports this fault.
    pub open spec fn reported(self, error: RuntimeError) -> bool {
        match self {
            Fault::Malformed { code, position, why } => position <= usize::MAX
                && error.is_malformed(code, position as usize, why),
            Fault::TypeConflict => error.is_type_conflict(),
        }
    }
}

/// The slot of the variable `name`: where several variables have the name,
/// the one declared last.
pub open spec fn lookup(vars: Seq<VariableView>, name: Seq<char>) -> Option<int>
    decreases vars.len(),
{
    if vars.len() == 0 {
        None
    } else if vars.last().name == name {
        Some(vars.len() - 1)
    } else {
        lookup(vars.drop_last(), name)
    }
}

impl Machine {
    /// The state in which a run of `chunks` with the variables `scope`
    /// begins: the cursor at the start of the first chunk, and `false` in
    /// each of the 256 registers.
    pub open spec fn start(chunks: Seq<BagView>, scope: ScopeView<VariableView>) -> Machine {
        Machine {
            chunks,
            chunk: 0,
            ic: 0,
            registers: Seq::new(256, |i: int| ValueView::Truth(false)),
            scope,
        }
    }

    /// The register file has its 256 registers.
    pub open spec fn wf(self) -> bool {
        self.registers.len() == 256
    }

    /// The cursor is behind the last chunk.
    pub open spec fn halted(self) -> bool {
        self.chunk >= self.chunks.len()
    }

    /// The bytecode of the chunk that the cursor is in.
    pub open spec fn code(self) -> Seq<u8> {
        self.chunks[self.chunk as int].bytecode
    }

    /// The constants of the chunk that the cursor is in.
    pub open spec fn pool(self) -> Seq<u8> {
        self.chunks[self.chunk as int].constants
    }

    /// The byte `k` bytes after the cursor: the opcode for 0, then the operands.
    pub open spec fn byte(self, k: nat) -> u8 {
        self.code()[(self.ic + k) as int]
    }

    /// The value in the register `r`.
    pub open spec fn reg(self, r: u8) -> ValueView {
        self.registers[r as int]
    }

    /// The offset at which the bytecode that can be read ends: its length,
    /// or [`CAPACITY`] if it is longer.
    pub open spec fn limit(self) -> nat {
        if self.code().len() < CAPACITY {
            self.code().len()
        } else {
            CAPACITY as nat
        }
    }

    /// The fault, if the instruction at the cursor does not have `operands`
    /// operand bytes that can be read: it is at the offset of the first
    /// byte that cannot.
    pub open spec fn truncated(self, operands: nat) -> Option<Fault> {
        if self.ic + 1 + operands <= self.limit() {
            None
        } else {
            let position = if self.ic + 1 >= self.limit() {
                self.ic + 1
            } else {
                self.limit()
            };
            Some(
                Fault::Malformed {
                    code: self.code(),
                    position,
                    why: if position >= CAPACITY {
                        "Block is too large"@
                    } else {
                        "Unexpected end of bytecode"@
                    },
                },
            )
        }
    }

    /// The fault for bytecode that is malformed at the cursor.
    pub open spec fn malformed(self, why: Seq<char>) -> Effect {
        Effect::Fault(Fault::Malformed { code: self.code(), position: self.ic, why })
    }

    /// The state with the cursor behind an instruction with `operands` operand bytes.
    pub open spec fn past(self, operands: nat) -> Machine {
        Machine { ic: self.ic + 1 + operands, ..self }
    }

    /// The state with `value` in the register `r`.
    pub open spec fn stored(self, r: u8, value: ValueView) -> Machine {
        Machine { registers: self.registers.update(r as int, value), ..self }
    }

    /// The state with `value` in the variable of `slot`.
    pub open spec fn assigned(self, slot: int, value: ValueView) -> Machine {
        Machine {
            scope: ScopeView {
                vars: self.scope.vars.update(
                    slot,
                    VariableView { value, ..self.scope.vars[slot] },
                ),
                ..self.scope
            },
            ..self
        }
    }

    /// The state after a comparison: as it is if the comparison holds, with
    /// the cursor two bytes further if it does not.
    pub open spec fn skipping(self, holds: bool) -> Machine {
        if holds {
            self
        } else {
            Machine { ic: self.ic + 2, ..self }
        }
    }

    /// The two numbers in the registers `a` and `b`, if both hold numbers.
    pub open spec fn numbers(self, a: u8, b: u8) -> Option<(u32, u32)> {
        match (self.reg(a).number(), self.reg(b).number()) {
            (Some(x), Some(y)) => Some((x, y)),
            _ => None,
        }
    }

    /// The opcode at the cursor, if the cursor stands at one.
    pub open spec fn instruction(self) -> Option<Instruction> {
        if !self.halted() && self.ic < self.code().len() {
            Instruction::spec_from_byte(self.byte(0))
        } else {
            None
        }
    }

    /// One step: at the end of a chunk the cursor moves to the start of the
    /// next chunk; elsewhere the instruction at the cursor is executed.
    pub open spec fn step(self) -> Effect {
        if self.halted() {
            Effect::Halt
        } else if self.ic >= self.code().len() {
            Effect::Continue(Machine { chunk: self.chunk + 1, ic: 0, ..self })
        } else {
            match Instruction::spec_from_byte(self.byte(0)) {
                None => self.malformed("Unexpected byte"@),
                Some(instruction) => match self.truncated(instruction.spec_operands()) {
                    Some(fault) => Effect::Fault(fault),
                    None => self.execute(instruction),
                },
            }
        }
    }

    /// The effect of `instruction` at the cursor, with all its operands there.
    pub open spec fn execute(self, instruction: Instruction) -> Effect {
        let a = self.byte(1);
        let b = self.byte(2);
        let c = self.byte(3);
        let next = self.past(instruction.spec_operands());
        match instruction {
            Instruction::Const => {
                if a + b > self.pool().len() {
                    self.malformed("Constant out of range"@)
                } else {
                    match parse_value(self.pool().subrange(a as int, a + b)) {
                        Some(value) => Effect::Continue(next.stored(c, value)),
                        None => self.malformed("Constant is not a value"@),
                    }
                }
            },
            Instruction::Add | Instruction::Sub | Instruction::Mul | Instruction::Div => {
                match self.numbers(a, b) {
                    Some((lhs, rhs)) => Effect::Arithmetic { op: instruction, lhs, rhs, store: c },
                    None => Effect::Fault(Fault::TypeConflict),
                }
            },
            Instruction::Eq | Instruction::Ne => {
                match self.numbers(a, b) {
                    Some((lhs, rhs)) => Effect::Comparison { op: instruction, lhs, rhs },
                    None => Effect::Continue(
                        next.skipping(
                            (instruction == Instruction::Eq) == self.reg(a).same(self.reg(b)),
                        ),
                    ),
                }
            },
            Instruction::Lt | Instruction::Le => {
                match self.numbers(a, b) {
                    Some((lhs, rhs)) => Effect::Comparison { op: instruction, lhs, rhs },
                    None => Effect::Fault(Fault::TypeConflict),
                }
            },
            Instruction::Not => {
                match self.reg(a).not() {
                    Some(value) => Effect::Continue(next.stored(b, value)),
                    None => Effect::Fault(Fault::TypeConflict),
                }
            },
            Instruction::Neg => {
                match self.reg(a).number() {
                    Some(operand) => Effect::Negation { operand, store: b },
                    None => Effect::Fault(Fault::TypeConflict),
                }
            },
            Instruction::Let => {
                if a < self.scope.vars.len() {
                    Effect::Continue(next.assigned(a as int, self.reg(b)))
                } else {
                    self.malformed("No such variable"@)
                }
            },
            Instruction::Read => {
                match self.reg(a) {
                    ValueView::Text(name) => match lookup(self.scope.vars, name) {
                        Some(slot) => Effect::Continue(next.stored(b, self.scope.vars[slot].value)),
                        None => self.malformed("No such variable"@),
                    },
                    _ => Effect::Fault(Fault::TypeConflict),
                }
            },
            Instruction::Assign => {
                match self.reg(a) {
                    ValueView::Text(name) => match lookup(self.scope.vars, name) {
                        Some(slot) => Effect::Continue(next.assigned(slot, self.reg(b))),
                        None => self.malformed("No such variable"@),
                    },
                    _ => Effect::Fault(Fault::TypeConflict),
                }
            },
        }
    }

    /// The state after the number that the state waits for has come: `bits`
    /// is in the register of the result, and the cursor behind the
    /// instruction. `None` if the state does not wait for a number.
    pub open spec fn resume_number(self, bits: u32) -> Option<Machine> {
        match self.step() {
            Effect::Arithmetic { store, .. } => Some(
                self.past(3).stored(store, ValueView::Number(bits)),
            ),
            Effect::Negation { store, .. } => Some(
                self.past(2).stored(store, ValueView::Number(bits)),
            ),
            _ => None,
        }
    }

    /// The state after the answer that the state waits for has come: the
    /// cursor is behind the instruction, and two bytes further if the
    /// comparison does not hold. `None` if the state does not wait for an
    /// answer.
    pub open spec fn resume_comparison(self, holds: bool) -> Option<Machine> {
        match self.step() {
            Effect::Comparison { .. } => Some(self.past(2).skipping(holds)),
            _ => None,
        }
    }

    /// The bytes that the cursor has still to pass, counted so that every
    /// step that continues makes them fewer.
    pub open spec fn distance(self) -> (nat, nat) {
        (
            if self.halted() {
                0
            } else {
                (self.chunks.len() - self.chunk) as nat
            },
            if !self.halted() && self.ic < self.code().len() {
                (self.code().len() - self.ic) as nat
            } else {
                0
            },
        )
    }

    /// The steps from this state on, up to the first that does not
    /// continue: the state in which that step is taken, and what it comes to.
    pub open spec fn run(self) -> (Machine, Effect)
        decreases self.distance().0, self.distance().1,
    {
        match self.step() {
            Effect::Continue(next) => next.run(),
            effect => (self, effect),
        }
    }
}

/// A step that continues keeps the program and the register file's size,
/// and brings the cursor nearer to the end.
pub proof fn lemma_step_advances(machine: Machine)
    requires
        machine.wf(),
    ensures
        machine.step() matches Effect::Continue(next) ==> next.wf() && next.chunks
            == machine.chunks && (next.distance().0 < machine.distance().0 || (next.distance().0
            == machine.distance().0 && next.distance().1 < machine.distance().1)),
{
}

/// An arithmetic instruction `op A B C` whose operands are there: if the
/// registers `A` and `B` hold the numbers `x` and `y`, the machine asks for
/// `x op y`, and with the answer it has the answer in the register `C`, the
/// cursor behind the instruction, and nothing else changed; if one of the
/// two holds anything else, the step is a type conflict.
pub proof fn lemma_arithmetic(machine: Machine, op: Instruction, answer: u32)
    requires
        machine.wf(),
        !machine.halted(),
        machine.ic + 4 <= machine.limit(),
        Instruction::spec_from_byte(machine.byte(0)) == Some(op),
        op == Instruction::Add || op == Instruction::Sub || op == Instruction::Mul || op
            == Instruction::Div,
    ensures
        match (machine.reg(machine.byte(1)), machine.reg(machine.byte(2))) {
            (ValueView::Number(x), ValueView::Number(y)) => machine.step() == (Effect::Arithmetic {
                op,
                lhs: x,
                rhs: y,
                store: machine.byte(3),
            }) && machine.resume_number(answer) == Some(
                Machine {
                    ic: machine.ic + 4,
                    registers: machine.registers.update(
                        machine.byte(3) as int,
                        ValueView::Number(answer),
                    ),
                    ..machine
                },
            ),
            _ => machine.step() == Effect::Fault(Fault::TypeConflict) && machine.resume_number(
                answer,
            ) is None,
        },
{
}

/// What is appended to a chunk as a constant is loaded as that constant:
/// where a chunk begins with `chunk` followed by the constant `value` for
/// the register `store`, as [`BagView::with_constant`] appends it, the step
/// at the `Const` puts `value` into that register and moves behind the
/// instruction.
pub proof fn lemma_constant_loads(machine: Machine, chunk: BagView, value: ValueView, store: u8)
    requires
        machine.wf(),
        !machine.halted(),
        chunk.overflow(4, value_bytes(value).len()) is None,
        chunk.with_constant(value_bytes(value), store).bytecode.is_prefix_of(machine.code()),
        chunk.with_constant(value_bytes(value), store).constants.is_prefix_of(machine.pool()),
        machine.ic == chunk.bytecode.len(),
    ensures
        machine.step() == Effect::Continue(machine.past(3).stored(store, value)),
{
    let encoded = value_bytes(value);
    let with = chunk.with_constant(encoded, store);
    let from = chunk.constants.len();
    assert(with.bytecode[machine.ic as int] == 0u8);
    assert(with.bytecode[machine.ic as int + 1] == from as u8);
    assert(with.bytecode[machine.ic as int + 2] == encoded.len() as u8);
    assert(with.bytecode[machine.ic as int + 3] == store);
    assert(machine.byte(0) == 0u8);
    assert(machine.byte(1) == from as u8);
    assert(machine.byte(2) == encoded.len() as u8);
    assert(machine.byte(3) == store);
    assert(machine.pool().subrange(from as int, (from + encoded.len()) as int) =~= encoded) by {
        assert forall|k: int| 0 <= k < encoded.len() implies machine.pool()[from + k]
            == encoded[k] by {
            assert(with.constants[from + k] == encoded[k]);
        }
    }
    crate::codec::lemma_radix();
    crate::codec::lemma_value_bytes_len(value);
    crate::codec::lemma_value_round_trip(value, Seq::empty());
    assert(encoded + Seq::<u8>::empty() =~= encoded);
}

} // verus!
