use vstd::prelude::*;

verus! {

/// The opcodes of the register machine.
///
/// Every operand is one byte. `R(x)` is the register `x`, `V(x)` the variable
/// slot `x`.
///
/// | Opcode | Operands | Effect |
/// |---|---|---|
/// | `Const` | I L A | decode the constant bytes `[I, I+L)` into `R(A)` |
/// | `Add` `Sub` `Mul` `Div` | A B C | `R(C) = R(A) op R(B)` |
/// | `Eq` `Ne` `Lt` `Le` | A B | skip two extra bytes unless `R(A) op R(B)` |
/// | `Not` `Neg` | A B | `R(B) = op R(A)` |
/// | `Let` | L A | `V(L) = R(A)` |
/// | `Read` | I A | `R(A)` = the variable named by `R(I)` |
/// | `Assign` | I A | the variable named by `R(I)` = `R(A)` |
#[derive(Clone, Copy, Debug, PartialEq, Eq, Structural)]
pub enum Instruction {
    Const,
    Add,
    Sub,
    Mul,
    Div,
    Eq,
    Ne,
    Lt,
    Le,
    Not,
    Neg,
    Let,
    Read,
    Assign,
}

impl Instruction {
    /// The byte that stands for this opcode in bytecode.
    pub open spec fn spec_opcode(self) -> u8 {
        match self {
            Instruction::Const => 0,
            Instruction::Add => 1,
            Instruction::Sub => 2,
            Instruction::Mul => 3,
            Instruction::Div => 4,
            Instruction::Eq => 5,
            Instruction::Ne => 6,
            Instruction::Lt => 7,
            Instruction::Le => 8,
            Instruction::Not => 9,
            Instruction::Neg => 10,
            Instruction::Let => 11,
            Instruction::Read => 12,
            Instruction::Assign => 13,
        }
    }

    /// The opcode that a byte stands for, if any.
    pub open spec fn spec_from_byte(byte: u8) -> Option<Instruction> {
        match byte {
            0 => Some(Instruction::Const),
            1 => Some(Instruction::Add),
            2 => Some(Instruction::Sub),
            3 => Some(Instruction::Mul),
            4 => Some(Instruction::Div),
            5 => Some(Instruction::Eq),
            6 => Some(Instruction::Ne),
            7 => Some(Instruction::Lt),
            8 => Some(Instruction::Le),
            9 => Some(Instruction::Not),
            10 => Some(Instruction::Neg),
            11 => Some(Instruction::Let),
            12 => Some(Instruction::Read),
            13 => Some(Instruction::Assign),
            _ => None,
        }
    }

    /// The number of operand bytes that follow the opcode.
    pub open spec fn spec_operands(self) -> nat {
        match self {
            Instruction::Const
            | Instruction::Add
            | Instruction::Sub
            | Instruction::Mul
            | Instruction::Div => 3,
            _ => 2,
        }
    }

    /// The byte that stands for this opcode in bytecode.
    #[verifier::when_used_as_spec(spec_opcode)]
    pub fn opcode(self) -> (byte: u8)
        ensures
            byte == self.spec_opcode(),
    {
        match self {
            Instruction::Const => 0,
            Instruction::Add => 1,
            Instruction::Sub => 2,
            Instruction::Mul => 3,
            Instruction::Div => 4,
            Instruction::Eq => 5,
            Instruction::Ne => 6,
            Instruction::Lt => 7,
            Instruction::Le => 8,
            Instruction::Not => 9,
            Instruction::Neg => 10,
            Instruction::Let => 11,
            Instruction::Read => 12,
            Instruction::Assign => 13,
        }
    }

    /// The opcode that `byte` stands for, if any.
    pub fn from_byte(byte: u8) -> (instruction: Option<Instruction>)
        ensures
            instruction == Self::spec_from_byte(byte),
    {
        match byte {
            0 => Some(Instruction::Const),
            1 => Some(Instruction::Add),
            2 => Some(Instruction::Sub),
            3 => Some(Instruction::Mul),
            4 => Some(Instruction::Div),
            5 => Some(Instruction::Eq),
            6 => Some(Instruction::Ne),
            7 => Some(Instruction::Lt),
            8 => Some(Instruction::Le),
            9 => Some(Instruction::Not),
            10 => Some(Instruction::Neg),
            11 => Some(Instruction::Let),
            12 => Some(Instruction::Read),
            13 => Some(Instruction::Assign),
            _ => None,
        }
    }

    /// The number of operand bytes that follow the opcode.
    pub fn operands(self) -> (count: usize)
        ensures
            count == self.spec_operands(),
    {
        match self {
            Instruction::Const
            | Instruction::Add
            | Instruction::Sub
            | Instruction::Mul
            | Instruction::Div => 3,
            _ => 2,
        }
    }

    /// The bytes of one whole instruction: the opcode, then its operands.
    pub open spec fn encode(self, operands: Seq<u8>) -> Seq<u8> {
        seq![self.spec_opcode()] + operands
    }
}

/// A byte decodes to the opcode that encodes to it, and to no other.
pub proof fn lemma_opcode_round_trip(instruction: Instruction, byte: u8)
    ensures
        Instruction::spec_from_byte(instruction.spec_opcode()) == Some(instruction),
        Instruction::spec_from_byte(byte) == Some(instruction) <==> byte
            == instruction.spec_opcode(),
        Instruction::spec_from_byte(byte) is Some <==> byte < 14,
{
}

} // verus!
