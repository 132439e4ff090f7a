use vstd::prelude::*;

verus! {

/// The operation an instruction byte encodes.
#[derive(Debug, Clone, Copy, PartialEq, Eq, Structural)]
pub enum Opcode {
    /// Stop execution; three reserved operand bytes follow.
    HLT,
    /// Load a big-endian 16-bit immediate into a register.
    LOAD,
    /// Add two registers into a third.
    ADD,
    /// Subtract the second register from the first, into a third.
    SUB,
    /// Multiply two registers into a third.
    MUL,
    /// Truncating division of two registers into a third, keeping the remainder.
    DIV,
    /// Jump to the absolute offset held in a register.
    JMP,
    /// Jump forward by the value held in a register.
    JMPF,
    /// Jump backward by the value held in a register.
    JMPB,
    /// Compare two registers and record the result in the equal flag.
    EQ,
    /// Jump to the offset held in a register when the equal flag is set.
    JEQ,
    /// Jump to the offset held in a register when the equal flag is clear.
    JNEQ,
    /// Any byte that encodes no operation.
    IGL,
}

/// The opcode that byte `b` encodes: bytes 0 to 11 name the operations in
/// order, every other byte is illegal.
pub open spec fn decode(b: u8) -> Opcode {
    if b == 0 {
        Opcode::HLT
    } else if b == 1 {
        Opcode::LOAD
    } else if b == 2 {
        Opcode::ADD
    } else if b == 3 {
        Opcode::SUB
    } else if b == 4 {
        Opcode::MUL
    } else if b == 5 {
        Opcode::DIV
    } else if b == 6 {
        Opcode::JMP
    } else if b == 7 {
        Opcode::JMPF
    } else if b == 8 {
        Opcode::JMPB
    } else if b == 9 {
        Opcode::EQ
    } else if b == 10 {
        Opcode::JEQ
    } else if b == 11 {
        Opcode::JNEQ
    } else {
        Opcode::IGL
    }
}

/// The byte that encodes a legal opcode; `None` for `IGL`, which has no
/// encoding of its own.
pub open spec fn encode(op: Opcode) -> Option<u8> {
    match op {
        Opcode::HLT => Some(0u8),
        Opcode::LOAD => Some(1u8),
        Opcode::ADD => Some(2u8),
        Opcode::SUB => Some(3u8),
        Opcode::MUL => Some(4u8),
        Opcode::DIV => Some(5u8),
        Opcode::JMP => Some(6u8),
        Opcode::JMPF => Some(7u8),
        Opcode::JMPB => Some(8u8),
        Opcode::EQ => Some(9u8),
        Opcode::JEQ => Some(10u8),
        Opcode::JNEQ => Some(11u8),
        Opcode::IGL => None,
    }
}

impl From<u8> for Opcode {
    fn from(value: u8) -> (r: Opcode)
        ensures
            r == decode(value),
    {
        match value {
            0 => Opcode::HLT,
            1 => Opcode::LOAD,
            2 => Opcode::ADD,
            3 => Opcode::SUB,
            4 => Opcode::MUL,
            5 => Opcode::DIV,
            6 => Opcode::JMP,
            7 => Opcode::JMPF,
            8 => Opcode::JMPB,
            9 => Opcode::EQ,
            10 => Opcode::JEQ,
            11 => Opcode::JNEQ,
            _ => Opcode::IGL,
        }
    }
}

impl vstd::std_specs::convert::FromSpecImpl<u8> for Opcode {
    open spec fn obeys_from_spec() -> bool {
        true
    }

    open spec fn from_spec(v: u8) -> Opcode {
        decode(v)
    }
}

/// Bytes 0 to 11 decode to the twelve named operations, each the inverse of
/// its encoding, and every other byte decodes to `IGL`.
pub proof fn lemma_decode_bijective(b: u8)
    ensures
        b <= 11 ==> decode(b) != Opcode::IGL && encode(decode(b)) == Some(b),
        b > 11 ==> decode(b) == Opcode::IGL,
        forall|op: Opcode| #[trigger] encode(op) == Some(b) ==> decode(b) == op,
{
}

/// A decoded instruction.
#[derive(Debug, PartialEq, Eq, Structural)]
pub struct Instruction {
    pub opcode: Opcode,
}

impl Instruction {
    /// An instruction with the given opcode.
    pub fn new(opcode: Opcode) -> (r: Instruction)
        ensures
            r.opcode == opcode,
    {
        Instruction { opcode: opcode }
    }
}

} // verus!
