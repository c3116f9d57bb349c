use vstd::prelude::*;

use crate::decode::{a_field, b_field, c_field, op_field};

verus! {

pub const HALT: u8 = 0x0;
pub const LOAD_IMMEDIATE: u8 = 0x1;
pub const DUMP: u8 = 0x3;
pub const ADD: u8 = 0x4;
pub const SUB: u8 = 0x5;
pub const MULT: u8 = 0x6;
pub const DIV: u8 = 0x7;
pub const AND: u8 = 0x8;
pub const OR: u8 = 0x9;
pub const NOT: u8 = 0xA;
pub const XOR: u8 = 0xB;
pub const LSHIFT: u8 = 0xC;
pub const RSHIFT: u8 = 0xD;
pub const PUSH: u8 = 0xE;
pub const POP: u8 = 0xF;
pub const DUMP_ACCUM: u8 = 0x10;
pub const PUSH_ACCUM: u8 = 0x11;

/// One decoded operation with the operand fields it uses.
/// Register operands are indices 0..15; shift amounts are 0..15.
#[derive(Clone, Copy, Debug, PartialEq, Eq, Structural)]
pub enum Instruction {
    Halt,
    LoadImmediate { reg: u8, value: u16 },
    Dump { reg: u8, addr: u16 },
    Add { lhs: u8, rhs: u8 },
    Sub { lhs: u8, rhs: u8 },
    Mult { lhs: u8, rhs: u8 },
    Div { lhs: u8, rhs: u8 },
    And { lhs: u8, rhs: u8 },
    Or { lhs: u8, rhs: u8 },
    Not { reg: u8 },
    Xor { lhs: u8, rhs: u8 },
    LShift { reg: u8, amount: u8 },
    RShift { reg: u8, amount: u8 },
    Push { reg: u8 },
    Pop { reg: u8 },
    /// Operation value 0x10: wider than the 4-bit operation field, so no
    /// instruction word decodes to it; it runs through `VM::execute`.
    DumpAccum { addr: u16 },
    /// Operation value 0x11: like `DumpAccum`, reachable through `VM::execute` only.
    PushAccum,
    /// An unrecognized operation: it does nothing.
    NoOp,
}

impl Instruction {
    /// Every register index and shift amount is a 4-bit value.
    pub open spec fn wf(self) -> bool {
        match self {
            Instruction::LoadImmediate { reg, .. } => reg < 16,
            Instruction::Dump { reg, .. } => reg < 16,
            Instruction::Add { lhs, rhs } => lhs < 16 && rhs < 16,
            Instruction::Sub { lhs, rhs } => lhs < 16 && rhs < 16,
            Instruction::Mult { lhs, rhs } => lhs < 16 && rhs < 16,
            Instruction::Div { lhs, rhs } => lhs < 16 && rhs < 16,
            Instruction::And { lhs, rhs } => lhs < 16 && rhs < 16,
            Instruction::Or { lhs, rhs } => lhs < 16 && rhs < 16,
            Instruction::Not { reg } => reg < 16,
            Instruction::Xor { lhs, rhs } => lhs < 16 && rhs < 16,
            Instruction::LShift { reg, amount } => reg < 16 && amount < 16,
            Instruction::RShift { reg, amount } => reg < 16 && amount < 16,
            Instruction::Push { reg } => reg < 16,
            Instruction::Pop { reg } => reg < 16,
            _ => true,
        }
    }

    /// The instruction that the fields `[op, a, b, c]` select.
    /// The immediate value and the memory address are `(b << 8) | c`.
    pub open spec fn from_fields_spec(op: u8, a: u8, b: u8, c: u8) -> Instruction {
        let imm = (b * 256 + c) as u16;
        if op == HALT {
            Instruction::Halt
        } else if op == LOAD_IMMEDIATE {
            Instruction::LoadImmediate { reg: a, value: imm }
        } else if op == DUMP {
            Instruction::Dump { reg: a, addr: imm }
        } else if op == ADD {
            Instruction::Add { lhs: a, rhs: b }
        } else if op == SUB {
            Instruction::Sub { lhs: a, rhs: b }
        } else if op == MULT {
            Instruction::Mult { lhs: a, rhs: b }
        } else if op == DIV {
            Instruction::Div { lhs: a, rhs: b }
        } else if op == AND {
            Instruction::And { lhs: a, rhs: b }
        } else if op == OR {
            Instruction::Or { lhs: a, rhs: b }
        } else if op == NOT {
            Instruction::Not { reg: a }
        } else if op == XOR {
            Instruction::Xor { lhs: a, rhs: b }
        } else if op == LSHIFT {
            Instruction::LShift { reg: a, amount: b }
        } else if op == RSHIFT {
            Instruction::RShift { reg: a, amount: b }
        } else if op == PUSH {
            Instruction::Push { reg: a }
        } else if op == POP {
            Instruction::Pop { reg: a }
        } else if op == DUMP_ACCUM {
            Instruction::DumpAccum { addr: imm }
        } else if op == PUSH_ACCUM {
            Instruction::PushAccum
        } else {
            Instruction::NoOp
        }
    }

    /// The instruction that a 16-bit word encodes.
    pub open spec fn decode_spec(word: u16) -> Instruction {
        Instruction::from_fields_spec(op_field(word), a_field(word), b_field(word), c_field(word))
    }

    /// Selects the instruction for the fields `[op, a, b, c]`.
    pub fn from_fields(op: u8, a: u8, b: u8, c: u8) -> (r: Instruction)
        requires
            b < 16,
            c < 16,
        ensures
            r == Instruction::from_fields_spec(op, a, b, c),
            a < 16 ==> r.wf(),
    {
        let imm: u16 = (b as u16) * 256 + (c as u16);
        match op {
            HALT => Instruction::Halt,
            LOAD_IMMEDIATE => Instruction::LoadImmediate { reg: a, value: imm },
            DUMP => Instruction::Dump { reg: a, addr: imm },
            ADD => Instruction::Add { lhs: a, rhs: b },
            SUB => Instruction::Sub { lhs: a, rhs: b },
            MULT => Instruction::Mult { lhs: a, rhs: b },
            DIV => Instruction::Div { lhs: a, rhs: b },
            AND => Instruction::And { lhs: a, rhs: b },
            OR => Instruction::Or { lhs: a, rhs: b },
            NOT => Instruction::Not { reg: a },
            XOR => Instruction::Xor { lhs: a, rhs: b },
            LSHIFT => Instruction::LShift { reg: a, amount: b },
            RSHIFT => Instruction::RShift { reg: a, amount: b },
            PUSH => Instruction::Push { reg: a },
            POP => Instruction::Pop { reg: a },
            DUMP_ACCUM => Instruction::DumpAccum { addr: imm },
            PUSH_ACCUM => Instruction::PushAccum,
            _ => Instruction::NoOp,
        }
    }

    /// Decodes a 16-bit instruction word.
    pub fn decode(word: u16) -> (r: Instruction)
        ensures
            r == Instruction::decode_spec(word),
            r.wf(),
    {
        assert(word >> 12 == word / 4096 && (word >> 8) & 0xF == (word / 256) % 16
            && (word >> 4) & 0xF == (word / 16) % 16 && word & 0xF == word % 16) by (bit_vector);
        Instruction::from_fields(
            (word >> 12) as u8,
            ((word >> 8) & 0xF) as u8,
            ((word >> 4) & 0xF) as u8,
            (word & 0xF) as u8,
        )
    }
}

} // verus!
