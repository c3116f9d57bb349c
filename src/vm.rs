use vstd::prelude::*;

use crate::decode::{
    b_field, high_byte, join_bytes, lemma_decode_round_trip, lemma_fields_of_bytes, low_byte,
    nibbles_of, op_field, word_of_bytes,
};
use crate::instruction::{Instruction, DIV, HALT};

verus! {

/// Number of addressable bytes of memory.
pub const MEMORY_SIZE: usize = 0x10000;

/// Number of general-purpose registers.
pub const REGISTER_COUNT: usize = 16;

/// Why one step failed. A failed instruction leaves registers, accumulator,
/// memory and stack pointer as they were (`run` has still written the word
/// into the instruction slot).
#[derive(Clone, Copy, Debug, PartialEq, Eq, Structural)]
pub enum VmError {
    /// `DIV` with a zero divisor register.
    DivisionByZero,
    /// A push with a stack pointer below 2: the stack has no room left.
    StackOverflow,
    /// A pop with nothing above the stack pointer to read.
    StackUnderflow,
    /// A two-byte store whose second byte lies past the end of memory.
    MemoryOutOfRange,
    /// The two-byte instruction slot at the instruction pointer lies past the
    /// end of memory; nothing is executed and the instruction pointer stays.
    InstructionOutOfRange,
}

/// The engine's state as plain values.
pub ghost struct VmState {
    pub mem: Seq<u8>,
    pub regs: Seq<u16>,
    pub accum: u16,
    pub sp: int,
    pub ip: int,
    pub halted: bool,
}

/// Memory and register file have their fixed sizes, and both pointers lie in range.
pub open spec fn state_wf(s: VmState) -> bool {
    &&& s.mem.len() == MEMORY_SIZE
    &&& s.regs.len() == REGISTER_COUNT
    &&& 0 <= s.sp < MEMORY_SIZE
    &&& 0 <= s.ip <= MEMORY_SIZE
}

/// The state a fresh engine starts in.
pub open spec fn initial_state() -> VmState {
    VmState {
        mem: Seq::new(MEMORY_SIZE as nat, |i: int| 0u8),
        regs: Seq::new(REGISTER_COUNT as nat, |i: int| 0u16),
        accum: 0,
        sp: MEMORY_SIZE - 1,
        ip: 0,
        halted: false,
    }
}

/// Memory with `value` stored at `at` (high byte) and `at + 1` (low byte).
pub open spec fn store_word(mem: Seq<u8>, at: int, value: u16) -> Seq<u8> {
    mem.update(at, (value / 256) as u8).update(at + 1, (value % 256) as u8)
}

/// Pushing `value`: low byte at `sp`, high byte at `sp - 1`, then `sp` drops by 2.
pub open spec fn push_spec(s: VmState, value: u16) -> Result<VmState, VmError> {
    if s.sp < 2 {
        Err(VmError::StackOverflow)
    } else {
        Ok(
            VmState {
                mem: s.mem.update(s.sp, (value % 256) as u8).update(s.sp - 1, (value / 256) as u8),
                sp: s.sp - 2,
                ..s
            },
        )
    }
}

/// Storing `value` at a memory address, high byte first.
pub open spec fn dump_spec(s: VmState, addr: u16, value: u16) -> Result<VmState, VmError> {
    if addr + 1 >= MEMORY_SIZE {
        Err(VmError::MemoryOutOfRange)
    } else {
        Ok(VmState { mem: store_word(s.mem, addr as int, value), ..s })
    }
}

/// The accumulator set to `v`.
pub open spec fn with_accum(s: VmState, v: u16) -> Result<VmState, VmError> {
    Ok(VmState { accum: v, ..s })
}

/// The effect of one instruction on a running engine, before the instruction
/// pointer advances. Arithmetic wraps modulo 2^16.
pub open spec fn apply_spec(s: VmState, instr: Instruction) -> Result<VmState, VmError> {
    match instr {
        Instruction::Halt => Ok(VmState { halted: true, ..s }),
        Instruction::LoadImmediate { reg, value } => Ok(
            VmState { regs: s.regs.update(reg as int, value), ..s },
        ),
        Instruction::Dump { reg, addr } => dump_spec(s, addr, s.regs[reg as int]),
        Instruction::Add { lhs, rhs } => with_accum(
            s,
            ((s.regs[lhs as int] + s.regs[rhs as int]) % 0x10000) as u16,
        ),
        Instruction::Sub { lhs, rhs } => with_accum(
            s,
            ((s.regs[lhs as int] - s.regs[rhs as int] + 0x10000) % 0x10000) as u16,
        ),
        Instruction::Mult { lhs, rhs } => with_accum(
            s,
            ((s.regs[lhs as int] * s.regs[rhs as int]) % 0x10000) as u16,
        ),
        Instruction::Div { lhs, rhs } => if s.regs[rhs as int] == 0 {
            Err(VmError::DivisionByZero)
        } else {
            with_accum(s, (s.regs[lhs as int] / s.regs[rhs as int]) as u16)
        },
        Instruction::And { lhs, rhs } => with_accum(s, s.regs[lhs as int] & s.regs[rhs as int]),
        Instruction::Or { lhs, rhs } => with_accum(s, s.regs[lhs as int] | s.regs[rhs as int]),
        Instruction::Not { reg } => with_accum(s, !s.regs[reg as int]),
        Instruction::Xor { lhs, rhs } => with_accum(s, s.regs[lhs as int] ^ s.regs[rhs as int]),
        Instruction::LShift { reg, amount } => with_accum(s, s.regs[reg as int] << amount),
        Instruction::RShift { reg, amount } => with_accum(s, s.regs[reg as int] >> amount),
        Instruction::Push { reg } => push_spec(s, s.regs[reg as int]),
        Instruction::Pop { reg } => if s.sp + 2 >= MEMORY_SIZE {
            Err(VmError::StackUnderflow)
        } else {
            Ok(
                VmState {
                    regs: s.regs.update(
                        reg as int,
                        word_of_bytes(s.mem[s.sp + 2], s.mem[s.sp + 1]),
                    ),
                    sp: s.sp + 2,
                    ..s
                },
            )
        },
        Instruction::DumpAccum { addr } => dump_spec(s, addr, s.accum),
        Instruction::PushAccum => push_spec(s, s.accum),
        Instruction::NoOp => Ok(s),
    }
}

/// One step of `instr`: the new state and the step's outcome.
/// Unless the instruction slot lies past the end of memory, the instruction
/// pointer advances by 2 whatever happens; a halted engine does nothing else,
/// and a failed instruction changes nothing else.
pub open spec fn execute_spec(s: VmState, instr: Instruction) -> (VmState, Result<(), VmError>) {
    if s.ip + 2 > MEMORY_SIZE {
        (s, Err(VmError::InstructionOutOfRange))
    } else if s.halted {
        (VmState { ip: s.ip + 2, ..s }, Ok(()))
    } else {
        match apply_spec(s, instr) {
            Ok(t) => (VmState { ip: s.ip + 2, ..t }, Ok(())),
            Err(e) => (VmState { ip: s.ip + 2, ..s }, Err(e)),
        }
    }
}

/// Running `word`: it is written at the instruction pointer (high byte first),
/// then decoded and executed as one step.
pub open spec fn run_spec(s: VmState, word: u16) -> (VmState, Result<(), VmError>) {
    if s.ip + 2 > MEMORY_SIZE {
        (s, Err(VmError::InstructionOutOfRange))
    } else {
        execute_spec(
            VmState { mem: store_word(s.mem, s.ip, word), ..s },
            Instruction::decode_spec(word),
        )
    }
}

/// The word stored in the instruction slot at the instruction pointer.
pub open spec fn current_word(s: VmState) -> u16 {
    word_of_bytes(s.mem[s.ip], s.mem[s.ip + 1])
}

/// A 16-bit register machine with 64 KiB of byte memory.
pub struct VM {
    mem: Vec<u8>,
    regs: Vec<u16>,
    accum: u16,
    sp: usize,
    instruc: usize,
    halted: bool,
}

impl View for VM {
    type V = VmState;

    closed spec fn view(&self) -> VmState {
        VmState {
            mem: self.mem@,
            regs: self.regs@,
            accum: self.accum,
            sp: self.sp as int,
            ip: self.instruc as int,
            halted: self.halted,
        }
    }
}

impl VM {
    pub open spec fn wf(&self) -> bool {
        state_wf(self@)
    }

    /// A fresh engine: memory and registers zeroed, stack pointer at the top of memory.
    pub fn new() -> (r: VM)
        ensures
            r.wf(),
            r@ == initial_state(),
    {
        let r = VM {
            mem: vec![0u8; MEMORY_SIZE],
            regs: vec![0u16; REGISTER_COUNT],
            accum: 0,
            sp: MEMORY_SIZE - 1,
            instruc: 0,
            halted: false,
        };
        assert(r@.mem =~= initial_state().mem);
        assert(r@.regs =~= initial_state().regs);
        r
    }

    fn store(&mut self, at: usize, value: u16)
        requires
            old(self).wf(),
            at + 1 < MEMORY_SIZE,
        ensures
            final(self)@ == (VmState { mem: store_word(old(self)@.mem, at as int, value), ..old(self)@ }),
    {
        self.mem[at] = high_byte(value);
        self.mem[at + 1] = low_byte(value);
    }

    fn push_value(&mut self, value: u16) -> (r: Result<(), VmError>)
        requires
            old(self).wf(),
        ensures
            match push_spec(old(self)@, value) {
                Ok(t) => r == Ok::<(), VmError>(()) && final(self)@ == t,
                Err(e) => r == Err::<(), VmError>(e) && final(self)@ == old(self)@,
            },
    {
        if self.sp < 2 {
            return Err(VmError::StackOverflow);
        }
        let sp = self.sp;
        self.mem[sp] = low_byte(value);
        self.mem[sp - 1] = high_byte(value);
        self.sp = sp - 2;
        Ok(())
    }

    fn dump_value(&mut self, addr: u16, value: u16) -> (r: Result<(), VmError>)
        requires
            old(self).wf(),
        ensures
            match dump_spec(old(self)@, addr, value) {
                Ok(t) => r == Ok::<(), VmError>(()) && final(self)@ == t,
                Err(e) => r == Err::<(), VmError>(e) && final(self)@ == old(self)@,
            },
    {
        if addr as usize + 1 >= MEMORY_SIZE {
            return Err(VmError::MemoryOutOfRange);
        }
        self.store(addr as usize, value);
        Ok(())
    }

    fn set_accum(&mut self, value: u16) -> (r: Result<(), VmError>)
        ensures
            r == Ok::<(), VmError>(()),
            final(self)@ == (VmState { accum: value, ..old(self)@ }),
    {
        self.accum = value;
        Ok(())
    }

    /// Carries out `instr` on a running engine, leaving the instruction pointer.
    fn apply(&mut self, instr: Instruction) -> (r: Result<(), VmError>)
        requires
            old(self).wf(),
            instr.wf(),
        ensures
            match apply_spec(old(self)@, instr) {
                Ok(t) => r == Ok::<(), VmError>(()) && final(self)@ == t,
                Err(e) => r == Err::<(), VmError>(e) && final(self)@ == old(self)@,
            },
    {
        match instr {
            Instruction::Halt => {
                self.halted = true;
                Ok(())
            },
            Instruction::LoadImmediate { reg, value } => {
                self.regs[reg as usize] = value;
                Ok(())
            },
            Instruction::Dump { reg, addr } => {
                let v = self.regs[reg as usize];
                self.dump_value(addr, v)
            },
            Instruction::Add { lhs, rhs } => {
                let v = self.regs[lhs as usize].wrapping_add(self.regs[rhs as usize]);
                self.set_accum(v)
            },
            Instruction::Sub { lhs, rhs } => {
                let v = self.regs[lhs as usize].wrapping_sub(self.regs[rhs as usize]);
                self.set_accum(v)
            },
            Instruction::Mult { lhs, rhs } => {
                let v = self.regs[lhs as usize].wrapping_mul(self.regs[rhs as usize]);
                self.set_accum(v)
            },
            Instruction::Div { lhs, rhs } => {
                let d = self.regs[rhs as usize];
                if d == 0 {
                    return Err(VmError::DivisionByZero);
                }
                let v = self.regs[lhs as usize] / d;
                self.set_accum(v)
            },
            Instruction::And { lhs, rhs } => {
                let v = self.regs[lhs as usize] & self.regs[rhs as usize];
                self.set_accum(v)
            },
            Instruction::Or { lhs, rhs } => {
                let v = self.regs[lhs as usize] | self.regs[rhs as usize];
                self.set_accum(v)
            },
            Instruction::Not { reg } => {
                let v = !self.regs[reg as usize];
                self.set_accum(v)
            },
            Instruction::Xor { lhs, rhs } => {
                let v = self.regs[lhs as usize] ^ self.regs[rhs as usize];
                self.set_accum(v)
            },
            Instruction::LShift { reg, amount } => {
                let v = self.regs[reg as usize] << amount;
                self.set_accum(v)
            },
            Instruction::RShift { reg, amount } => {
                let v = self.regs[reg as usize] >> amount;
                self.set_accum(v)
            },
            Instruction::Push { reg } => {
                let v = self.regs[reg as usize];
                self.push_value(v)
            },
            Instruction::Pop { reg } => {
                if self.sp + 2 >= MEMORY_SIZE {
                    return Err(VmError::StackUnderflow);
                }
                let v = join_bytes(self.mem[self.sp + 2], self.mem[self.sp + 1]);
                self.regs[reg as usize] = v;
                self.sp = self.sp + 2;
                Ok(())
            },
            Instruction::DumpAccum { addr } => {
                let v = self.accum;
                self.dump_value(addr, v)
            },
            Instruction::PushAccum => {
                let v = self.accum;
                self.push_value(v)
            },
            Instruction::NoOp => Ok(()),
        }
    }

    /// Executes one already decoded instruction as a step of its own.
    pub fn execute(&mut self, instr: Instruction) -> (r: Result<(), VmError>)
        requires
            old(self).wf(),
            instr.wf(),
        ensures
            final(self).wf(),
            (final(self)@, r) == execute_spec(old(self)@, instr),
    {
        if self.instruc + 2 > MEMORY_SIZE {
            return Err(VmError::InstructionOutOfRange);
        }
        let r = if self.halted {
            Ok(())
        } else {
            self.apply(instr)
        };
        self.instruc = self.instruc + 2;
        r
    }

    /// The sixteen general-purpose registers, in order.
    pub fn registers(&self) -> (r: Vec<u16>)
        requires
            self.wf(),
        ensures
            r@ == self@.regs,
    {
        self.regs.clone()
    }

    pub fn accumulator(&self) -> (r: u16)
        ensures
            r == self@.accum,
    {
        self.accum
    }

    pub fn instruction_pointer(&self) -> (r: usize)
        ensures
            r == self@.ip,
    {
        self.instruc
    }

    pub fn stack_pointer(&self) -> (r: usize)
        ensures
            r == self@.sp,
    {
        self.sp
    }

    pub fn is_halted(&self) -> (r: bool)
        ensures
            r == self@.halted,
    {
        self.halted
    }

    /// The byte at memory address `addr`.
    pub fn memory_at(&self, addr: usize) -> (r: u8)
        requires
            self.wf(),
            addr < MEMORY_SIZE,
        ensures
            r == self@.mem[addr as int],
    {
        self.mem[addr]
    }

    /// Splits a byte into its high and low nibble.
    pub fn byte_to_nibbles(&self, byte: u8) -> (r: [u8; 2])
        ensures
            r[0] == byte / 16,
            r[1] == byte % 16,
    {
        assert(byte >> 4 == byte / 16 && byte & 0xF == byte % 16) by (bit_vector);
        [byte >> 4, byte & 0xF]
    }

    /// The four nibbles of the instruction word at the instruction pointer.
    pub fn get_opcode_nibbles(&self) -> (r: [u8; 4])
        requires
            self.wf(),
            self@.ip + 2 <= MEMORY_SIZE,
        ensures
            r@ == nibbles_of(current_word(self@)),
    {
        let pt1 = self.mem[self.instruc];
        let pt2 = self.mem[self.instruc + 1];
        let n1 = self.byte_to_nibbles(pt1);
        let n2 = self.byte_to_nibbles(pt2);
        proof {
            lemma_fields_of_bytes(pt1, pt2);
        }
        let r = [n1[0], n1[1], n2[0], n2[1]];
        assert(r@ =~= nibbles_of(current_word(self@)));
        r
    }

    /// Writes `opcode` into the instruction slot, high byte first.
    pub fn insert_opcode(&mut self, opcode: u16)
        requires
            old(self).wf(),
            old(self)@.ip + 2 <= MEMORY_SIZE,
        ensures
            final(self).wf(),
            final(self)@ == (VmState { mem: store_word(old(self)@.mem, old(self)@.ip, opcode), ..old(self)@ }),
            current_word(final(self)@) == opcode,
    {
        let at = self.instruc;
        self.store(at, opcode);
        proof {
            let w = opcode as int;
            assert(w == (w / 256) * 256 + w % 256);
        }
    }

    /// Decodes and executes the instruction stored at the instruction pointer.
    pub fn step(&mut self) -> (r: Result<(), VmError>)
        requires
            old(self).wf(),
        ensures
            final(self).wf(),
            old(self)@.ip + 2 > MEMORY_SIZE ==> final(self)@ == old(self)@
                && r == Err::<(), VmError>(VmError::InstructionOutOfRange),
            old(self)@.ip + 2 <= MEMORY_SIZE ==> (final(self)@, r) == execute_spec(
                old(self)@,
                Instruction::decode_spec(current_word(old(self)@)),
            ),
    {
        if self.instruc + 2 > MEMORY_SIZE {
            return Err(VmError::InstructionOutOfRange);
        }
        let n = self.get_opcode_nibbles();
        let instr = Instruction::from_fields(n[0], n[1], n[2], n[3]);
        self.execute(instr)
    }

    /// Writes `opcode` at the instruction pointer and executes it as one step.
    pub fn run(&mut self, opcode: u16) -> (r: Result<(), VmError>)
        requires
            old(self).wf(),
        ensures
            final(self).wf(),
            (final(self)@, r) == run_spec(old(self)@, opcode),
    {
        if self.instruc + 2 > MEMORY_SIZE {
            return Err(VmError::InstructionOutOfRange);
        }
        self.insert_opcode(opcode);
        self.step()
    }
}

impl Default for VM {
    fn default() -> (r: VM)
        ensures
            r.wf(),
            r@ == initial_state(),
    {
        VM::new()
    }
}

/// Running a word whose operation field is `HALT` on a running engine halts it.
pub proof fn lemma_run_halt_halts(s: VmState, x: u16)
    requires
        state_wf(s),
        s.ip + 2 <= MEMORY_SIZE,
        op_field(x) == HALT,
    ensures
        run_spec(s, x).0.halted,
        run_spec(s, x).1 == Ok::<(), VmError>(()),
{
}

/// On a halted engine, running any word leaves registers, accumulator, stack
/// pointer and the halted flag as they were, changes memory only by the word
/// written into the instruction slot, and advances the instruction pointer by 2.
pub proof fn lemma_halted_run_is_inert(s: VmState, x: u16)
    requires
        state_wf(s),
        s.halted,
        s.ip + 2 <= MEMORY_SIZE,
    ensures
        run_spec(s, x).1 == Ok::<(), VmError>(()),
        run_spec(s, x).0 == (VmState { mem: store_word(s.mem, s.ip, x), ip: s.ip + 2, ..s }),
        run_spec(s, x).0.regs == s.regs,
        run_spec(s, x).0.accum == s.accum,
        run_spec(s, x).0.halted,
        forall|i: int|
            0 <= i < MEMORY_SIZE && i != s.ip && i != s.ip + 1 ==> #[trigger] run_spec(s, x).0.mem[i]
                == s.mem[i],
{
}

/// A `DIV` whose divisor register holds 0 fails with `DivisionByZero` and changes
/// nothing but the instruction slot and the instruction pointer: the accumulator
/// keeps its value, and the outcome is the same every time.
pub proof fn lemma_division_by_zero(s: VmState, x: u16)
    requires
        state_wf(s),
        !s.halted,
        s.ip + 2 <= MEMORY_SIZE,
        op_field(x) == DIV,
        s.regs[b_field(x) as int] == 0,
    ensures
        run_spec(s, x).1 == Err::<(), VmError>(VmError::DivisionByZero),
        run_spec(s, x).0 == (VmState { mem: store_word(s.mem, s.ip, x), ip: s.ip + 2, ..s }),
        run_spec(s, x).0.accum == s.accum,
{
    lemma_decode_round_trip(x);
}

/// `PUSH_ACCUM` then `POP` into a register puts the stack pointer back where it
/// was, and loads the register with the accumulator's two bytes in exchanged
/// order (the push stores the low byte at `sp`, the pop reads `sp` back as the
/// high byte). Where both bytes of the accumulator are equal, the register
/// receives exactly the accumulator's value.
pub proof fn lemma_push_accum_then_pop(s: VmState, reg: u8)
    requires
        state_wf(s),
        !s.halted,
        s.ip + 4 <= MEMORY_SIZE,
        s.sp >= 2,
        reg < 16,
    ensures
        ({
            let t = execute_spec(s, Instruction::PushAccum);
            let u = execute_spec(t.0, Instruction::Pop { reg });
            &&& t.1 == Ok::<(), VmError>(())
            &&& u.1 == Ok::<(), VmError>(())
            &&& u.0.sp == s.sp
            &&& u.0.regs[reg as int] == word_of_bytes((s.accum % 256) as u8, (s.accum / 256) as u8)
            &&& s.accum / 256 == s.accum % 256 ==> u.0.regs[reg as int] == s.accum
        }),
{
    let a = s.accum as int;
    assert(a == (a / 256) * 256 + a % 256);
}

} // verus!
