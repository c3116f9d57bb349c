use mpc::instruction::Instruction;
use mpc::vm::{VmError, MEMORY_SIZE, VM};

#[test]
fn fresh_engine_state() {
    let vm = VM::new();
    assert_eq!(vm.registers(), vec![0u16; 16]);
    assert_eq!(vm.accumulator(), 0);
    assert_eq!(vm.instruction_pointer(), 0);
    assert_eq!(vm.stack_pointer(), 0xFFFF);
    assert!(!vm.is_halted());
    assert!(vm.nonzero_cells().is_empty());
    let d = VM::default();
    assert_eq!(d.stack_pointer(), 0xFFFF);
}

#[test]
fn load_immediate_takes_operand_nibbles() {
    let mut vm = VM::new();
    // op 1, register 2, high byte 3, low byte 4
    assert_eq!(vm.run(0x1234), Ok(()));
    assert_eq!(vm.registers()[2], 0x0304);
    assert_eq!(vm.instruction_pointer(), 2);
}

#[test]
fn sub_after_two_loads() {
    let mut vm = VM::new();
    assert_eq!(vm.run(0x1105), Ok(()));
    assert_eq!(vm.run(0x1203), Ok(()));
    assert_eq!(vm.registers()[1], 0x0005);
    assert_eq!(vm.registers()[2], 0x0003);
    assert_eq!(vm.run(0x5120), Ok(()));
    assert_eq!(vm.accumulator(), 0x0002);
}

#[test]
fn arithmetic_wraps() {
    let mut vm = VM::new();
    vm.execute(Instruction::LoadImmediate { reg: 1, value: 0xFFFF }).unwrap();
    vm.execute(Instruction::LoadImmediate { reg: 2, value: 0x0002 }).unwrap();
    vm.execute(Instruction::Add { lhs: 1, rhs: 2 }).unwrap();
    assert_eq!(vm.accumulator(), 0x0001);
    vm.execute(Instruction::Sub { lhs: 2, rhs: 1 }).unwrap();
    assert_eq!(vm.accumulator(), 0x0003);
    vm.execute(Instruction::Mult { lhs: 1, rhs: 2 }).unwrap();
    assert_eq!(vm.accumulator(), 0xFFFE);
}

#[test]
fn logic_and_shift_operations() {
    let mut vm = VM::new();
    assert_eq!(vm.run(0x110C), Ok(())); // r1 = 0x000C
    assert_eq!(vm.run(0x120A), Ok(())); // r2 = 0x000A
    assert_eq!(vm.run(0x8120), Ok(()));
    assert_eq!(vm.accumulator(), 0x0008);
    assert_eq!(vm.run(0x9120), Ok(()));
    assert_eq!(vm.accumulator(), 0x000E);
    assert_eq!(vm.run(0xB120), Ok(()));
    assert_eq!(vm.accumulator(), 0x0006);
    assert_eq!(vm.run(0xA100), Ok(()));
    assert_eq!(vm.accumulator(), 0xFFF3);
    assert_eq!(vm.run(0xC140), Ok(()));
    assert_eq!(vm.accumulator(), 0x00C0);
    assert_eq!(vm.run(0xD120), Ok(()));
    assert_eq!(vm.accumulator(), 0x0003);
    assert_eq!(vm.run(0x7120), Ok(()));
    assert_eq!(vm.accumulator(), 0x0001);
}

#[test]
fn halt_makes_later_runs_inert() {
    let mut vm = VM::new();
    assert_eq!(vm.run(0x1105), Ok(()));
    assert_eq!(vm.run(0x0000), Ok(()));
    assert!(vm.is_halted());
    let regs = vm.registers();
    let accum = vm.accumulator();
    let sp = vm.stack_pointer();
    for word in [0x1207u16, 0x4120, 0xE100, 0x3100] {
        let ip = vm.instruction_pointer();
        assert_eq!(vm.run(word), Ok(()));
        assert_eq!(vm.instruction_pointer(), ip + 2);
        assert_eq!(vm.registers(), regs);
        assert_eq!(vm.accumulator(), accum);
        assert_eq!(vm.stack_pointer(), sp);
        assert!(vm.is_halted());
    }
}

#[test]
fn division_by_zero_is_reported() {
    let mut vm = VM::new();
    assert_eq!(vm.run(0x1109), Ok(()));
    assert_eq!(vm.run(0x4110), Ok(())); // accumulator = 18
    assert_eq!(vm.run(0x7120), Err(VmError::DivisionByZero));
    assert_eq!(vm.accumulator(), 18);
    assert_eq!(vm.instruction_pointer(), 6);
    assert_eq!(vm.run(0x7120), Err(VmError::DivisionByZero));
    assert_eq!(vm.accumulator(), 18);
    assert_eq!(vm.instruction_pointer(), 8);
}

#[test]
fn push_accum_then_pop_restores_stack_pointer() {
    let mut vm = VM::new();
    vm.execute(Instruction::LoadImmediate { reg: 1, value: 0x1212 }).unwrap();
    vm.execute(Instruction::LoadImmediate { reg: 2, value: 0 }).unwrap();
    vm.execute(Instruction::Add { lhs: 1, rhs: 2 }).unwrap();
    let sp = vm.stack_pointer();
    assert_eq!(vm.execute(Instruction::PushAccum), Ok(()));
    assert_eq!(vm.stack_pointer(), sp - 2);
    assert_eq!(vm.execute(Instruction::Pop { reg: 5 }), Ok(()));
    assert_eq!(vm.registers()[5], 0x1212);
    assert_eq!(vm.stack_pointer(), sp);
}

#[test]
fn push_then_pop_exchanges_bytes() {
    let mut vm = VM::new();
    vm.execute(Instruction::LoadImmediate { reg: 1, value: 0x1234 }).unwrap();
    assert_eq!(vm.run(0xE100), Ok(()));
    assert_eq!(vm.memory_at(0xFFFF), 0x34);
    assert_eq!(vm.memory_at(0xFFFE), 0x12);
    assert_eq!(vm.run(0xF300), Ok(()));
    assert_eq!(vm.registers()[3], 0x3412);
    assert_eq!(vm.stack_pointer(), 0xFFFF);
}

#[test]
fn pop_on_empty_stack_underflows() {
    let mut vm = VM::new();
    assert_eq!(vm.run(0xF100), Err(VmError::StackUnderflow));
    assert_eq!(vm.stack_pointer(), 0xFFFF);
    assert_eq!(vm.instruction_pointer(), 2);
}

#[test]
fn push_on_full_stack_overflows() {
    let mut vm = VM::new();
    for _ in 0..32767 {
        assert_eq!(vm.execute(Instruction::Push { reg: 0 }), Ok(()));
    }
    assert_eq!(vm.stack_pointer(), 1);
    assert_eq!(vm.execute(Instruction::PushAccum), Err(VmError::StackOverflow));
    assert_eq!(vm.stack_pointer(), 1);
}

#[test]
fn store_past_memory_end_is_refused() {
    let mut vm = VM::new();
    vm.execute(Instruction::LoadImmediate { reg: 1, value: 0xABCD }).unwrap();
    assert_eq!(vm.execute(Instruction::Dump { reg: 1, addr: 0xFFFF }), Err(VmError::MemoryOutOfRange));
    assert_eq!(vm.execute(Instruction::DumpAccum { addr: 0xFFFF }), Err(VmError::MemoryOutOfRange));
    assert_eq!(vm.memory_at(0xFFFF), 0);
    assert_eq!(vm.execute(Instruction::Dump { reg: 1, addr: 0xFFFE }), Ok(()));
    assert_eq!(vm.memory_at(0xFFFE), 0xAB);
    assert_eq!(vm.memory_at(0xFFFF), 0xCD);
}

#[test]
fn unrecognized_opcode_is_a_no_op() {
    let mut vm = VM::new();
    assert_eq!(vm.run(0x2ABC), Ok(()));
    assert_eq!(vm.registers(), vec![0u16; 16]);
    assert_eq!(vm.accumulator(), 0);
    assert_eq!(vm.instruction_pointer(), 2);
    assert_eq!(Instruction::decode(0x2ABC), Instruction::NoOp);
}

#[test]
fn instruction_pointer_stops_at_memory_end() {
    let mut vm = VM::new();
    for _ in 0..(MEMORY_SIZE / 2) {
        assert_eq!(vm.run(0x2000), Ok(()));
    }
    assert_eq!(vm.instruction_pointer(), MEMORY_SIZE);
    assert_eq!(vm.run(0x1105), Err(VmError::InstructionOutOfRange));
    assert_eq!(vm.step(), Err(VmError::InstructionOutOfRange));
    assert_eq!(vm.registers()[1], 0);
    assert_eq!(vm.instruction_pointer(), MEMORY_SIZE);
}

#[test]
fn decode_splits_fields() {
    assert_eq!(Instruction::decode(0x1234), Instruction::LoadImmediate { reg: 2, value: 0x0304 });
    assert_eq!(Instruction::decode(0x3F0E), Instruction::Dump { reg: 15, addr: 0x000E });
    assert_eq!(Instruction::decode(0x0FFF), Instruction::Halt);
    assert_eq!(Instruction::decode(0xC3A0), Instruction::LShift { reg: 3, amount: 10 });
    assert_eq!(Instruction::from_fields(0x10, 0, 0x1, 0x2), Instruction::DumpAccum { addr: 0x0102 });
    assert_eq!(Instruction::from_fields(0x11, 0, 0, 0), Instruction::PushAccum);
}

#[test]
fn nibbles_reassemble_to_the_word() {
    let vm = VM::new();
    assert_eq!(vm.byte_to_nibbles(0xA7), [0xA, 0x7]);
    for word in [0x0000u16, 0x1234, 0xFFFF, 0xA05C, 0x8001] {
        let mut vm = VM::new();
        vm.insert_opcode(word);
        let n = vm.get_opcode_nibbles();
        let back = ((n[0] as u16) << 12) | ((n[1] as u16) << 8) | ((n[2] as u16) << 4) | n[3] as u16;
        assert_eq!(back, word);
        assert!(n.iter().all(|x| *x < 16));
    }
}

#[test]
fn memory_listing_after_stores() {
    let mut vm = VM::new();
    assert_eq!(vm.run(0x11AB), Ok(())); // r1 = 0x0A0B
    assert_eq!(vm.run(0x3123), Ok(())); // store r1 at 0x0203
    assert_eq!(vm.run(0x3125), Ok(())); // store r1 at 0x0205
    assert_eq!(vm.run(0x1100), Ok(())); // r1 = 0
    assert_eq!(vm.run(0x3124), Ok(())); // store 0 at 0x0204
    assert_eq!(vm.run(0x4110), Ok(())); // accumulator = 0
    assert_eq!(vm.execute(Instruction::LoadImmediate { reg: 2, value: 0x7700 }), Ok(()));
    assert_eq!(vm.execute(Instruction::Add { lhs: 2, rhs: 1 }), Ok(()));
    assert_eq!(vm.execute(Instruction::DumpAccum { addr: 0x0300 }), Ok(()));
    let cells = vm.nonzero_cells();
    assert_eq!(
        cells,
        vec![
            (0, 0x11), (1, 0xAB), (2, 0x31), (3, 0x23), (4, 0x31), (5, 0x25), (6, 0x11),
            (8, 0x31), (9, 0x24), (10, 0x41), (11, 0x10), (0x203, 0x0A), (0x206, 0x0B),
            (0x300, 0x77),
        ]
    );
}

#[test]
fn state_report_text() {
    let mut vm = VM::new();
    assert_eq!(vm.run(0x12AF), Ok(())); // r2 = 0x0A0F
    assert_eq!(vm.run(0x0000), Ok(()));
    let report = vm.state_report();
    let mut expected = String::new();
    for (i, name) in ["A", "B", "C", "D", "E", "F", "G", "H", "I", "J", "K", "L", "M", "N", "O", "P"]
        .iter()
        .enumerate()
    {
        let v = if i == 2 { "0xa0f" } else { "0x0" };
        expected.push_str(&format!("Register {}: {}\n", name, v));
    }
    expected.push_str("Accumulator: 0x0\nInstruction Pointer: 0x4\nStack Pointer: 0xffff\n");
    expected.push_str("Status: halted\nMemory:\n0x0 -> 0x12\n0x1 -> 0xaf\n");
    assert_eq!(report, expected);
}
