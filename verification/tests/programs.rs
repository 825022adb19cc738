use std::collections::HashMap;

use microcpu::computer::{create_default_cpu, Instruction, CPU};
use microcpu::instructions::{
    add_instructions, OP_ADD_REG, OP_HALT, OP_JUMP, OP_JUMP_GREATER_EQUAL, OP_LOAD_IMMEDIATE,
    OP_MOVE_REGISTER, OP_NO_OPERATION, OP_POP_REG, OP_PUSH_IMMEDIATE, OP_RETURN,
};
use microcpu::writers::{InstructionSetWriter, ProgramWriter};

/// A default machine with the default instruction set installed, plus a
/// writer for encoding programs against that set.
fn machine(memory_size: usize) -> (CPU, ProgramWriter) {
    let mut cpu = create_default_cpu(memory_size, 0);
    let mut writer = InstructionSetWriter::new();
    add_instructions(&mut writer, &cpu.registers, cpu.cpu_data_size);
    let table: HashMap<u8, Instruction> = writer.build();
    cpu.set_instruction_set(table.clone());
    (cpu, ProgramWriter::new(table))
}

fn load_and_run(cpu: &mut CPU, program: Vec<u8>, max_ticks: usize) {
    cpu.memory.write_chunk(0, &program);
    for _ in 0..max_ticks {
        cpu.clock().unwrap();
        if cpu.is_halted() {
            return;
        }
    }
    panic!("program did not halt within {} ticks", max_ticks);
}

#[test]
fn load_add_store_halt_computes_sum() {
    let (mut cpu, mut writer) = machine(64);
    let reg_a = cpu.registers.name_to_u8("reg_a");
    let reg_b = cpu.registers.name_to_u8("reg_b");
    let reg_c = cpu.registers.name_to_u8("reg_c");
    writer.add_instruction(OP_LOAD_IMMEDIATE, &[reg_a, 5]);
    writer.add_instruction(OP_LOAD_IMMEDIATE, &[reg_b, 7]);
    writer.add_instruction(OP_ADD_REG, &[reg_a, reg_b]);
    writer.add_instruction(OP_MOVE_REGISTER, &[reg_a, reg_c]);
    writer.add_instruction(OP_HALT, &[]);
    load_and_run(&mut cpu, writer.build(), 200);
    assert_eq!(cpu.read_register_string("reg_c").unwrap(), &[12u8][..]);
    assert!(cpu.is_halted());
}

#[test]
fn push_three_pop_one_leaves_top_in_accumulator() {
    let (mut cpu, mut writer) = machine(64);
    let reg_2 = cpu.registers.name_to_u8("reg_2");
    writer.add_instruction(OP_PUSH_IMMEDIATE, &[1]);
    writer.add_instruction(OP_PUSH_IMMEDIATE, &[2]);
    writer.add_instruction(OP_PUSH_IMMEDIATE, &[3]);
    writer.add_instruction(OP_POP_REG, &[reg_2]);
    writer.add_instruction(OP_HALT, &[]);
    load_and_run(&mut cpu, writer.build(), 200);
    assert_eq!(cpu.get_accumulator_bytes().unwrap(), &[3u8][..]);
    assert_eq!(cpu.read_register_string("reg_2").unwrap(), &[3u8][..]);
    // Three pushes took the pointer from 64 to 61; the one pop advanced
    // it one slot, and zeroed the cell it vacated.
    assert_eq!(cpu.read_register_string("stack_pointer").unwrap(), &[62u8][..]);
    assert_eq!(cpu.memory.read(61), 0);
    assert_eq!(cpu.memory.read(62), 2);
    assert_eq!(cpu.memory.read(63), 1);
}

#[test]
fn one_instruction_displaces_pc_by_one_plus_steps() {
    // A LoadImmediate instruction issues StepProgramMemory(2); across the
    // fetch, its three micro-operations, and the return to idle, the
    // program counter moves by exactly 1 + 2.
    let (mut cpu, mut writer) = machine(64);
    let reg_0 = cpu.registers.name_to_u8("reg_0");
    writer.add_instruction(OP_LOAD_IMMEDIATE, &[reg_0, 9]);
    cpu.memory.write_chunk(0, &writer.build());
    for _ in 0..5 {
        cpu.clock().unwrap();
    }
    assert!(cpu.current_opcode.is_none());
    assert_eq!(cpu.get_program_counter_bytes().unwrap(), &[3u8][..]);
    assert_eq!(cpu.read_register_string("reg_0").unwrap(), &[9u8][..]);
}

#[test]
fn no_operation_takes_two_ticks_and_advances_one_byte() {
    let (mut cpu, mut writer) = machine(16);
    writer.add_instruction(OP_NO_OPERATION, &[]);
    cpu.memory.write_chunk(0, &writer.build());
    cpu.clock().unwrap();
    assert_eq!(cpu.current_opcode, Some(OP_NO_OPERATION));
    cpu.clock().unwrap();
    assert!(cpu.current_opcode.is_none());
    assert_eq!(cpu.get_program_counter_bytes().unwrap(), &[1u8][..]);
}

#[test]
fn greater_equal_jump_fires_when_less() {
    // The configured GreaterOrEqual mask pair duplicates LessOrEqual's,
    // so the jump fires on "not greater". This test pins that decision:
    // with reg_a < immediate, the jump is taken.
    let (mut cpu, mut writer) = machine(64);
    let reg_0 = cpu.registers.name_to_u8("reg_0");
    let reg_a = cpu.registers.name_to_u8("reg_a");
    let reg_c = cpu.registers.name_to_u8("reg_c");
    writer.add_instruction(OP_LOAD_IMMEDIATE, &[reg_0, 14]); // bytes 0..=2: jump target
    writer.add_instruction(OP_LOAD_IMMEDIATE, &[reg_a, 1]); // bytes 3..=5
    writer.add_instruction(OP_JUMP_GREATER_EQUAL, &[reg_0, reg_a, 2]); // bytes 6..=9
    writer.add_instruction(OP_LOAD_IMMEDIATE, &[reg_c, 99]); // bytes 10..=12: fall-through
    writer.add_instruction(OP_HALT, &[]); // byte 13
    writer.add_instruction(OP_HALT, &[]); // byte 14: jump target
    load_and_run(&mut cpu, writer.build(), 300);
    // 1 < 2, yet the "greater or equal" jump fired: reg_c was never set.
    assert_eq!(cpu.read_register_string("reg_c").unwrap(), &[0u8][..]);
    assert_eq!(cpu.get_program_counter_bytes().unwrap(), &[14u8][..]);
}

#[test]
fn greater_equal_jump_falls_through_when_greater() {
    // The anomaly's other face: with reg_a > immediate the pair computes
    // "greater", so the configured GreaterOrEqual jump does not fire.
    let (mut cpu, mut writer) = machine(64);
    let reg_0 = cpu.registers.name_to_u8("reg_0");
    let reg_a = cpu.registers.name_to_u8("reg_a");
    let reg_c = cpu.registers.name_to_u8("reg_c");
    writer.add_instruction(OP_LOAD_IMMEDIATE, &[reg_0, 14]);
    writer.add_instruction(OP_LOAD_IMMEDIATE, &[reg_a, 3]);
    writer.add_instruction(OP_JUMP_GREATER_EQUAL, &[reg_0, reg_a, 2]);
    writer.add_instruction(OP_LOAD_IMMEDIATE, &[reg_c, 99]);
    writer.add_instruction(OP_HALT, &[]);
    writer.add_instruction(OP_HALT, &[]);
    load_and_run(&mut cpu, writer.build(), 300);
    assert_eq!(cpu.read_register_string("reg_c").unwrap(), &[99u8][..]);
}

#[test]
fn call_saves_context_and_return_lands_past_the_call() {
    // The call-style jump computes its return address as the program
    // counter plus the configured constant 3; with the call's two-byte
    // encoding and the implicit advance after Return, execution resumes
    // four bytes past the call site.
    let (mut cpu, mut writer) = machine(64);
    let reg_c = cpu.registers.name_to_u8("reg_c");
    writer.add_instruction(OP_JUMP, &[8]); // bytes 0..=1
    writer.add_instruction(OP_NO_OPERATION, &[]); // byte 2
    writer.add_instruction(OP_NO_OPERATION, &[]); // byte 3
    writer.add_instruction(OP_LOAD_IMMEDIATE, &[reg_c, 42]); // bytes 4..=6: resume point
    writer.add_instruction(OP_HALT, &[]); // byte 7
    writer.add_instruction(OP_RETURN, &[]); // byte 8
    load_and_run(&mut cpu, writer.build(), 300);
    assert_eq!(cpu.read_register_string("reg_c").unwrap(), &[42u8][..]);
    assert!(cpu.is_halted());
}
