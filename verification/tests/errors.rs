use std::collections::HashMap;

use microcpu::computer::{
    create_default_cpu, Instruction, Memory, Registers, Storage, SubInstructions, VmError, CPU,
};
use microcpu::instructions::add_instructions;
use microcpu::writers::InstructionSetWriter;

fn default_machine_with_table(memory_size: usize) -> CPU {
    let mut cpu = create_default_cpu(memory_size, 0);
    let mut writer = InstructionSetWriter::new();
    add_instructions(&mut writer, &cpu.registers, cpu.cpu_data_size);
    let table: HashMap<u8, Instruction> = writer.build();
    cpu.set_instruction_set(table);
    cpu
}

#[test]
fn unknown_opcode_is_fatal_on_decode() {
    let mut cpu = default_machine_with_table(16);
    cpu.memory.write(0, 200);
    // The fetch itself is a peek and succeeds; the decode on the next
    // tick finds no table entry.
    cpu.clock().unwrap();
    assert_eq!(cpu.current_opcode, Some(200));
    assert_eq!(cpu.clock(), Err(VmError::UnknownOpcode));
}

#[test]
fn fetch_outside_memory_is_fatal() {
    let mut cpu = default_machine_with_table(4);
    cpu.set_program_counter(&[10]).unwrap();
    assert_eq!(cpu.clock(), Err(VmError::OutOfBounds));
}

#[test]
fn address_wider_than_the_host_is_fatal() {
    // A nine-byte program counter can denote an address no host can
    // hold; the fetch refuses it rather than wrapping.
    let mut registers = Registers::new();
    registers.add_register("stack_pointer".to_string(), 1, 0);
    registers.add_register("program_counter".to_string(), 9, 1);
    let mut cpu = CPU::new(registers, Memory::new(8), Storage::new(0));
    cpu.write_register_string("program_counter", &[0xFF; 9]).unwrap();
    assert_eq!(cpu.clock(), Err(VmError::AddressOverflow));
}

#[test]
fn value_too_wide_for_register_is_fatal() {
    let mut cpu = create_default_cpu(16, 0);
    // 256 needs two bytes; the program counter holds one.
    assert_eq!(cpu.set_program_counter(&[1, 0]), Err(VmError::SizeMismatch));
    assert_eq!(cpu.get_program_counter_bytes().unwrap(), &[0u8][..]);
}

#[test]
fn arithmetic_without_operand_registers_is_fatal() {
    let mut registers = Registers::new();
    registers.add_register("stack_pointer".to_string(), 1, 0);
    registers.add_register("accumulator".to_string(), 1, 1);
    let mut cpu = CPU::new(registers, Memory::new(8), Storage::new(0));
    assert_eq!(SubInstructions::Add.execute(&mut cpu), Err(VmError::UnknownRegister));
    assert_eq!(SubInstructions::Compare.execute(&mut cpu), Err(VmError::UnknownRegister));
}

#[test]
fn push_below_the_bottom_of_memory_is_fatal() {
    let mut cpu = create_default_cpu(16, 0);
    cpu.write_register_string("stack_pointer", &[0]).unwrap();
    assert_eq!(
        SubInstructions::PushToStack.execute(&mut cpu),
        Err(VmError::Underflow)
    );
}

#[test]
fn store_outside_memory_is_fatal() {
    let mut cpu = create_default_cpu(16, 0);
    cpu.write_register_string("memory_address", &[200]).unwrap();
    assert_eq!(
        SubInstructions::StoreToMemory.execute(&mut cpu),
        Err(VmError::OutOfBounds)
    );
    assert_eq!(
        SubInstructions::LoadFromMemory.execute(&mut cpu),
        Err(VmError::OutOfBounds)
    );
}

#[test]
fn failed_tick_leaves_the_machine_unchanged() {
    let mut cpu = default_machine_with_table(16);
    cpu.memory.write(0, 200);
    cpu.clock().unwrap();
    let pc_before = cpu.get_program_counter_bytes().unwrap().to_vec();
    let step_before = cpu.current_sub_step;
    assert!(cpu.clock().is_err());
    assert_eq!(cpu.get_program_counter_bytes().unwrap(), &pc_before[..]);
    assert_eq!(cpu.current_sub_step, step_before);
    assert_eq!(cpu.current_opcode, Some(200));
}
