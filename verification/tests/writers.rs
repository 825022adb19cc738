use std::collections::HashMap;

use microcpu::computer::{Instruction, SubInstructions};
use microcpu::writers::{InstructionBuilder, InstructionSetWriter, ProgramWriter};

#[test]
fn instruction_builder_collects_micro_operations_in_order() {
    let mut builder = InstructionBuilder::new(2);
    builder.add_sub_instruction(SubInstructions::LoadImmediate(2));
    builder.add_sub_instruction(SubInstructions::StoreToRegister(1));
    builder.add_sub_instruction(SubInstructions::StepProgramMemory(2));
    let instruction = builder.build();
    assert_eq!(instruction.args, 2);
    assert_eq!(
        instruction.sub_instructions,
        vec![
            SubInstructions::LoadImmediate(2),
            SubInstructions::StoreToRegister(1),
            SubInstructions::StepProgramMemory(2),
        ]
    );
}

#[test]
fn instruction_set_writer_builds_the_declared_table() {
    let mut writer = InstructionSetWriter::new();
    writer.add_instruction(1, 0);
    writer.add_sub_instruction(SubInstructions::Halt);
    writer.add_instruction(9, 1);
    writer.add_sub_instruction(SubInstructions::LoadImmediate(1));
    writer.add_sub_instruction(SubInstructions::PushToStack);
    let table: HashMap<u8, Instruction> = writer.build();
    assert_eq!(table.len(), 2);
    assert_eq!(table[&1].args, 0);
    assert_eq!(table[&1].sub_instructions, vec![SubInstructions::Halt]);
    assert_eq!(table[&9].args, 1);
    assert_eq!(
        table[&9].sub_instructions,
        vec![SubInstructions::LoadImmediate(1), SubInstructions::PushToStack]
    );
}

#[test]
fn reopening_an_opcode_replaces_its_instruction() {
    let mut writer = InstructionSetWriter::new();
    writer.add_instruction(4, 0);
    writer.add_sub_instruction(SubInstructions::Halt);
    writer.add_instruction(4, 2);
    writer.add_sub_instruction(SubInstructions::NoOperation);
    let table = writer.build();
    assert_eq!(table.len(), 1);
    assert_eq!(table[&4].args, 2);
    assert_eq!(table[&4].sub_instructions, vec![SubInstructions::NoOperation]);
}

#[test]
fn program_writer_encodes_opcodes_and_arguments() {
    let mut writer = InstructionSetWriter::new();
    writer.add_instruction(1, 0);
    writer.add_sub_instruction(SubInstructions::Halt);
    writer.add_instruction(10, 2);
    writer.add_sub_instruction(SubInstructions::LoadImmediate(2));
    let table = writer.build();
    let mut program = ProgramWriter::new(table);
    program.add_instruction(10, &[13, 5]);
    program.add_instruction(10, &[14, 7]);
    program.add_instruction(1, &[]);
    assert_eq!(program.build(), vec![10, 13, 5, 10, 14, 7, 1]);
}
