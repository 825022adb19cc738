use microcpu::computer::{
    create_default_cpu, flag_invert, Memory, Registers, Storage, SubInstructions, VmError, CPU,
    FLAG_ALL, FLAG_NONE, GREATER_FLAG, ZERO_FLAG,
};

/// A small machine whose operand and accumulator registers are `width`
/// bytes wide, for exercising multi-byte arithmetic.
fn wide_cpu(width: usize) -> CPU {
    let mut registers = Registers::new();
    registers.add_register("program_counter".to_string(), 1, 0);
    registers.add_register("stack_pointer".to_string(), 1, 1);
    registers.add_register("accumulator".to_string(), width, 2);
    registers.add_register("reg_a".to_string(), width, 2 + width);
    registers.add_register("reg_b".to_string(), width, 2 + 2 * width);
    CPU::new(registers, Memory::new(16), Storage::new(4))
}

#[test]
fn register_write_then_read_returns_data() {
    let mut cpu = create_default_cpu(64, 0);
    cpu.write_register_string("reg_a", &[7]).unwrap();
    assert_eq!(cpu.read_register_string("reg_a").unwrap(), &[7u8][..]);
}

#[test]
fn register_write_of_wrong_length_is_refused() {
    let mut cpu = create_default_cpu(64, 0);
    assert_eq!(
        cpu.write_register_string("reg_a", &[1, 2]),
        Err(VmError::SizeMismatch)
    );
    assert_eq!(cpu.write_register_string("reg_a", &[]), Err(VmError::SizeMismatch));
    // The failed writes left the register alone.
    assert_eq!(cpu.read_register_string("reg_a").unwrap(), &[0u8][..]);
}

#[test]
fn register_lookup_by_name_and_id_agree() {
    let cpu = create_default_cpu(64, 0);
    let by_name = cpu.registers.look_up_string("reg_c").unwrap();
    let id = cpu.registers.name_to_u8("reg_c");
    assert_eq!(id, 12);
    let by_id = cpu.registers.look_up_u8(id).unwrap();
    assert_eq!(by_name.location, by_id.location);
    assert_eq!(by_name.size, by_id.size);
    assert!(cpu.registers.look_up_string("no_such_register").is_none());
    assert!(cpu.registers.look_up_u8(200).is_none());
}

#[test]
fn unknown_register_write_is_refused() {
    let mut cpu = create_default_cpu(64, 0);
    assert_eq!(
        cpu.write_register_string("no_such_register", &[1]),
        Err(VmError::UnknownRegister)
    );
    assert_eq!(cpu.write_register(200, &[1]), Err(VmError::UnknownRegister));
}

#[test]
fn memory_read_write_round_trip() {
    let mut memory = Memory::new(8);
    memory.write(3, 0xAB);
    assert_eq!(memory.read(3), 0xAB);
    memory.write_chunk(4, &[1, 2, 3]);
    assert_eq!(memory.read_chunk(3, 7), &[0xAB, 1, 2, 3]);
    memory.clear_chunk(3, 6);
    assert_eq!(memory.read_chunk(3, 7), &[0, 0, 0, 3]);
    assert_eq!(memory.len(), 8);
}

#[test]
fn storage_read_write_round_trip() {
    let mut storage = Storage::new(8);
    storage.write(0, 9);
    assert_eq!(storage.read(0), 9);
    storage.write_chunk(1, &[4, 5]);
    assert_eq!(storage.read_chunk(0, 3), &[9, 4, 5]);
    assert_eq!(storage.len(), 8);
}

#[test]
fn chunks_move_between_memory_and_storage() {
    let mut cpu = create_default_cpu(16, 16);
    cpu.memory.write_chunk(2, &[7, 8, 9]);
    cpu.save_chunk_to_storage(2, 5);
    assert_eq!(cpu.storage.read_chunk(2, 5), &[7, 8, 9]);
    cpu.memory.clear_chunk(2, 5);
    cpu.load_chunk_to_memory(2, 5);
    assert_eq!(cpu.memory.read_chunk(2, 5), &[7, 8, 9]);
    cpu.save_to_storage(3, 0);
    assert_eq!(cpu.storage.read(0), 8);
    cpu.load_to_memory(0, 0);
    assert_eq!(cpu.memory.read(0), 8);
}

#[test]
fn stack_pointer_starts_at_top_of_memory() {
    let cpu = create_default_cpu(64, 0);
    assert_eq!(cpu.read_register_string("stack_pointer").unwrap(), &[64u8][..]);
}

#[test]
fn add_works_on_multi_byte_values() {
    let mut cpu = wide_cpu(2);
    cpu.write_register_string("reg_a", &[0x01, 0x02]).unwrap();
    cpu.write_register_string("reg_b", &[0x03, 0x05]).unwrap();
    SubInstructions::Add.execute(&mut cpu).unwrap();
    assert_eq!(cpu.get_accumulator_bytes().unwrap(), &[0x04, 0x07][..]);
}

#[test]
fn add_carries_across_bytes() {
    let mut cpu = wide_cpu(2);
    cpu.write_register_string("reg_a", &[0x00, 0xFF]).unwrap();
    cpu.write_register_string("reg_b", &[0x00, 0x01]).unwrap();
    SubInstructions::Add.execute(&mut cpu).unwrap();
    assert_eq!(cpu.get_accumulator_bytes().unwrap(), &[0x01, 0x00][..]);
}

#[test]
fn add_is_commutative_on_concrete_values() {
    let mut left = wide_cpu(2);
    left.write_register_string("reg_a", &[0x12, 0x34]).unwrap();
    left.write_register_string("reg_b", &[0x00, 0xCD]).unwrap();
    SubInstructions::Add.execute(&mut left).unwrap();

    let mut right = wide_cpu(2);
    right.write_register_string("reg_a", &[0x00, 0xCD]).unwrap();
    right.write_register_string("reg_b", &[0x12, 0x34]).unwrap();
    SubInstructions::Add.execute(&mut right).unwrap();

    assert_eq!(
        left.get_accumulator_bytes().unwrap(),
        right.get_accumulator_bytes().unwrap()
    );
}

#[test]
fn sub_then_add_of_same_operand_is_identity() {
    let mut cpu = create_default_cpu(16, 0);
    cpu.write_register_string("reg_a", &[5]).unwrap();
    cpu.write_register_string("reg_b", &[3]).unwrap();
    SubInstructions::Sub.execute(&mut cpu).unwrap();
    assert_eq!(cpu.get_accumulator_bytes().unwrap(), &[2u8][..]);
    let diff = cpu.get_accumulator_bytes().unwrap().to_vec();
    cpu.write_register_string("reg_a", &diff).unwrap();
    SubInstructions::Add.execute(&mut cpu).unwrap();
    assert_eq!(cpu.get_accumulator_bytes().unwrap(), &[5u8][..]);
}

#[test]
fn sub_underflow_is_fatal() {
    let mut cpu = create_default_cpu(16, 0);
    cpu.write_register_string("reg_a", &[1]).unwrap();
    cpu.write_register_string("reg_b", &[2]).unwrap();
    assert_eq!(SubInstructions::Sub.execute(&mut cpu), Err(VmError::Underflow));
    // The failed micro-operation left the accumulator alone.
    assert_eq!(cpu.get_accumulator_bytes().unwrap(), &[0u8][..]);
}

#[test]
fn arithmetic_results_are_canonical() {
    // Two-byte operands with leading zeros produce a one-byte sum, which
    // fits the one-byte accumulator only because the engine stores the
    // canonical form.
    let mut registers = Registers::new();
    registers.add_register("program_counter".to_string(), 1, 0);
    registers.add_register("stack_pointer".to_string(), 1, 1);
    registers.add_register("accumulator".to_string(), 1, 2);
    registers.add_register("reg_a".to_string(), 2, 3);
    registers.add_register("reg_b".to_string(), 2, 5);
    let mut cpu = CPU::new(registers, Memory::new(8), Storage::new(0));
    cpu.write_register_string("reg_a", &[0x00, 0x05]).unwrap();
    cpu.write_register_string("reg_b", &[0x00, 0x02]).unwrap();
    SubInstructions::Add.execute(&mut cpu).unwrap();
    assert_eq!(cpu.get_accumulator_bytes().unwrap(), &[7u8][..]);
}

#[test]
fn push_then_pop_restores_value_pointer_and_zeroes_cell() {
    let mut cpu = create_default_cpu(64, 0);
    cpu.set_accumulator(&[9]).unwrap();
    SubInstructions::PushToStack.execute(&mut cpu).unwrap();
    assert_eq!(cpu.read_register_string("stack_pointer").unwrap(), &[63u8][..]);
    assert_eq!(cpu.memory.read(63), 9);
    cpu.set_accumulator(&[0]).unwrap();
    SubInstructions::PopFromStack.execute(&mut cpu).unwrap();
    assert_eq!(cpu.get_accumulator_bytes().unwrap(), &[9u8][..]);
    assert_eq!(cpu.read_register_string("stack_pointer").unwrap(), &[64u8][..]);
    assert_eq!(cpu.memory.read(63), 0);
}

#[test]
fn compare_sets_flags_per_encoding() {
    let mut cpu = create_default_cpu(16, 0);

    cpu.write_register_string("reg_a", &[5]).unwrap();
    cpu.write_register_string("reg_b", &[5]).unwrap();
    SubInstructions::Compare.execute(&mut cpu).unwrap();
    assert_eq!(cpu.get_flags_bytes().unwrap(), &[ZERO_FLAG][..]);

    cpu.write_register_string("reg_b", &[3]).unwrap();
    SubInstructions::Compare.execute(&mut cpu).unwrap();
    assert_eq!(cpu.get_flags_bytes().unwrap(), &[GREATER_FLAG][..]);

    cpu.write_register_string("reg_b", &[9]).unwrap();
    SubInstructions::Compare.execute(&mut cpu).unwrap();
    assert_eq!(cpu.get_flags_bytes().unwrap(), &[FLAG_NONE][..]);
}

#[test]
fn compare_then_jump_if_equal_fires_only_on_equal() {
    for (a, b, fires) in [(4u8, 4u8, true), (5, 4, false), (3, 4, false)] {
        let mut cpu = create_default_cpu(32, 0);
        cpu.write_register_string("reg_a", &[a]).unwrap();
        cpu.write_register_string("reg_b", &[b]).unwrap();
        SubInstructions::Compare.execute(&mut cpu).unwrap();
        cpu.set_accumulator(&[17]).unwrap();
        SubInstructions::JumpIfFlag(ZERO_FLAG, GREATER_FLAG)
            .execute(&mut cpu)
            .unwrap();
        let pc = cpu.get_program_counter_bytes().unwrap();
        assert_eq!(pc == &[17u8][..], fires, "equal-jump for {} vs {}", a, b);
    }
}

#[test]
fn compare_then_jump_if_greater_fires_only_on_greater() {
    for (a, b, fires) in [(4u8, 4u8, false), (5, 4, true), (3, 4, false)] {
        let mut cpu = create_default_cpu(32, 0);
        cpu.write_register_string("reg_a", &[a]).unwrap();
        cpu.write_register_string("reg_b", &[b]).unwrap();
        SubInstructions::Compare.execute(&mut cpu).unwrap();
        cpu.set_accumulator(&[17]).unwrap();
        SubInstructions::JumpIfFlag(GREATER_FLAG, ZERO_FLAG)
            .execute(&mut cpu)
            .unwrap();
        let pc = cpu.get_program_counter_bytes().unwrap();
        assert_eq!(pc == &[17u8][..], fires, "greater-jump for {} vs {}", a, b);
    }
}

#[test]
fn flag_invert_complements_within_byte() {
    assert_eq!(flag_invert(FLAG_NONE), FLAG_ALL);
    assert_eq!(flag_invert(FLAG_ALL), FLAG_NONE);
    assert_eq!(flag_invert(ZERO_FLAG), 0xFE);
    assert_eq!(flag_invert(GREATER_FLAG), 0xFD);
}

#[test]
fn halt_and_unhalt_drive_the_clock_gate() {
    let mut cpu = create_default_cpu(16, 0);
    assert!(!cpu.is_halted());
    SubInstructions::Halt.execute(&mut cpu).unwrap();
    assert!(cpu.is_halted());
    // A halted machine ignores its clock.
    let pc_before = cpu.get_program_counter_bytes().unwrap().to_vec();
    cpu.clock().unwrap();
    assert_eq!(cpu.get_program_counter_bytes().unwrap(), &pc_before[..]);
    cpu.unhalt();
    assert!(!cpu.is_halted());
}

#[test]
fn step_and_step_size_advance_program_counter() {
    let mut cpu = create_default_cpu(64, 0);
    cpu.step().unwrap();
    assert_eq!(cpu.get_program_counter_bytes().unwrap(), &[1u8][..]);
    cpu.step_size(5).unwrap();
    assert_eq!(cpu.get_program_counter_bytes().unwrap(), &[6u8][..]);
}

#[test]
fn value_getters_canonicalize_register_bytes() {
    let mut cpu = wide_cpu(2);
    cpu.write_register_string("accumulator", &[0x00, 0x09]).unwrap();
    // The raw bytes keep the register's width; the value getter strips
    // the leading zero down to the canonical form.
    assert_eq!(cpu.get_accumulator_bytes().unwrap(), &[0x00, 0x09][..]);
    assert_eq!(cpu.get_accumulator().unwrap(), vec![9]);
    assert_eq!(cpu.get_program_counter().unwrap(), vec![0]);
}

#[test]
fn flags_value_getter_reads_the_flag_register() {
    let mut cpu = create_default_cpu(16, 0);
    cpu.set_flags(&[GREATER_FLAG]).unwrap();
    assert_eq!(cpu.get_flags().unwrap(), vec![GREATER_FLAG]);
    assert_eq!(cpu.get_flags_bytes().unwrap(), &[GREATER_FLAG][..]);
}
