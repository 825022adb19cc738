//! The default instruction set: the opcode catalog and the builder call
//! that fills an `InstructionSetWriter` with each opcode's ordered
//! micro-operations.
//!
//! Call-style jumps (`OP_JUMP` and `OP_JUMP_GREATER_EQUAL_REG`) save a
//! restore context before transferring control: they push the base
//! pointer, push the flags, compute the return address as the program
//! counter plus a constant tied to the call's encoded length, restore the
//! flags, and push the computed return address; `OP_RETURN` unwinds it.
//! The greater-or-equal jumps reuse the less-or-equal mask pair, so they
//! fire on "not greater"; tests pin that behavior down rather than
//! silently altering it.

use vstd::prelude::*;

use crate::computer::{
    spec_id_of, InstrView, Registers, SubInstructions, FLAG_NONE, GREATER_FLAG, ZERO_FLAG,
};
use crate::writers::InstructionSetWriter;

verus! {

pub const OP_NO_OPERATION: u8 = 0;

pub const OP_HALT: u8 = 1;

pub const OP_LOAD_FROM_MEMORY: u8 = 2;

pub const OP_STORE_TO_MEMORY: u8 = 3;

pub const OP_LOAD_FROM_MEMORY_REG: u8 = 4;

pub const OP_STORE_TO_MEMORY_REG: u8 = 5;

pub const OP_ADD_IMMEDIATE: u8 = 6;

pub const OP_ADD_REG: u8 = 7;

pub const OP_SUB_IMMEDIATE: u8 = 8;

pub const OP_SUB_REG: u8 = 9;

pub const OP_LOAD_IMMEDIATE: u8 = 10;

pub const OP_MOVE_REGISTER: u8 = 11;

pub const OP_PUSH_IMMEDIATE: u8 = 12;

pub const OP_PUSH_REG: u8 = 13;

pub const OP_POP_REG: u8 = 14;

pub const OP_JUMP: u8 = 15;

pub const OP_JUMP_REG: u8 = 16;

pub const OP_JUMP_EQUAL: u8 = 17;

pub const OP_JUMP_EQUAL_REG: u8 = 18;

pub const OP_JUMP_NOT_EQUAL: u8 = 19;

pub const OP_JUMP_NOT_EQUAL_REG: u8 = 20;

pub const OP_JUMP_GREATER_THAN: u8 = 21;

pub const OP_JUMP_GREATER_THAN_REG: u8 = 22;

pub const OP_JUMP_LESS_THAN: u8 = 23;

pub const OP_JUMP_LESS_THAN_REG: u8 = 24;

pub const OP_JUMP_LESS_EQUAL: u8 = 25;

pub const OP_JUMP_LESS_EQUAL_REG: u8 = 26;

pub const OP_JUMP_GREATER_EQUAL: u8 = 27;

pub const OP_JUMP_GREATER_EQUAL_REG: u8 = 28;

pub const OP_RETURN: u8 = 29;

/// The table `add_instructions` adds to a map: each opcode bound to its
/// micro-operation sequence and declared immediate-byte count, given the
/// resolved ids of the reserved registers.
pub open spec fn spec_add_default_instructions(
    m: Map<u8, InstrView>,
    pc: u8,
    bp: u8,
    fl: u8,
    ra: u8,
    rb: u8,
) -> Map<u8, InstrView> {
    m
        .insert(OP_NO_OPERATION, InstrView { ops: Seq::empty(), args: 0 })
        .insert(OP_HALT, InstrView { ops: seq![SubInstructions::Halt], args: 0 })
        .insert(OP_LOAD_FROM_MEMORY, InstrView { ops: seq![SubInstructions::LoadImmediate(1), SubInstructions::SetMemoryAddress, SubInstructions::LoadFromMemory, SubInstructions::StoreToRegister(2), SubInstructions::StepProgramMemory(2)], args: 2 })
        .insert(OP_STORE_TO_MEMORY, InstrView { ops: seq![SubInstructions::LoadFromRegister(1), SubInstructions::LoadImmediate(2), SubInstructions::SetMemoryAddress, SubInstructions::StoreToMemory, SubInstructions::StepProgramMemory(2)], args: 2 })
        .insert(OP_LOAD_FROM_MEMORY_REG, InstrView { ops: seq![SubInstructions::LoadFromRegister(1), SubInstructions::SetMemoryAddress, SubInstructions::LoadFromMemory, SubInstructions::StoreToRegister(2), SubInstructions::StepProgramMemory(2)], args: 2 })
        .insert(OP_STORE_TO_MEMORY_REG, InstrView { ops: seq![SubInstructions::LoadFromRegister(2), SubInstructions::SetMemoryAddress, SubInstructions::LoadFromRegister(1), SubInstructions::StoreToMemory, SubInstructions::StepProgramMemory(2)], args: 2 })
        .insert(OP_ADD_IMMEDIATE, InstrView { ops: seq![SubInstructions::LoadFromRegister(1), SubInstructions::StoreToRegisterInternal(ra), SubInstructions::LoadImmediate(2), SubInstructions::StoreToRegisterInternal(rb), SubInstructions::Add, SubInstructions::StoreToRegister(1), SubInstructions::StepProgramMemory(2)], args: 2 })
        .insert(OP_ADD_REG, InstrView { ops: seq![SubInstructions::LoadFromRegister(1), SubInstructions::StoreToRegisterInternal(ra), SubInstructions::LoadFromRegister(2), SubInstructions::StoreToRegisterInternal(rb), SubInstructions::Add, SubInstructions::StoreToRegister(1), SubInstructions::StepProgramMemory(2)], args: 2 })
        .insert(OP_SUB_IMMEDIATE, InstrView { ops: seq![SubInstructions::LoadFromRegister(1), SubInstructions::StoreToRegisterInternal(ra), SubInstructions::LoadImmediate(2), SubInstructions::StoreToRegisterInternal(rb), SubInstructions::Sub, SubInstructions::StoreToRegister(1), SubInstructions::StepProgramMemory(2)], args: 2 })
        .insert(OP_SUB_REG, InstrView { ops: seq![SubInstructions::LoadFromRegister(1), SubInstructions::StoreToRegisterInternal(ra), SubInstructions::LoadFromRegister(2), SubInstructions::StoreToRegisterInternal(rb), SubInstructions::Sub, SubInstructions::StoreToRegister(1), SubInstructions::StepProgramMemory(2)], args: 2 })
        .insert(OP_LOAD_IMMEDIATE, InstrView { ops: seq![SubInstructions::LoadImmediate(2), SubInstructions::StoreToRegister(1), SubInstructions::StepProgramMemory(2)], args: 2 })
        .insert(OP_MOVE_REGISTER, InstrView { ops: seq![SubInstructions::LoadFromRegister(1), SubInstructions::StoreToRegister(2), SubInstructions::StepProgramMemory(2)], args: 2 })
        .insert(OP_PUSH_IMMEDIATE, InstrView { ops: seq![SubInstructions::LoadImmediate(1), SubInstructions::PushToStack, SubInstructions::StepProgramMemory(1)], args: 1 })
        .insert(OP_PUSH_REG, InstrView { ops: seq![SubInstructions::LoadFromRegister(1), SubInstructions::PushToStack, SubInstructions::StepProgramMemory(1)], args: 1 })
        .insert(OP_POP_REG, InstrView { ops: seq![SubInstructions::PopFromStack, SubInstructions::StoreToRegister(1), SubInstructions::StepProgramMemory(1)], args: 1 })
        .insert(OP_JUMP, InstrView { ops: seq![SubInstructions::LoadFromRegisterInternal(bp), SubInstructions::PushToStack, SubInstructions::LoadFromRegisterInternal(fl), SubInstructions::PushToStack, SubInstructions::LoadFromRegisterInternal(pc), SubInstructions::StoreToRegisterInternal(ra), SubInstructions::LoadImmediateInternal(3), SubInstructions::StoreToRegisterInternal(rb), SubInstructions::Add, SubInstructions::StoreToRegisterInternal(ra), SubInstructions::PopFromStack, SubInstructions::StoreToRegisterInternal(fl), SubInstructions::LoadFromRegisterInternal(ra), SubInstructions::PushToStack, SubInstructions::LoadImmediate(1), SubInstructions::Jump], args: 1 })
        .insert(OP_JUMP_REG, InstrView { ops: seq![SubInstructions::LoadFromRegister(pc), SubInstructions::LoadFromRegister(1), SubInstructions::Jump], args: 1 })
        .insert(OP_JUMP_EQUAL, InstrView { ops: seq![SubInstructions::LoadFromRegister(2), SubInstructions::StoreToRegisterInternal(ra), SubInstructions::LoadImmediate(3), SubInstructions::StoreToRegisterInternal(rb), SubInstructions::Compare, SubInstructions::LoadFromRegister(pc), SubInstructions::LoadFromRegister(1), SubInstructions::JumpIfFlag(ZERO_FLAG, GREATER_FLAG), SubInstructions::StepProgramMemory(3)], args: 3 })
        .insert(OP_JUMP_EQUAL_REG, InstrView { ops: seq![SubInstructions::LoadFromRegister(2), SubInstructions::StoreToRegisterInternal(ra), SubInstructions::LoadFromRegister(3), SubInstructions::StoreToRegisterInternal(rb), SubInstructions::Compare, SubInstructions::LoadFromRegister(pc), SubInstructions::LoadFromRegister(1), SubInstructions::JumpIfFlag(ZERO_FLAG, GREATER_FLAG), SubInstructions::StepProgramMemory(3)], args: 3 })
        .insert(OP_JUMP_NOT_EQUAL, InstrView { ops: seq![SubInstructions::LoadFromRegister(2), SubInstructions::StoreToRegisterInternal(ra), SubInstructions::LoadImmediate(3), SubInstructions::StoreToRegisterInternal(rb), SubInstructions::Compare, SubInstructions::LoadFromRegister(pc), SubInstructions::LoadFromRegister(1), SubInstructions::JumpIfFlag(FLAG_NONE, ZERO_FLAG), SubInstructions::StepProgramMemory(3)], args: 3 })
        .insert(OP_JUMP_NOT_EQUAL_REG, InstrView { ops: seq![SubInstructions::LoadFromRegister(2), SubInstructions::StoreToRegisterInternal(ra), SubInstructions::LoadFromRegister(3), SubInstructions::StoreToRegisterInternal(rb), SubInstructions::Compare, SubInstructions::LoadFromRegister(pc), SubInstructions::LoadFromRegister(1), SubInstructions::JumpIfFlag(FLAG_NONE, ZERO_FLAG), SubInstructions::StepProgramMemory(3)], args: 3 })
        .insert(OP_JUMP_GREATER_THAN, InstrView { ops: seq![SubInstructions::LoadFromRegister(2), SubInstructions::StoreToRegisterInternal(ra), SubInstructions::LoadImmediate(3), SubInstructions::StoreToRegisterInternal(rb), SubInstructions::Compare, SubInstructions::LoadFromRegister(pc), SubInstructions::LoadFromRegister(1), SubInstructions::JumpIfFlag(GREATER_FLAG, ZERO_FLAG), SubInstructions::StepProgramMemory(3)], args: 3 })
        .insert(OP_JUMP_GREATER_THAN_REG, InstrView { ops: seq![SubInstructions::LoadFromRegister(2), SubInstructions::StoreToRegisterInternal(ra), SubInstructions::LoadFromRegister(3), SubInstructions::StoreToRegisterInternal(rb), SubInstructions::Compare, SubInstructions::LoadFromRegister(pc), SubInstructions::LoadFromRegister(1), SubInstructions::JumpIfFlag(GREATER_FLAG, ZERO_FLAG), SubInstructions::StepProgramMemory(3)], args: 3 })
        .insert(OP_JUMP_LESS_THAN, InstrView { ops: seq![SubInstructions::LoadFromRegister(2), SubInstructions::StoreToRegisterInternal(ra), SubInstructions::LoadImmediate(3), SubInstructions::StoreToRegisterInternal(rb), SubInstructions::Compare, SubInstructions::LoadFromRegister(pc), SubInstructions::LoadFromRegister(1), SubInstructions::JumpIfFlag(FLAG_NONE, (ZERO_FLAG | GREATER_FLAG)), SubInstructions::StepProgramMemory(3)], args: 3 })
        .insert(OP_JUMP_LESS_THAN_REG, InstrView { ops: seq![SubInstructions::LoadFromRegister(2), SubInstructions::StoreToRegisterInternal(ra), SubInstructions::LoadFromRegister(3), SubInstructions::StoreToRegisterInternal(rb), SubInstructions::Compare, SubInstructions::LoadFromRegister(pc), SubInstructions::LoadFromRegister(1), SubInstructions::JumpIfFlag(FLAG_NONE, (ZERO_FLAG | GREATER_FLAG)), SubInstructions::StepProgramMemory(3)], args: 3 })
        .insert(OP_JUMP_LESS_EQUAL, InstrView { ops: seq![SubInstructions::LoadFromRegister(2), SubInstructions::StoreToRegisterInternal(ra), SubInstructions::LoadImmediate(3), SubInstructions::StoreToRegisterInternal(rb), SubInstructions::Compare, SubInstructions::LoadFromRegister(pc), SubInstructions::LoadFromRegister(1), SubInstructions::JumpIfFlag(FLAG_NONE, GREATER_FLAG), SubInstructions::StepProgramMemory(3)], args: 3 })
        .insert(OP_JUMP_LESS_EQUAL_REG, InstrView { ops: seq![SubInstructions::LoadFromRegister(2), SubInstructions::StoreToRegisterInternal(ra), SubInstructions::LoadFromRegister(3), SubInstructions::StoreToRegisterInternal(rb), SubInstructions::Compare, SubInstructions::LoadFromRegister(pc), SubInstructions::LoadFromRegister(1), SubInstructions::JumpIfFlag(FLAG_NONE, GREATER_FLAG), SubInstructions::StepProgramMemory(3)], args: 3 })
        .insert(OP_JUMP_GREATER_EQUAL, InstrView { ops: seq![SubInstructions::LoadFromRegister(2), SubInstructions::StoreToRegisterInternal(ra), SubInstructions::LoadImmediate(3), SubInstructions::StoreToRegisterInternal(rb), SubInstructions::Compare, SubInstructions::LoadFromRegister(pc), SubInstructions::LoadFromRegister(1), SubInstructions::JumpIfFlag(FLAG_NONE, GREATER_FLAG), SubInstructions::StepProgramMemory(3)], args: 3 })
        .insert(OP_JUMP_GREATER_EQUAL_REG, InstrView { ops: seq![SubInstructions::LoadFromRegister(2), SubInstructions::StoreToRegisterInternal(ra), SubInstructions::LoadFromRegister(3), SubInstructions::StoreToRegisterInternal(rb), SubInstructions::Compare, SubInstructions::LoadFromRegisterInternal(bp), SubInstructions::PushToStack, SubInstructions::LoadFromRegisterInternal(fl), SubInstructions::PushToStack, SubInstructions::LoadFromRegisterInternal(pc), SubInstructions::StoreToRegisterInternal(ra), SubInstructions::LoadImmediateInternal(3), SubInstructions::StoreToRegisterInternal(rb), SubInstructions::Add, SubInstructions::StoreToRegisterInternal(ra), SubInstructions::PopFromStack, SubInstructions::StoreToRegisterInternal(fl), SubInstructions::LoadFromRegisterInternal(ra), SubInstructions::PushToStack, SubInstructions::LoadFromRegister(1), SubInstructions::JumpIfFlag(FLAG_NONE, GREATER_FLAG), SubInstructions::StepProgramMemory(3)], args: 3 })
        .insert(OP_RETURN, InstrView { ops: seq![SubInstructions::PopFromStack, SubInstructions::StoreToRegisterInternal(pc), SubInstructions::PopFromStack, SubInstructions::StoreToRegisterInternal(bp)], args: 0 })
}

fn add_no_operation(w: &mut InstructionSetWriter)
    ensures
        final(w)@ == old(w)@.insert(OP_NO_OPERATION, InstrView { ops: Seq::empty(), args: 0 }),
        final(w).has_pending(),
{
    w.add_instruction(OP_NO_OPERATION, 0);
    proof {
        assert(final(w)@ =~~= old(w)@.insert(OP_NO_OPERATION, InstrView { ops: Seq::empty(), args: 0 }));
    }
}

fn add_halt(w: &mut InstructionSetWriter)
    ensures
        final(w)@ == old(w)@.insert(OP_HALT, InstrView { ops: seq![SubInstructions::Halt], args: 0 }),
        final(w).has_pending(),
{
    w.add_instruction(OP_HALT, 0);
    w.add_sub_instruction(SubInstructions::Halt);
    proof {
        assert(final(w)@ =~~= old(w)@.insert(OP_HALT, InstrView { ops: seq![SubInstructions::Halt], args: 0 }));
    }
}

fn add_load_from_memory(w: &mut InstructionSetWriter)
    ensures
        final(w)@ == old(w)@.insert(OP_LOAD_FROM_MEMORY, InstrView { ops: seq![SubInstructions::LoadImmediate(1), SubInstructions::SetMemoryAddress, SubInstructions::LoadFromMemory, SubInstructions::StoreToRegister(2), SubInstructions::StepProgramMemory(2)], args: 2 }),
        final(w).has_pending(),
{
    w.add_instruction(OP_LOAD_FROM_MEMORY, 2);
    w.add_sub_instruction(SubInstructions::LoadImmediate(1));
    w.add_sub_instruction(SubInstructions::SetMemoryAddress);
    w.add_sub_instruction(SubInstructions::LoadFromMemory);
    w.add_sub_instruction(SubInstructions::StoreToRegister(2));
    w.add_sub_instruction(SubInstructions::StepProgramMemory(2));
    proof {
        assert(final(w)@ =~~= old(w)@.insert(OP_LOAD_FROM_MEMORY, InstrView { ops: seq![SubInstructions::LoadImmediate(1), SubInstructions::SetMemoryAddress, SubInstructions::LoadFromMemory, SubInstructions::StoreToRegister(2), SubInstructions::StepProgramMemory(2)], args: 2 }));
    }
}

fn add_store_to_memory(w: &mut InstructionSetWriter)
    ensures
        final(w)@ == old(w)@.insert(OP_STORE_TO_MEMORY, InstrView { ops: seq![SubInstructions::LoadFromRegister(1), SubInstructions::LoadImmediate(2), SubInstructions::SetMemoryAddress, SubInstructions::StoreToMemory, SubInstructions::StepProgramMemory(2)], args: 2 }),
        final(w).has_pending(),
{
    w.add_instruction(OP_STORE_TO_MEMORY, 2);
    w.add_sub_instruction(SubInstructions::LoadFromRegister(1));
    w.add_sub_instruction(SubInstructions::LoadImmediate(2));
    w.add_sub_instruction(SubInstructions::SetMemoryAddress);
    w.add_sub_instruction(SubInstructions::StoreToMemory);
    w.add_sub_instruction(SubInstructions::StepProgramMemory(2));
    proof {
        assert(final(w)@ =~~= old(w)@.insert(OP_STORE_TO_MEMORY, InstrView { ops: seq![SubInstructions::LoadFromRegister(1), SubInstructions::LoadImmediate(2), SubInstructions::SetMemoryAddress, SubInstructions::StoreToMemory, SubInstructions::StepProgramMemory(2)], args: 2 }));
    }
}

fn add_load_from_memory_reg(w: &mut InstructionSetWriter)
    ensures
        final(w)@ == old(w)@.insert(OP_LOAD_FROM_MEMORY_REG, InstrView { ops: seq![SubInstructions::LoadFromRegister(1), SubInstructions::SetMemoryAddress, SubInstructions::LoadFromMemory, SubInstructions::StoreToRegister(2), SubInstructions::StepProgramMemory(2)], args: 2 }),
        final(w).has_pending(),
{
    w.add_instruction(OP_LOAD_FROM_MEMORY_REG, 2);
    w.add_sub_instruction(SubInstructions::LoadFromRegister(1));
    w.add_sub_instruction(SubInstructions::SetMemoryAddress);
    w.add_sub_instruction(SubInstructions::LoadFromMemory);
    w.add_sub_instruction(SubInstructions::StoreToRegister(2));
    w.add_sub_instruction(SubInstructions::StepProgramMemory(2));
    proof {
        assert(final(w)@ =~~= old(w)@.insert(OP_LOAD_FROM_MEMORY_REG, InstrView { ops: seq![SubInstructions::LoadFromRegister(1), SubInstructions::SetMemoryAddress, SubInstructions::LoadFromMemory, SubInstructions::StoreToRegister(2), SubInstructions::StepProgramMemory(2)], args: 2 }));
    }
}

fn add_store_to_memory_reg(w: &mut InstructionSetWriter)
    ensures
        final(w)@ == old(w)@.insert(OP_STORE_TO_MEMORY_REG, InstrView { ops: seq![SubInstructions::LoadFromRegister(2), SubInstructions::SetMemoryAddress, SubInstructions::LoadFromRegister(1), SubInstructions::StoreToMemory, SubInstructions::StepProgramMemory(2)], args: 2 }),
        final(w).has_pending(),
{
    w.add_instruction(OP_STORE_TO_MEMORY_REG, 2);
    w.add_sub_instruction(SubInstructions::LoadFromRegister(2));
    w.add_sub_instruction(SubInstructions::SetMemoryAddress);
    w.add_sub_instruction(SubInstructions::LoadFromRegister(1));
    w.add_sub_instruction(SubInstructions::StoreToMemory);
    w.add_sub_instruction(SubInstructions::StepProgramMemory(2));
    proof {
        assert(final(w)@ =~~= old(w)@.insert(OP_STORE_TO_MEMORY_REG, InstrView { ops: seq![SubInstructions::LoadFromRegister(2), SubInstructions::SetMemoryAddress, SubInstructions::LoadFromRegister(1), SubInstructions::StoreToMemory, SubInstructions::StepProgramMemory(2)], args: 2 }));
    }
}

fn add_add_immediate(w: &mut InstructionSetWriter, ra: u8, rb: u8)
    ensures
        final(w)@ == old(w)@.insert(OP_ADD_IMMEDIATE, InstrView { ops: seq![SubInstructions::LoadFromRegister(1), SubInstructions::StoreToRegisterInternal(ra), SubInstructions::LoadImmediate(2), SubInstructions::StoreToRegisterInternal(rb), SubInstructions::Add, SubInstructions::StoreToRegister(1), SubInstructions::StepProgramMemory(2)], args: 2 }),
        final(w).has_pending(),
{
    w.add_instruction(OP_ADD_IMMEDIATE, 2);
    w.add_sub_instruction(SubInstructions::LoadFromRegister(1));
    w.add_sub_instruction(SubInstructions::StoreToRegisterInternal(ra));
    w.add_sub_instruction(SubInstructions::LoadImmediate(2));
    w.add_sub_instruction(SubInstructions::StoreToRegisterInternal(rb));
    w.add_sub_instruction(SubInstructions::Add);
    w.add_sub_instruction(SubInstructions::StoreToRegister(1));
    w.add_sub_instruction(SubInstructions::StepProgramMemory(2));
    proof {
        assert(final(w)@ =~~= old(w)@.insert(OP_ADD_IMMEDIATE, InstrView { ops: seq![SubInstructions::LoadFromRegister(1), SubInstructions::StoreToRegisterInternal(ra), SubInstructions::LoadImmediate(2), SubInstructions::StoreToRegisterInternal(rb), SubInstructions::Add, SubInstructions::StoreToRegister(1), SubInstructions::StepProgramMemory(2)], args: 2 }));
    }
}

fn add_add_reg(w: &mut InstructionSetWriter, ra: u8, rb: u8)
    ensures
        final(w)@ == old(w)@.insert(OP_ADD_REG, InstrView { ops: seq![SubInstructions::LoadFromRegister(1), SubInstructions::StoreToRegisterInternal(ra), SubInstructions::LoadFromRegister(2), SubInstructions::StoreToRegisterInternal(rb), SubInstructions::Add, SubInstructions::StoreToRegister(1), SubInstructions::StepProgramMemory(2)], args: 2 }),
        final(w).has_pending(),
{
    w.add_instruction(OP_ADD_REG, 2);
    w.add_sub_instruction(SubInstructions::LoadFromRegister(1));
    w.add_sub_instruction(SubInstructions::StoreToRegisterInternal(ra));
    w.add_sub_instruction(SubInstructions::LoadFromRegister(2));
    w.add_sub_instruction(SubInstructions::StoreToRegisterInternal(rb));
    w.add_sub_instruction(SubInstructions::Add);
    w.add_sub_instruction(SubInstructions::StoreToRegister(1));
    w.add_sub_instruction(SubInstructions::StepProgramMemory(2));
    proof {
        assert(final(w)@ =~~= old(w)@.insert(OP_ADD_REG, InstrView { ops: seq![SubInstructions::LoadFromRegister(1), SubInstructions::StoreToRegisterInternal(ra), SubInstructions::LoadFromRegister(2), SubInstructions::StoreToRegisterInternal(rb), SubInstructions::Add, SubInstructions::StoreToRegister(1), SubInstructions::StepProgramMemory(2)], args: 2 }));
    }
}

fn add_sub_immediate(w: &mut InstructionSetWriter, ra: u8, rb: u8)
    ensures
        final(w)@ == old(w)@.insert(OP_SUB_IMMEDIATE, InstrView { ops: seq![SubInstructions::LoadFromRegister(1), SubInstructions::StoreToRegisterInternal(ra), SubInstructions::LoadImmediate(2), SubInstructions::StoreToRegisterInternal(rb), SubInstructions::Sub, SubInstructions::StoreToRegister(1), SubInstructions::StepProgramMemory(2)], args: 2 }),
        final(w).has_pending(),
{
    w.add_instruction(OP_SUB_IMMEDIATE, 2);
    w.add_sub_instruction(SubInstructions::LoadFromRegister(1));
    w.add_sub_instruction(SubInstructions::StoreToRegisterInternal(ra));
    w.add_sub_instruction(SubInstructions::LoadImmediate(2));
    w.add_sub_instruction(SubInstructions::StoreToRegisterInternal(rb));
    w.add_sub_instruction(SubInstructions::Sub);
    w.add_sub_instruction(SubInstructions::StoreToRegister(1));
    w.add_sub_instruction(SubInstructions::StepProgramMemory(2));
    proof {
        assert(final(w)@ =~~= old(w)@.insert(OP_SUB_IMMEDIATE, InstrView { ops: seq![SubInstructions::LoadFromRegister(1), SubInstructions::StoreToRegisterInternal(ra), SubInstructions::LoadImmediate(2), SubInstructions::StoreToRegisterInternal(rb), SubInstructions::Sub, SubInstructions::StoreToRegister(1), SubInstructions::StepProgramMemory(2)], args: 2 }));
    }
}

fn add_sub_reg(w: &mut InstructionSetWriter, ra: u8, rb: u8)
    ensures
        final(w)@ == old(w)@.insert(OP_SUB_REG, InstrView { ops: seq![SubInstructions::LoadFromRegister(1), SubInstructions::StoreToRegisterInternal(ra), SubInstructions::LoadFromRegister(2), SubInstructions::StoreToRegisterInternal(rb), SubInstructions::Sub, SubInstructions::StoreToRegister(1), SubInstructions::StepProgramMemory(2)], args: 2 }),
        final(w).has_pending(),
{
    w.add_instruction(OP_SUB_REG, 2);
    w.add_sub_instruction(SubInstructions::LoadFromRegister(1));
    w.add_sub_instruction(SubInstructions::StoreToRegisterInternal(ra));
    w.add_sub_instruction(SubInstructions::LoadFromRegister(2));
    w.add_sub_instruction(SubInstructions::StoreToRegisterInternal(rb));
    w.add_sub_instruction(SubInstructions::Sub);
    w.add_sub_instruction(SubInstructions::StoreToRegister(1));
    w.add_sub_instruction(SubInstructions::StepProgramMemory(2));
    proof {
        assert(final(w)@ =~~= old(w)@.insert(OP_SUB_REG, InstrView { ops: seq![SubInstructions::LoadFromRegister(1), SubInstructions::StoreToRegisterInternal(ra), SubInstructions::LoadFromRegister(2), SubInstructions::StoreToRegisterInternal(rb), SubInstructions::Sub, SubInstructions::StoreToRegister(1), SubInstructions::StepProgramMemory(2)], args: 2 }));
    }
}

fn add_load_immediate(w: &mut InstructionSetWriter)
    ensures
        final(w)@ == old(w)@.insert(OP_LOAD_IMMEDIATE, InstrView { ops: seq![SubInstructions::LoadImmediate(2), SubInstructions::StoreToRegister(1), SubInstructions::StepProgramMemory(2)], args: 2 }),
        final(w).has_pending(),
{
    w.add_instruction(OP_LOAD_IMMEDIATE, 2);
    w.add_sub_instruction(SubInstructions::LoadImmediate(2));
    w.add_sub_instruction(SubInstructions::StoreToRegister(1));
    w.add_sub_instruction(SubInstructions::StepProgramMemory(2));
    proof {
        assert(final(w)@ =~~= old(w)@.insert(OP_LOAD_IMMEDIATE, InstrView { ops: seq![SubInstructions::LoadImmediate(2), SubInstructions::StoreToRegister(1), SubInstructions::StepProgramMemory(2)], args: 2 }));
    }
}

fn add_move_register(w: &mut InstructionSetWriter)
    ensures
        final(w)@ == old(w)@.insert(OP_MOVE_REGISTER, InstrView { ops: seq![SubInstructions::LoadFromRegister(1), SubInstructions::StoreToRegister(2), SubInstructions::StepProgramMemory(2)], args: 2 }),
        final(w).has_pending(),
{
    w.add_instruction(OP_MOVE_REGISTER, 2);
    w.add_sub_instruction(SubInstructions::LoadFromRegister(1));
    w.add_sub_instruction(SubInstructions::StoreToRegister(2));
    w.add_sub_instruction(SubInstructions::StepProgramMemory(2));
    proof {
        assert(final(w)@ =~~= old(w)@.insert(OP_MOVE_REGISTER, InstrView { ops: seq![SubInstructions::LoadFromRegister(1), SubInstructions::StoreToRegister(2), SubInstructions::StepProgramMemory(2)], args: 2 }));
    }
}

fn add_push_immediate(w: &mut InstructionSetWriter)
    ensures
        final(w)@ == old(w)@.insert(OP_PUSH_IMMEDIATE, InstrView { ops: seq![SubInstructions::LoadImmediate(1), SubInstructions::PushToStack, SubInstructions::StepProgramMemory(1)], args: 1 }),
        final(w).has_pending(),
{
    w.add_instruction(OP_PUSH_IMMEDIATE, 1);
    w.add_sub_instruction(SubInstructions::LoadImmediate(1));
    w.add_sub_instruction(SubInstructions::PushToStack);
    w.add_sub_instruction(SubInstructions::StepProgramMemory(1));
    proof {
        assert(final(w)@ =~~= old(w)@.insert(OP_PUSH_IMMEDIATE, InstrView { ops: seq![SubInstructions::LoadImmediate(1), SubInstructions::PushToStack, SubInstructions::StepProgramMemory(1)], args: 1 }));
    }
}

fn add_push_reg(w: &mut InstructionSetWriter)
    ensures
        final(w)@ == old(w)@.insert(OP_PUSH_REG, InstrView { ops: seq![SubInstructions::LoadFromRegister(1), SubInstructions::PushToStack, SubInstructions::StepProgramMemory(1)], args: 1 }),
        final(w).has_pending(),
{
    w.add_instruction(OP_PUSH_REG, 1);
    w.add_sub_instruction(SubInstructions::LoadFromRegister(1));
    w.add_sub_instruction(SubInstructions::PushToStack);
    w.add_sub_instruction(SubInstructions::StepProgramMemory(1));
    proof {
        assert(final(w)@ =~~= old(w)@.insert(OP_PUSH_REG, InstrView { ops: seq![SubInstructions::LoadFromRegister(1), SubInstructions::PushToStack, SubInstructions::StepProgramMemory(1)], args: 1 }));
    }
}

fn add_pop_reg(w: &mut InstructionSetWriter)
    ensures
        final(w)@ == old(w)@.insert(OP_POP_REG, InstrView { ops: seq![SubInstructions::PopFromStack, SubInstructions::StoreToRegister(1), SubInstructions::StepProgramMemory(1)], args: 1 }),
        final(w).has_pending(),
{
    w.add_instruction(OP_POP_REG, 1);
    w.add_sub_instruction(SubInstructions::PopFromStack);
    w.add_sub_instruction(SubInstructions::StoreToRegister(1));
    w.add_sub_instruction(SubInstructions::StepProgramMemory(1));
    proof {
        assert(final(w)@ =~~= old(w)@.insert(OP_POP_REG, InstrView { ops: seq![SubInstructions::PopFromStack, SubInstructions::StoreToRegister(1), SubInstructions::StepProgramMemory(1)], args: 1 }));
    }
}

fn add_jump(w: &mut InstructionSetWriter, pc: u8, bp: u8, fl: u8, ra: u8, rb: u8)
    ensures
        final(w)@ == old(w)@.insert(OP_JUMP, InstrView { ops: seq![SubInstructions::LoadFromRegisterInternal(bp), SubInstructions::PushToStack, SubInstructions::LoadFromRegisterInternal(fl), SubInstructions::PushToStack, SubInstructions::LoadFromRegisterInternal(pc), SubInstructions::StoreToRegisterInternal(ra), SubInstructions::LoadImmediateInternal(3), SubInstructions::StoreToRegisterInternal(rb), SubInstructions::Add, SubInstructions::StoreToRegisterInternal(ra), SubInstructions::PopFromStack, SubInstructions::StoreToRegisterInternal(fl), SubInstructions::LoadFromRegisterInternal(ra), SubInstructions::PushToStack, SubInstructions::LoadImmediate(1), SubInstructions::Jump], args: 1 }),
        final(w).has_pending(),
{
    w.add_instruction(OP_JUMP, 1);
    w.add_sub_instruction(SubInstructions::LoadFromRegisterInternal(bp));
    w.add_sub_instruction(SubInstructions::PushToStack);
    w.add_sub_instruction(SubInstructions::LoadFromRegisterInternal(fl));
    w.add_sub_instruction(SubInstructions::PushToStack);
    w.add_sub_instruction(SubInstructions::LoadFromRegisterInternal(pc));
    w.add_sub_instruction(SubInstructions::StoreToRegisterInternal(ra));
    w.add_sub_instruction(SubInstructions::LoadImmediateInternal(3));
    w.add_sub_instruction(SubInstructions::StoreToRegisterInternal(rb));
    w.add_sub_instruction(SubInstructions::Add);
    w.add_sub_instruction(SubInstructions::StoreToRegisterInternal(ra));
    w.add_sub_instruction(SubInstructions::PopFromStack);
    w.add_sub_instruction(SubInstructions::StoreToRegisterInternal(fl));
    w.add_sub_instruction(SubInstructions::LoadFromRegisterInternal(ra));
    w.add_sub_instruction(SubInstructions::PushToStack);
    w.add_sub_instruction(SubInstructions::LoadImmediate(1));
    w.add_sub_instruction(SubInstructions::Jump);
    proof {
        assert(final(w)@ =~~= old(w)@.insert(OP_JUMP, InstrView { ops: seq![SubInstructions::LoadFromRegisterInternal(bp), SubInstructions::PushToStack, SubInstructions::LoadFromRegisterInternal(fl), SubInstructions::PushToStack, SubInstructions::LoadFromRegisterInternal(pc), SubInstructions::StoreToRegisterInternal(ra), SubInstructions::LoadImmediateInternal(3), SubInstructions::StoreToRegisterInternal(rb), SubInstructions::Add, SubInstructions::StoreToRegisterInternal(ra), SubInstructions::PopFromStack, SubInstructions::StoreToRegisterInternal(fl), SubInstructions::LoadFromRegisterInternal(ra), SubInstructions::PushToStack, SubInstructions::LoadImmediate(1), SubInstructions::Jump], args: 1 }));
    }
}

fn add_jump_reg(w: &mut InstructionSetWriter, pc: u8)
    ensures
        final(w)@ == old(w)@.insert(OP_JUMP_REG, InstrView { ops: seq![SubInstructions::LoadFromRegister(pc), SubInstructions::LoadFromRegister(1), SubInstructions::Jump], args: 1 }),
        final(w).has_pending(),
{
    w.add_instruction(OP_JUMP_REG, 1);
    w.add_sub_instruction(SubInstructions::LoadFromRegister(pc));
    w.add_sub_instruction(SubInstructions::LoadFromRegister(1));
    w.add_sub_instruction(SubInstructions::Jump);
    proof {
        assert(final(w)@ =~~= old(w)@.insert(OP_JUMP_REG, InstrView { ops: seq![SubInstructions::LoadFromRegister(pc), SubInstructions::LoadFromRegister(1), SubInstructions::Jump], args: 1 }));
    }
}

fn add_jump_equal(w: &mut InstructionSetWriter, pc: u8, ra: u8, rb: u8)
    ensures
        final(w)@ == old(w)@.insert(OP_JUMP_EQUAL, InstrView { ops: seq![SubInstructions::LoadFromRegister(2), SubInstructions::StoreToRegisterInternal(ra), SubInstructions::LoadImmediate(3), SubInstructions::StoreToRegisterInternal(rb), SubInstructions::Compare, SubInstructions::LoadFromRegister(pc), SubInstructions::LoadFromRegister(1), SubInstructions::JumpIfFlag(ZERO_FLAG, GREATER_FLAG), SubInstructions::StepProgramMemory(3)], args: 3 }),
        final(w).has_pending(),
{
    w.add_instruction(OP_JUMP_EQUAL, 3);
    w.add_sub_instruction(SubInstructions::LoadFromRegister(2));
    w.add_sub_instruction(SubInstructions::StoreToRegisterInternal(ra));
    w.add_sub_instruction(SubInstructions::LoadImmediate(3));
    w.add_sub_instruction(SubInstructions::StoreToRegisterInternal(rb));
    w.add_sub_instruction(SubInstructions::Compare);
    w.add_sub_instruction(SubInstructions::LoadFromRegister(pc));
    w.add_sub_instruction(SubInstructions::LoadFromRegister(1));
    w.add_sub_instruction(SubInstructions::JumpIfFlag(ZERO_FLAG, GREATER_FLAG));
    w.add_sub_instruction(SubInstructions::StepProgramMemory(3));
    proof {
        assert(final(w)@ =~~= old(w)@.insert(OP_JUMP_EQUAL, InstrView { ops: seq![SubInstructions::LoadFromRegister(2), SubInstructions::StoreToRegisterInternal(ra), SubInstructions::LoadImmediate(3), SubInstructions::StoreToRegisterInternal(rb), SubInstructions::Compare, SubInstructions::LoadFromRegister(pc), SubInstructions::LoadFromRegister(1), SubInstructions::JumpIfFlag(ZERO_FLAG, GREATER_FLAG), SubInstructions::StepProgramMemory(3)], args: 3 }));
    }
}

fn add_jump_equal_reg(w: &mut InstructionSetWriter, pc: u8, ra: u8, rb: u8)
    ensures
        final(w)@ == old(w)@.insert(OP_JUMP_EQUAL_REG, InstrView { ops: seq![SubInstructions::LoadFromRegister(2), SubInstructions::StoreToRegisterInternal(ra), SubInstructions::LoadFromRegister(3), SubInstructions::StoreToRegisterInternal(rb), SubInstructions::Compare, SubInstructions::LoadFromRegister(pc), SubInstructions::LoadFromRegister(1), SubInstructions::JumpIfFlag(ZERO_FLAG, GREATER_FLAG), SubInstructions::StepProgramMemory(3)], args: 3 }),
        final(w).has_pending(),
{
    w.add_instruction(OP_JUMP_EQUAL_REG, 3);
    w.add_sub_instruction(SubInstructions::LoadFromRegister(2));
    w.add_sub_instruction(SubInstructions::StoreToRegisterInternal(ra));
    w.add_sub_instruction(SubInstructions::LoadFromRegister(3));
    w.add_sub_instruction(SubInstructions::StoreToRegisterInternal(rb));
    w.add_sub_instruction(SubInstructions::Compare);
    w.add_sub_instruction(SubInstructions::LoadFromRegister(pc));
    w.add_sub_instruction(SubInstructions::LoadFromRegister(1));
    w.add_sub_instruction(SubInstructions::JumpIfFlag(ZERO_FLAG, GREATER_FLAG));
    w.add_sub_instruction(SubInstructions::StepProgramMemory(3));
    proof {
        assert(final(w)@ =~~= old(w)@.insert(OP_JUMP_EQUAL_REG, InstrView { ops: seq![SubInstructions::LoadFromRegister(2), SubInstructions::StoreToRegisterInternal(ra), SubInstructions::LoadFromRegister(3), SubInstructions::StoreToRegisterInternal(rb), SubInstructions::Compare, SubInstructions::LoadFromRegister(pc), SubInstructions::LoadFromRegister(1), SubInstructions::JumpIfFlag(ZERO_FLAG, GREATER_FLAG), SubInstructions::StepProgramMemory(3)], args: 3 }));
    }
}

fn add_jump_not_equal(w: &mut InstructionSetWriter, pc: u8, ra: u8, rb: u8)
    ensures
        final(w)@ == old(w)@.insert(OP_JUMP_NOT_EQUAL, InstrView { ops: seq![SubInstructions::LoadFromRegister(2), SubInstructions::StoreToRegisterInternal(ra), SubInstructions::LoadImmediate(3), SubInstructions::StoreToRegisterInternal(rb), SubInstructions::Compare, SubInstructions::LoadFromRegister(pc), SubInstructions::LoadFromRegister(1), SubInstructions::JumpIfFlag(FLAG_NONE, ZERO_FLAG), SubInstructions::StepProgramMemory(3)], args: 3 }),
        final(w).has_pending(),
{
    w.add_instruction(OP_JUMP_NOT_EQUAL, 3);
    w.add_sub_instruction(SubInstructions::LoadFromRegister(2));
    w.add_sub_instruction(SubInstructions::StoreToRegisterInternal(ra));
    w.add_sub_instruction(SubInstructions::LoadImmediate(3));
    w.add_sub_instruction(SubInstructions::StoreToRegisterInternal(rb));
    w.add_sub_instruction(SubInstructions::Compare);
    w.add_sub_instruction(SubInstructions::LoadFromRegister(pc));
    w.add_sub_instruction(SubInstructions::LoadFromRegister(1));
    w.add_sub_instruction(SubInstructions::JumpIfFlag(FLAG_NONE, ZERO_FLAG));
    w.add_sub_instruction(SubInstructions::StepProgramMemory(3));
    proof {
        assert(final(w)@ =~~= old(w)@.insert(OP_JUMP_NOT_EQUAL, InstrView { ops: seq![SubInstructions::LoadFromRegister(2), SubInstructions::StoreToRegisterInternal(ra), SubInstructions::LoadImmediate(3), SubInstructions::StoreToRegisterInternal(rb), SubInstructions::Compare, SubInstructions::LoadFromRegister(pc), SubInstructions::LoadFromRegister(1), SubInstructions::JumpIfFlag(FLAG_NONE, ZERO_FLAG), SubInstructions::StepProgramMemory(3)], args: 3 }));
    }
}

fn add_jump_not_equal_reg(w: &mut InstructionSetWriter, pc: u8, ra: u8, rb: u8)
    ensures
        final(w)@ == old(w)@.insert(OP_JUMP_NOT_EQUAL_REG, InstrView { ops: seq![SubInstructions::LoadFromRegister(2), SubInstructions::StoreToRegisterInternal(ra), SubInstructions::LoadFromRegister(3), SubInstructions::StoreToRegisterInternal(rb), SubInstructions::Compare, SubInstructions::LoadFromRegister(pc), SubInstructions::LoadFromRegister(1), SubInstructions::JumpIfFlag(FLAG_NONE, ZERO_FLAG), SubInstructions::StepProgramMemory(3)], args: 3 }),
        final(w).has_pending(),
{
    w.add_instruction(OP_JUMP_NOT_EQUAL_REG, 3);
    w.add_sub_instruction(SubInstructions::LoadFromRegister(2));
    w.add_sub_instruction(SubInstructions::StoreToRegisterInternal(ra));
    w.add_sub_instruction(SubInstructions::LoadFromRegister(3));
    w.add_sub_instruction(SubInstructions::StoreToRegisterInternal(rb));
    w.add_sub_instruction(SubInstructions::Compare);
    w.add_sub_instruction(SubInstructions::LoadFromRegister(pc));
    w.add_sub_instruction(SubInstructions::LoadFromRegister(1));
    w.add_sub_instruction(SubInstructions::JumpIfFlag(FLAG_NONE, ZERO_FLAG));
    w.add_sub_instruction(SubInstructions::StepProgramMemory(3));
    proof {
        assert(final(w)@ =~~= old(w)@.insert(OP_JUMP_NOT_EQUAL_REG, InstrView { ops: seq![SubInstructions::LoadFromRegister(2), SubInstructions::StoreToRegisterInternal(ra), SubInstructions::LoadFromRegister(3), SubInstructions::StoreToRegisterInternal(rb), SubInstructions::Compare, SubInstructions::LoadFromRegister(pc), SubInstructions::LoadFromRegister(1), SubInstructions::JumpIfFlag(FLAG_NONE, ZERO_FLAG), SubInstructions::StepProgramMemory(3)], args: 3 }));
    }
}

fn add_jump_greater_than(w: &mut InstructionSetWriter, pc: u8, ra: u8, rb: u8)
    ensures
        final(w)@ == old(w)@.insert(OP_JUMP_GREATER_THAN, InstrView { ops: seq![SubInstructions::LoadFromRegister(2), SubInstructions::StoreToRegisterInternal(ra), SubInstructions::LoadImmediate(3), SubInstructions::StoreToRegisterInternal(rb), SubInstructions::Compare, SubInstructions::LoadFromRegister(pc), SubInstructions::LoadFromRegister(1), SubInstructions::JumpIfFlag(GREATER_FLAG, ZERO_FLAG), SubInstructions::StepProgramMemory(3)], args: 3 }),
        final(w).has_pending(),
{
    w.add_instruction(OP_JUMP_GREATER_THAN, 3);
    w.add_sub_instruction(SubInstructions::LoadFromRegister(2));
    w.add_sub_instruction(SubInstructions::StoreToRegisterInternal(ra));
    w.add_sub_instruction(SubInstructions::LoadImmediate(3));
    w.add_sub_instruction(SubInstructions::StoreToRegisterInternal(rb));
    w.add_sub_instruction(SubInstructions::Compare);
    w.add_sub_instruction(SubInstructions::LoadFromRegister(pc));
    w.add_sub_instruction(SubInstructions::LoadFromRegister(1));
    w.add_sub_instruction(SubInstructions::JumpIfFlag(GREATER_FLAG, ZERO_FLAG));
    w.add_sub_instruction(SubInstructions::StepProgramMemory(3));
    proof {
        assert(final(w)@ =~~= old(w)@.insert(OP_JUMP_GREATER_THAN, InstrView { ops: seq![SubInstructions::LoadFromRegister(2), SubInstructions::StoreToRegisterInternal(ra), SubInstructions::LoadImmediate(3), SubInstructions::StoreToRegisterInternal(rb), SubInstructions::Compare, SubInstructions::LoadFromRegister(pc), SubInstructions::LoadFromRegister(1), SubInstructions::JumpIfFlag(GREATER_FLAG, ZERO_FLAG), SubInstructions::StepProgramMemory(3)], args: 3 }));
    }
}

fn add_jump_greater_than_reg(w: &mut InstructionSetWriter, pc: u8, ra: u8, rb: u8)
    ensures
        final(w)@ == old(w)@.insert(OP_JUMP_GREATER_THAN_REG, InstrView { ops: seq![SubInstructions::LoadFromRegister(2), SubInstructions::StoreToRegisterInternal(ra), SubInstructions::LoadFromRegister(3), SubInstructions::StoreToRegisterInternal(rb), SubInstructions::Compare, SubInstructions::LoadFromRegister(pc), SubInstructions::LoadFromRegister(1), SubInstructions::JumpIfFlag(GREATER_FLAG, ZERO_FLAG), SubInstructions::StepProgramMemory(3)], args: 3 }),
        final(w).has_pending(),
{
    w.add_instruction(OP_JUMP_GREATER_THAN_REG, 3);
    w.add_sub_instruction(SubInstructions::LoadFromRegister(2));
    w.add_sub_instruction(SubInstructions::StoreToRegisterInternal(ra));
    w.add_sub_instruction(SubInstructions::LoadFromRegister(3));
    w.add_sub_instruction(SubInstructions::StoreToRegisterInternal(rb));
    w.add_sub_instruction(SubInstructions::Compare);
    w.add_sub_instruction(SubInstructions::LoadFromRegister(pc));
    w.add_sub_instruction(SubInstructions::LoadFromRegister(1));
    w.add_sub_instruction(SubInstructions::JumpIfFlag(GREATER_FLAG, ZERO_FLAG));
    w.add_sub_instruction(SubInstructions::StepProgramMemory(3));
    proof {
        assert(final(w)@ =~~= old(w)@.insert(OP_JUMP_GREATER_THAN_REG, InstrView { ops: seq![SubInstructions::LoadFromRegister(2), SubInstructions::StoreToRegisterInternal(ra), SubInstructions::LoadFromRegister(3), SubInstructions::StoreToRegisterInternal(rb), SubInstructions::Compare, SubInstructions::LoadFromRegister(pc), SubInstructions::LoadFromRegister(1), SubInstructions::JumpIfFlag(GREATER_FLAG, ZERO_FLAG), SubInstructions::StepProgramMemory(3)], args: 3 }));
    }
}

fn add_jump_less_than(w: &mut InstructionSetWriter, pc: u8, ra: u8, rb: u8)
    ensures
        final(w)@ == old(w)@.insert(OP_JUMP_LESS_THAN, InstrView { ops: seq![SubInstructions::LoadFromRegister(2), SubInstructions::StoreToRegisterInternal(ra), SubInstructions::LoadImmediate(3), SubInstructions::StoreToRegisterInternal(rb), SubInstructions::Compare, SubInstructions::LoadFromRegister(pc), SubInstructions::LoadFromRegister(1), SubInstructions::JumpIfFlag(FLAG_NONE, (ZERO_FLAG | GREATER_FLAG)), SubInstructions::StepProgramMemory(3)], args: 3 }),
        final(w).has_pending(),
{
    w.add_instruction(OP_JUMP_LESS_THAN, 3);
    w.add_sub_instruction(SubInstructions::LoadFromRegister(2));
    w.add_sub_instruction(SubInstructions::StoreToRegisterInternal(ra));
    w.add_sub_instruction(SubInstructions::LoadImmediate(3));
    w.add_sub_instruction(SubInstructions::StoreToRegisterInternal(rb));
    w.add_sub_instruction(SubInstructions::Compare);
    w.add_sub_instruction(SubInstructions::LoadFromRegister(pc));
    w.add_sub_instruction(SubInstructions::LoadFromRegister(1));
    w.add_sub_instruction(SubInstructions::JumpIfFlag(FLAG_NONE, (ZERO_FLAG | GREATER_FLAG)));
    w.add_sub_instruction(SubInstructions::StepProgramMemory(3));
    proof {
        assert(final(w)@ =~~= old(w)@.insert(OP_JUMP_LESS_THAN, InstrView { ops: seq![SubInstructions::LoadFromRegister(2), SubInstructions::StoreToRegisterInternal(ra), SubInstructions::LoadImmediate(3), SubInstructions::StoreToRegisterInternal(rb), SubInstructions::Compare, SubInstructions::LoadFromRegister(pc), SubInstructions::LoadFromRegister(1), SubInstructions::JumpIfFlag(FLAG_NONE, (ZERO_FLAG | GREATER_FLAG)), SubInstructions::StepProgramMemory(3)], args: 3 }));
    }
}

fn add_jump_less_than_reg(w: &mut InstructionSetWriter, pc: u8, ra: u8, rb: u8)
    ensures
        final(w)@ == old(w)@.insert(OP_JUMP_LESS_THAN_REG, InstrView { ops: seq![SubInstructions::LoadFromRegister(2), SubInstructions::StoreToRegisterInternal(ra), SubInstructions::LoadFromRegister(3), SubInstructions::StoreToRegisterInternal(rb), SubInstructions::Compare, SubInstructions::LoadFromRegister(pc), SubInstructions::LoadFromRegister(1), SubInstructions::JumpIfFlag(FLAG_NONE, (ZERO_FLAG | GREATER_FLAG)), SubInstructions::StepProgramMemory(3)], args: 3 }),
        final(w).has_pending(),
{
    w.add_instruction(OP_JUMP_LESS_THAN_REG, 3);
    w.add_sub_instruction(SubInstructions::LoadFromRegister(2));
    w.add_sub_instruction(SubInstructions::StoreToRegisterInternal(ra));
    w.add_sub_instruction(SubInstructions::LoadFromRegister(3));
    w.add_sub_instruction(SubInstructions::StoreToRegisterInternal(rb));
    w.add_sub_instruction(SubInstructions::Compare);
    w.add_sub_instruction(SubInstructions::LoadFromRegister(pc));
    w.add_sub_instruction(SubInstructions::LoadFromRegister(1));
    w.add_sub_instruction(SubInstructions::JumpIfFlag(FLAG_NONE, (ZERO_FLAG | GREATER_FLAG)));
    w.add_sub_instruction(SubInstructions::StepProgramMemory(3));
    proof {
        assert(final(w)@ =~~= old(w)@.insert(OP_JUMP_LESS_THAN_REG, InstrView { ops: seq![SubInstructions::LoadFromRegister(2), SubInstructions::StoreToRegisterInternal(ra), SubInstructions::LoadFromRegister(3), SubInstructions::StoreToRegisterInternal(rb), SubInstructions::Compare, SubInstructions::LoadFromRegister(pc), SubInstructions::LoadFromRegister(1), SubInstructions::JumpIfFlag(FLAG_NONE, (ZERO_FLAG | GREATER_FLAG)), SubInstructions::StepProgramMemory(3)], args: 3 }));
    }
}

fn add_jump_less_equal(w: &mut InstructionSetWriter, pc: u8, ra: u8, rb: u8)
    ensures
        final(w)@ == old(w)@.insert(OP_JUMP_LESS_EQUAL, InstrView { ops: seq![SubInstructions::LoadFromRegister(2), SubInstructions::StoreToRegisterInternal(ra), SubInstructions::LoadImmediate(3), SubInstructions::StoreToRegisterInternal(rb), SubInstructions::Compare, SubInstructions::LoadFromRegister(pc), SubInstructions::LoadFromRegister(1), SubInstructions::JumpIfFlag(FLAG_NONE, GREATER_FLAG), SubInstructions::StepProgramMemory(3)], args: 3 }),
        final(w).has_pending(),
{
    w.add_instruction(OP_JUMP_LESS_EQUAL, 3);
    w.add_sub_instruction(SubInstructions::LoadFromRegister(2));
    w.add_sub_instruction(SubInstructions::StoreToRegisterInternal(ra));
    w.add_sub_instruction(SubInstructions::LoadImmediate(3));
    w.add_sub_instruction(SubInstructions::StoreToRegisterInternal(rb));
    w.add_sub_instruction(SubInstructions::Compare);
    w.add_sub_instruction(SubInstructions::LoadFromRegister(pc));
    w.add_sub_instruction(SubInstructions::LoadFromRegister(1));
    w.add_sub_instruction(SubInstructions::JumpIfFlag(FLAG_NONE, GREATER_FLAG));
    w.add_sub_instruction(SubInstructions::StepProgramMemory(3));
    proof {
        assert(final(w)@ =~~= old(w)@.insert(OP_JUMP_LESS_EQUAL, InstrView { ops: seq![SubInstructions::LoadFromRegister(2), SubInstructions::StoreToRegisterInternal(ra), SubInstructions::LoadImmediate(3), SubInstructions::StoreToRegisterInternal(rb), SubInstructions::Compare, SubInstructions::LoadFromRegister(pc), SubInstructions::LoadFromRegister(1), SubInstructions::JumpIfFlag(FLAG_NONE, GREATER_FLAG), SubInstructions::StepProgramMemory(3)], args: 3 }));
    }
}

fn add_jump_less_equal_reg(w: &mut InstructionSetWriter, pc: u8, ra: u8, rb: u8)
    ensures
        final(w)@ == old(w)@.insert(OP_JUMP_LESS_EQUAL_REG, InstrView { ops: seq![SubInstructions::LoadFromRegister(2), SubInstructions::StoreToRegisterInternal(ra), SubInstructions::LoadFromRegister(3), SubInstructions::StoreToRegisterInternal(rb), SubInstructions::Compare, SubInstructions::LoadFromRegister(pc), SubInstructions::LoadFromRegister(1), SubInstructions::JumpIfFlag(FLAG_NONE, GREATER_FLAG), SubInstructions::StepProgramMemory(3)], args: 3 }),
        final(w).has_pending(),
{
    w.add_instruction(OP_JUMP_LESS_EQUAL_REG, 3);
    w.add_sub_instruction(SubInstructions::LoadFromRegister(2));
    w.add_sub_instruction(SubInstructions::StoreToRegisterInternal(ra));
    w.add_sub_instruction(SubInstructions::LoadFromRegister(3));
    w.add_sub_instruction(SubInstructions::StoreToRegisterInternal(rb));
    w.add_sub_instruction(SubInstructions::Compare);
    w.add_sub_instruction(SubInstructions::LoadFromRegister(pc));
    w.add_sub_instruction(SubInstructions::LoadFromRegister(1));
    w.add_sub_instruction(SubInstructions::JumpIfFlag(FLAG_NONE, GREATER_FLAG));
    w.add_sub_instruction(SubInstructions::StepProgramMemory(3));
    proof {
        assert(final(w)@ =~~= old(w)@.insert(OP_JUMP_LESS_EQUAL_REG, InstrView { ops: seq![SubInstructions::LoadFromRegister(2), SubInstructions::StoreToRegisterInternal(ra), SubInstructions::LoadFromRegister(3), SubInstructions::StoreToRegisterInternal(rb), SubInstructions::Compare, SubInstructions::LoadFromRegister(pc), SubInstructions::LoadFromRegister(1), SubInstructions::JumpIfFlag(FLAG_NONE, GREATER_FLAG), SubInstructions::StepProgramMemory(3)], args: 3 }));
    }
}

fn add_jump_greater_equal(w: &mut InstructionSetWriter, pc: u8, ra: u8, rb: u8)
    ensures
        final(w)@ == old(w)@.insert(OP_JUMP_GREATER_EQUAL, InstrView { ops: seq![SubInstructions::LoadFromRegister(2), SubInstructions::StoreToRegisterInternal(ra), SubInstructions::LoadImmediate(3), SubInstructions::StoreToRegisterInternal(rb), SubInstructions::Compare, SubInstructions::LoadFromRegister(pc), SubInstructions::LoadFromRegister(1), SubInstructions::JumpIfFlag(FLAG_NONE, GREATER_FLAG), SubInstructions::StepProgramMemory(3)], args: 3 }),
        final(w).has_pending(),
{
    w.add_instruction(OP_JUMP_GREATER_EQUAL, 3);
    w.add_sub_instruction(SubInstructions::LoadFromRegister(2));
    w.add_sub_instruction(SubInstructions::StoreToRegisterInternal(ra));
    w.add_sub_instruction(SubInstructions::LoadImmediate(3));
    w.add_sub_instruction(SubInstructions::StoreToRegisterInternal(rb));
    w.add_sub_instruction(SubInstructions::Compare);
    w.add_sub_instruction(SubInstructions::LoadFromRegister(pc));
    w.add_sub_instruction(SubInstructions::LoadFromRegister(1));
    w.add_sub_instruction(SubInstructions::JumpIfFlag(FLAG_NONE, GREATER_FLAG));
    w.add_sub_instruction(SubInstructions::StepProgramMemory(3));
    proof {
        assert(final(w)@ =~~= old(w)@.insert(OP_JUMP_GREATER_EQUAL, InstrView { ops: seq![SubInstructions::LoadFromRegister(2), SubInstructions::StoreToRegisterInternal(ra), SubInstructions::LoadImmediate(3), SubInstructions::StoreToRegisterInternal(rb), SubInstructions::Compare, SubInstructions::LoadFromRegister(pc), SubInstructions::LoadFromRegister(1), SubInstructions::JumpIfFlag(FLAG_NONE, GREATER_FLAG), SubInstructions::StepProgramMemory(3)], args: 3 }));
    }
}

fn add_jump_greater_equal_reg(w: &mut InstructionSetWriter, pc: u8, bp: u8, fl: u8, ra: u8, rb: u8)
    ensures
        final(w)@ == old(w)@.insert(OP_JUMP_GREATER_EQUAL_REG, InstrView { ops: seq![SubInstructions::LoadFromRegister(2), SubInstructions::StoreToRegisterInternal(ra), SubInstructions::LoadFromRegister(3), SubInstructions::StoreToRegisterInternal(rb), SubInstructions::Compare, SubInstructions::LoadFromRegisterInternal(bp), SubInstructions::PushToStack, SubInstructions::LoadFromRegisterInternal(fl), SubInstructions::PushToStack, SubInstructions::LoadFromRegisterInternal(pc), SubInstructions::StoreToRegisterInternal(ra), SubInstructions::LoadImmediateInternal(3), SubInstructions::StoreToRegisterInternal(rb), SubInstructions::Add, SubInstructions::StoreToRegisterInternal(ra), SubInstructions::PopFromStack, SubInstructions::StoreToRegisterInternal(fl), SubInstructions::LoadFromRegisterInternal(ra), SubInstructions::PushToStack, SubInstructions::LoadFromRegister(1), SubInstructions::JumpIfFlag(FLAG_NONE, GREATER_FLAG), SubInstructions::StepProgramMemory(3)], args: 3 }),
        final(w).has_pending(),
{
    w.add_instruction(OP_JUMP_GREATER_EQUAL_REG, 3);
    w.add_sub_instruction(SubInstructions::LoadFromRegister(2));
    w.add_sub_instruction(SubInstructions::StoreToRegisterInternal(ra));
    w.add_sub_instruction(SubInstructions::LoadFromRegister(3));
    w.add_sub_instruction(SubInstructions::StoreToRegisterInternal(rb));
    w.add_sub_instruction(SubInstructions::Compare);
    w.add_sub_instruction(SubInstructions::LoadFromRegisterInternal(bp));
    w.add_sub_instruction(SubInstructions::PushToStack);
    w.add_sub_instruction(SubInstructions::LoadFromRegisterInternal(fl));
    w.add_sub_instruction(SubInstructions::PushToStack);
    w.add_sub_instruction(SubInstructions::LoadFromRegisterInternal(pc));
    w.add_sub_instruction(SubInstructions::StoreToRegisterInternal(ra));
    w.add_sub_instruction(SubInstructions::LoadImmediateInternal(3));
    w.add_sub_instruction(SubInstructions::StoreToRegisterInternal(rb));
    w.add_sub_instruction(SubInstructions::Add);
    w.add_sub_instruction(SubInstructions::StoreToRegisterInternal(ra));
    w.add_sub_instruction(SubInstructions::PopFromStack);
    w.add_sub_instruction(SubInstructions::StoreToRegisterInternal(fl));
    w.add_sub_instruction(SubInstructions::LoadFromRegisterInternal(ra));
    w.add_sub_instruction(SubInstructions::PushToStack);
    w.add_sub_instruction(SubInstructions::LoadFromRegister(1));
    w.add_sub_instruction(SubInstructions::JumpIfFlag(FLAG_NONE, GREATER_FLAG));
    w.add_sub_instruction(SubInstructions::StepProgramMemory(3));
    proof {
        assert(final(w)@ =~~= old(w)@.insert(OP_JUMP_GREATER_EQUAL_REG, InstrView { ops: seq![SubInstructions::LoadFromRegister(2), SubInstructions::StoreToRegisterInternal(ra), SubInstructions::LoadFromRegister(3), SubInstructions::StoreToRegisterInternal(rb), SubInstructions::Compare, SubInstructions::LoadFromRegisterInternal(bp), SubInstructions::PushToStack, SubInstructions::LoadFromRegisterInternal(fl), SubInstructions::PushToStack, SubInstructions::LoadFromRegisterInternal(pc), SubInstructions::StoreToRegisterInternal(ra), SubInstructions::LoadImmediateInternal(3), SubInstructions::StoreToRegisterInternal(rb), SubInstructions::Add, SubInstructions::StoreToRegisterInternal(ra), SubInstructions::PopFromStack, SubInstructions::StoreToRegisterInternal(fl), SubInstructions::LoadFromRegisterInternal(ra), SubInstructions::PushToStack, SubInstructions::LoadFromRegister(1), SubInstructions::JumpIfFlag(FLAG_NONE, GREATER_FLAG), SubInstructions::StepProgramMemory(3)], args: 3 }));
    }
}

fn add_return(w: &mut InstructionSetWriter, pc: u8, bp: u8)
    ensures
        final(w)@ == old(w)@.insert(OP_RETURN, InstrView { ops: seq![SubInstructions::PopFromStack, SubInstructions::StoreToRegisterInternal(pc), SubInstructions::PopFromStack, SubInstructions::StoreToRegisterInternal(bp)], args: 0 }),
        final(w).has_pending(),
{
    w.add_instruction(OP_RETURN, 0);
    w.add_sub_instruction(SubInstructions::PopFromStack);
    w.add_sub_instruction(SubInstructions::StoreToRegisterInternal(pc));
    w.add_sub_instruction(SubInstructions::PopFromStack);
    w.add_sub_instruction(SubInstructions::StoreToRegisterInternal(bp));
    proof {
        assert(final(w)@ =~~= old(w)@.insert(OP_RETURN, InstrView { ops: seq![SubInstructions::PopFromStack, SubInstructions::StoreToRegisterInternal(pc), SubInstructions::PopFromStack, SubInstructions::StoreToRegisterInternal(bp)], args: 0 }));
    }
}

/// Fills the writer with the default instruction set, resolving the
/// reserved register names it relies on through the given register file.
#[verifier::rlimit(100)]
pub fn add_instructions(
    instruction_set_writer: &mut InstructionSetWriter,
    registers: &Registers,
    cpu_data_size: u8,
)
    requires
        registers.wf(),
        spec_id_of(registers.names_view(), "program_counter"@) >= 0,
        spec_id_of(registers.names_view(), "stack_pointer"@) >= 0,
        spec_id_of(registers.names_view(), "base_pointer"@) >= 0,
        spec_id_of(registers.names_view(), "flags"@) >= 0,
        spec_id_of(registers.names_view(), "reg_a"@) >= 0,
        spec_id_of(registers.names_view(), "reg_b"@) >= 0,
    ensures
        final(instruction_set_writer)@ == spec_add_default_instructions(
            old(instruction_set_writer)@,
            spec_id_of(registers.names_view(), "program_counter"@) as u8,
            spec_id_of(registers.names_view(), "base_pointer"@) as u8,
            spec_id_of(registers.names_view(), "flags"@) as u8,
            spec_id_of(registers.names_view(), "reg_a"@) as u8,
            spec_id_of(registers.names_view(), "reg_b"@) as u8,
        ),
{
    let pc = registers.name_to_u8("program_counter");
    // The stack pointer must be registered for the stack micro-operations
    // to work at run time, so it is resolved here like the others even
    // though no micro-operation carries its id as a literal.
    let _sp = registers.name_to_u8("stack_pointer");
    let bp = registers.name_to_u8("base_pointer");
    let fl = registers.name_to_u8("flags");
    let ra = registers.name_to_u8("reg_a");
    let rb = registers.name_to_u8("reg_b");
    // The default table is the same for every data width.
    let _ = cpu_data_size;
    add_no_operation(instruction_set_writer);
    add_halt(instruction_set_writer);
    add_load_from_memory(instruction_set_writer);
    add_store_to_memory(instruction_set_writer);
    add_load_from_memory_reg(instruction_set_writer);
    add_store_to_memory_reg(instruction_set_writer);
    add_add_immediate(instruction_set_writer, ra, rb);
    add_add_reg(instruction_set_writer, ra, rb);
    add_sub_immediate(instruction_set_writer, ra, rb);
    add_sub_reg(instruction_set_writer, ra, rb);
    add_load_immediate(instruction_set_writer);
    add_move_register(instruction_set_writer);
    add_push_immediate(instruction_set_writer);
    add_push_reg(instruction_set_writer);
    add_pop_reg(instruction_set_writer);
    add_jump(instruction_set_writer, pc, bp, fl, ra, rb);
    add_jump_reg(instruction_set_writer, pc);
    add_jump_equal(instruction_set_writer, pc, ra, rb);
    add_jump_equal_reg(instruction_set_writer, pc, ra, rb);
    add_jump_not_equal(instruction_set_writer, pc, ra, rb);
    add_jump_not_equal_reg(instruction_set_writer, pc, ra, rb);
    add_jump_greater_than(instruction_set_writer, pc, ra, rb);
    add_jump_greater_than_reg(instruction_set_writer, pc, ra, rb);
    add_jump_less_than(instruction_set_writer, pc, ra, rb);
    add_jump_less_than_reg(instruction_set_writer, pc, ra, rb);
    add_jump_less_equal(instruction_set_writer, pc, ra, rb);
    add_jump_less_equal_reg(instruction_set_writer, pc, ra, rb);
    add_jump_greater_equal(instruction_set_writer, pc, ra, rb);
    add_jump_greater_equal_reg(instruction_set_writer, pc, bp, fl, ra, rb);
    add_return(instruction_set_writer, pc, bp);
}

} // verus!
