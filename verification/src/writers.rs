//! Builders for instruction tables and for encoded programs: a thin
//! convenience layer over the engine's `map(opcode -> Instruction)` shape.

use vstd::prelude::*;

use std::collections::HashMap;

use crate::computer::{Instruction, InstrView, SubInstructions};

verus! {

broadcast use vstd::std_specs::hash::group_hash_axioms;

/// Collects one instruction's micro-operations.
pub struct InstructionBuilder {
    sub_instructions: Vec<SubInstructions>,
    args: u8,
}

impl View for InstructionBuilder {
    type V = InstrView;

    closed spec fn view(&self) -> InstrView {
        InstrView { ops: self.sub_instructions@, args: self.args }
    }
}

impl InstructionBuilder {
    /// An empty instruction that declares `args` immediate bytes.
    pub fn new(args: u8) -> (r: Self)
        ensures
            r@ == (InstrView { ops: Seq::empty(), args }),
    {
        InstructionBuilder { sub_instructions: Vec::new(), args }
    }

    /// Appends one micro-operation.
    pub fn add_sub_instruction(&mut self, sub_instruction: SubInstructions)
        ensures
            final(self)@ == (InstrView {
                ops: old(self)@.ops.push(sub_instruction),
                args: old(self)@.args,
            }),
    {
        self.sub_instructions.push(sub_instruction);
    }

    /// The finished instruction.
    pub fn build(self) -> (r: Instruction)
        ensures
            r@ == self@,
    {
        Instruction { sub_instructions: self.sub_instructions, args: self.args }
    }
}

/// Collects a whole instruction table, one opcode at a time: open an
/// opcode with `add_instruction`, then append its micro-operations with
/// `add_sub_instruction`.
pub struct InstructionSetWriter {
    instruction_set: HashMap<u8, Instruction>,
    pending: Option<(u8, InstructionBuilder)>,
}

impl View for InstructionSetWriter {
    type V = Map<u8, InstrView>;

    closed spec fn view(&self) -> Map<u8, InstrView> {
        let base = self.instruction_set@.map_values(|i: Instruction| i@);
        match self.pending {
            Some((op, b)) => base.insert(op, b@),
            None => base,
        }
    }
}

impl InstructionSetWriter {
    /// Whether an opcode is open for `add_sub_instruction`.
    pub closed spec fn has_pending(&self) -> bool {
        self.pending is Some
    }

    /// The opcode that is open.
    pub closed spec fn pending_opcode(&self) -> u8 {
        self.pending->Some_0.0
    }

    /// An empty table.
    pub fn new() -> (r: Self)
        ensures
            r@ == Map::<u8, InstrView>::empty(),
            !r.has_pending(),
    {
        InstructionSetWriter { instruction_set: HashMap::new(), pending: None }
    }

    /// Opens `opcode` with an empty instruction declaring `args` immediate
    /// bytes; micro-operations appended next extend this opcode.
    pub fn add_instruction(&mut self, opcode: u8, args: u8)
        ensures
            final(self)@ == old(self)@.insert(opcode, InstrView { ops: Seq::empty(), args }),
            final(self).has_pending(),
            final(self).pending_opcode() == opcode,
    {
        self.flush();
        self.pending = Some((opcode, InstructionBuilder::new(args)));
    }

    /// Appends one micro-operation to the open opcode.
    pub fn add_sub_instruction(&mut self, sub_instruction: SubInstructions)
        requires
            old(self).has_pending(),
        ensures
            final(self)@ == old(self)@.insert(
                old(self).pending_opcode(),
                InstrView {
                    ops: old(self)@[old(self).pending_opcode()].ops.push(sub_instruction),
                    args: old(self)@[old(self).pending_opcode()].args,
                },
            ),
            final(self).has_pending(),
            final(self).pending_opcode() == old(self).pending_opcode(),
    {
        let mut taken = self.pending.take();
        match &mut taken {
            Some((_op, b)) => {
                b.add_sub_instruction(sub_instruction);
            },
            None => (),
        }
        self.pending = taken;
        proof {
            assert(final(self)@ =~= old(self)@.insert(
                old(self).pending_opcode(),
                InstrView {
                    ops: old(self)@[old(self).pending_opcode()].ops.push(sub_instruction),
                    args: old(self)@[old(self).pending_opcode()].args,
                },
            ));
        }
    }

    /// The finished table, in the shape the engine consumes.
    pub fn build(self) -> (r: HashMap<u8, Instruction>)
        ensures
            r@.map_values(|i: Instruction| i@) == self@,
    {
        let mut w = self;
        w.flush();
        proof {
            assert(w.instruction_set@.map_values(|i: Instruction| i@) =~= w@);
        }
        w.instruction_set
    }

    /// Moves the open instruction, if any, into the table.
    fn flush(&mut self)
        ensures
            final(self)@ == old(self)@,
            !final(self).has_pending(),
    {
        let taken = self.pending.take();
        match taken {
            Some((op, b)) => {
                self.instruction_set.insert(op, b.build());
                proof {
                    assert(final(self)@ =~= old(self)@);
                }
            },
            None => (),
        }
    }
}

/// Encodes a program against an instruction table: each appended
/// instruction contributes its opcode byte followed by its declared
/// number of immediate bytes.
pub struct ProgramWriter {
    instruction_set: HashMap<u8, Instruction>,
    program: Vec<u8>,
}

impl View for ProgramWriter {
    type V = Seq<u8>;

    closed spec fn view(&self) -> Seq<u8> {
        self.program@
    }
}

impl ProgramWriter {
    /// The table programs are encoded against.
    pub closed spec fn table(&self) -> Map<u8, InstrView> {
        self.instruction_set@.map_values(|i: Instruction| i@)
    }

    /// An empty program over the given table.
    pub fn new(instruction_set: HashMap<u8, Instruction>) -> (r: Self)
        ensures
            r.table() == instruction_set@.map_values(|i: Instruction| i@),
            r@ == Seq::<u8>::empty(),
    {
        ProgramWriter { instruction_set, program: Vec::new() }
    }

    /// Appends one instruction: the opcode byte, then its immediate
    /// bytes, whose number must match the table's declaration.
    pub fn add_instruction(&mut self, opcode: u8, args: &[u8])
        requires
            old(self).table().contains_key(opcode),
            args@.len() == old(self).table()[opcode].args,
        ensures
            final(self)@ == old(self)@.push(opcode) + args@,
            final(self).table() == old(self).table(),
    {
        self.program.push(opcode);
        self.program.extend_from_slice(args);
        proof {
            assert(final(self)@ =~= old(self)@.push(opcode) + args@);
        }
    }

    /// The encoded program bytes.
    pub fn build(self) -> (r: Vec<u8>)
        ensures
            r@ == self@,
    {
        self.program
    }
}

} // verus!
