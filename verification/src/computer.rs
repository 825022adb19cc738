//! The execution engine: addressable stores, the register file, the
//! micro-operation catalog, and the clock-driven fetch/decode/execute
//! state machine.

use vstd::prelude::*;

use std::collections::HashMap;

use crate::values::{
    be_bytes_of, be_value, canonical_bytes, be_to_usize, fixed_be_bytes, fixed_bytes_of_usize,
    value_add, value_sub, write_window,
};

verus! {

broadcast use {vstd::string::group_string_axioms, vstd::std_specs::hash::group_hash_axioms};

/// The machine's fatal conditions, surfaced to the caller instead of
/// stopping the process.
#[derive(Clone, Copy, PartialEq, Eq, Structural, Debug)]
pub enum VmError {
    /// A register name or id did not resolve.
    UnknownRegister,
    /// A register write whose data length differs from the register's size.
    SizeMismatch,
    /// A store access outside the store's bounds.
    OutOfBounds,
    /// A subtraction whose subtrahend exceeds its minuend.
    Underflow,
    /// An opcode with no entry in the instruction table.
    UnknownOpcode,
    /// An address too wide for the host to address.
    AddressOverflow,
}

/// A flat, fixed-size byte store; the machine's working memory.
pub struct Memory {
    data: Vec<u8>,
}

impl View for Memory {
    type V = Seq<u8>;

    closed spec fn view(&self) -> Seq<u8> {
        self.data@
    }
}

impl Memory {
    /// A zero-filled store of `size` bytes.
    pub fn new(size: usize) -> (r: Self)
        ensures
            r@.len() == size,
            forall|i: int| 0 <= i < size ==> r@[i] == 0,
    {
        let data = alloc_zeroed(size);
        Memory { data }
    }

    pub fn read(&self, address: usize) -> (r: u8)
        requires
            address < self@.len(),
        ensures
            r == self@[address as int],
    {
        self.data[address]
    }

    pub fn write(&mut self, address: usize, value: u8)
        requires
            address < old(self)@.len(),
        ensures
            final(self)@ == old(self)@.update(address as int, value),
    {
        self.data.set(address, value);
    }

    pub fn read_chunk(&self, start: usize, end: usize) -> (r: &[u8])
        requires
            start <= end <= self@.len(),
        ensures
            r@ == self@.subrange(start as int, end as int),
    {
        vstd::slice::slice_subrange(self.data.as_slice(), start, end)
    }

    pub fn write_chunk(&mut self, start: usize, data: &[u8])
        requires
            start + data@.len() <= old(self)@.len(),
        ensures
            final(self)@ == write_window(old(self)@, start as int, data@),
    {
        copy_into(&mut self.data, start, data);
    }

    /// Zero-fills `[start, end)`.
    pub fn clear_chunk(&mut self, start: usize, end: usize)
        requires
            start <= end <= old(self)@.len(),
        ensures
            final(self)@.len() == old(self)@.len(),
            forall|i: int|
                0 <= i < old(self)@.len() ==> final(self)@[i] == if start <= i < end {
                    0u8
                } else {
                    old(self)@[i]
                },
    {
        let mut i = start;
        while i < end
            invariant
                start <= i <= end <= self@.len(),
                self@.len() == old(self)@.len(),
                forall|j: int|
                    0 <= j < self@.len() ==> self@[j] == if start <= j < i {
                        0u8
                    } else {
                        old(self)@[j]
                    },
            decreases end - i,
        {
            self.data.set(i, 0);
            i = i + 1;
        }
    }
}

/// A second flat byte store with the same contract as `Memory`; the
/// machine's persistent storage.
pub struct Storage {
    data: Vec<u8>,
}

impl View for Storage {
    type V = Seq<u8>;

    closed spec fn view(&self) -> Seq<u8> {
        self.data@
    }
}

impl Storage {
    /// A zero-filled store of `size` bytes.
    pub fn new(size: usize) -> (r: Self)
        ensures
            r@.len() == size,
            forall|i: int| 0 <= i < size ==> r@[i] == 0,
    {
        let data = alloc_zeroed(size);
        Storage { data }
    }

    pub fn read(&self, address: usize) -> (r: u8)
        requires
            address < self@.len(),
        ensures
            r == self@[address as int],
    {
        self.data[address]
    }

    pub fn write(&mut self, address: usize, value: u8)
        requires
            address < old(self)@.len(),
        ensures
            final(self)@ == old(self)@.update(address as int, value),
    {
        self.data.set(address, value);
    }

    pub fn read_chunk(&self, start: usize, end: usize) -> (r: &[u8])
        requires
            start <= end <= self@.len(),
        ensures
            r@ == self@.subrange(start as int, end as int),
    {
        vstd::slice::slice_subrange(self.data.as_slice(), start, end)
    }

    pub fn write_chunk(&mut self, start: usize, data: &[u8])
        requires
            start + data@.len() <= old(self)@.len(),
        ensures
            final(self)@ == write_window(old(self)@, start as int, data@),
    {
        copy_into(&mut self.data, start, data);
    }
}

/// A zero-filled byte vector of the given length.
fn alloc_zeroed(size: usize) -> (r: Vec<u8>)
    ensures
        r@.len() == size,
        forall|i: int| 0 <= i < size ==> r@[i] == 0,
{
    let mut v: Vec<u8> = Vec::new();
    let mut i: usize = 0;
    while i < size
        invariant
            i <= size,
            v@.len() == i,
            forall|j: int| 0 <= j < i ==> v@[j] == 0,
        decreases size - i,
    {
        v.push(0);
        i = i + 1;
    }
    v
}

/// Copies `data` over `dst` starting at `start`.
fn copy_into(dst: &mut Vec<u8>, start: usize, data: &[u8])
    requires
        start + data@.len() <= old(dst)@.len(),
    ensures
        final(dst)@ == write_window(old(dst)@, start as int, data@),
{
    let mut i: usize = 0;
    let n = data.len();
    let dlen = dst.len();
    while i < n
        invariant
            i <= n,
            n == data@.len(),
            dlen == dst@.len(),
            start + n <= dlen,
            dst@.len() == old(dst)@.len(),
            forall|j: int|
                0 <= j < dst@.len() ==> dst@[j] == if start <= j < start + i {
                    data@[j - start]
                } else {
                    old(dst)@[j]
                },
        decreases n - i,
    {
        let b = *vstd::slice::slice_index_get(data, i);
        dst.set(start + i, b);
        i = i + 1;
    }
    proof {
        assert(final(dst)@ =~= write_window(old(dst)@, start as int, data@));
    }
}

/// A register descriptor: a fixed byte window over the register file's
/// backing buffer.
#[derive(Clone, Copy, PartialEq, Eq, Structural, Debug)]
pub struct Register {
    pub size: usize,
    pub location: usize,
}

/// The register file's descriptors: names and windows, in registration
/// order; a register's id is its position in that order.
pub struct Registers {
    pub total_length: usize,
    pub names: Vec<String>,
    pub registers: Vec<Register>,
}

/// The id the register file resolves `name` to: the most recent
/// registration under that name, or -1 when there is none.
pub open spec fn spec_id_of(names: Seq<Seq<char>>, name: Seq<char>) -> int
    decreases names.len(),
{
    if names.len() == 0 {
        -1
    } else if names.last() == name {
        names.len() - 1
    } else {
        spec_id_of(names.drop_last(), name)
    }
}

impl Registers {
    /// The registered names, as character sequences, in id order.
    pub open spec fn names_view(&self) -> Seq<Seq<char>> {
        self.names@.map_values(|s: String| s@)
    }

    /// Well-formed: ids fit in a byte, every window has a positive size and
    /// lies inside the declared backing length.
    pub open spec fn wf(&self) -> bool {
        &&& self.names@.len() == self.registers@.len()
        &&& self.registers@.len() <= 256
        &&& forall|i: int|
            0 <= i < self.registers@.len() ==> (#[trigger] self.registers@[i]).size >= 1
                && self.registers@[i].location + self.registers@[i].size <= self.total_length
    }

    /// The descriptor `name` resolves to, if any.
    pub open spec fn spec_lookup(&self, name: Seq<char>) -> Option<Register> {
        let id = spec_id_of(self.names_view(), name);
        if 0 <= id < self.registers@.len() {
            Some(self.registers@[id])
        } else {
            None
        }
    }

    /// The descriptor `id` resolves to, if any.
    pub open spec fn spec_lookup_id(&self, id: u8) -> Option<Register> {
        if id < self.registers@.len() {
            Some(self.registers@[id as int])
        } else {
            None
        }
    }

    /// An empty register file.
    pub fn new() -> (r: Self)
        ensures
            r.total_length == 0,
            r.names@.len() == 0,
            r.registers@.len() == 0,
            r.wf(),
    {
        Registers { total_length: 0, names: Vec::new(), registers: Vec::new() }
    }

    /// Resolves a register name to its descriptor.
    pub fn look_up_string(&self, name: &str) -> (r: Option<&Register>)
        requires
            self.wf(),
        ensures
            match r {
                Some(reg) => self.spec_lookup(name@) == Some(*reg),
                None => self.spec_lookup(name@) is None,
            },
    {
        let key: String = name.to_string();
        let ghost full = self.names_view();
        let mut i: usize = self.names.len();
        proof {
            assert(full.take(i as int) =~= full);
        }
        while i > 0
            invariant
                i <= self.names@.len(),
                key@ == name@,
                full == self.names_view(),
                self.wf(),
                spec_id_of(full, name@) == spec_id_of(full.take(i as int), name@),
            decreases i,
        {
            i = i - 1;
            proof {
                assert(full.take(i + 1).drop_last() =~= full.take(i as int));
                assert(full.take(i + 1).last() == full[i as int]);
            }
            if self.names[i] == key {
                proof {
                    assert(spec_id_of(full.take(i + 1), name@) == i);
                }
                return self.look_up_u8(i as u8);
            }
        }
        proof {
            assert(full.take(0) =~= Seq::<Seq<char>>::empty());
        }
        None
    }

    /// Resolves a register id to its descriptor.
    pub fn look_up_u8(&self, id: u8) -> (r: Option<&Register>)
        ensures
            match r {
                Some(reg) => self.spec_lookup_id(id) == Some(*reg),
                None => self.spec_lookup_id(id) is None,
            },
    {
        if (id as usize) < self.registers.len() {
            Some(&self.registers[id as usize])
        } else {
            None
        }
    }

    /// The id registered under `name`; the name must be registered.
    pub fn name_to_u8(&self, name: &str) -> (r: u8)
        requires
            self.wf(),
            spec_id_of(self.names_view(), name@) >= 0,
        ensures
            r == spec_id_of(self.names_view(), name@),
    {
        let key: String = name.to_string();
        let ghost full = self.names_view();
        let mut i: usize = self.names.len();
        proof {
            assert(full.take(i as int) =~= full);
        }
        while i > 0
            invariant
                i <= self.names@.len(),
                key@ == name@,
                full == self.names_view(),
                self.wf(),
                spec_id_of(full, name@) == spec_id_of(full.take(i as int), name@),
            decreases i,
        {
            i = i - 1;
            proof {
                assert(full.take(i + 1).drop_last() =~= full.take(i as int));
                assert(full.take(i + 1).last() == full[i as int]);
            }
            if self.names[i] == key {
                proof {
                    assert(spec_id_of(full.take(i + 1), name@) == i);
                }
                return i as u8;
            }
        }
        proof {
            assert(full.take(0) =~= Seq::<Seq<char>>::empty());
            assert(false);
        }
        0
    }

    /// Registers a new window under `name`; its id is the next free one.
    pub fn add_register(&mut self, name: String, size: usize, location: usize)
        requires
            old(self).wf(),
            old(self).registers@.len() < 256,
            size >= 1,
            location + size <= usize::MAX,
        ensures
            final(self).wf(),
            final(self).names_view() == old(self).names_view().push(name@),
            final(self).registers@ == old(self).registers@.push(
                Register { size, location },
            ),
            final(self).total_length == if location + size > old(self).total_length {
                location + size
            } else {
                old(self).total_length as int
            },
    {
        if location + size > self.total_length {
            self.total_length = location + size;
        }
        self.names.push(name);
        self.registers.push(Register { size, location });
        proof {
            assert(final(self).names_view() =~= old(self).names_view().push(
                final(self).names@.last()@,
            ));
        }
    }
}

/// Bit 0 of the flags register: set by `Compare` when the operands are equal.
pub const ZERO_FLAG: u8 = 0b0000_0001;

/// Bit 1 of the flags register: set by `Compare` when the first operand is
/// greater.
pub const GREATER_FLAG: u8 = 0b0000_0010;

/// The empty flag mask.
pub const FLAG_NONE: u8 = 0b0000_0000;

/// The full flag mask.
pub const FLAG_ALL: u8 = 0b1111_1111;

/// The complement of a flag mask within the full byte.
pub open spec fn spec_flag_invert(mask: u8) -> u8 {
    (FLAG_ALL - mask) as u8
}

/// The complement of a flag mask within the full byte.
pub fn flag_invert(mask: u8) -> (r: u8)
    ensures
        r == spec_flag_invert(mask),
{
    FLAG_ALL - mask
}

/// The atomic actions an instruction is made of; one executes per clock
/// tick.
#[derive(Clone, Copy, PartialEq, Eq, Structural, Debug)]
pub enum SubInstructions {
    NoOperation,
    Halt,
    /// Load the program byte at `program_counter + offset` into the
    /// accumulator.
    LoadImmediate(u8),
    /// Load a literal constant into the accumulator, without touching
    /// memory.
    LoadImmediateInternal(u8),
    /// Load `cpu_data_size` bytes of memory, at the address held in the
    /// memory-address register, into the accumulator.
    LoadFromMemory,
    /// Load the register whose id is the program byte at
    /// `program_counter + offset` into the accumulator.
    LoadFromRegister(u8),
    /// Load the register with the given id into the accumulator.
    LoadFromRegisterInternal(u8),
    /// Copy the accumulator's bytes into the memory-address register.
    SetMemoryAddress,
    /// Write the accumulator's bytes to memory at the memory-address
    /// register's first byte.
    StoreToMemory,
    /// Store the accumulator into the register whose id is the program byte
    /// at `program_counter + offset`.
    StoreToRegister(u8),
    /// Store the accumulator into the register with the given id.
    StoreToRegisterInternal(u8),
    /// Advance the program counter by the given amount.
    StepProgramMemory(u8),
    /// Set the accumulator to `reg_a + reg_b`.
    Add,
    /// Set the accumulator to `reg_a - reg_b`; underflow is fatal.
    Sub,
    /// Decrement the stack pointer by `cpu_data_size` and write the
    /// accumulator's bytes there.
    PushToStack,
    /// Read `cpu_data_size` bytes at the stack pointer into the
    /// accumulator, zero-fill them, and advance the stack pointer past
    /// them.
    PopFromStack,
    /// Set the program counter to the accumulator's value and end the
    /// instruction, suppressing the implicit advance.
    Jump,
    /// Compare the first bytes of `reg_a` and `reg_b` and set the ZERO and
    /// GREATER flags.
    Compare,
    /// Jump, as `Jump`, when every `true_mask` bit is set and every
    /// `false_mask` bit is clear in the flags register.
    JumpIfFlag(u8, u8),
    /// Jump, as `Jump`, when the `JumpIfFlag` condition does not hold.
    JumpIfNotFlag(u8, u8),
}

/// An instruction: an ordered micro-operation sequence plus the number of
/// immediate argument bytes its encoding carries after the opcode.
#[derive(Clone)]
pub struct Instruction {
    pub sub_instructions: Vec<SubInstructions>,
    pub args: u8,
}

/// The mathematical shape of an instruction.
#[verifier::ext_equal]
pub ghost struct InstrView {
    pub ops: Seq<SubInstructions>,
    pub args: u8,
}

impl View for Instruction {
    type V = InstrView;

    open spec fn view(&self) -> InstrView {
        InstrView { ops: self.sub_instructions@, args: self.args }
    }
}

/// The machine's entire mutable state, as mathematical values; the
/// semantics of every micro-operation and of the clock are stated over it.
#[verifier::ext_equal]
pub ghost struct MachineState {
    pub regs: Seq<Register>,
    pub names: Seq<Seq<char>>,
    pub register_data: Seq<u8>,
    pub memory: Seq<u8>,
    pub storage: Seq<u8>,
    pub table: Map<u8, InstrView>,
    pub data_size: u8,
    pub opcode: Option<u8>,
    pub sub_step: u8,
    pub halted: bool,
}

impl MachineState {
    /// Well-formed: at most 256 registers, each with a positive size and a
    /// window inside the backing buffer; a positive data width; and no
    /// instruction longer than the step cursor can count.
    pub open spec fn wf(self) -> bool {
        &&& self.names.len() == self.regs.len()
        &&& self.regs.len() <= 256
        &&& forall|i: int|
            0 <= i < self.regs.len() ==> (#[trigger] self.regs[i]).size >= 1
                && self.regs[i].location + self.regs[i].size <= self.register_data.len()
        &&& self.data_size >= 1
        &&& forall|op: u8|
            self.table.contains_key(op) ==> (#[trigger] self.table[op]).ops.len() <= 255
    }

    /// The descriptor a name resolves to, if any.
    pub open spec fn reg_of_name(self, name: Seq<char>) -> Option<Register> {
        let id = spec_id_of(self.names, name);
        if 0 <= id < self.regs.len() {
            Some(self.regs[id])
        } else {
            None
        }
    }

    /// The descriptor an id resolves to, if any.
    pub open spec fn reg_of_id(self, id: u8) -> Option<Register> {
        if id < self.regs.len() {
            Some(self.regs[id as int])
        } else {
            None
        }
    }

    /// Whether a window lies inside the backing buffer.
    pub open spec fn window_ok(self, r: Register) -> bool {
        r.location + r.size <= self.register_data.len()
    }

    /// The raw bytes in a register's window.
    pub open spec fn reg_bytes(self, r: Register) -> Seq<u8> {
        self.register_data.subrange(r.location as int, r.location + r.size)
    }

    /// The bytes of the register a name resolves to; `None` when the name
    /// does not resolve or its window does not fit.
    pub open spec fn read_name(self, name: Seq<char>) -> Option<Seq<u8>> {
        match self.reg_of_name(name) {
            Some(r) => if self.window_ok(r) {
                Some(self.reg_bytes(r))
            } else {
                None
            },
            None => None,
        }
    }

    /// The bytes of the register an id resolves to.
    pub open spec fn read_id(self, id: u8) -> Option<Seq<u8>> {
        match self.reg_of_id(id) {
            Some(r) => if self.window_ok(r) {
                Some(self.reg_bytes(r))
            } else {
                None
            },
            None => None,
        }
    }

    /// The state with the backing buffer replaced.
    pub open spec fn with_register_data(self, d: Seq<u8>) -> MachineState {
        MachineState { register_data: d, ..self }
    }

    /// A register write by name: fails on an unknown name or on data whose
    /// length differs from the register's size.
    pub open spec fn write_name(self, name: Seq<char>, data: Seq<u8>) -> Result<
        MachineState,
        VmError,
    > {
        match self.reg_of_name(name) {
            None => Err(VmError::UnknownRegister),
            Some(r) => if data.len() != r.size {
                Err(VmError::SizeMismatch)
            } else {
                Ok(
                    self.with_register_data(
                        write_window(self.register_data, r.location as int, data),
                    ),
                )
            },
        }
    }

    /// A register write by id, with the same failures as `write_name`.
    pub open spec fn write_id(self, id: u8, data: Seq<u8>) -> Result<MachineState, VmError> {
        match self.reg_of_id(id) {
            None => Err(VmError::UnknownRegister),
            Some(r) => if data.len() != r.size {
                Err(VmError::SizeMismatch)
            } else {
                Ok(
                    self.with_register_data(
                        write_window(self.register_data, r.location as int, data),
                    ),
                )
            },
        }
    }

    /// A register write by name whose failure is discarded, as the engine
    /// does for stack-pointer and store-target updates.
    pub open spec fn try_write_name(self, name: Seq<char>, data: Seq<u8>) -> MachineState {
        match self.write_name(name, data) {
            Ok(s) => s,
            Err(_) => self,
        }
    }

    /// A register write by id whose failure is discarded.
    pub open spec fn try_write_id(self, id: u8, data: Seq<u8>) -> MachineState {
        match self.write_id(id, data) {
            Ok(s) => s,
            Err(_) => self,
        }
    }

    /// Writes the canonical encoding of a value into a named register.
    pub open spec fn set_value_name(self, name: Seq<char>, v: nat) -> Result<
        MachineState,
        VmError,
    > {
        self.write_name(name, be_bytes_of(v))
    }
}

/// An all-zero byte string of length `n`.
pub open spec fn zero_seq(n: nat) -> Seq<u8> {
    Seq::new(n, |i: int| 0u8)
}

/// The program byte at `program_counter + off`: the engine's way of
/// reading an instruction's immediate arguments.
pub open spec fn program_byte(s: MachineState, off: nat) -> Result<u8, VmError> {
    match s.read_name("program_counter"@) {
        None => Err(VmError::UnknownRegister),
        Some(b) => {
            let addr = be_value(b) + off;
            if addr > usize::MAX {
                Err(VmError::AddressOverflow)
            } else if addr >= s.memory.len() {
                Err(VmError::OutOfBounds)
            } else {
                Ok(s.memory[addr as int])
            }
        },
    }
}

/// The flags register's low byte, against which all masks are tested.
pub open spec fn low_byte(v: nat) -> u8 {
    (v % 256) as u8
}

/// The flag byte `Compare` produces from the old flag byte `f0` and the
/// compared bytes `a` and `b`: equal sets ZERO and clears GREATER, greater
/// sets GREATER and clears ZERO, less clears both; other bits keep their
/// old values.
pub open spec fn compare_flags(f0: u8, a: u8, b: u8) -> u8 {
    if a == b {
        (f0 | ZERO_FLAG) & spec_flag_invert(GREATER_FLAG)
    } else if a > b {
        (f0 | GREATER_FLAG) & spec_flag_invert(ZERO_FLAG)
    } else {
        f0 & spec_flag_invert((ZERO_FLAG | GREATER_FLAG) as u8)
    }
}

/// Whether a masked-flag jump fires: every `true_mask` bit set and every
/// `false_mask` bit clear in the flag byte.
pub open spec fn flag_condition(f0: u8, true_mask: u8, false_mask: u8) -> bool {
    (f0 & true_mask) == true_mask && (f0 & false_mask) == 0
}

/// A jump: the program counter is set to the accumulator's value and the
/// active opcode is cleared, suppressing the implicit end-of-instruction
/// advance.
pub open spec fn jump_step(s: MachineState) -> Result<MachineState, VmError> {
    match s.read_name("accumulator"@) {
        None => Err(VmError::UnknownRegister),
        Some(a) => match s.set_value_name("program_counter"@, be_value(a)) {
            Err(e) => Err(e),
            Ok(s1) => Ok(MachineState { opcode: None, ..s1 }),
        },
    }
}

/// The effect of one micro-operation on the machine state, or the fatal
/// error it stops on; on an error the state is unchanged.
pub open spec fn micro_step(op: SubInstructions, s: MachineState) -> Result<
    MachineState,
    VmError,
> {
    match op {
        SubInstructions::NoOperation => Ok(s),
        SubInstructions::Halt => Ok(MachineState { halted: true, ..s }),
        SubInstructions::LoadImmediate(off) => match program_byte(s, off as nat) {
            Err(e) => Err(e),
            Ok(v) => s.set_value_name("accumulator"@, v as nat),
        },
        SubInstructions::LoadImmediateInternal(v) => s.set_value_name("accumulator"@, v as nat),
        SubInstructions::LoadFromMemory => match s.read_name("memory_address"@) {
            None => Err(VmError::UnknownRegister),
            Some(m) => {
                let addr = m[0] as int;
                if addr + s.data_size > s.memory.len() {
                    Err(VmError::OutOfBounds)
                } else {
                    let chunk = s.memory.subrange(addr, addr + s.data_size);
                    s.set_value_name("accumulator"@, be_value(chunk))
                }
            },
        },
        SubInstructions::LoadFromRegister(off) => match program_byte(s, off as nat) {
            Err(e) => Err(e),
            Ok(id) => {
                let bytes = match s.read_id(id) {
                    Some(b) => b,
                    None => seq![0u8],
                };
                s.set_value_name("accumulator"@, be_value(bytes))
            },
        },
        SubInstructions::LoadFromRegisterInternal(id) => {
            let bytes = match s.read_id(id) {
                Some(b) => b,
                None => seq![0u8],
            };
            s.set_value_name("accumulator"@, be_value(bytes))
        },
        SubInstructions::SetMemoryAddress => match s.read_name("accumulator"@) {
            None => Err(VmError::UnknownRegister),
            Some(a) => Ok(s.try_write_name("memory_address"@, a)),
        },
        SubInstructions::StoreToMemory => match s.read_name("memory_address"@) {
            None => Err(VmError::UnknownRegister),
            Some(m) => match s.read_name("accumulator"@) {
                None => Err(VmError::UnknownRegister),
                Some(a) => {
                    let addr = m[0] as int;
                    if addr + a.len() > s.memory.len() {
                        Err(VmError::OutOfBounds)
                    } else {
                        Ok(MachineState { memory: write_window(s.memory, addr, a), ..s })
                    }
                },
            },
        },
        SubInstructions::StoreToRegister(off) => match program_byte(s, off as nat) {
            Err(e) => Err(e),
            Ok(id) => match s.read_name("accumulator"@) {
                None => Err(VmError::UnknownRegister),
                Some(a) => Ok(s.try_write_id(id, a)),
            },
        },
        SubInstructions::StoreToRegisterInternal(id) => match s.read_name("accumulator"@) {
            None => Err(VmError::UnknownRegister),
            Some(a) => Ok(s.try_write_id(id, a)),
        },
        SubInstructions::StepProgramMemory(n) => match s.read_name("program_counter"@) {
            None => Err(VmError::UnknownRegister),
            Some(p) => s.set_value_name("program_counter"@, be_value(p) + n as nat),
        },
        SubInstructions::Add => match s.read_name("reg_a"@) {
            None => Err(VmError::UnknownRegister),
            Some(a) => match s.read_name("reg_b"@) {
                None => Err(VmError::UnknownRegister),
                Some(b) => s.set_value_name("accumulator"@, be_value(a) + be_value(b)),
            },
        },
        SubInstructions::Sub => match s.read_name("reg_a"@) {
            None => Err(VmError::UnknownRegister),
            Some(a) => match s.read_name("reg_b"@) {
                None => Err(VmError::UnknownRegister),
                Some(b) => if be_value(b) > be_value(a) {
                    Err(VmError::Underflow)
                } else {
                    s.set_value_name("accumulator"@, (be_value(a) - be_value(b)) as nat)
                },
            },
        },
        SubInstructions::PushToStack => match s.read_name("stack_pointer"@) {
            None => Err(VmError::UnknownRegister),
            Some(sp) => match s.read_name("accumulator"@) {
                None => Err(VmError::UnknownRegister),
                Some(a) => if be_value(sp) < s.data_size {
                    Err(VmError::Underflow)
                } else {
                    let dest = (be_value(sp) - s.data_size) as nat;
                    if dest > usize::MAX {
                        Err(VmError::AddressOverflow)
                    } else if dest + a.len() > s.memory.len() {
                        Err(VmError::OutOfBounds)
                    } else {
                        let s1 = MachineState {
                            memory: write_window(s.memory, dest as int, a),
                            ..s
                        };
                        Ok(
                            s1.try_write_name(
                                "stack_pointer"@,
                                fixed_be_bytes(dest, s.data_size as nat),
                            ),
                        )
                    }
                },
            },
        },
        SubInstructions::PopFromStack => match s.read_name("stack_pointer"@) {
            None => Err(VmError::UnknownRegister),
            Some(sp) => {
                let addr = be_value(sp);
                if addr > usize::MAX {
                    Err(VmError::AddressOverflow)
                } else if addr + s.data_size > s.memory.len() {
                    Err(VmError::OutOfBounds)
                } else {
                    let chunk = s.memory.subrange(addr as int, addr + s.data_size);
                    match s.set_value_name("accumulator"@, be_value(chunk)) {
                        Err(e) => Err(e),
                        Ok(s1) => {
                            let s2 = MachineState {
                                memory: write_window(
                                    s1.memory,
                                    addr as int,
                                    zero_seq(s.data_size as nat),
                                ),
                                ..s1
                            };
                            Ok(
                                s2.try_write_name(
                                    "stack_pointer"@,
                                    fixed_be_bytes(
                                        (addr + s.data_size) as nat,
                                        s.data_size as nat,
                                    ),
                                ),
                            )
                        },
                    }
                }
            },
        },
        SubInstructions::Jump => jump_step(s),
        SubInstructions::Compare => match s.read_name("reg_a"@) {
            None => Err(VmError::UnknownRegister),
            Some(ab) => match s.read_name("reg_b"@) {
                None => Err(VmError::UnknownRegister),
                Some(bb) => match s.read_name("flags"@) {
                    None => Err(VmError::UnknownRegister),
                    Some(fb) => {
                        let nf = compare_flags(low_byte(be_value(fb)), ab[0], bb[0]);
                        s.set_value_name("flags"@, nf as nat)
                    },
                },
            },
        },
        SubInstructions::JumpIfFlag(tm, fm) => match s.read_name("flags"@) {
            None => Err(VmError::UnknownRegister),
            Some(fb) => if flag_condition(low_byte(be_value(fb)), tm, fm) {
                jump_step(s)
            } else {
                Ok(s)
            },
        },
        SubInstructions::JumpIfNotFlag(tm, fm) => match s.read_name("flags"@) {
            None => Err(VmError::UnknownRegister),
            Some(fb) => if !flag_condition(low_byte(be_value(fb)), tm, fm) {
                jump_step(s)
            } else {
                Ok(s)
            },
        },
    }
}

/// One clock tick: nothing when halted; a fetch when idle; otherwise the
/// current instruction's next micro-operation, or the return to idle with
/// the implicit one-byte program-counter advance once its micro-operations
/// are spent. On an error the state is unchanged.
pub open spec fn clock_step(s: MachineState) -> Result<MachineState, VmError> {
    if s.halted {
        Ok(s)
    } else {
        match s.opcode {
            Some(op) => if !s.table.contains_key(op) {
                Err(VmError::UnknownOpcode)
            } else {
                let iv = s.table[op];
                if s.sub_step >= iv.ops.len() {
                    match s.read_name("program_counter"@) {
                        None => Err(VmError::UnknownRegister),
                        Some(p) => match s.set_value_name(
                            "program_counter"@,
                            be_value(p) + 1,
                        ) {
                            Err(e) => Err(e),
                            Ok(s1) => Ok(MachineState { opcode: None, ..s1 }),
                        },
                    }
                } else {
                    match micro_step(iv.ops[s.sub_step as int], s) {
                        Err(e) => Err(e),
                        Ok(s1) => Ok(MachineState { sub_step: (s.sub_step + 1) as u8, ..s1 }),
                    }
                }
            },
            None => match s.read_name("program_counter"@) {
                None => Err(VmError::UnknownRegister),
                Some(p) => {
                    let a = be_value(p);
                    if a > usize::MAX {
                        Err(VmError::AddressOverflow)
                    } else if a >= s.memory.len() {
                        Err(VmError::OutOfBounds)
                    } else {
                        Ok(
                            MachineState {
                                opcode: Some(s.memory[a as int]),
                                sub_step: 0,
                                ..s
                            },
                        )
                    }
                },
            },
        }
    }
}



/// `n` clock ticks in a row; an error anywhere stops the run.
pub open spec fn clock_iter(s: MachineState, n: nat) -> Result<MachineState, VmError>
    decreases n,
{
    if n == 0 {
        Ok(s)
    } else {
        match clock_step(s) {
            Ok(s1) => clock_iter(s1, (n - 1) as nat),
            Err(e) => Err(e),
        }
    }
}

/// The execution engine: one register file over a backing buffer, a
/// memory store, a storage store, an instruction table, and the clock's
/// cursor.
pub struct CPU {
    pub register_data: Vec<u8>,
    pub registers: Registers,
    pub memory: Memory,
    pub storage: Storage,
    pub instruction_set: HashMap<u8, Instruction>,
    pub cpu_data_size: u8,
    pub current_opcode: Option<u8>,
    pub current_sub_step: u8,
    pub halted: bool,
}

impl CPU {
    /// The machine state this engine is in.
    pub open spec fn state(&self) -> MachineState {
        MachineState {
            regs: self.registers.registers@,
            names: self.registers.names_view(),
            register_data: self.register_data@,
            memory: self.memory@,
            storage: self.storage@,
            table: self.instruction_set@.map_values(|i: Instruction| i@),
            data_size: self.cpu_data_size,
            opcode: self.current_opcode,
            sub_step: self.current_sub_step,
            halted: self.halted,
        }
    }

    /// Well-formed: the register file is well-formed, the backing buffer
    /// has its declared length, the data width is positive, and no
    /// instruction is longer than the step cursor can count.
    pub open spec fn wf(&self) -> bool {
        &&& self.registers.wf()
        &&& self.register_data@.len() == self.registers.total_length
        &&& self.cpu_data_size >= 1
        &&& forall|op: u8|
            self.instruction_set@.contains_key(op) ==> (#[trigger] self.instruction_set@[op])@.ops.len()
                <= 255
    }
}

impl Memory {
    /// The store's size in bytes.
    pub fn len(&self) -> (r: usize)
        ensures
            r == self@.len(),
    {
        self.data.len()
    }
}

impl Storage {
    /// The store's size in bytes.
    pub fn len(&self) -> (r: usize)
        ensures
            r == self@.len(),
    {
        self.data.len()
    }
}

/// A one-byte vector.
fn byte_vec(b: u8) -> (r: Vec<u8>)
    ensures
        r@ =~= seq![b],
{
    let mut v: Vec<u8> = Vec::new();
    v.push(b);
    v
}

impl CPU {
    /// The raw bytes of the register registered under `name`.
    pub fn read_register_string(&self, name: &str) -> (r: Option<&[u8]>)
        requires
            self.wf(),
        ensures
            match r {
                Some(b) => self.state().read_name(name@) == Some(b@),
                None => self.state().read_name(name@) is None,
            },
    {
        match self.registers.look_up_string(name) {
            Some(reg) => {
                let start = reg.location;
                let size = reg.size;
                proof {
                    let id = spec_id_of(self.state().names, name@);
                    assert(self.registers.registers@[id] == *reg);
                }
                Some(vstd::slice::slice_subrange(self.register_data.as_slice(), start, start + size))
            },
            None => None,
        }
    }

    /// The raw bytes of the register with id `id`.
    pub fn read_register(&self, id: u8) -> (r: Option<&[u8]>)
        requires
            self.wf(),
        ensures
            match r {
                Some(b) => self.state().read_id(id) == Some(b@),
                None => self.state().read_id(id) is None,
            },
    {
        match self.registers.look_up_u8(id) {
            Some(reg) => {
                let start = reg.location;
                let size = reg.size;
                proof {
                    assert(self.registers.registers@[id as int] == *reg);
                }
                Some(vstd::slice::slice_subrange(self.register_data.as_slice(), start, start + size))
            },
            None => None,
        }
    }

    /// Writes `data` into the register registered under `name`; the data
    /// must match the register's size exactly.
    pub fn write_register_string(&mut self, name: &str, data: &[u8]) -> (r: Result<(), VmError>)
        requires
            old(self).wf(),
        ensures
            final(self).wf(),
            final(self).registers == old(self).registers,
            final(self).memory@ == old(self).memory@,
            final(self).storage@ == old(self).storage@,
            final(self).instruction_set == old(self).instruction_set,
            final(self).cpu_data_size == old(self).cpu_data_size,
            final(self).current_opcode == old(self).current_opcode,
            final(self).current_sub_step == old(self).current_sub_step,
            final(self).halted == old(self).halted,
            match old(self).state().write_name(name@, data@) {
                Ok(s2) => r == Ok::<(), VmError>(()) && final(self).state() == s2,
                Err(e) => r == Err::<(), VmError>(e) && *final(self) == *old(self),
            },
    {
        let reg = match self.registers.look_up_string(name) {
            Some(r) => *r,
            None => {
                return Err(VmError::UnknownRegister);
            },
        };
        proof {
            let id = spec_id_of(self.state().names, name@);
            assert(self.registers.registers@[id] == reg);
        }
        let r = self.write_register_internal(&reg, data);
        proof {
            if data@.len() == reg.size {
                assert(final(self).state() =~= match old(self).state().write_name(
                    name@,
                    data@,
                ) {
                    Ok(s2) => s2,
                    Err(_) => old(self).state(),
                });
            }
        }
        r
    }

    /// Writes `data` into the register with id `id`.
    pub fn write_register(&mut self, id: u8, data: &[u8]) -> (r: Result<(), VmError>)
        requires
            old(self).wf(),
        ensures
            final(self).wf(),
            final(self).registers == old(self).registers,
            final(self).memory@ == old(self).memory@,
            final(self).storage@ == old(self).storage@,
            final(self).instruction_set == old(self).instruction_set,
            final(self).cpu_data_size == old(self).cpu_data_size,
            final(self).current_opcode == old(self).current_opcode,
            final(self).current_sub_step == old(self).current_sub_step,
            final(self).halted == old(self).halted,
            match old(self).state().write_id(id, data@) {
                Ok(s2) => r == Ok::<(), VmError>(()) && final(self).state() == s2,
                Err(e) => r == Err::<(), VmError>(e) && *final(self) == *old(self),
            },
    {
        let reg = match self.registers.look_up_u8(id) {
            Some(r) => *r,
            None => {
                return Err(VmError::UnknownRegister);
            },
        };
        proof {
            assert(self.registers.registers@[id as int] == reg);
        }
        let r = self.write_register_internal(&reg, data);
        proof {
            if data@.len() == reg.size {
                assert(final(self).state() =~= match old(self).state().write_id(id, data@) {
                    Ok(s2) => s2,
                    Err(_) => old(self).state(),
                });
            }
        }
        r
    }

    /// Writes `data` over a descriptor's window; fails when the data's
    /// length differs from the descriptor's size.
    pub fn write_register_internal(&mut self, reg: &Register, data: &[u8]) -> (r: Result<
        (),
        VmError,
    >)
        requires
            old(self).wf(),
            reg.location + reg.size <= old(self).register_data@.len(),
        ensures
            final(self).wf(),
            data@.len() != reg.size ==> {
                &&& r == Err::<(), VmError>(VmError::SizeMismatch)
                &&& *final(self) == *old(self)
            },
            data@.len() == reg.size ==> {
                &&& r == Ok::<(), VmError>(())
                &&& final(self).register_data@ == write_window(
                    old(self).register_data@,
                    reg.location as int,
                    data@,
                )
                &&& final(self).registers == old(self).registers
                &&& final(self).memory@ == old(self).memory@
                &&& final(self).storage@ == old(self).storage@
                &&& final(self).instruction_set == old(self).instruction_set
                &&& final(self).cpu_data_size == old(self).cpu_data_size
                &&& final(self).current_opcode == old(self).current_opcode
                &&& final(self).current_sub_step == old(self).current_sub_step
                &&& final(self).halted == old(self).halted
            },
    {
        if data.len() != reg.size {
            return Err(VmError::SizeMismatch);
        }
        copy_into(&mut self.register_data, reg.location, data);
        Ok(())
    }

    /// Copies one byte from storage into memory.
    pub fn load_to_memory(&mut self, storage_address: usize, memory_address: usize)
        requires
            storage_address < old(self).storage@.len(),
            memory_address < old(self).memory@.len(),
        ensures
            final(self).memory@ == old(self).memory@.update(
                memory_address as int,
                old(self).storage@[storage_address as int],
            ),
            final(self).storage@ == old(self).storage@,
            final(self).register_data@ == old(self).register_data@,
            final(self).registers == old(self).registers,
            final(self).instruction_set == old(self).instruction_set,
            final(self).cpu_data_size == old(self).cpu_data_size,
            final(self).current_opcode == old(self).current_opcode,
            final(self).current_sub_step == old(self).current_sub_step,
            final(self).halted == old(self).halted,
    {
        let value = self.storage.read(storage_address);
        self.memory.write(memory_address, value);
    }

    /// Copies the byte range `[start, end)` from storage into memory at
    /// the same addresses.
    pub fn load_chunk_to_memory(&mut self, start: usize, end: usize)
        requires
            start <= end <= old(self).storage@.len(),
            end <= old(self).memory@.len(),
        ensures
            final(self).memory@ == write_window(
                old(self).memory@,
                start as int,
                old(self).storage@.subrange(start as int, end as int),
            ),
            final(self).storage@ == old(self).storage@,
            final(self).register_data@ == old(self).register_data@,
            final(self).registers == old(self).registers,
            final(self).instruction_set == old(self).instruction_set,
            final(self).cpu_data_size == old(self).cpu_data_size,
            final(self).current_opcode == old(self).current_opcode,
            final(self).current_sub_step == old(self).current_sub_step,
            final(self).halted == old(self).halted,
    {
        let chunk = vstd::slice::slice_to_vec(self.storage.read_chunk(start, end));
        self.memory.write_chunk(start, chunk.as_slice());
    }

    /// Copies one byte from memory into storage.
    pub fn save_to_storage(&mut self, memory_address: usize, storage_address: usize)
        requires
            memory_address < old(self).memory@.len(),
            storage_address < old(self).storage@.len(),
        ensures
            final(self).storage@ == old(self).storage@.update(
                storage_address as int,
                old(self).memory@[memory_address as int],
            ),
            final(self).memory@ == old(self).memory@,
            final(self).register_data@ == old(self).register_data@,
            final(self).registers == old(self).registers,
            final(self).instruction_set == old(self).instruction_set,
            final(self).cpu_data_size == old(self).cpu_data_size,
            final(self).current_opcode == old(self).current_opcode,
            final(self).current_sub_step == old(self).current_sub_step,
            final(self).halted == old(self).halted,
    {
        let value = self.memory.read(memory_address);
        self.storage.write(storage_address, value);
    }

    /// Copies the byte range `[start, end)` from memory into storage at
    /// the same addresses.
    pub fn save_chunk_to_storage(&mut self, start: usize, end: usize)
        requires
            start <= end <= old(self).memory@.len(),
            end <= old(self).storage@.len(),
        ensures
            final(self).storage@ == write_window(
                old(self).storage@,
                start as int,
                old(self).memory@.subrange(start as int, end as int),
            ),
            final(self).memory@ == old(self).memory@,
            final(self).register_data@ == old(self).register_data@,
            final(self).registers == old(self).registers,
            final(self).instruction_set == old(self).instruction_set,
            final(self).cpu_data_size == old(self).cpu_data_size,
            final(self).current_opcode == old(self).current_opcode,
            final(self).current_sub_step == old(self).current_sub_step,
            final(self).halted == old(self).halted,
    {
        let chunk = vstd::slice::slice_to_vec(self.memory.read_chunk(start, end));
        self.storage.write_chunk(start, chunk.as_slice());
    }

    /// The program byte under the program counter: the opcode the next
    /// fetch would read.
    pub fn read_program_memory(&self) -> (r: Result<u8, VmError>)
        requires
            self.wf(),
        ensures
            r == program_byte(self.state(), 0),
    {
        self.read_program_memory_offset(0)
    }

    /// The program byte at `program_counter + offset`.
    pub fn read_program_memory_offset(&self, offset: u8) -> (r: Result<u8, VmError>)
        requires
            self.wf(),
        ensures
            r == program_byte(self.state(), offset as nat),
    {
        let pcb = match self.get_program_counter_bytes() {
            Ok(b) => b,
            Err(e) => {
                return Err(e);
            },
        };
        let pc = match be_to_usize(pcb) {
            Some(v) => v,
            None => {
                return Err(VmError::AddressOverflow);
            },
        };
        if offset as usize > usize::MAX - pc {
            return Err(VmError::AddressOverflow);
        }
        let addr = pc + offset as usize;
        if addr >= self.memory.len() {
            return Err(VmError::OutOfBounds);
        }
        Ok(self.memory.read(addr))
    }

    /// The bytes of the program-counter register.
    pub fn get_program_counter_bytes(&self) -> (r: Result<&[u8], VmError>)
        requires
            self.wf(),
        ensures
            match self.state().read_name("program_counter"@) {
                Some(b) => r matches Ok(v) && v@ == b,
                None => r == Err::<&[u8], VmError>(VmError::UnknownRegister),
            },
    {
        match self.read_register_string("program_counter") {
            Some(b) => Ok(b),
            None => Err(VmError::UnknownRegister),
        }
    }

    /// The program counter's value, as canonical big-endian bytes.
    pub fn get_program_counter(&self) -> (r: Result<Vec<u8>, VmError>)
        requires
            self.wf(),
        ensures
            match self.state().read_name("program_counter"@) {
                Some(b) => r matches Ok(v) && v@ == be_bytes_of(be_value(b)),
                None => r == Err::<Vec<u8>, VmError>(VmError::UnknownRegister),
            },
    {
        match self.read_register_string("program_counter") {
            Some(b) => Ok(canonical_bytes(b)),
            None => Err(VmError::UnknownRegister),
        }
    }

    /// Sets the program counter to the value the given bytes denote.
    pub fn set_program_counter(&mut self, value: &[u8]) -> (r: Result<(), VmError>)
        requires
            old(self).wf(),
        ensures
            final(self).wf(),
            match old(self).state().set_value_name("program_counter"@, be_value(value@)) {
                Ok(s2) => r == Ok::<(), VmError>(()) && final(self).state() == s2,
                Err(e) => r == Err::<(), VmError>(e) && *final(self) == *old(self),
            },
    {
        let c = canonical_bytes(value);
        self.write_register_string("program_counter", c.as_slice())
    }

    /// The bytes of the accumulator register.
    pub fn get_accumulator_bytes(&self) -> (r: Result<&[u8], VmError>)
        requires
            self.wf(),
        ensures
            match self.state().read_name("accumulator"@) {
                Some(b) => r matches Ok(v) && v@ == b,
                None => r == Err::<&[u8], VmError>(VmError::UnknownRegister),
            },
    {
        match self.read_register_string("accumulator") {
            Some(b) => Ok(b),
            None => Err(VmError::UnknownRegister),
        }
    }

    /// The accumulator's value, as canonical big-endian bytes.
    pub fn get_accumulator(&self) -> (r: Result<Vec<u8>, VmError>)
        requires
            self.wf(),
        ensures
            match self.state().read_name("accumulator"@) {
                Some(b) => r matches Ok(v) && v@ == be_bytes_of(be_value(b)),
                None => r == Err::<Vec<u8>, VmError>(VmError::UnknownRegister),
            },
    {
        match self.read_register_string("accumulator") {
            Some(b) => Ok(canonical_bytes(b)),
            None => Err(VmError::UnknownRegister),
        }
    }

    /// Sets the accumulator to the value the given bytes denote.
    pub fn set_accumulator(&mut self, value: &[u8]) -> (r: Result<(), VmError>)
        requires
            old(self).wf(),
        ensures
            final(self).wf(),
            match old(self).state().set_value_name("accumulator"@, be_value(value@)) {
                Ok(s2) => r == Ok::<(), VmError>(()) && final(self).state() == s2,
                Err(e) => r == Err::<(), VmError>(e) && *final(self) == *old(self),
            },
    {
        let c = canonical_bytes(value);
        self.write_register_string("accumulator", c.as_slice())
    }

    /// The bytes of the flags register.
    pub fn get_flags_bytes(&self) -> (r: Result<&[u8], VmError>)
        requires
            self.wf(),
        ensures
            match self.state().read_name("flags"@) {
                Some(b) => r matches Ok(v) && v@ == b,
                None => r == Err::<&[u8], VmError>(VmError::UnknownRegister),
            },
    {
        match self.read_register_string("flags") {
            Some(b) => Ok(b),
            None => Err(VmError::UnknownRegister),
        }
    }

    /// The flags register's value, as canonical big-endian bytes.
    pub fn get_flags(&self) -> (r: Result<Vec<u8>, VmError>)
        requires
            self.wf(),
        ensures
            match self.state().read_name("flags"@) {
                Some(b) => r matches Ok(v) && v@ == be_bytes_of(be_value(b)),
                None => r == Err::<Vec<u8>, VmError>(VmError::UnknownRegister),
            },
    {
        match self.read_register_string("flags") {
            Some(b) => Ok(canonical_bytes(b)),
            None => Err(VmError::UnknownRegister),
        }
    }

    /// Sets the flags register to the value the given bytes denote.
    pub fn set_flags(&mut self, value: &[u8]) -> (r: Result<(), VmError>)
        requires
            old(self).wf(),
        ensures
            final(self).wf(),
            match old(self).state().set_value_name("flags"@, be_value(value@)) {
                Ok(s2) => r == Ok::<(), VmError>(()) && final(self).state() == s2,
                Err(e) => r == Err::<(), VmError>(e) && *final(self) == *old(self),
            },
    {
        let c = canonical_bytes(value);
        self.write_register_string("flags", c.as_slice())
    }

    /// Advances the program counter by one byte.
    pub fn step(&mut self) -> (r: Result<(), VmError>)
        requires
            old(self).wf(),
        ensures
            final(self).wf(),
            match old(self).state().read_name("program_counter"@) {
                None => r == Err::<(), VmError>(VmError::UnknownRegister) && *final(self) == *old(
                    self,
                ),
                Some(p) => match old(self).state().set_value_name(
                    "program_counter"@,
                    be_value(p) + 1,
                ) {
                    Ok(s2) => r == Ok::<(), VmError>(()) && final(self).state() == s2,
                    Err(e) => r == Err::<(), VmError>(e) && *final(self) == *old(self),
                },
            },
    {
        self.step_size(1)
    }

    /// Advances the program counter by `size` bytes.
    pub fn step_size(&mut self, size: u8) -> (r: Result<(), VmError>)
        requires
            old(self).wf(),
        ensures
            final(self).wf(),
            match old(self).state().read_name("program_counter"@) {
                None => r == Err::<(), VmError>(VmError::UnknownRegister) && *final(self) == *old(
                    self,
                ),
                Some(p) => match old(self).state().set_value_name(
                    "program_counter"@,
                    be_value(p) + size as nat,
                ) {
                    Ok(s2) => r == Ok::<(), VmError>(()) && final(self).state() == s2,
                    Err(e) => r == Err::<(), VmError>(e) && *final(self) == *old(self),
                },
            },
    {
        let pcb = match self.read_register_string("program_counter") {
            Some(b) => vstd::slice::slice_to_vec(b),
            None => {
                return Err(VmError::UnknownRegister);
            },
        };
        let step = byte_vec(size);
        let sum = value_add(pcb.as_slice(), step.as_slice());
        proof {
            crate::values::lemma_be_value_single(size);
            crate::values::lemma_be_bytes_of_value(
                be_value(pcb@) + size as nat,
            );
        }
        self.set_program_counter(sum.as_slice())
    }

    /// Clears the halted flag so the clock may run again; only an external
    /// caller can do this, never a micro-operation.
    pub fn unhalt(&mut self)
        ensures
            final(self).halted == false,
            final(self).registers == old(self).registers,
            final(self).register_data@ == old(self).register_data@,
            final(self).memory@ == old(self).memory@,
            final(self).storage@ == old(self).storage@,
            final(self).instruction_set == old(self).instruction_set,
            final(self).cpu_data_size == old(self).cpu_data_size,
            final(self).current_opcode == old(self).current_opcode,
            final(self).current_sub_step == old(self).current_sub_step,
    {
        self.halted = false;
    }

    /// Whether a Halt micro-operation has stopped the machine.
    pub fn is_halted(&self) -> (r: bool)
        ensures
            r == self.halted,
    {
        self.halted
    }

    /// Installs the instruction table the engine dispatches on.
    pub fn set_instruction_set(&mut self, instruction_set: HashMap<u8, Instruction>)
        requires
            old(self).wf(),
            forall|op: u8|
                instruction_set@.contains_key(op) ==> (#[trigger] instruction_set@[op])@.ops.len()
                    <= 255,
        ensures
            final(self).wf(),
            final(self).instruction_set == instruction_set,
            final(self).registers == old(self).registers,
            final(self).register_data@ == old(self).register_data@,
            final(self).memory@ == old(self).memory@,
            final(self).storage@ == old(self).storage@,
            final(self).cpu_data_size == old(self).cpu_data_size,
            final(self).current_opcode == old(self).current_opcode,
            final(self).current_sub_step == old(self).current_sub_step,
            final(self).halted == old(self).halted,
    {
        self.instruction_set = instruction_set;
    }
}

impl MachineState {
    /// A named register's bytes are never empty on a well-formed machine.
    pub proof fn lemma_read_name_len(self, name: Seq<char>)
        requires
            self.wf(),
            self.read_name(name) is Some,
        ensures
            self.read_name(name)->Some_0.len() >= 1,
    {
        let id = spec_id_of(self.names, name);
        assert(self.regs[id].size >= 1);
    }
}

impl CPU {
    fn exec_load_immediate(&mut self, data_offset: u8) -> (r: Result<(), VmError>)
        requires
            old(self).wf(),
        ensures
            final(self).wf(),
            match micro_step(SubInstructions::LoadImmediate(data_offset), old(self).state()) {
                Ok(s2) => r == Ok::<(), VmError>(()) && final(self).state() == s2,
                Err(e) => r == Err::<(), VmError>(e) && *final(self) == *old(self),
            },
    {
        let value = match self.read_program_memory_offset(data_offset) {
            Ok(v) => v,
            Err(e) => {
                return Err(e);
            },
        };
        let vb = byte_vec(value);
        proof {
            crate::values::lemma_be_value_single(value);
        }
        self.set_accumulator(vb.as_slice())
    }

    fn exec_load_immediate_internal(&mut self, value: u8) -> (r: Result<(), VmError>)
        requires
            old(self).wf(),
        ensures
            final(self).wf(),
            match micro_step(SubInstructions::LoadImmediateInternal(value), old(self).state()) {
                Ok(s2) => r == Ok::<(), VmError>(()) && final(self).state() == s2,
                Err(e) => r == Err::<(), VmError>(e) && *final(self) == *old(self),
            },
    {
        let vb = byte_vec(value);
        proof {
            crate::values::lemma_be_value_single(value);
        }
        self.set_accumulator(vb.as_slice())
    }

    fn exec_load_from_memory(&mut self) -> (r: Result<(), VmError>)
        requires
            old(self).wf(),
        ensures
            final(self).wf(),
            match micro_step(SubInstructions::LoadFromMemory, old(self).state()) {
                Ok(s2) => r == Ok::<(), VmError>(()) && final(self).state() == s2,
                Err(e) => r == Err::<(), VmError>(e) && *final(self) == *old(self),
            },
    {
        let ghost s0 = self.state();
        let address = {
            let m = match self.read_register_string("memory_address") {
                Some(b) => b,
                None => {
                    return Err(VmError::UnknownRegister);
                },
            };
            proof {
                s0.lemma_read_name_len("memory_address"@);
            }
            *vstd::slice::slice_index_get(m, 0) as usize
        };
        let size = self.cpu_data_size as usize;
        if address + size > self.memory.len() {
            return Err(VmError::OutOfBounds);
        }
        let chunk = vstd::slice::slice_to_vec(self.memory.read_chunk(address, address + size));
        self.set_accumulator(chunk.as_slice())
    }

    fn exec_load_from_register(&mut self, register: u8) -> (r: Result<(), VmError>)
        requires
            old(self).wf(),
        ensures
            final(self).wf(),
            match micro_step(SubInstructions::LoadFromRegisterInternal(register), old(self).state()) {
                Ok(s2) => r == Ok::<(), VmError>(()) && final(self).state() == s2,
                Err(e) => r == Err::<(), VmError>(e) && *final(self) == *old(self),
            },
    {
        let bytes = match self.read_register(register) {
            Some(b) => vstd::slice::slice_to_vec(b),
            None => byte_vec(0),
        };
        proof {
            crate::values::lemma_be_value_single(0);
        }
        self.set_accumulator(bytes.as_slice())
    }

    fn exec_set_memory_address(&mut self) -> (r: Result<(), VmError>)
        requires
            old(self).wf(),
        ensures
            final(self).wf(),
            match micro_step(SubInstructions::SetMemoryAddress, old(self).state()) {
                Ok(s2) => r == Ok::<(), VmError>(()) && final(self).state() == s2,
                Err(e) => r == Err::<(), VmError>(e) && *final(self) == *old(self),
            },
    {
        let ghost s0 = self.state();
        let value = match self.read_register_string("accumulator") {
            Some(b) => vstd::slice::slice_to_vec(b),
            None => {
                return Err(VmError::UnknownRegister);
            },
        };
        let ignored = self.write_register_string("memory_address", value.as_slice());
        proof {
            if ignored is Err {
                assert(self.state() =~= s0.try_write_name("memory_address"@, value@));
            }
        }
        Ok(())
    }

    fn exec_store_to_memory(&mut self) -> (r: Result<(), VmError>)
        requires
            old(self).wf(),
        ensures
            final(self).wf(),
            match micro_step(SubInstructions::StoreToMemory, old(self).state()) {
                Ok(s2) => r == Ok::<(), VmError>(()) && final(self).state() == s2,
                Err(e) => r == Err::<(), VmError>(e) && *final(self) == *old(self),
            },
    {
        let ghost s0 = self.state();
        let address = {
            let m = match self.read_register_string("memory_address") {
                Some(b) => b,
                None => {
                    return Err(VmError::UnknownRegister);
                },
            };
            proof {
                s0.lemma_read_name_len("memory_address"@);
            }
            *vstd::slice::slice_index_get(m, 0) as usize
        };
        let value = match self.read_register_string("accumulator") {
            Some(b) => vstd::slice::slice_to_vec(b),
            None => {
                return Err(VmError::UnknownRegister);
            },
        };
        if value.len() > self.memory.len() || address > self.memory.len() - value.len() {
            return Err(VmError::OutOfBounds);
        }
        self.memory.write_chunk(address, value.as_slice());
        proof {
            assert(self.state() =~= MachineState {
                memory: write_window(s0.memory, address as int, value@),
                ..s0
            });
        }
        Ok(())
    }

    fn exec_store_to_register(&mut self, register: u8) -> (r: Result<(), VmError>)
        requires
            old(self).wf(),
        ensures
            final(self).wf(),
            match micro_step(SubInstructions::StoreToRegisterInternal(register), old(self).state()) {
                Ok(s2) => r == Ok::<(), VmError>(()) && final(self).state() == s2,
                Err(e) => r == Err::<(), VmError>(e) && *final(self) == *old(self),
            },
    {
        let ghost s0 = self.state();
        let value = match self.read_register_string("accumulator") {
            Some(b) => vstd::slice::slice_to_vec(b),
            None => {
                return Err(VmError::UnknownRegister);
            },
        };
        let ignored = self.write_register(register, value.as_slice());
        proof {
            if ignored is Err {
                assert(self.state() =~= s0.try_write_id(register, value@));
            }
        }
        Ok(())
    }

    fn exec_add(&mut self) -> (r: Result<(), VmError>)
        requires
            old(self).wf(),
        ensures
            final(self).wf(),
            match micro_step(SubInstructions::Add, old(self).state()) {
                Ok(s2) => r == Ok::<(), VmError>(()) && final(self).state() == s2,
                Err(e) => r == Err::<(), VmError>(e) && *final(self) == *old(self),
            },
    {
        let a_value = match self.read_register_string("reg_a") {
            Some(b) => vstd::slice::slice_to_vec(b),
            None => {
                return Err(VmError::UnknownRegister);
            },
        };
        let b_value = match self.read_register_string("reg_b") {
            Some(b) => vstd::slice::slice_to_vec(b),
            None => {
                return Err(VmError::UnknownRegister);
            },
        };
        let sum = value_add(a_value.as_slice(), b_value.as_slice());
        proof {
            crate::values::lemma_be_bytes_of_value(be_value(a_value@) + be_value(b_value@));
        }
        self.set_accumulator(sum.as_slice())
    }

    fn exec_sub(&mut self) -> (r: Result<(), VmError>)
        requires
            old(self).wf(),
        ensures
            final(self).wf(),
            match micro_step(SubInstructions::Sub, old(self).state()) {
                Ok(s2) => r == Ok::<(), VmError>(()) && final(self).state() == s2,
                Err(e) => r == Err::<(), VmError>(e) && *final(self) == *old(self),
            },
    {
        let a_value = match self.read_register_string("reg_a") {
            Some(b) => vstd::slice::slice_to_vec(b),
            None => {
                return Err(VmError::UnknownRegister);
            },
        };
        let b_value = match self.read_register_string("reg_b") {
            Some(b) => vstd::slice::slice_to_vec(b),
            None => {
                return Err(VmError::UnknownRegister);
            },
        };
        if crate::values::big_lt(a_value.as_slice(), b_value.as_slice()) {
            return Err(VmError::Underflow);
        }
        let diff = value_sub(a_value.as_slice(), b_value.as_slice());
        proof {
            crate::values::lemma_be_bytes_of_value(
                (be_value(a_value@) - be_value(b_value@)) as nat,
            );
        }
        self.set_accumulator(diff.as_slice())
    }

    fn exec_push_to_stack(&mut self) -> (r: Result<(), VmError>)
        requires
            old(self).wf(),
        ensures
            final(self).wf(),
            match micro_step(SubInstructions::PushToStack, old(self).state()) {
                Ok(s2) => r == Ok::<(), VmError>(()) && final(self).state() == s2,
                Err(e) => r == Err::<(), VmError>(e) && *final(self) == *old(self),
            },
    {
        let ghost s0 = self.state();
        let stack_pointer = match self.read_register_string("stack_pointer") {
            Some(b) => vstd::slice::slice_to_vec(b),
            None => {
                return Err(VmError::UnknownRegister);
            },
        };
        let accumulator_bytes = match self.read_register_string("accumulator") {
            Some(b) => vstd::slice::slice_to_vec(b),
            None => {
                return Err(VmError::UnknownRegister);
            },
        };
        let width = byte_vec(self.cpu_data_size);
        proof {
            crate::values::lemma_be_value_single(self.cpu_data_size);
        }
        if crate::values::big_lt(stack_pointer.as_slice(), width.as_slice()) {
            return Err(VmError::Underflow);
        }
        let dest_bytes = value_sub(stack_pointer.as_slice(), width.as_slice());
        proof {
            crate::values::lemma_be_bytes_of_value(
                (be_value(stack_pointer@) - self.cpu_data_size) as nat,
            );
        }
        let destination = match be_to_usize(dest_bytes.as_slice()) {
            Some(v) => v,
            None => {
                return Err(VmError::AddressOverflow);
            },
        };
        if accumulator_bytes.len() > self.memory.len() || destination > self.memory.len()
            - accumulator_bytes.len() {
            return Err(VmError::OutOfBounds);
        }
        self.memory.write_chunk(destination, accumulator_bytes.as_slice());
        let adjusted = fixed_bytes_of_usize(destination, self.cpu_data_size as usize);
        let ignored = self.write_register_string("stack_pointer", adjusted.as_slice());
        proof {
            let s1 = MachineState {
                memory: write_window(s0.memory, destination as int, accumulator_bytes@),
                ..s0
            };
            assert(self.state() =~= s1.try_write_name(
                "stack_pointer"@,
                fixed_be_bytes(destination as nat, s0.data_size as nat),
            ));
        }
        Ok(())
    }

    fn exec_pop_from_stack(&mut self) -> (r: Result<(), VmError>)
        requires
            old(self).wf(),
        ensures
            final(self).wf(),
            match micro_step(SubInstructions::PopFromStack, old(self).state()) {
                Ok(s2) => r == Ok::<(), VmError>(()) && final(self).state() == s2,
                Err(e) => r == Err::<(), VmError>(e) && *final(self) == *old(self),
            },
    {
        let ghost s0 = self.state();
        let stack_pointer = match self.read_register_string("stack_pointer") {
            Some(b) => vstd::slice::slice_to_vec(b),
            None => {
                return Err(VmError::UnknownRegister);
            },
        };
        let address = match be_to_usize(stack_pointer.as_slice()) {
            Some(v) => v,
            None => {
                return Err(VmError::AddressOverflow);
            },
        };
        let size = self.cpu_data_size as usize;
        if size > self.memory.len() || address > self.memory.len() - size {
            return Err(VmError::OutOfBounds);
        }
        let data = vstd::slice::slice_to_vec(self.memory.read_chunk(address, address + size));
        match self.set_accumulator(data.as_slice()) {
            Ok(()) => (),
            Err(e) => {
                return Err(e);
            },
        }
        let zeros = alloc_zeroed(size);
        self.memory.write_chunk(address, zeros.as_slice());
        let adjusted = fixed_bytes_of_usize(address + size, size);
        let ignored = self.write_register_string("stack_pointer", adjusted.as_slice());
        proof {
            assert(zeros@ =~= zero_seq(s0.data_size as nat));
            let s1 = match s0.set_value_name(
                "accumulator"@,
                be_value(s0.memory.subrange(address as int, address + s0.data_size)),
            ) {
                Ok(t) => t,
                Err(_) => s0,
            };
            let s2 = MachineState {
                memory: write_window(s1.memory, address as int, zero_seq(s0.data_size as nat)),
                ..s1
            };
            assert(self.state() =~= s2.try_write_name(
                "stack_pointer"@,
                fixed_be_bytes((address + s0.data_size) as nat, s0.data_size as nat),
            ));
        }
        Ok(())
    }

    fn exec_jump(&mut self) -> (r: Result<(), VmError>)
        requires
            old(self).wf(),
        ensures
            final(self).wf(),
            match jump_step(old(self).state()) {
                Ok(s2) => r == Ok::<(), VmError>(()) && final(self).state() == s2,
                Err(e) => r == Err::<(), VmError>(e) && *final(self) == *old(self),
            },
    {
        let value = match self.read_register_string("accumulator") {
            Some(b) => vstd::slice::slice_to_vec(b),
            None => {
                return Err(VmError::UnknownRegister);
            },
        };
        match self.set_program_counter(value.as_slice()) {
            Ok(()) => (),
            Err(e) => {
                return Err(e);
            },
        }
        self.current_opcode = None;
        Ok(())
    }

    fn exec_compare(&mut self) -> (r: Result<(), VmError>)
        requires
            old(self).wf(),
        ensures
            final(self).wf(),
            match micro_step(SubInstructions::Compare, old(self).state()) {
                Ok(s2) => r == Ok::<(), VmError>(()) && final(self).state() == s2,
                Err(e) => r == Err::<(), VmError>(e) && *final(self) == *old(self),
            },
    {
        let ghost s0 = self.state();
        let a = {
            let ab = match self.read_register_string("reg_a") {
                Some(b) => b,
                None => {
                    return Err(VmError::UnknownRegister);
                },
            };
            proof {
                s0.lemma_read_name_len("reg_a"@);
            }
            *vstd::slice::slice_index_get(ab, 0)
        };
        let b = {
            let bb = match self.read_register_string("reg_b") {
                Some(x) => x,
                None => {
                    return Err(VmError::UnknownRegister);
                },
            };
            proof {
                s0.lemma_read_name_len("reg_b"@);
            }
            *vstd::slice::slice_index_get(bb, 0)
        };
        let flags = match self.read_register_string("flags") {
            Some(x) => vstd::slice::slice_to_vec(x),
            None => {
                return Err(VmError::UnknownRegister);
            },
        };
        proof {
            s0.lemma_read_name_len("flags"@);
            crate::values::lemma_be_value_low_byte(flags@);
        }
        let f0 = flags[flags.len() - 1];
        let new_flags = if a == b {
            (f0 | ZERO_FLAG) & flag_invert(GREATER_FLAG)
        } else if a > b {
            (f0 | GREATER_FLAG) & flag_invert(ZERO_FLAG)
        } else {
            f0 & flag_invert(ZERO_FLAG | GREATER_FLAG)
        };
        let nb = byte_vec(new_flags);
        proof {
            crate::values::lemma_be_value_single(new_flags);
        }
        self.set_flags(nb.as_slice())
    }

    /// Reads the flag byte the mask tests run against: the flags
    /// register's low byte.
    fn read_flag_byte(&self) -> (r: Result<u8, VmError>)
        requires
            self.wf(),
        ensures
            match self.state().read_name("flags"@) {
                Some(fb) => r == Ok::<u8, VmError>(low_byte(be_value(fb))),
                None => r == Err::<u8, VmError>(VmError::UnknownRegister),
            },
    {
        let flags = match self.read_register_string("flags") {
            Some(x) => x,
            None => {
                return Err(VmError::UnknownRegister);
            },
        };
        proof {
            self.state().lemma_read_name_len("flags"@);
            crate::values::lemma_be_value_low_byte(flags@);
        }
        Ok(*vstd::slice::slice_index_get(flags, flags.len() - 1))
    }
}

impl SubInstructions {
    /// Executes this micro-operation on the engine: one atomic state
    /// transition, exactly as `micro_step` describes it; a fatal error
    /// leaves the engine unchanged.
    pub fn execute(&self, cpu: &mut CPU) -> (r: Result<(), VmError>)
        requires
            old(cpu).wf(),
        ensures
            final(cpu).wf(),
            match micro_step(*self, old(cpu).state()) {
                Ok(s2) => r == Ok::<(), VmError>(()) && final(cpu).state() == s2,
                Err(e) => r == Err::<(), VmError>(e) && *final(cpu) == *old(cpu),
            },
    {
        let ghost s0 = cpu.state();
        match self {
            SubInstructions::NoOperation => Ok(()),
            SubInstructions::Halt => {
                cpu.halted = true;
                proof {
                    assert(cpu.state() =~= MachineState { halted: true, ..s0 });
                }
                Ok(())
            },
            SubInstructions::LoadImmediate(data_offset) => cpu.exec_load_immediate(*data_offset),
            SubInstructions::LoadImmediateInternal(value) => cpu.exec_load_immediate_internal(
                *value,
            ),
            SubInstructions::LoadFromMemory => cpu.exec_load_from_memory(),
            SubInstructions::LoadFromRegister(data_offset) => {
                let register = match cpu.read_program_memory_offset(*data_offset) {
                    Ok(v) => v,
                    Err(e) => {
                        return Err(e);
                    },
                };
                cpu.exec_load_from_register(register)
            },
            SubInstructions::LoadFromRegisterInternal(register) => cpu.exec_load_from_register(
                *register,
            ),
            SubInstructions::SetMemoryAddress => cpu.exec_set_memory_address(),
            SubInstructions::StoreToMemory => cpu.exec_store_to_memory(),
            SubInstructions::StoreToRegister(data_offset) => {
                let register = match cpu.read_program_memory_offset(*data_offset) {
                    Ok(v) => v,
                    Err(e) => {
                        return Err(e);
                    },
                };
                cpu.exec_store_to_register(register)
            },
            SubInstructions::StoreToRegisterInternal(register) => cpu.exec_store_to_register(
                *register,
            ),
            SubInstructions::StepProgramMemory(steps) => cpu.step_size(*steps),
            SubInstructions::Add => cpu.exec_add(),
            SubInstructions::Sub => cpu.exec_sub(),
            SubInstructions::PushToStack => cpu.exec_push_to_stack(),
            SubInstructions::PopFromStack => cpu.exec_pop_from_stack(),
            SubInstructions::Jump => cpu.exec_jump(),
            SubInstructions::Compare => cpu.exec_compare(),
            SubInstructions::JumpIfFlag(true_mask, false_mask) => {
                let f0 = match cpu.read_flag_byte() {
                    Ok(f) => f,
                    Err(e) => {
                        return Err(e);
                    },
                };
                if (f0 & *true_mask) == *true_mask && (f0 & *false_mask) == 0 {
                    cpu.exec_jump()
                } else {
                    Ok(())
                }
            },
            SubInstructions::JumpIfNotFlag(true_mask, false_mask) => {
                let f0 = match cpu.read_flag_byte() {
                    Ok(f) => f,
                    Err(e) => {
                        return Err(e);
                    },
                };
                if !((f0 & *true_mask) == *true_mask && (f0 & *false_mask) == 0) {
                    cpu.exec_jump()
                } else {
                    Ok(())
                }
            },
        }
    }
}

/// A resolved name is found at its resolved id.
pub proof fn lemma_spec_id_of_names(names: Seq<Seq<char>>, name: Seq<char>)
    ensures
        spec_id_of(names, name) >= 0 ==> 0 <= spec_id_of(names, name) < names.len()
            && names[spec_id_of(names, name)] == name,
    decreases names.len(),
{
    if names.len() > 0 && names.last() != name {
        lemma_spec_id_of_names(names.drop_last(), name);
    }
}

/// Registering a fresh name under an existing list resolves to the new id.
pub proof fn lemma_spec_id_of_push_match(names: Seq<Seq<char>>, name: Seq<char>)
    ensures
        spec_id_of(names.push(name), name) == names.len(),
{
    assert(names.push(name).last() == name);
}

/// Registering some other name leaves a name's resolution unchanged.
pub proof fn lemma_spec_id_of_push_other(names: Seq<Seq<char>>, name: Seq<char>, other: Seq<char>)
    requires
        other != name,
    ensures
        spec_id_of(names.push(other), name) == spec_id_of(names, name),
{
    assert(names.push(other).drop_last() =~= names);
    assert(names.push(other).last() == other);
}

impl CPU {
    /// A machine over the given register file and stores: a one-byte data
    /// width, an empty instruction table, all registers zero but the
    /// stack pointer, which starts at the top of memory (its low byte).
    pub fn new(registers: Registers, memory: Memory, storage: Storage) -> (r: Self)
        requires
            registers.wf(),
            registers.spec_lookup("stack_pointer"@) matches Some(reg) && reg.size == 1,
        ensures
            r.wf(),
            r.registers == registers,
            r.memory@ == memory@,
            r.storage@ == storage@,
            r.instruction_set@ == Map::<u8, Instruction>::empty(),
            r.cpu_data_size == 1,
            r.current_opcode is None,
            r.current_sub_step == 0,
            r.halted == false,
            r.register_data@ == write_window(
                zero_seq(registers.total_length as nat),
                registers.spec_lookup("stack_pointer"@)->Some_0.location as int,
                seq![(memory@.len() % 256) as u8],
            ),
    {
        let total = registers.total_length;
        let mut cpu = CPU {
            register_data: alloc_zeroed(total),
            registers,
            memory,
            storage,
            instruction_set: HashMap::new(),
            cpu_data_size: 1,
            current_opcode: None,
            current_sub_step: 0,
            halted: false,
        };
        proof {
            assert(cpu.register_data@ =~= zero_seq(cpu.registers.total_length as nat));
        }
        let top = byte_vec((cpu.memory.len() % 256) as u8);
        let res = cpu.write_register_string("stack_pointer", top.as_slice());
        proof {
            assert(res is Ok);
        }
        cpu
    }

    /// One clock tick: a fetch when idle, one micro-operation while
    /// executing, or the return to idle with the implicit one-byte
    /// program-counter advance; exactly as `clock_step` describes it. A
    /// fatal error leaves the engine unchanged.
    pub fn clock(&mut self) -> (r: Result<(), VmError>)
        requires
            old(self).wf(),
        ensures
            final(self).wf(),
            match clock_step(old(self).state()) {
                Ok(s2) => r == Ok::<(), VmError>(()) && final(self).state() == s2,
                Err(e) => r == Err::<(), VmError>(e) && *final(self) == *old(self),
            },
    {
        let ghost s0 = self.state();
        if self.is_halted() {
            return Ok(());
        }
        match self.current_opcode {
            Some(op_code) => {
                let (sub_len, sub_instruction) = {
                    let op = match self.instruction_set.get(&op_code) {
                        Some(op) => op,
                        None => {
                            return Err(VmError::UnknownOpcode);
                        },
                    };
                    let l = op.sub_instructions.len();
                    let si = if (self.current_sub_step as usize) < l {
                        Some(op.sub_instructions[self.current_sub_step as usize])
                    } else {
                        None
                    };
                    (l, si)
                };
                proof {
                    assert(s0.table.contains_key(op_code));
                    assert(s0.table[op_code].ops.len() == sub_len);
                }
                if self.current_sub_step as usize >= sub_len {
                    match self.step() {
                        Ok(()) => {
                            self.current_opcode = None;
                            proof {
                                let s2 = match clock_step(s0) {
                                    Ok(t) => t,
                                    Err(_) => s0,
                                };
                                assert(self.state() =~= s2);
                            }
                            Ok(())
                        },
                        Err(e) => Err(e),
                    }
                } else {
                    match sub_instruction {
                        Some(si) => {
                            proof {
                                assert(si == s0.table[op_code].ops[s0.sub_step as int]);
                            }
                            match si.execute(self) {
                                Ok(()) => {
                                    self.current_sub_step = self.current_sub_step + 1;
                                    proof {
                                        let s2 = match clock_step(s0) {
                                            Ok(t) => t,
                                            Err(_) => s0,
                                        };
                                        assert(self.state() =~= s2);
                                    }
                                    Ok(())
                                },
                                Err(e) => Err(e),
                            }
                        },
                        None => {
                            proof {
                                assert(false);
                            }
                            Ok(())
                        },
                    }
                }
            },
            None => {
                match self.read_program_memory() {
                    Ok(b) => {
                        self.current_opcode = Some(b);
                        self.current_sub_step = 0;
                        proof {
                            let s2 = match clock_step(s0) {
                                Ok(t) => t,
                                Err(_) => s0,
                            };
                            assert(self.state() =~= s2);
                        }
                        Ok(())
                    },
                    Err(e) => Err(e),
                }
            },
        }
    }
}

/// The names of the default machine's registers, in id order.
pub open spec fn default_register_names() -> Seq<Seq<char>> {
    seq![
        "program_counter"@,
        "accumulator"@,
        "flags"@,
        "stack_pointer"@,
        "base_pointer"@,
        "memory_address"@,
        "instruction_temp_0"@,
        "instruction_temp_1"@,
        "instruction_temp_2"@,
        "instruction_temp_3"@,
        "reg_a"@,
        "reg_b"@,
        "reg_c"@,
        "reg_0"@,
        "reg_1"@,
        "reg_2"@,
    ]
}

/// The default machine's register windows: sixteen one-byte registers,
/// packed in id order.
pub open spec fn default_register_windows() -> Seq<Register> {
    Seq::new(16, |i: int| Register { size: 1, location: i as usize })
}

/// Each default register name resolves to its position.
#[verifier::rlimit(100)]
pub proof fn lemma_default_register_ids()
    ensures
        spec_id_of(default_register_names(), "program_counter"@) == 0,
        spec_id_of(default_register_names(), "accumulator"@) == 1,
        spec_id_of(default_register_names(), "flags"@) == 2,
        spec_id_of(default_register_names(), "stack_pointer"@) == 3,
        spec_id_of(default_register_names(), "base_pointer"@) == 4,
        spec_id_of(default_register_names(), "memory_address"@) == 5,
        spec_id_of(default_register_names(), "instruction_temp_0"@) == 6,
        spec_id_of(default_register_names(), "instruction_temp_1"@) == 7,
        spec_id_of(default_register_names(), "instruction_temp_2"@) == 8,
        spec_id_of(default_register_names(), "instruction_temp_3"@) == 9,
        spec_id_of(default_register_names(), "reg_a"@) == 10,
        spec_id_of(default_register_names(), "reg_b"@) == 11,
        spec_id_of(default_register_names(), "reg_c"@) == 12,
        spec_id_of(default_register_names(), "reg_0"@) == 13,
        spec_id_of(default_register_names(), "reg_1"@) == 14,
        spec_id_of(default_register_names(), "reg_2"@) == 15,
{
    reveal_strlit("program_counter");
    reveal_strlit("accumulator");
    reveal_strlit("flags");
    reveal_strlit("stack_pointer");
    reveal_strlit("base_pointer");
    reveal_strlit("memory_address");
    reveal_strlit("instruction_temp_0");
    reveal_strlit("instruction_temp_1");
    reveal_strlit("instruction_temp_2");
    reveal_strlit("instruction_temp_3");
    reveal_strlit("reg_a");
    reveal_strlit("reg_b");
    reveal_strlit("reg_c");
    reveal_strlit("reg_0");
    reveal_strlit("reg_1");
    reveal_strlit("reg_2");
    let n0 = Seq::<Seq<char>>::empty();
    let n1 = n0.push("program_counter"@);
    let n2 = n1.push("accumulator"@);
    let n3 = n2.push("flags"@);
    let n4 = n3.push("stack_pointer"@);
    let n5 = n4.push("base_pointer"@);
    let n6 = n5.push("memory_address"@);
    let n7 = n6.push("instruction_temp_0"@);
    let n8 = n7.push("instruction_temp_1"@);
    let n9 = n8.push("instruction_temp_2"@);
    let n10 = n9.push("instruction_temp_3"@);
    let n11 = n10.push("reg_a"@);
    let n12 = n11.push("reg_b"@);
    let n13 = n12.push("reg_c"@);
    let n14 = n13.push("reg_0"@);
    let n15 = n14.push("reg_1"@);
    let n16 = n15.push("reg_2"@);
    assert(n16 =~= default_register_names());
    lemma_spec_id_of_push_match(n0, "program_counter"@);
    assert("program_counter"@.len() != "accumulator"@.len());
    assert("accumulator"@ != "program_counter"@);
    lemma_spec_id_of_push_other(n1, "program_counter"@, "accumulator"@);
    assert("program_counter"@.len() != "flags"@.len());
    assert("flags"@ != "program_counter"@);
    lemma_spec_id_of_push_other(n2, "program_counter"@, "flags"@);
    assert("program_counter"@.len() != "stack_pointer"@.len());
    assert("stack_pointer"@ != "program_counter"@);
    lemma_spec_id_of_push_other(n3, "program_counter"@, "stack_pointer"@);
    assert("program_counter"@.len() != "base_pointer"@.len());
    assert("base_pointer"@ != "program_counter"@);
    lemma_spec_id_of_push_other(n4, "program_counter"@, "base_pointer"@);
    assert("program_counter"@.len() != "memory_address"@.len());
    assert("memory_address"@ != "program_counter"@);
    lemma_spec_id_of_push_other(n5, "program_counter"@, "memory_address"@);
    assert("program_counter"@.len() != "instruction_temp_0"@.len());
    assert("instruction_temp_0"@ != "program_counter"@);
    lemma_spec_id_of_push_other(n6, "program_counter"@, "instruction_temp_0"@);
    assert("program_counter"@.len() != "instruction_temp_1"@.len());
    assert("instruction_temp_1"@ != "program_counter"@);
    lemma_spec_id_of_push_other(n7, "program_counter"@, "instruction_temp_1"@);
    assert("program_counter"@.len() != "instruction_temp_2"@.len());
    assert("instruction_temp_2"@ != "program_counter"@);
    lemma_spec_id_of_push_other(n8, "program_counter"@, "instruction_temp_2"@);
    assert("program_counter"@.len() != "instruction_temp_3"@.len());
    assert("instruction_temp_3"@ != "program_counter"@);
    lemma_spec_id_of_push_other(n9, "program_counter"@, "instruction_temp_3"@);
    assert("program_counter"@.len() != "reg_a"@.len());
    assert("reg_a"@ != "program_counter"@);
    lemma_spec_id_of_push_other(n10, "program_counter"@, "reg_a"@);
    assert("program_counter"@.len() != "reg_b"@.len());
    assert("reg_b"@ != "program_counter"@);
    lemma_spec_id_of_push_other(n11, "program_counter"@, "reg_b"@);
    assert("program_counter"@.len() != "reg_c"@.len());
    assert("reg_c"@ != "program_counter"@);
    lemma_spec_id_of_push_other(n12, "program_counter"@, "reg_c"@);
    assert("program_counter"@.len() != "reg_0"@.len());
    assert("reg_0"@ != "program_counter"@);
    lemma_spec_id_of_push_other(n13, "program_counter"@, "reg_0"@);
    assert("program_counter"@.len() != "reg_1"@.len());
    assert("reg_1"@ != "program_counter"@);
    lemma_spec_id_of_push_other(n14, "program_counter"@, "reg_1"@);
    assert("program_counter"@.len() != "reg_2"@.len());
    assert("reg_2"@ != "program_counter"@);
    lemma_spec_id_of_push_other(n15, "program_counter"@, "reg_2"@);
    lemma_spec_id_of_push_match(n1, "accumulator"@);
    assert("accumulator"@.len() != "flags"@.len());
    assert("flags"@ != "accumulator"@);
    lemma_spec_id_of_push_other(n2, "accumulator"@, "flags"@);
    assert("accumulator"@.len() != "stack_pointer"@.len());
    assert("stack_pointer"@ != "accumulator"@);
    lemma_spec_id_of_push_other(n3, "accumulator"@, "stack_pointer"@);
    assert("accumulator"@.len() != "base_pointer"@.len());
    assert("base_pointer"@ != "accumulator"@);
    lemma_spec_id_of_push_other(n4, "accumulator"@, "base_pointer"@);
    assert("accumulator"@.len() != "memory_address"@.len());
    assert("memory_address"@ != "accumulator"@);
    lemma_spec_id_of_push_other(n5, "accumulator"@, "memory_address"@);
    assert("accumulator"@.len() != "instruction_temp_0"@.len());
    assert("instruction_temp_0"@ != "accumulator"@);
    lemma_spec_id_of_push_other(n6, "accumulator"@, "instruction_temp_0"@);
    assert("accumulator"@.len() != "instruction_temp_1"@.len());
    assert("instruction_temp_1"@ != "accumulator"@);
    lemma_spec_id_of_push_other(n7, "accumulator"@, "instruction_temp_1"@);
    assert("accumulator"@.len() != "instruction_temp_2"@.len());
    assert("instruction_temp_2"@ != "accumulator"@);
    lemma_spec_id_of_push_other(n8, "accumulator"@, "instruction_temp_2"@);
    assert("accumulator"@.len() != "instruction_temp_3"@.len());
    assert("instruction_temp_3"@ != "accumulator"@);
    lemma_spec_id_of_push_other(n9, "accumulator"@, "instruction_temp_3"@);
    assert("accumulator"@.len() != "reg_a"@.len());
    assert("reg_a"@ != "accumulator"@);
    lemma_spec_id_of_push_other(n10, "accumulator"@, "reg_a"@);
    assert("accumulator"@.len() != "reg_b"@.len());
    assert("reg_b"@ != "accumulator"@);
    lemma_spec_id_of_push_other(n11, "accumulator"@, "reg_b"@);
    assert("accumulator"@.len() != "reg_c"@.len());
    assert("reg_c"@ != "accumulator"@);
    lemma_spec_id_of_push_other(n12, "accumulator"@, "reg_c"@);
    assert("accumulator"@.len() != "reg_0"@.len());
    assert("reg_0"@ != "accumulator"@);
    lemma_spec_id_of_push_other(n13, "accumulator"@, "reg_0"@);
    assert("accumulator"@.len() != "reg_1"@.len());
    assert("reg_1"@ != "accumulator"@);
    lemma_spec_id_of_push_other(n14, "accumulator"@, "reg_1"@);
    assert("accumulator"@.len() != "reg_2"@.len());
    assert("reg_2"@ != "accumulator"@);
    lemma_spec_id_of_push_other(n15, "accumulator"@, "reg_2"@);
    lemma_spec_id_of_push_match(n2, "flags"@);
    assert("flags"@.len() != "stack_pointer"@.len());
    assert("stack_pointer"@ != "flags"@);
    lemma_spec_id_of_push_other(n3, "flags"@, "stack_pointer"@);
    assert("flags"@.len() != "base_pointer"@.len());
    assert("base_pointer"@ != "flags"@);
    lemma_spec_id_of_push_other(n4, "flags"@, "base_pointer"@);
    assert("flags"@.len() != "memory_address"@.len());
    assert("memory_address"@ != "flags"@);
    lemma_spec_id_of_push_other(n5, "flags"@, "memory_address"@);
    assert("flags"@.len() != "instruction_temp_0"@.len());
    assert("instruction_temp_0"@ != "flags"@);
    lemma_spec_id_of_push_other(n6, "flags"@, "instruction_temp_0"@);
    assert("flags"@.len() != "instruction_temp_1"@.len());
    assert("instruction_temp_1"@ != "flags"@);
    lemma_spec_id_of_push_other(n7, "flags"@, "instruction_temp_1"@);
    assert("flags"@.len() != "instruction_temp_2"@.len());
    assert("instruction_temp_2"@ != "flags"@);
    lemma_spec_id_of_push_other(n8, "flags"@, "instruction_temp_2"@);
    assert("flags"@.len() != "instruction_temp_3"@.len());
    assert("instruction_temp_3"@ != "flags"@);
    lemma_spec_id_of_push_other(n9, "flags"@, "instruction_temp_3"@);
    assert(("flags"@)[0] != ("reg_a"@)[0]);
    assert("reg_a"@ != "flags"@);
    lemma_spec_id_of_push_other(n10, "flags"@, "reg_a"@);
    assert(("flags"@)[0] != ("reg_b"@)[0]);
    assert("reg_b"@ != "flags"@);
    lemma_spec_id_of_push_other(n11, "flags"@, "reg_b"@);
    assert(("flags"@)[0] != ("reg_c"@)[0]);
    assert("reg_c"@ != "flags"@);
    lemma_spec_id_of_push_other(n12, "flags"@, "reg_c"@);
    assert(("flags"@)[0] != ("reg_0"@)[0]);
    assert("reg_0"@ != "flags"@);
    lemma_spec_id_of_push_other(n13, "flags"@, "reg_0"@);
    assert(("flags"@)[0] != ("reg_1"@)[0]);
    assert("reg_1"@ != "flags"@);
    lemma_spec_id_of_push_other(n14, "flags"@, "reg_1"@);
    assert(("flags"@)[0] != ("reg_2"@)[0]);
    assert("reg_2"@ != "flags"@);
    lemma_spec_id_of_push_other(n15, "flags"@, "reg_2"@);
    lemma_spec_id_of_push_match(n3, "stack_pointer"@);
    assert("stack_pointer"@.len() != "base_pointer"@.len());
    assert("base_pointer"@ != "stack_pointer"@);
    lemma_spec_id_of_push_other(n4, "stack_pointer"@, "base_pointer"@);
    assert("stack_pointer"@.len() != "memory_address"@.len());
    assert("memory_address"@ != "stack_pointer"@);
    lemma_spec_id_of_push_other(n5, "stack_pointer"@, "memory_address"@);
    assert("stack_pointer"@.len() != "instruction_temp_0"@.len());
    assert("instruction_temp_0"@ != "stack_pointer"@);
    lemma_spec_id_of_push_other(n6, "stack_pointer"@, "instruction_temp_0"@);
    assert("stack_pointer"@.len() != "instruction_temp_1"@.len());
    assert("instruction_temp_1"@ != "stack_pointer"@);
    lemma_spec_id_of_push_other(n7, "stack_pointer"@, "instruction_temp_1"@);
    assert("stack_pointer"@.len() != "instruction_temp_2"@.len());
    assert("instruction_temp_2"@ != "stack_pointer"@);
    lemma_spec_id_of_push_other(n8, "stack_pointer"@, "instruction_temp_2"@);
    assert("stack_pointer"@.len() != "instruction_temp_3"@.len());
    assert("instruction_temp_3"@ != "stack_pointer"@);
    lemma_spec_id_of_push_other(n9, "stack_pointer"@, "instruction_temp_3"@);
    assert("stack_pointer"@.len() != "reg_a"@.len());
    assert("reg_a"@ != "stack_pointer"@);
    lemma_spec_id_of_push_other(n10, "stack_pointer"@, "reg_a"@);
    assert("stack_pointer"@.len() != "reg_b"@.len());
    assert("reg_b"@ != "stack_pointer"@);
    lemma_spec_id_of_push_other(n11, "stack_pointer"@, "reg_b"@);
    assert("stack_pointer"@.len() != "reg_c"@.len());
    assert("reg_c"@ != "stack_pointer"@);
    lemma_spec_id_of_push_other(n12, "stack_pointer"@, "reg_c"@);
    assert("stack_pointer"@.len() != "reg_0"@.len());
    assert("reg_0"@ != "stack_pointer"@);
    lemma_spec_id_of_push_other(n13, "stack_pointer"@, "reg_0"@);
    assert("stack_pointer"@.len() != "reg_1"@.len());
    assert("reg_1"@ != "stack_pointer"@);
    lemma_spec_id_of_push_other(n14, "stack_pointer"@, "reg_1"@);
    assert("stack_pointer"@.len() != "reg_2"@.len());
    assert("reg_2"@ != "stack_pointer"@);
    lemma_spec_id_of_push_other(n15, "stack_pointer"@, "reg_2"@);
    lemma_spec_id_of_push_match(n4, "base_pointer"@);
    assert("base_pointer"@.len() != "memory_address"@.len());
    assert("memory_address"@ != "base_pointer"@);
    lemma_spec_id_of_push_other(n5, "base_pointer"@, "memory_address"@);
    assert("base_pointer"@.len() != "instruction_temp_0"@.len());
    assert("instruction_temp_0"@ != "base_pointer"@);
    lemma_spec_id_of_push_other(n6, "base_pointer"@, "instruction_temp_0"@);
    assert("base_pointer"@.len() != "instruction_temp_1"@.len());
    assert("instruction_temp_1"@ != "base_pointer"@);
    lemma_spec_id_of_push_other(n7, "base_pointer"@, "instruction_temp_1"@);
    assert("base_pointer"@.len() != "instruction_temp_2"@.len());
    assert("instruction_temp_2"@ != "base_pointer"@);
    lemma_spec_id_of_push_other(n8, "base_pointer"@, "instruction_temp_2"@);
    assert("base_pointer"@.len() != "instruction_temp_3"@.len());
    assert("instruction_temp_3"@ != "base_pointer"@);
    lemma_spec_id_of_push_other(n9, "base_pointer"@, "instruction_temp_3"@);
    assert("base_pointer"@.len() != "reg_a"@.len());
    assert("reg_a"@ != "base_pointer"@);
    lemma_spec_id_of_push_other(n10, "base_pointer"@, "reg_a"@);
    assert("base_pointer"@.len() != "reg_b"@.len());
    assert("reg_b"@ != "base_pointer"@);
    lemma_spec_id_of_push_other(n11, "base_pointer"@, "reg_b"@);
    assert("base_pointer"@.len() != "reg_c"@.len());
    assert("reg_c"@ != "base_pointer"@);
    lemma_spec_id_of_push_other(n12, "base_pointer"@, "reg_c"@);
    assert("base_pointer"@.len() != "reg_0"@.len());
    assert("reg_0"@ != "base_pointer"@);
    lemma_spec_id_of_push_other(n13, "base_pointer"@, "reg_0"@);
    assert("base_pointer"@.len() != "reg_1"@.len());
    assert("reg_1"@ != "base_pointer"@);
    lemma_spec_id_of_push_other(n14, "base_pointer"@, "reg_1"@);
    assert("base_pointer"@.len() != "reg_2"@.len());
    assert("reg_2"@ != "base_pointer"@);
    lemma_spec_id_of_push_other(n15, "base_pointer"@, "reg_2"@);
    lemma_spec_id_of_push_match(n5, "memory_address"@);
    assert("memory_address"@.len() != "instruction_temp_0"@.len());
    assert("instruction_temp_0"@ != "memory_address"@);
    lemma_spec_id_of_push_other(n6, "memory_address"@, "instruction_temp_0"@);
    assert("memory_address"@.len() != "instruction_temp_1"@.len());
    assert("instruction_temp_1"@ != "memory_address"@);
    lemma_spec_id_of_push_other(n7, "memory_address"@, "instruction_temp_1"@);
    assert("memory_address"@.len() != "instruction_temp_2"@.len());
    assert("instruction_temp_2"@ != "memory_address"@);
    lemma_spec_id_of_push_other(n8, "memory_address"@, "instruction_temp_2"@);
    assert("memory_address"@.len() != "instruction_temp_3"@.len());
    assert("instruction_temp_3"@ != "memory_address"@);
    lemma_spec_id_of_push_other(n9, "memory_address"@, "instruction_temp_3"@);
    assert("memory_address"@.len() != "reg_a"@.len());
    assert("reg_a"@ != "memory_address"@);
    lemma_spec_id_of_push_other(n10, "memory_address"@, "reg_a"@);
    assert("memory_address"@.len() != "reg_b"@.len());
    assert("reg_b"@ != "memory_address"@);
    lemma_spec_id_of_push_other(n11, "memory_address"@, "reg_b"@);
    assert("memory_address"@.len() != "reg_c"@.len());
    assert("reg_c"@ != "memory_address"@);
    lemma_spec_id_of_push_other(n12, "memory_address"@, "reg_c"@);
    assert("memory_address"@.len() != "reg_0"@.len());
    assert("reg_0"@ != "memory_address"@);
    lemma_spec_id_of_push_other(n13, "memory_address"@, "reg_0"@);
    assert("memory_address"@.len() != "reg_1"@.len());
    assert("reg_1"@ != "memory_address"@);
    lemma_spec_id_of_push_other(n14, "memory_address"@, "reg_1"@);
    assert("memory_address"@.len() != "reg_2"@.len());
    assert("reg_2"@ != "memory_address"@);
    lemma_spec_id_of_push_other(n15, "memory_address"@, "reg_2"@);
    lemma_spec_id_of_push_match(n6, "instruction_temp_0"@);
    assert(("instruction_temp_0"@)[17] != ("instruction_temp_1"@)[17]);
    assert("instruction_temp_1"@ != "instruction_temp_0"@);
    lemma_spec_id_of_push_other(n7, "instruction_temp_0"@, "instruction_temp_1"@);
    assert(("instruction_temp_0"@)[17] != ("instruction_temp_2"@)[17]);
    assert("instruction_temp_2"@ != "instruction_temp_0"@);
    lemma_spec_id_of_push_other(n8, "instruction_temp_0"@, "instruction_temp_2"@);
    assert(("instruction_temp_0"@)[17] != ("instruction_temp_3"@)[17]);
    assert("instruction_temp_3"@ != "instruction_temp_0"@);
    lemma_spec_id_of_push_other(n9, "instruction_temp_0"@, "instruction_temp_3"@);
    assert("instruction_temp_0"@.len() != "reg_a"@.len());
    assert("reg_a"@ != "instruction_temp_0"@);
    lemma_spec_id_of_push_other(n10, "instruction_temp_0"@, "reg_a"@);
    assert("instruction_temp_0"@.len() != "reg_b"@.len());
    assert("reg_b"@ != "instruction_temp_0"@);
    lemma_spec_id_of_push_other(n11, "instruction_temp_0"@, "reg_b"@);
    assert("instruction_temp_0"@.len() != "reg_c"@.len());
    assert("reg_c"@ != "instruction_temp_0"@);
    lemma_spec_id_of_push_other(n12, "instruction_temp_0"@, "reg_c"@);
    assert("instruction_temp_0"@.len() != "reg_0"@.len());
    assert("reg_0"@ != "instruction_temp_0"@);
    lemma_spec_id_of_push_other(n13, "instruction_temp_0"@, "reg_0"@);
    assert("instruction_temp_0"@.len() != "reg_1"@.len());
    assert("reg_1"@ != "instruction_temp_0"@);
    lemma_spec_id_of_push_other(n14, "instruction_temp_0"@, "reg_1"@);
    assert("instruction_temp_0"@.len() != "reg_2"@.len());
    assert("reg_2"@ != "instruction_temp_0"@);
    lemma_spec_id_of_push_other(n15, "instruction_temp_0"@, "reg_2"@);
    lemma_spec_id_of_push_match(n7, "instruction_temp_1"@);
    assert(("instruction_temp_1"@)[17] != ("instruction_temp_2"@)[17]);
    assert("instruction_temp_2"@ != "instruction_temp_1"@);
    lemma_spec_id_of_push_other(n8, "instruction_temp_1"@, "instruction_temp_2"@);
    assert(("instruction_temp_1"@)[17] != ("instruction_temp_3"@)[17]);
    assert("instruction_temp_3"@ != "instruction_temp_1"@);
    lemma_spec_id_of_push_other(n9, "instruction_temp_1"@, "instruction_temp_3"@);
    assert("instruction_temp_1"@.len() != "reg_a"@.len());
    assert("reg_a"@ != "instruction_temp_1"@);
    lemma_spec_id_of_push_other(n10, "instruction_temp_1"@, "reg_a"@);
    assert("instruction_temp_1"@.len() != "reg_b"@.len());
    assert("reg_b"@ != "instruction_temp_1"@);
    lemma_spec_id_of_push_other(n11, "instruction_temp_1"@, "reg_b"@);
    assert("instruction_temp_1"@.len() != "reg_c"@.len());
    assert("reg_c"@ != "instruction_temp_1"@);
    lemma_spec_id_of_push_other(n12, "instruction_temp_1"@, "reg_c"@);
    assert("instruction_temp_1"@.len() != "reg_0"@.len());
    assert("reg_0"@ != "instruction_temp_1"@);
    lemma_spec_id_of_push_other(n13, "instruction_temp_1"@, "reg_0"@);
    assert("instruction_temp_1"@.len() != "reg_1"@.len());
    assert("reg_1"@ != "instruction_temp_1"@);
    lemma_spec_id_of_push_other(n14, "instruction_temp_1"@, "reg_1"@);
    assert("instruction_temp_1"@.len() != "reg_2"@.len());
    assert("reg_2"@ != "instruction_temp_1"@);
    lemma_spec_id_of_push_other(n15, "instruction_temp_1"@, "reg_2"@);
    lemma_spec_id_of_push_match(n8, "instruction_temp_2"@);
    assert(("instruction_temp_2"@)[17] != ("instruction_temp_3"@)[17]);
    assert("instruction_temp_3"@ != "instruction_temp_2"@);
    lemma_spec_id_of_push_other(n9, "instruction_temp_2"@, "instruction_temp_3"@);
    assert("instruction_temp_2"@.len() != "reg_a"@.len());
    assert("reg_a"@ != "instruction_temp_2"@);
    lemma_spec_id_of_push_other(n10, "instruction_temp_2"@, "reg_a"@);
    assert("instruction_temp_2"@.len() != "reg_b"@.len());
    assert("reg_b"@ != "instruction_temp_2"@);
    lemma_spec_id_of_push_other(n11, "instruction_temp_2"@, "reg_b"@);
    assert("instruction_temp_2"@.len() != "reg_c"@.len());
    assert("reg_c"@ != "instruction_temp_2"@);
    lemma_spec_id_of_push_other(n12, "instruction_temp_2"@, "reg_c"@);
    assert("instruction_temp_2"@.len() != "reg_0"@.len());
    assert("reg_0"@ != "instruction_temp_2"@);
    lemma_spec_id_of_push_other(n13, "instruction_temp_2"@, "reg_0"@);
    assert("instruction_temp_2"@.len() != "reg_1"@.len());
    assert("reg_1"@ != "instruction_temp_2"@);
    lemma_spec_id_of_push_other(n14, "instruction_temp_2"@, "reg_1"@);
    assert("instruction_temp_2"@.len() != "reg_2"@.len());
    assert("reg_2"@ != "instruction_temp_2"@);
    lemma_spec_id_of_push_other(n15, "instruction_temp_2"@, "reg_2"@);
    lemma_spec_id_of_push_match(n9, "instruction_temp_3"@);
    assert("instruction_temp_3"@.len() != "reg_a"@.len());
    assert("reg_a"@ != "instruction_temp_3"@);
    lemma_spec_id_of_push_other(n10, "instruction_temp_3"@, "reg_a"@);
    assert("instruction_temp_3"@.len() != "reg_b"@.len());
    assert("reg_b"@ != "instruction_temp_3"@);
    lemma_spec_id_of_push_other(n11, "instruction_temp_3"@, "reg_b"@);
    assert("instruction_temp_3"@.len() != "reg_c"@.len());
    assert("reg_c"@ != "instruction_temp_3"@);
    lemma_spec_id_of_push_other(n12, "instruction_temp_3"@, "reg_c"@);
    assert("instruction_temp_3"@.len() != "reg_0"@.len());
    assert("reg_0"@ != "instruction_temp_3"@);
    lemma_spec_id_of_push_other(n13, "instruction_temp_3"@, "reg_0"@);
    assert("instruction_temp_3"@.len() != "reg_1"@.len());
    assert("reg_1"@ != "instruction_temp_3"@);
    lemma_spec_id_of_push_other(n14, "instruction_temp_3"@, "reg_1"@);
    assert("instruction_temp_3"@.len() != "reg_2"@.len());
    assert("reg_2"@ != "instruction_temp_3"@);
    lemma_spec_id_of_push_other(n15, "instruction_temp_3"@, "reg_2"@);
    lemma_spec_id_of_push_match(n10, "reg_a"@);
    assert(("reg_a"@)[4] != ("reg_b"@)[4]);
    assert("reg_b"@ != "reg_a"@);
    lemma_spec_id_of_push_other(n11, "reg_a"@, "reg_b"@);
    assert(("reg_a"@)[4] != ("reg_c"@)[4]);
    assert("reg_c"@ != "reg_a"@);
    lemma_spec_id_of_push_other(n12, "reg_a"@, "reg_c"@);
    assert(("reg_a"@)[4] != ("reg_0"@)[4]);
    assert("reg_0"@ != "reg_a"@);
    lemma_spec_id_of_push_other(n13, "reg_a"@, "reg_0"@);
    assert(("reg_a"@)[4] != ("reg_1"@)[4]);
    assert("reg_1"@ != "reg_a"@);
    lemma_spec_id_of_push_other(n14, "reg_a"@, "reg_1"@);
    assert(("reg_a"@)[4] != ("reg_2"@)[4]);
    assert("reg_2"@ != "reg_a"@);
    lemma_spec_id_of_push_other(n15, "reg_a"@, "reg_2"@);
    lemma_spec_id_of_push_match(n11, "reg_b"@);
    assert(("reg_b"@)[4] != ("reg_c"@)[4]);
    assert("reg_c"@ != "reg_b"@);
    lemma_spec_id_of_push_other(n12, "reg_b"@, "reg_c"@);
    assert(("reg_b"@)[4] != ("reg_0"@)[4]);
    assert("reg_0"@ != "reg_b"@);
    lemma_spec_id_of_push_other(n13, "reg_b"@, "reg_0"@);
    assert(("reg_b"@)[4] != ("reg_1"@)[4]);
    assert("reg_1"@ != "reg_b"@);
    lemma_spec_id_of_push_other(n14, "reg_b"@, "reg_1"@);
    assert(("reg_b"@)[4] != ("reg_2"@)[4]);
    assert("reg_2"@ != "reg_b"@);
    lemma_spec_id_of_push_other(n15, "reg_b"@, "reg_2"@);
    lemma_spec_id_of_push_match(n12, "reg_c"@);
    assert(("reg_c"@)[4] != ("reg_0"@)[4]);
    assert("reg_0"@ != "reg_c"@);
    lemma_spec_id_of_push_other(n13, "reg_c"@, "reg_0"@);
    assert(("reg_c"@)[4] != ("reg_1"@)[4]);
    assert("reg_1"@ != "reg_c"@);
    lemma_spec_id_of_push_other(n14, "reg_c"@, "reg_1"@);
    assert(("reg_c"@)[4] != ("reg_2"@)[4]);
    assert("reg_2"@ != "reg_c"@);
    lemma_spec_id_of_push_other(n15, "reg_c"@, "reg_2"@);
    lemma_spec_id_of_push_match(n13, "reg_0"@);
    assert(("reg_0"@)[4] != ("reg_1"@)[4]);
    assert("reg_1"@ != "reg_0"@);
    lemma_spec_id_of_push_other(n14, "reg_0"@, "reg_1"@);
    assert(("reg_0"@)[4] != ("reg_2"@)[4]);
    assert("reg_2"@ != "reg_0"@);
    lemma_spec_id_of_push_other(n15, "reg_0"@, "reg_2"@);
    lemma_spec_id_of_push_match(n14, "reg_1"@);
    assert(("reg_1"@)[4] != ("reg_2"@)[4]);
    assert("reg_2"@ != "reg_1"@);
    lemma_spec_id_of_push_other(n15, "reg_1"@, "reg_2"@);
    lemma_spec_id_of_push_match(n15, "reg_2"@);
}

/// The default machine over the given stores: sixteen one-byte registers
/// with the reserved names the micro-operations rely on.
pub fn create_default_cpu_with_memory(memory: Memory, storage: Storage) -> (r: CPU)
    ensures
        r.wf(),
        r.registers.names_view() == default_register_names(),
        r.registers.registers@ == default_register_windows(),
        r.registers.total_length == 16,
        r.memory@ == memory@,
        r.storage@ == storage@,
        r.instruction_set@ == Map::<u8, Instruction>::empty(),
        r.cpu_data_size == 1,
        r.current_opcode is None,
        r.current_sub_step == 0,
        r.halted == false,
        r.register_data@ == write_window(
            zero_seq(16),
            3,
            seq![(memory@.len() % 256) as u8],
        ),
{
    let mut registers = Registers::new();
    registers.add_register("program_counter".to_string(), 1, 0);
    registers.add_register("accumulator".to_string(), 1, 1);
    registers.add_register("flags".to_string(), 1, 2);
    registers.add_register("stack_pointer".to_string(), 1, 3);
    registers.add_register("base_pointer".to_string(), 1, 4);
    registers.add_register("memory_address".to_string(), 1, 5);
    registers.add_register("instruction_temp_0".to_string(), 1, 6);
    registers.add_register("instruction_temp_1".to_string(), 1, 7);
    registers.add_register("instruction_temp_2".to_string(), 1, 8);
    registers.add_register("instruction_temp_3".to_string(), 1, 9);
    registers.add_register("reg_a".to_string(), 1, 10);
    registers.add_register("reg_b".to_string(), 1, 11);
    registers.add_register("reg_c".to_string(), 1, 12);
    registers.add_register("reg_0".to_string(), 1, 13);
    registers.add_register("reg_1".to_string(), 1, 14);
    registers.add_register("reg_2".to_string(), 1, 15);
    proof {
        assert(registers.names_view() =~= default_register_names());
        assert(registers.registers@ =~= default_register_windows());
        lemma_default_register_ids();
    }
    CPU::new(registers, memory, storage)
}

/// The default machine over freshly zeroed stores of the given sizes.
pub fn create_default_cpu(memory_size: usize, storage_size: usize) -> (r: CPU)
    ensures
        r.wf(),
        r.registers.names_view() == default_register_names(),
        r.registers.registers@ == default_register_windows(),
        r.registers.total_length == 16,
        r.memory@.len() == memory_size,
        forall|i: int| 0 <= i < memory_size ==> r.memory@[i] == 0,
        r.storage@.len() == storage_size,
        forall|i: int| 0 <= i < storage_size ==> r.storage@[i] == 0,
        r.instruction_set@ == Map::<u8, Instruction>::empty(),
        r.cpu_data_size == 1,
        r.current_opcode is None,
        r.current_sub_step == 0,
        r.halted == false,
        r.register_data@ == write_window(
            zero_seq(16),
            3,
            seq![(memory_size % 256) as u8],
        ),
{
    let memory = Memory::new(memory_size);
    let storage = Storage::new(storage_size);
    create_default_cpu_with_memory(memory, storage)
}

} // verus!
