//! The machine's laws: properties that relate several operations, proved
//! once over every machine state the hypotheses admit.

use vstd::prelude::*;

use crate::computer::{
    flag_condition, jump_step, low_byte, micro_step, spec_id_of, MachineState, SubInstructions,
    VmError, GREATER_FLAG, ZERO_FLAG,
};
use crate::values::{
    be_bytes_of, be_value, fixed_be_bytes, lemma_be_bytes_of_value, lemma_be_value_bound,
    lemma_fixed_be_bytes_exact, lemma_fixed_width_unique, lemma_pow256_pos,
    lemma_write_window_frame, lemma_write_window_image, pow256, write_window,
};

verus! {

/// Writing a register under a registered name and reading it back yields
/// exactly the data written, whenever the data's length equals the
/// register's declared size; data of any other length is always refused
/// with a size mismatch and changes nothing.
pub proof fn lemma_register_round_trip(s: MachineState, name: Seq<char>, data: Seq<u8>)
    requires
        s.wf(),
        s.reg_of_name(name) is Some,
    ensures
        data.len() == s.reg_of_name(name)->Some_0.size ==> {
            &&& s.write_name(name, data) matches Ok(s2)
            &&& s.write_name(name, data)->Ok_0.read_name(name) == Some(data)
        },
        data.len() != s.reg_of_name(name)->Some_0.size ==> s.write_name(name, data) == Err::<
            MachineState,
            VmError,
        >(VmError::SizeMismatch),
{
    let r = s.reg_of_name(name)->Some_0;
    let id = spec_id_of(s.names, name);
    assert(s.regs[id] == r);
    assert(r.location + r.size <= s.register_data.len());
    if data.len() == r.size {
        let s2 = s.write_name(name, data)->Ok_0;
        lemma_write_window_image(s.register_data, r.location as int, data);
        assert(s2.reg_bytes(r) == data);
    }
}

/// The flag byte `Compare` produces satisfies the Equal mask pair
/// exactly for equal operands and the Greater pair exactly for a greater
/// first operand, and never both.
proof fn lemma_compare_flags_conditions(f0: u8, a: u8, b: u8)
    ensures
        flag_condition(crate::computer::compare_flags(f0, a, b), ZERO_FLAG, GREATER_FLAG) <==> a
            == b,
        flag_condition(crate::computer::compare_flags(f0, a, b), GREATER_FLAG, ZERO_FLAG) <==> a
            > b,
{
    let nf = crate::computer::compare_flags(f0, a, b);
    if a == b {
        assert(nf == (f0 | 1u8) & 0xFDu8);
        assert(((f0 | 1u8) & 0xFDu8) & 1u8 == 1u8 && ((f0 | 1u8) & 0xFDu8) & 2u8 == 0u8)
            by (bit_vector);
    } else if a > b {
        assert(nf == (f0 | 2u8) & 0xFEu8);
        assert(((f0 | 2u8) & 0xFEu8) & 1u8 == 0u8 && ((f0 | 2u8) & 0xFEu8) & 2u8 == 2u8)
            by (bit_vector);
    } else {
        assert((1u8 | 2u8) == 3u8) by (bit_vector);
        assert(nf == f0 & 0xFCu8);
        assert((f0 & 0xFCu8) & 1u8 == 0u8 && (f0 & 0xFCu8) & 2u8 == 0u8) by (bit_vector);
    }
}

/// `Compare` drives the conditional jumps: after comparing, the
/// Equal-mask jump fires exactly when the compared bytes were equal, the
/// Greater-mask jump exactly when the first byte was strictly greater,
/// and never both for one pair.
#[verifier::rlimit(100)]
pub proof fn lemma_compare_drives_jumps(s: MachineState)
    requires
        s.wf(),
        micro_step(SubInstructions::Compare, s) is Ok,
    ensures
        ({
            let s1 = micro_step(SubInstructions::Compare, s)->Ok_0;
            let a = s.read_name("reg_a"@)->Some_0[0];
            let b = s.read_name("reg_b"@)->Some_0[0];
            &&& micro_step(SubInstructions::JumpIfFlag(ZERO_FLAG, GREATER_FLAG), s1) == (if a == b {
                jump_step(s1)
            } else {
                Ok::<MachineState, VmError>(s1)
            })
            &&& micro_step(SubInstructions::JumpIfFlag(GREATER_FLAG, ZERO_FLAG), s1) == (if a > b {
                jump_step(s1)
            } else {
                Ok::<MachineState, VmError>(s1)
            })
            &&& !(a == b && a > b)
        }),
{
    let s1 = micro_step(SubInstructions::Compare, s)->Ok_0;
    let a = s.read_name("reg_a"@)->Some_0[0];
    let b = s.read_name("reg_b"@)->Some_0[0];
    let fb = s.read_name("flags"@)->Some_0;
    let f0 = low_byte(be_value(fb));
    let nf = crate::computer::compare_flags(f0, a, b);
    let fr = s.reg_of_name("flags"@)->Some_0;
    let fid = spec_id_of(s.names, "flags"@);
    assert(s.regs[fid] == fr);
    assert(be_bytes_of(nf as nat).len() == fr.size);
    lemma_be_bytes_of_value(nf as nat);
    assert(s1.register_data == write_window(
        s.register_data,
        fr.location as int,
        be_bytes_of(nf as nat),
    ));
    lemma_write_window_image(s.register_data, fr.location as int, be_bytes_of(nf as nat));
    assert(s1.read_name("flags"@) == Some(be_bytes_of(nf as nat)));
    assert(low_byte(be_value(be_bytes_of(nf as nat))) == nf) by {
        vstd::arithmetic::div_mod::lemma_small_mod(nf as nat, 256);
    }
    lemma_compare_flags_conditions(f0, a, b);
}

/// `Add` is commutative: two machines whose operand registers hold the
/// two values in either order produce accumulators denoting one sum.
pub proof fn lemma_add_commutative(s: MachineState, t: MachineState)
    requires
        s.wf(),
        t.wf(),
        s.read_name("reg_a"@) is Some,
        s.read_name("reg_b"@) is Some,
        t.read_name("reg_a"@) == s.read_name("reg_b"@),
        t.read_name("reg_b"@) == s.read_name("reg_a"@),
        micro_step(SubInstructions::Add, s) is Ok,
        micro_step(SubInstructions::Add, t) is Ok,
    ensures
        ({
            let s1 = micro_step(SubInstructions::Add, s)->Ok_0;
            let t1 = micro_step(SubInstructions::Add, t)->Ok_0;
            s1.read_name("accumulator"@)->Some_0 == t1.read_name("accumulator"@)->Some_0
        }),
{
    let a = s.read_name("reg_a"@)->Some_0;
    let b = s.read_name("reg_b"@)->Some_0;
    let v = be_value(a) + be_value(b);
    lemma_acc_after_set(s, v);
    lemma_acc_after_set(t, v);
}

/// After a successful accumulator write of value `v`, the accumulator
/// reads back as the canonical encoding of `v`.
proof fn lemma_acc_after_set(s: MachineState, v: nat)
    requires
        s.wf(),
        s.set_value_name("accumulator"@, v) is Ok,
    ensures
        s.set_value_name("accumulator"@, v)->Ok_0.read_name("accumulator"@) == Some(
            be_bytes_of(v),
        ),
{
    let r = s.reg_of_name("accumulator"@)->Some_0;
    let id = spec_id_of(s.names, "accumulator"@);
    assert(s.regs[id] == r);
    lemma_write_window_image(s.register_data, r.location as int, be_bytes_of(v));
}

/// `Add` is associative through the accumulator's canonical encoding:
/// summing the first two values, re-reading the accumulator, and adding
/// the third gives the same value as the mirrored grouping.
pub proof fn lemma_add_associative(a: Seq<u8>, b: Seq<u8>, c: Seq<u8>)
    ensures
        be_value(be_bytes_of(be_value(a) + be_value(b))) + be_value(c) == be_value(a) + be_value(
            be_bytes_of(be_value(b) + be_value(c)),
        ),
{
    lemma_be_bytes_of_value(be_value(a) + be_value(b));
    lemma_be_bytes_of_value(be_value(b) + be_value(c));
}

/// `Sub` followed by `Add` of the same operand is an identity on the
/// value, whenever the subtraction did not underflow.
pub proof fn lemma_sub_then_add_identity(a: Seq<u8>, b: Seq<u8>)
    requires
        be_value(b) <= be_value(a),
    ensures
        be_value(be_bytes_of((be_value(a) - be_value(b)) as nat)) + be_value(b) == be_value(a),
{
    lemma_be_bytes_of_value((be_value(a) - be_value(b)) as nat);
}


/// A value pushed to the stack and popped back with no push in between
/// returns unchanged: the accumulator again denotes the pushed value, the
/// stack pointer returns to its pre-push bytes, and the vacated memory
/// span is zero-filled. This holds for the standard stack configuration:
/// stack-pointer and accumulator registers one data-width wide and not
/// overlapping.
#[verifier::rlimit(100)]
pub proof fn lemma_push_pop_round_trip(s: MachineState)
    requires
        s.wf(),
        s.reg_of_name("stack_pointer"@) matches Some(spr) && spr.size == s.data_size,
        s.reg_of_name("accumulator"@) matches Some(ar) && ar.size == s.data_size,
        ({
            let spr = s.reg_of_name("stack_pointer"@)->Some_0;
            let ar = s.reg_of_name("accumulator"@)->Some_0;
            ar.location + ar.size <= spr.location || spr.location + spr.size <= ar.location
        }),
        micro_step(SubInstructions::PushToStack, s) is Ok,
        micro_step(SubInstructions::PopFromStack, micro_step(SubInstructions::PushToStack, s)->Ok_0)
            is Ok,
    ensures
        ({
            let s1 = micro_step(SubInstructions::PushToStack, s)->Ok_0;
            let s2 = micro_step(SubInstructions::PopFromStack, s1)->Ok_0;
            let sp0 = s.read_name("stack_pointer"@)->Some_0;
            let a0 = s.read_name("accumulator"@)->Some_0;
            let dest = be_value(sp0) - s.data_size;
            &&& be_value(s2.read_name("accumulator"@)->Some_0) == be_value(a0)
            &&& s2.read_name("stack_pointer"@) == Some(sp0)
            &&& s2.memory.subrange(dest, dest + s.data_size) == crate::computer::zero_seq(
                s.data_size as nat,
            )
        }),
{
    let spr = s.reg_of_name("stack_pointer"@)->Some_0;
    let ar = s.reg_of_name("accumulator"@)->Some_0;
    let spid = spec_id_of(s.names, "stack_pointer"@);
    let aid = spec_id_of(s.names, "accumulator"@);
    assert(s.regs[spid] == spr);
    assert(s.regs[aid] == ar);
    let sp0 = s.read_name("stack_pointer"@)->Some_0;
    let a0 = s.read_name("accumulator"@)->Some_0;
    let ds = s.data_size as nat;
    let spv = be_value(sp0);
    let dest = (spv - ds) as nat;

    // The stack pointer's value fits its own width, so the decremented
    // address does too.
    lemma_be_value_bound(sp0);
    lemma_pow256_pos(ds);
    assert(spv < pow256(ds));

    // The push: memory gains the accumulator bytes at `dest`, and the
    // stack pointer becomes the fixed-width encoding of `dest`.
    let s1 = micro_step(SubInstructions::PushToStack, s)->Ok_0;
    let spb1 = fixed_be_bytes(dest, ds);
    lemma_fixed_be_bytes_exact(dest, ds);
    assert(spb1.len() == ds);
    let m1 = write_window(s.memory, dest as int, a0);
    assert(s1.memory == m1);
    assert(s1.register_data == write_window(s.register_data, spr.location as int, spb1));
    lemma_write_window_image(s.register_data, spr.location as int, spb1);
    lemma_write_window_frame(
        s.register_data,
        spr.location as int,
        spb1,
        ar.location as int,
        ar.location + ar.size,
    );
    assert(s1.read_name("stack_pointer"@) == Some(spb1));
    assert(s1.read_name("accumulator"@) == Some(a0));
    assert(be_value(spb1) == dest);

    // The pop: it reads back exactly the pushed bytes.
    lemma_write_window_image(s.memory, dest as int, a0);
    assert(s1.memory.subrange(dest as int, dest as int + ds) == a0);
    let s2 = micro_step(SubInstructions::PopFromStack, s1)->Ok_0;
    let acc2 = be_bytes_of(be_value(a0));
    lemma_be_bytes_of_value(be_value(a0));
    let rd2 = write_window(s1.register_data, ar.location as int, acc2);
    assert(s2.register_data == write_window(rd2, spr.location as int, fixed_be_bytes(
        (dest + ds) as nat,
        ds,
    )));
    assert(s2.memory == write_window(m1, dest as int, crate::computer::zero_seq(ds)));

    // The accumulator after the pop: written by the pop, untouched by the
    // stack-pointer update.
    lemma_write_window_image(s1.register_data, ar.location as int, acc2);
    lemma_write_window_frame(
        rd2,
        spr.location as int,
        fixed_be_bytes((dest + ds) as nat, ds),
        ar.location as int,
        ar.location + ar.size,
    );
    assert(s2.read_name("accumulator"@) == Some(acc2));

    // The stack pointer returns to its pre-push bytes: the fixed-width
    // encoding of its value is unique.
    lemma_write_window_image(rd2, spr.location as int, fixed_be_bytes((dest + ds) as nat, ds));
    assert(s2.read_name("stack_pointer"@) == Some(fixed_be_bytes((dest + ds) as nat, ds)));
    assert((dest + ds) as nat == spv);
    lemma_fixed_width_unique(sp0);
    assert(fixed_be_bytes(spv, ds) == sp0);

    // The vacated span is zero-filled.
    lemma_write_window_image(m1, dest as int, crate::computer::zero_seq(ds));
}


/// A micro-operation that neither halts nor transfers control.
pub open spec fn plain_op(op: SubInstructions) -> bool {
    match op {
        SubInstructions::Halt => false,
        SubInstructions::Jump => false,
        SubInstructions::JumpIfFlag(_, _) => false,
        SubInstructions::JumpIfNotFlag(_, _) => false,
        _ => true,
    }
}

/// The explicit program-counter advance a micro-operation issues.
pub open spec fn step_amount(op: SubInstructions) -> nat {
    match op {
        SubInstructions::StepProgramMemory(n) => n as nat,
        _ => 0,
    }
}

/// The sum of the explicit program-counter advances in a micro-operation
/// sequence.
pub open spec fn sum_steps(ops: Seq<SubInstructions>) -> nat
    decreases ops.len(),
{
    if ops.len() == 0 {
        0
    } else {
        sum_steps(ops.drop_last()) + step_amount(ops.last())
    }
}

/// The id the program counter's name resolves to.
pub open spec fn pc_id(s: MachineState) -> int {
    spec_id_of(s.names, "program_counter"@)
}

/// Whether a store micro-operation stays away from the program counter's
/// register, in the given state.
pub open spec fn avoids_pc_store(op: SubInstructions, s: MachineState) -> bool {
    match op {
        SubInstructions::StoreToRegisterInternal(id) => id != pc_id(s),
        SubInstructions::StoreToRegister(off) => match crate::computer::program_byte(
            s,
            off as nat,
        ) {
            Ok(id) => id != pc_id(s),
            Err(_) => true,
        },
        _ => true,
    }
}

/// Register windows that do not overlap: the standard configuration.
pub open spec fn disjoint_regs(s: MachineState) -> bool {
    forall|i: int, j: int|
        0 <= i < j < s.regs.len() ==> (#[trigger] s.regs[i]).location + s.regs[i].size <= (
        #[trigger] s.regs[j]).location || s.regs[j].location + s.regs[j].size
            <= s.regs[i].location
}

proof fn lemma_distinct_windows(s: MachineState, i: int, j: int)
    requires
        disjoint_regs(s),
        0 <= i < s.regs.len(),
        0 <= j < s.regs.len(),
        i != j,
    ensures
        s.regs[i].location + s.regs[i].size <= s.regs[j].location || s.regs[j].location
            + s.regs[j].size <= s.regs[i].location,
{
}

/// A write through a name other than the program counter's leaves the
/// program counter's bytes alone.
proof fn lemma_write_name_preserves_pc(s: MachineState, name: Seq<char>, data: Seq<u8>)
    requires
        s.wf(),
        disjoint_regs(s),
        s.reg_of_name("program_counter"@) is Some,
        name != "program_counter"@,
    ensures
        s.write_name(name, data) matches Ok(s1) ==> {
            &&& s1.read_name("program_counter"@) == s.read_name("program_counter"@)
            &&& s1.register_data.len() == s.register_data.len()
        },
        s.try_write_name(name, data).read_name("program_counter"@) == s.read_name(
            "program_counter"@,
        ),
        s.try_write_name(name, data).register_data.len() == s.register_data.len(),
{
    let pid = pc_id(s);
    let pr = s.regs[pid];
    assert(s.regs[pid] == pr);
    if s.write_name(name, data) is Ok {
        let tid = spec_id_of(s.names, name);
        let tr = s.regs[tid];
        crate::computer::lemma_spec_id_of_names(s.names, name);
        crate::computer::lemma_spec_id_of_names(s.names, "program_counter"@);
        assert(s.names[tid] == name && s.names[pid] == "program_counter"@);
        assert(tid != pid);
        lemma_distinct_windows(s, tid, pid);
        lemma_write_window_frame(
            s.register_data,
            tr.location as int,
            data,
            pr.location as int,
            pr.location + pr.size,
        );
    }
}

/// A write through an id other than the program counter's leaves the
/// program counter's bytes alone.
proof fn lemma_write_id_preserves_pc(s: MachineState, id: u8, data: Seq<u8>)
    requires
        s.wf(),
        disjoint_regs(s),
        s.reg_of_name("program_counter"@) is Some,
        id != pc_id(s),
    ensures
        s.write_id(id, data) matches Ok(s1) ==> {
            &&& s1.read_name("program_counter"@) == s.read_name("program_counter"@)
            &&& s1.register_data.len() == s.register_data.len()
        },
        s.try_write_id(id, data).read_name("program_counter"@) == s.read_name(
            "program_counter"@,
        ),
        s.try_write_id(id, data).register_data.len() == s.register_data.len(),
{
    let pid = pc_id(s);
    let pr = s.regs[pid];
    assert(s.regs[pid] == pr);
    if s.write_id(id, data) is Ok {
        let tr = s.regs[id as int];
        assert(s.regs[id as int] == tr);
        lemma_distinct_windows(s, id as int, pid);
        lemma_write_window_frame(
            s.register_data,
            tr.location as int,
            data,
            pr.location as int,
            pr.location + pr.size,
        );
    }
}

/// The reserved names the micro-operations write through differ from the
/// program counter's name.
proof fn lemma_reserved_names_distinct()
    ensures
        "accumulator"@ != "program_counter"@,
        "memory_address"@ != "program_counter"@,
        "stack_pointer"@ != "program_counter"@,
        "flags"@ != "program_counter"@,
{
    reveal_strlit("accumulator");
    reveal_strlit("memory_address");
    reveal_strlit("stack_pointer");
    reveal_strlit("flags");
    reveal_strlit("program_counter");
    assert("accumulator"@.len() != "program_counter"@.len());
    assert("memory_address"@.len() != "program_counter"@.len());
    assert("stack_pointer"@.len() != "program_counter"@.len());
    assert("flags"@.len() != "program_counter"@.len());
}

/// One plain micro-operation moves the program counter by exactly its
/// explicit step amount, and touches neither the cursor nor the machine's
/// configuration.
#[verifier::rlimit(100)]
proof fn lemma_plain_op_preserves_pc(op: SubInstructions, s: MachineState)
    requires
        s.wf(),
        disjoint_regs(s),
        s.reg_of_name("program_counter"@) is Some,
        plain_op(op),
        avoids_pc_store(op, s),
        micro_step(op, s) is Ok,
    ensures
        ({
            let s1 = micro_step(op, s)->Ok_0;
            &&& s1.names == s.names
            &&& s1.regs == s.regs
            &&& s1.table == s.table
            &&& s1.data_size == s.data_size
            &&& s1.opcode == s.opcode
            &&& s1.sub_step == s.sub_step
            &&& s1.halted == s.halted
            &&& s1.register_data.len() == s.register_data.len()
            &&& s1.memory.len() == s.memory.len()
            &&& s1.read_name("program_counter"@) is Some
            &&& be_value(s1.read_name("program_counter"@)->Some_0) == be_value(
                s.read_name("program_counter"@)->Some_0,
            ) + step_amount(op)
        }),
{
    let s1 = micro_step(op, s)->Ok_0;
    let pid = pc_id(s);
    let pr = s.regs[pid];
    assert(s.regs[pid] == pr);
    lemma_reserved_names_distinct();
    match op {
        SubInstructions::NoOperation => {},
        SubInstructions::LoadImmediate(_) => {
            lemma_write_name_preserves_pc(s, "accumulator"@, s1.register_data.subrange(0, 0));
            let v = crate::computer::program_byte(s, (op->LoadImmediate_0) as nat)->Ok_0;
            lemma_write_name_preserves_pc(s, "accumulator"@, be_bytes_of(v as nat));
        },
        SubInstructions::LoadImmediateInternal(v) => {
            lemma_write_name_preserves_pc(s, "accumulator"@, be_bytes_of(v as nat));
        },
        SubInstructions::LoadFromMemory => {
            let m = s.read_name("memory_address"@)->Some_0;
            let addr = m[0] as int;
            let chunk = s.memory.subrange(addr, addr + s.data_size);
            lemma_write_name_preserves_pc(s, "accumulator"@, be_bytes_of(be_value(chunk)));
        },
        SubInstructions::LoadFromRegister(off) => {
            let id = crate::computer::program_byte(s, off as nat)->Ok_0;
            let bytes = match s.read_id(id) {
                Some(b) => b,
                None => seq![0u8],
            };
            lemma_write_name_preserves_pc(s, "accumulator"@, be_bytes_of(be_value(bytes)));
        },
        SubInstructions::LoadFromRegisterInternal(id) => {
            let bytes = match s.read_id(id) {
                Some(b) => b,
                None => seq![0u8],
            };
            lemma_write_name_preserves_pc(s, "accumulator"@, be_bytes_of(be_value(bytes)));
        },
        SubInstructions::SetMemoryAddress => {
            let a = s.read_name("accumulator"@)->Some_0;
            lemma_write_name_preserves_pc(s, "memory_address"@, a);
        },
        SubInstructions::StoreToMemory => {},
        SubInstructions::StoreToRegister(off) => {
            let id = crate::computer::program_byte(s, off as nat)->Ok_0;
            let a = s.read_name("accumulator"@)->Some_0;
            lemma_write_id_preserves_pc(s, id, a);
        },
        SubInstructions::StoreToRegisterInternal(id) => {
            let a = s.read_name("accumulator"@)->Some_0;
            lemma_write_id_preserves_pc(s, id, a);
        },
        SubInstructions::StepProgramMemory(n) => {
            let p = s.read_name("program_counter"@)->Some_0;
            let nb = be_bytes_of(be_value(p) + n as nat);
            lemma_be_bytes_of_value(be_value(p) + n as nat);
            assert(s1.register_data == write_window(s.register_data, pr.location as int, nb));
            lemma_write_window_image(s.register_data, pr.location as int, nb);
        },
        SubInstructions::Add => {
            let a = s.read_name("reg_a"@)->Some_0;
            let b = s.read_name("reg_b"@)->Some_0;
            reveal_strlit("accumulator");
            lemma_write_name_preserves_pc(
                s,
                "accumulator"@,
                be_bytes_of(be_value(a) + be_value(b)),
            );
        },
        SubInstructions::Sub => {
            let a = s.read_name("reg_a"@)->Some_0;
            let b = s.read_name("reg_b"@)->Some_0;
            lemma_write_name_preserves_pc(
                s,
                "accumulator"@,
                be_bytes_of((be_value(a) - be_value(b)) as nat),
            );
        },
        SubInstructions::PushToStack => {
            let sp = s.read_name("stack_pointer"@)->Some_0;
            let dest = (be_value(sp) - s.data_size) as nat;
            let sm = MachineState {
                memory: write_window(
                    s.memory,
                    dest as int,
                    s.read_name("accumulator"@)->Some_0,
                ),
                ..s
            };
            lemma_write_name_preserves_pc(
                sm,
                "stack_pointer"@,
                fixed_be_bytes(dest, s.data_size as nat),
            );
        },
        SubInstructions::PopFromStack => {
            let sp = s.read_name("stack_pointer"@)->Some_0;
            let addr = be_value(sp);
            let chunk = s.memory.subrange(addr as int, addr + s.data_size);
            let sa = s.set_value_name("accumulator"@, be_value(chunk))->Ok_0;
            lemma_write_name_preserves_pc(s, "accumulator"@, be_bytes_of(be_value(chunk)));
            let sm = MachineState {
                memory: write_window(
                    sa.memory,
                    addr as int,
                    crate::computer::zero_seq(s.data_size as nat),
                ),
                ..sa
            };
            assert(sm.wf());
            assert(disjoint_regs(sm));
            assert(sm.read_name("program_counter"@) == s.read_name("program_counter"@));
            lemma_write_name_preserves_pc(
                sm,
                "stack_pointer"@,
                fixed_be_bytes((addr + s.data_size) as nat, s.data_size as nat),
            );
        },
        SubInstructions::Compare => {
            let fb = s.read_name("flags"@)->Some_0;
            let nf = crate::computer::compare_flags(
                low_byte(be_value(fb)),
                s.read_name("reg_a"@)->Some_0[0],
                s.read_name("reg_b"@)->Some_0[0],
            );
            lemma_write_name_preserves_pc(s, "flags"@, be_bytes_of(nf as nat));
        },
        _ => {},
    }
}


/// `sum_steps` decomposes from the front.
proof fn lemma_sum_steps_head(ops: Seq<SubInstructions>)
    requires
        ops.len() >= 1,
    ensures
        sum_steps(ops) == step_amount(ops[0]) + sum_steps(ops.skip(1)),
    decreases ops.len(),
{
    if ops.len() == 1 {
        assert(ops.drop_last() =~= Seq::<SubInstructions>::empty());
        assert(ops.skip(1) =~= Seq::<SubInstructions>::empty());
        assert(ops.last() == ops[0]);
    } else {
        let d = ops.drop_last();
        lemma_sum_steps_head(d);
        assert(d[0] == ops[0]);
        assert(d.skip(1) =~= ops.skip(1).drop_last());
        assert(ops.skip(1).last() == ops.last());
    }
}

/// One tick of a plain micro-operation inside an instruction: the cursor
/// advances one micro-step and the program counter moves by the
/// operation's explicit amount.
#[verifier::rlimit(100)]
proof fn lemma_plain_tick(t: MachineState)
    requires
        t.wf(),
        disjoint_regs(t),
        !t.halted,
        t.opcode is Some,
        t.table.contains_key(t.opcode->0),
        t.sub_step < t.table[t.opcode->0].ops.len(),
        t.reg_of_name("program_counter"@) is Some,
        plain_op(t.table[t.opcode->0].ops[t.sub_step as int]),
        avoids_pc_store(t.table[t.opcode->0].ops[t.sub_step as int], t),
        crate::computer::clock_step(t) is Ok,
    ensures
        ({
            let t1 = crate::computer::clock_step(t)->Ok_0;
            &&& t1.names == t.names
            &&& t1.regs == t.regs
            &&& t1.table == t.table
            &&& t1.data_size == t.data_size
            &&& t1.opcode == t.opcode
            &&& t1.sub_step == t.sub_step + 1
            &&& t1.halted == t.halted
            &&& t1.register_data.len() == t.register_data.len()
            &&& t1.read_name("program_counter"@) is Some
            &&& be_value(t1.read_name("program_counter"@)->Some_0) == be_value(
                t.read_name("program_counter"@)->Some_0,
            ) + step_amount(t.table[t.opcode->0].ops[t.sub_step as int])
        }),
{
    let op = t.table[t.opcode->0].ops[t.sub_step as int];
    assert(micro_step(op, t) is Ok);
    lemma_plain_op_preserves_pc(op, t);
}

/// The tick that returns a spent instruction to idle: the implicit
/// one-byte program-counter advance.
#[verifier::rlimit(100)]
proof fn lemma_finish_tick(t: MachineState)
    requires
        t.wf(),
        !t.halted,
        t.opcode is Some,
        t.table.contains_key(t.opcode->0),
        t.sub_step >= t.table[t.opcode->0].ops.len(),
        t.reg_of_name("program_counter"@) is Some,
        crate::computer::clock_step(t) is Ok,
    ensures
        ({
            let t1 = crate::computer::clock_step(t)->Ok_0;
            &&& t1.opcode is None
            &&& t1.read_name("program_counter"@) is Some
            &&& be_value(t1.read_name("program_counter"@)->Some_0) == be_value(
                t.read_name("program_counter"@)->Some_0,
            ) + 1
        }),
{
    let pid = pc_id(t);
    let pr = t.regs[pid];
    assert(t.regs[pid] == pr);
    let p = t.read_name("program_counter"@)->Some_0;
    let w = t.set_value_name("program_counter"@, be_value(p) + 1);
    assert(w is Ok);
    lemma_be_bytes_of_value(be_value(p) + 1);
    lemma_write_window_image(t.register_data, pr.location as int, be_bytes_of(be_value(p) + 1));
}

/// Runs the remaining micro-operations of the active instruction, then
/// the return to idle, tracking the program counter.
#[verifier::rlimit(100)]
proof fn lemma_run_plain_ops(t: MachineState, s_end: MachineState)
    requires
        t.wf(),
        disjoint_regs(t),
        !t.halted,
        t.opcode is Some,
        t.table.contains_key(t.opcode->0),
        t.sub_step <= t.table[t.opcode->0].ops.len(),
        t.reg_of_name("program_counter"@) is Some,
        crate::computer::clock_iter(
            t,
            (t.table[t.opcode->0].ops.len() - t.sub_step + 1) as nat,
        ) == Ok::<MachineState, VmError>(s_end),
        forall|k: int|
            t.sub_step <= k < t.table[t.opcode->0].ops.len() ==> plain_op(
                #[trigger] t.table[t.opcode->0].ops[k],
            ),
        forall|k: int|
            t.sub_step <= k < t.table[t.opcode->0].ops.len() ==> avoids_pc_store(
                #[trigger] t.table[t.opcode->0].ops[k],
                crate::computer::clock_iter(t, (k - t.sub_step) as nat)->Ok_0,
            ),
    ensures
        s_end.opcode is None,
        s_end.read_name("program_counter"@) is Some,
        be_value(s_end.read_name("program_counter"@)->Some_0) == be_value(
            t.read_name("program_counter"@)->Some_0,
        ) + 1 + sum_steps(t.table[t.opcode->0].ops.skip(t.sub_step as int)),
    decreases t.table[t.opcode->0].ops.len() - t.sub_step,
{
    let opb = t.opcode->0;
    let ops = t.table[opb].ops;
    let len = ops.len();
    assert(crate::computer::clock_step(t) is Ok);
    let t1 = crate::computer::clock_step(t)->Ok_0;
    assert(crate::computer::clock_iter(
        t1,
        (t.table[t.opcode->0].ops.len() - t.sub_step + 1 - 1) as nat,
    ) == Ok::<MachineState, VmError>(s_end));
    if t.sub_step == len {
        assert(ops.skip(t.sub_step as int) =~= Seq::<SubInstructions>::empty());
        lemma_finish_tick(t);
        assert(s_end == t1);
    } else {
        let op = ops[t.sub_step as int];
        assert(plain_op(op));
        assert(crate::computer::clock_iter(t, 0) == Ok::<MachineState, VmError>(t));
        assert(avoids_pc_store(op, t));
        lemma_plain_tick(t);
        assert(t1.wf());
        assert(disjoint_regs(t1));
        assert forall|k: int|
            t1.sub_step <= k < t1.table[t1.opcode->0].ops.len() implies avoids_pc_store(
            #[trigger] t1.table[t1.opcode->0].ops[k],
            crate::computer::clock_iter(t1, (k - t1.sub_step) as nat)->Ok_0,
        ) by {
            assert(crate::computer::clock_iter(t, (k - t.sub_step) as nat)
                == crate::computer::clock_iter(t1, (k - t1.sub_step) as nat));
            assert(avoids_pc_store(
                ops[k],
                crate::computer::clock_iter(t, (k - t.sub_step) as nat)->Ok_0,
            ));
        }
        lemma_run_plain_ops(t1, s_end);
        lemma_sum_steps_head(ops.skip(t.sub_step as int));
        assert(ops.skip(t.sub_step as int)[0] == op);
        assert(ops.skip(t.sub_step as int).skip(1) =~= ops.skip(t.sub_step + 1));
    }
}


/// The exception to the displacement rule: a successful unconditional
/// `Jump` sets the program counter to the accumulator's absolute value
/// and ends the instruction, suppressing the implicit advance.
pub proof fn lemma_jump_sets_absolute_pc(s: MachineState)
    requires
        s.wf(),
        micro_step(SubInstructions::Jump, s) is Ok,
    ensures
        ({
            let s1 = micro_step(SubInstructions::Jump, s)->Ok_0;
            &&& s1.opcode is None
            &&& s1.read_name("program_counter"@) is Some
            &&& be_value(s1.read_name("program_counter"@)->Some_0) == be_value(
                s.read_name("accumulator"@)->Some_0,
            )
        }),
{
    let a = s.read_name("accumulator"@)->Some_0;
    let pid = pc_id(s);
    let pr = s.regs[pid];
    assert(s.regs[pid] == pr);
    lemma_be_bytes_of_value(be_value(a));
    lemma_write_window_image(s.register_data, pr.location as int, be_bytes_of(be_value(a)));
}

/// Across one full instruction execution -- the fetch, every
/// micro-operation, and the return to idle -- the program counter's net
/// displacement is exactly one byte plus the sum of the amounts the
/// instruction's `StepProgramMemory` micro-operations issued. This holds
/// for instructions whose micro-operations neither halt, nor jump, nor
/// store into the program counter's register, on a machine whose register
/// windows do not overlap.
pub proof fn lemma_instruction_pc_displacement(s: MachineState, s_end: MachineState)
    requires
        s.wf(),
        disjoint_regs(s),
        !s.halted,
        s.opcode is None,
        s.read_name("program_counter"@) is Some,
        be_value(s.read_name("program_counter"@)->Some_0) < s.memory.len(),
        s.table.contains_key(
            s.memory[be_value(s.read_name("program_counter"@)->Some_0) as int],
        ),
        crate::computer::clock_iter(
            s,
            (s.table[s.memory[be_value(s.read_name("program_counter"@)->Some_0) as int]].ops.len()
                + 2) as nat,
        ) == Ok::<MachineState, VmError>(s_end),
        forall|k: int|
            0 <= k < s.table[s.memory[be_value(
                s.read_name("program_counter"@)->Some_0,
            ) as int]].ops.len() ==> plain_op(
                #[trigger] s.table[s.memory[be_value(
                    s.read_name("program_counter"@)->Some_0,
                ) as int]].ops[k],
            ),
        forall|k: int|
            0 <= k < s.table[s.memory[be_value(
                s.read_name("program_counter"@)->Some_0,
            ) as int]].ops.len() ==> avoids_pc_store(
                #[trigger] s.table[s.memory[be_value(
                    s.read_name("program_counter"@)->Some_0,
                ) as int]].ops[k],
                crate::computer::clock_iter(s, (1 + k) as nat)->Ok_0,
            ),
    ensures
        s_end.opcode is None,
        s_end.read_name("program_counter"@) is Some,
        be_value(s_end.read_name("program_counter"@)->Some_0) == be_value(
            s.read_name("program_counter"@)->Some_0,
        ) + 1 + sum_steps(
            s.table[s.memory[be_value(s.read_name("program_counter"@)->Some_0) as int]].ops,
        ),
{
    let p = s.read_name("program_counter"@)->Some_0;
    let pv = be_value(p);
    let opb = s.memory[pv as int];
    let ops = s.table[opb].ops;
    assert(crate::computer::clock_step(s) is Ok);
    assert(pv <= usize::MAX);
    let s1 = MachineState { opcode: Some(opb), sub_step: 0, ..s };
    assert(crate::computer::clock_step(s) == Ok::<MachineState, VmError>(s1));
    assert(s1.read_name("program_counter"@) == Some(p));
    assert(crate::computer::clock_iter(s1, (ops.len() + 1) as nat) == Ok::<
        MachineState,
        VmError,
    >(s_end));
    assert forall|k: int| s1.sub_step <= k < ops.len() implies avoids_pc_store(
        #[trigger] s1.table[s1.opcode->0].ops[k],
        crate::computer::clock_iter(s1, (k - s1.sub_step) as nat)->Ok_0,
    ) by {
        assert(crate::computer::clock_iter(s, (1 + k) as nat) == crate::computer::clock_iter(
            s1,
            k as nat,
        ));
        assert(avoids_pc_store(ops[k], crate::computer::clock_iter(s, (1 + k) as nat)->Ok_0));
    }
    lemma_run_plain_ops(s1, s_end);
    assert(ops.skip(0) =~= ops);
}

} // verus!
