//! The mathematical model of the execution engine: an abstract machine
//! state and the transition function that one `step` of the engine follows.

use vstd::prelude::*;
use vstd::utf8::valid_utf8;

use crate::error::VmError;
use crate::fetch::{register_tag, Fetch};
use crate::opcode::{opcode_tag, OpCode};
use crate::syscall::{syscall_tag, Syscall};
use crate::{reg_index, Register, DATA_LENGTH, MEMORY_LENGTH, REGISTER_COUNT};

verus! {

/// The abstract state of a machine: the register file, the two byte
/// arrays, the halt flag, and everything the program has written to
/// standard output so far.
pub ghost struct MachineView {
    pub regs: Seq<u16>,
    pub mem: Seq<u8>,
    pub data: Seq<u8>,
    pub halt: bool,
    pub debug: bool,
    pub out: Seq<u8>,
}

impl MachineView {
    /// The shape every reachable machine state has: a register file of the
    /// enumeration's cardinality and the two fixed-capacity byte arrays.
    pub open spec fn wf(self) -> bool {
        &&& self.regs.len() == REGISTER_COUNT
        &&& self.mem.len() == MEMORY_LENGTH
        &&& self.data.len() == DATA_LENGTH
    }

    /// The value the register `r` holds.
    pub open spec fn reg(self, r: Register) -> u16 {
        self.regs[reg_index(r)]
    }

    /// The program counter.
    pub open spec fn pc(self) -> u16 {
        self.reg(Register::PC)
    }
}

/// `s` with the register `r` set to `v`.
pub open spec fn spec_write_reg(s: MachineView, r: Register, v: u16) -> MachineView {
    MachineView { regs: s.regs.update(reg_index(r), v), ..s }
}

/// `s` with the program counter advanced past one consumed byte.
pub open spec fn spec_advance_pc(s: MachineView) -> MachineView {
    spec_write_reg(s, Register::PC, (s.pc() + 1) as u16)
}

/// `s` with the halt flag set.
pub open spec fn spec_halted(s: MachineView) -> MachineView {
    MachineView { halt: true, ..s }
}

/// One byte pulled out of memory at the program counter: the byte and the
/// state with the program counter advanced, or a bounds fault leaving the
/// state unchanged.
pub open spec fn spec_fetch_raw(s: MachineView) -> Result<(u8, MachineView), VmError> {
    if s.pc() as int >= s.mem.len() {
        Err(VmError::BoundsError { index: s.pc() as usize, capacity: s.mem.len() as usize })
    } else {
        Ok((s.mem[s.pc() as int], spec_advance_pc(s)))
    }
}

/// The uniform "interpret the next byte as `T`" operation: the decoded
/// value with the program counter advanced, or a fault leaving the state
/// as it stood when the fault was found.
pub open spec fn spec_fetch<T: Fetch>(s: MachineView) -> (Result<T, VmError>, MachineView) {
    match spec_fetch_raw(s) {
        Err(e) => (Err(e), s),
        Ok((b, s1)) => match T::decode_spec(b) {
            Some(v) => (Ok(v), s1),
            None => (
                (Err(VmError::DecodeError { byte: b, target_kind: T::target_kind() })),
                s,
            ),
        },
    }
}

/// The result an arithmetic opcode computes from its two operand values.
/// Addition, subtraction and multiplication are taken modulo 2^16 (the
/// register width); division is integer division.
pub open spec fn spec_arith(op: OpCode, a: u16, b: u16) -> u16
    recommends
        op == OpCode::ADD || op == OpCode::SUB || op == OpCode::MUL || (op == OpCode::DIV && b
            != 0),
{
    match op {
        OpCode::ADD => ((a + b) % 0x10000) as u16,
        OpCode::SUB => (if a >= b {
            a - b
        } else {
            a - b + 0x10000
        }) as u16,
        OpCode::MUL => ((a * b) % 0x10000) as u16,
        OpCode::DIV => (a as int / b as int) as u16,
        _ => 0,
    }
}

/// An arithmetic instruction after its opcode byte: fetch a register and
/// two operand bytes, then store the computed value in the register.
/// Division by zero is a fault that stores nothing.
pub open spec fn spec_step_arith(op: OpCode, s: MachineView) -> (MachineView, Result<
    (),
    VmError,
>) {
    let (r_res, s1) = spec_fetch::<Register>(s);
    match r_res {
        Err(e) => (s1, Err(e)),
        Ok(r) => {
            let (a_res, s2) = spec_fetch::<u16>(s1);
            match a_res {
                Err(e) => (s2, Err(e)),
                Ok(a) => {
                    let (b_res, s3) = spec_fetch::<u16>(s2);
                    match b_res {
                        Err(e) => (s3, Err(e)),
                        Ok(b) => if op == OpCode::DIV && b == 0 {
                            (s3, Err(VmError::ArithmeticError { op }))
                        } else {
                            (spec_write_reg(s3, r, spec_arith(op, a, b)), Ok(()))
                        },
                    }
                }
            }
        }
    }
}

/// `PUSH r`: the stack pointer register receives the value held in `r`.
pub open spec fn spec_step_push(s: MachineView) -> (MachineView, Result<(), VmError>) {
    let (r_res, s1) = spec_fetch::<Register>(s);
    match r_res {
        Err(e) => (s1, Err(e)),
        Ok(r) => (spec_write_reg(s1, Register::SP, s1.reg(r)), Ok(())),
    }
}

/// `POP r`: `r` receives the value held in the stack pointer register.
pub open spec fn spec_step_pop(s: MachineView) -> (MachineView, Result<(), VmError>) {
    let (r_res, s1) = spec_fetch::<Register>(s);
    match r_res {
        Err(e) => (s1, Err(e)),
        Ok(r) => (spec_write_reg(s1, r, s1.reg(Register::SP)), Ok(())),
    }
}

/// `SWAP r1 r2`: the two registers exchange their values.
pub open spec fn spec_step_swap(s: MachineView) -> (MachineView, Result<(), VmError>) {
    let (r1_res, s1) = spec_fetch::<Register>(s);
    match r1_res {
        Err(e) => (s1, Err(e)),
        Ok(r1) => {
            let (r2_res, s2) = spec_fetch::<Register>(s1);
            match r2_res {
                Err(e) => (s2, Err(e)),
                Ok(r2) => {
                    let v1 = s2.reg(r1);
                    let v2 = s2.reg(r2);
                    (spec_write_reg(spec_write_reg(s2, r1, v2), r2, v1), Ok(()))
                }
            }
        }
    }
}

/// What a decoded syscall does to the state.  `EXIT` halts; `WRITE` in
/// mode 1 appends the addressed slice of the data array to the output if
/// it is valid UTF-8; `READ` and every other declared-but-unhandled
/// syscall is a fault.
pub open spec fn spec_syscall_effect(sc: Syscall, s: MachineView) -> (MachineView, Result<
    (),
    VmError,
>) {
    match sc {
        Syscall::EXIT => (spec_halted(s), Ok(())),
        Syscall::READ => (s, Err(VmError::SyscallNotImplemented { tag: syscall_tag(sc) })),
        Syscall::WRITE => {
            let (m_res, s1) = spec_fetch::<u8>(s);
            match m_res {
                Err(e) => (s1, Err(e)),
                Ok(mode) => {
                    let (st_res, s2) = spec_fetch::<u16>(s1);
                    match st_res {
                        Err(e) => (s2, Err(e)),
                        Ok(start) => {
                            let (ln_res, s3) = spec_fetch::<u16>(s2);
                            match ln_res {
                                Err(e) => (s3, Err(e)),
                                Ok(len) => spec_write_effect(s3, mode, start, len),
                            }
                        }
                    }
                }
            }
        }
    }
}

/// The effect of `WRITE` once its three operands are fetched.
pub open spec fn spec_write_effect(s: MachineView, mode: u8, start: u16, len: u16) -> (
    MachineView,
    Result<(), VmError>,
) {
    if mode != 1 {
        (s, Err(VmError::UnsupportedMode { mode }))
    } else if start as int + len as int > s.data.len() {
        (
            s,
            Err(VmError::BoundsError {
                index: (start + len) as usize,
                capacity: s.data.len() as usize,
            }),
        )
    } else {
        let slice = s.data.subrange(start as int, start as int + len as int);
        if !valid_utf8(slice) {
            (s, Err(VmError::InvalidEncoding))
        } else {
            (MachineView { out: s.out + slice, ..s }, Ok(()))
        }
    }
}

/// `SYSCALL`: fetch and decode the syscall tag, then apply its effect.
pub open spec fn spec_step_syscall(s: MachineView) -> (MachineView, Result<(), VmError>) {
    let (sc_res, s1) = spec_fetch::<Syscall>(s);
    match sc_res {
        Err(e) => (s1, Err(e)),
        Ok(sc) => spec_syscall_effect(sc, s1),
    }
}

/// The effect of a decoded opcode, starting from the state just past the
/// opcode byte.
pub open spec fn spec_exec_op(op: OpCode, s: MachineView) -> (MachineView, Result<(), VmError>) {
    match op {
        OpCode::HALT => (spec_halted(s), Ok(())),
        OpCode::NOP => (s, Ok(())),
        OpCode::ADD => spec_step_arith(op, s),
        OpCode::SUB => spec_step_arith(op, s),
        OpCode::MUL => spec_step_arith(op, s),
        OpCode::DIV => spec_step_arith(op, s),
        OpCode::PUSH => spec_step_push(s),
        OpCode::POP => spec_step_pop(s),
        OpCode::SWAP => spec_step_swap(s),
        OpCode::SYSCALL => spec_step_syscall(s),
    }
}

/// One step of the fetch-decode-execute cycle.  A program counter at or
/// beyond the memory capacity halts the machine without decoding; a byte
/// that is no opcode is a decode fault; otherwise the opcode's handler
/// runs, fetching its own operands.
pub open spec fn spec_step(s: MachineView) -> (MachineView, Result<(), VmError>) {
    if s.pc() as int >= s.mem.len() {
        (spec_halted(s), Ok(()))
    } else {
        let (op_res, s1) = spec_fetch::<OpCode>(s);
        match op_res {
            Err(e) => (s1, Err(e)),
            Ok(op) => spec_exec_op(op, s1),
        }
    }
}

/// Executing `HALT` sets the halt flag and changes nothing else: every
/// register other than the program counter keeps its value, the program
/// counter only moves past the opcode byte, and memory, data and output
/// are untouched.
pub proof fn lemma_halt_purity(s: MachineView)
    requires
        s.wf(),
        s.pc() < MEMORY_LENGTH,
        s.mem[s.pc() as int] == opcode_tag(OpCode::HALT),
    ensures
        ({
            let (s1, res) = spec_step(s);
            &&& res == Ok::<(), VmError>(())
            &&& s1.halt
            &&& forall|r: Register|
                r != Register::PC && r != Register::RegisterCount ==> s1.reg(r) == s.reg(r)
            &&& s1.pc() == s.pc() + 1
            &&& s1.mem == s.mem
            &&& s1.data == s.data
            &&& s1.out == s.out
        }),
{
    let (s1, res) = spec_step(s);
    assert forall|r: Register|
        r != Register::PC && r != Register::RegisterCount implies s1.reg(r) == s.reg(r) by {
        assert(0 <= reg_index(r) < reg_index(Register::PC) || reg_index(Register::PC) < reg_index(
            r,
        ) < REGISTER_COUNT);
    }
}

/// Executing `SWAP r1 r2` exchanges the two registers' values exactly:
/// every other register but the program counter keeps its value, the
/// program counter moves past the three instruction bytes, and memory,
/// data, output and the halt flag are untouched.
pub proof fn lemma_swap_exchanges(s: MachineView, r1: Register, r2: Register)
    requires
        s.wf(),
        s.pc() + 3 <= MEMORY_LENGTH,
        s.mem[s.pc() as int] == opcode_tag(OpCode::SWAP),
        s.mem[s.pc() as int + 1] == register_tag(r1),
        s.mem[s.pc() as int + 2] == register_tag(r2),
        r1 != Register::RegisterCount && r1 != Register::PC,
        r2 != Register::RegisterCount && r2 != Register::PC,
    ensures
        ({
            let (s1, res) = spec_step(s);
            &&& res == Ok::<(), VmError>(())
            &&& s1.wf()
            &&& s1.reg(r1) == s.reg(r2)
            &&& s1.reg(r2) == s.reg(r1)
            &&& forall|r: Register|
                r != r1 && r != r2 && r != Register::PC && r != Register::RegisterCount
                    ==> s1.reg(r) == s.reg(r)
            &&& s1.pc() == s.pc() + 3
            &&& s1.halt == s.halt
            &&& s1.mem == s.mem
            &&& s1.data == s.data
            &&& s1.out == s.out
        }),
{
    let (s1, res) = spec_step(s);
    assert(reg_index(r1) != reg_index(Register::PC));
    assert(reg_index(r2) != reg_index(Register::PC));
    assert forall|r: Register|
        r != r1 && r != r2 && r != Register::PC && r != Register::RegisterCount implies s1.reg(
        r,
    ) == s.reg(r) by {
        assert(0 <= reg_index(r) < REGISTER_COUNT);
        assert(reg_index(r) != reg_index(r1));
        assert(reg_index(r) != reg_index(r2));
        assert(reg_index(r) != reg_index(Register::PC));
    }
}

/// Applying `SWAP r1 r2` twice in a row is the identity on the register
/// file: after the two steps every register but the program counter holds
/// its original value.
pub proof fn lemma_swap_twice(s: MachineView, r1: Register, r2: Register)
    requires
        s.wf(),
        s.pc() + 6 <= MEMORY_LENGTH,
        s.mem[s.pc() as int] == opcode_tag(OpCode::SWAP),
        s.mem[s.pc() as int + 1] == register_tag(r1),
        s.mem[s.pc() as int + 2] == register_tag(r2),
        s.mem[s.pc() as int + 3] == opcode_tag(OpCode::SWAP),
        s.mem[s.pc() as int + 4] == register_tag(r1),
        s.mem[s.pc() as int + 5] == register_tag(r2),
        r1 != Register::RegisterCount && r1 != Register::PC,
        r2 != Register::RegisterCount && r2 != Register::PC,
    ensures
        ({
            let (s1, res1) = spec_step(s);
            let (s2, res2) = spec_step(s1);
            &&& res1 == Ok::<(), VmError>(())
            &&& res2 == Ok::<(), VmError>(())
            &&& forall|r: Register|
                r != Register::PC && r != Register::RegisterCount ==> s2.reg(r) == s.reg(r)
            &&& s2.pc() == s.pc() + 6
            &&& s2.halt == s.halt
            &&& s2.mem == s.mem
            &&& s2.data == s.data
            &&& s2.out == s.out
        }),
{
    lemma_swap_exchanges(s, r1, r2);
    let (s1, res1) = spec_step(s);
    lemma_swap_exchanges(s1, r1, r2);
}

/// Executing an arithmetic instruction `op r a b` stores exactly
/// `spec_arith(op, a, b)` in `r`, advances the program counter past the
/// four instruction bytes, and changes nothing else (for `DIV`, when the
/// second operand is not zero).
pub proof fn lemma_arith_executes(s: MachineView, op: OpCode, r: Register)
    requires
        s.wf(),
        s.pc() + 4 <= MEMORY_LENGTH,
        op == OpCode::ADD || op == OpCode::SUB || op == OpCode::MUL || op == OpCode::DIV,
        s.mem[s.pc() as int] == opcode_tag(op),
        s.mem[s.pc() as int + 1] == register_tag(r),
        op == OpCode::DIV ==> s.mem[s.pc() as int + 3] != 0,
        r != Register::RegisterCount && r != Register::PC,
    ensures
        ({
            let a = s.mem[s.pc() as int + 2] as u16;
            let b = s.mem[s.pc() as int + 3] as u16;
            let (s1, res) = spec_step(s);
            &&& res == Ok::<(), VmError>(())
            &&& s1.reg(r) == spec_arith(op, a, b)
            &&& forall|q: Register|
                q != r && q != Register::PC && q != Register::RegisterCount ==> s1.reg(q)
                    == s.reg(q)
            &&& s1.pc() == s.pc() + 4
            &&& s1.halt == s.halt
            &&& s1.mem == s.mem
            &&& s1.data == s.data
            &&& s1.out == s.out
        }),
{
    let (s1, res) = spec_step(s);
    assert(reg_index(r) != reg_index(Register::PC));
    assert forall|q: Register|
        q != r && q != Register::PC && q != Register::RegisterCount implies s1.reg(q) == s.reg(
        q,
    ) by {
        assert(0 <= reg_index(q) < REGISTER_COUNT);
        assert(reg_index(q) != reg_index(r));
        assert(reg_index(q) != reg_index(Register::PC));
    }
}

/// Executing `PUSH r` copies the value of `r` into the stack pointer
/// register, advances the program counter past the two instruction
/// bytes, and changes nothing else.
pub proof fn lemma_push_executes(s: MachineView, r: Register)
    requires
        s.wf(),
        s.pc() + 2 <= MEMORY_LENGTH,
        s.mem[s.pc() as int] == opcode_tag(OpCode::PUSH),
        s.mem[s.pc() as int + 1] == register_tag(r),
        r != Register::RegisterCount && r != Register::PC,
    ensures
        ({
            let (s1, res) = spec_step(s);
            &&& res == Ok::<(), VmError>(())
            &&& s1.reg(Register::SP) == s.reg(r)
            &&& forall|q: Register|
                q != Register::SP && q != Register::PC && q != Register::RegisterCount
                    ==> s1.reg(q) == s.reg(q)
            &&& s1.pc() == s.pc() + 2
            &&& s1.halt == s.halt
            &&& s1.mem == s.mem
            &&& s1.data == s.data
            &&& s1.out == s.out
        }),
{
    let (s1, res) = spec_step(s);
    assert(reg_index(r) != reg_index(Register::PC));
    assert forall|q: Register|
        q != Register::SP && q != Register::PC && q != Register::RegisterCount implies s1.reg(q)
        == s.reg(q) by {
        assert(0 <= reg_index(q) < REGISTER_COUNT);
        assert(reg_index(q) != reg_index(Register::SP));
        assert(reg_index(q) != reg_index(Register::PC));
    }
}

/// Executing `POP r` copies the value of the stack pointer register into
/// `r`, advances the program counter past the two instruction bytes, and
/// changes nothing else.
pub proof fn lemma_pop_executes(s: MachineView, r: Register)
    requires
        s.wf(),
        s.pc() + 2 <= MEMORY_LENGTH,
        s.mem[s.pc() as int] == opcode_tag(OpCode::POP),
        s.mem[s.pc() as int + 1] == register_tag(r),
        r != Register::RegisterCount && r != Register::PC,
    ensures
        ({
            let (s1, res) = spec_step(s);
            &&& res == Ok::<(), VmError>(())
            &&& s1.reg(r) == s.reg(Register::SP)
            &&& forall|q: Register|
                q != r && q != Register::PC && q != Register::RegisterCount ==> s1.reg(q)
                    == s.reg(q)
            &&& s1.pc() == s.pc() + 2
            &&& s1.halt == s.halt
            &&& s1.mem == s.mem
            &&& s1.data == s.data
            &&& s1.out == s.out
        }),
{
    let (s1, res) = spec_step(s);
    assert(reg_index(r) != reg_index(Register::PC));
    assert forall|q: Register|
        q != r && q != Register::PC && q != Register::RegisterCount implies s1.reg(q) == s.reg(
        q,
    ) by {
        assert(0 <= reg_index(q) < REGISTER_COUNT);
        assert(reg_index(q) != reg_index(r));
        assert(reg_index(q) != reg_index(Register::PC));
    }
}

/// Move semantics: `PUSH r1` then `POP r2` leaves `r2` (and the stack
/// pointer) holding `r1`'s original value; every other register but the
/// program counter is untouched.
pub proof fn lemma_move_semantics(s: MachineView, r1: Register, r2: Register)
    requires
        s.wf(),
        s.pc() + 4 <= MEMORY_LENGTH,
        s.mem[s.pc() as int] == opcode_tag(OpCode::PUSH),
        s.mem[s.pc() as int + 1] == register_tag(r1),
        s.mem[s.pc() as int + 2] == opcode_tag(OpCode::POP),
        s.mem[s.pc() as int + 3] == register_tag(r2),
        r1 != Register::RegisterCount && r1 != Register::PC && r1 != Register::SP,
        r2 != Register::RegisterCount && r2 != Register::PC,
    ensures
        ({
            let (s1, res1) = spec_step(s);
            let (s2, res2) = spec_step(s1);
            &&& res1 == Ok::<(), VmError>(())
            &&& res2 == Ok::<(), VmError>(())
            &&& s2.reg(r2) == s.reg(r1)
            &&& s2.reg(Register::SP) == s.reg(r1)
            &&& forall|q: Register|
                q != r2 && q != Register::SP && q != Register::PC && q
                    != Register::RegisterCount ==> s2.reg(q) == s.reg(q)
            &&& s2.pc() == s.pc() + 4
            &&& s2.halt == s.halt
            &&& s2.mem == s.mem
            &&& s2.data == s.data
            &&& s2.out == s.out
        }),
{
    lemma_push_executes(s, r1);
    let (s1, res1) = spec_step(s);
    lemma_pop_executes(s1, r2);
    let (s2, res2) = spec_step(s1);
    assert(s1.reg(Register::SP) == s.reg(r1));
    assert(s2.reg(r2) == s1.reg(Register::SP));
    if r2 != Register::SP {
        assert(s2.reg(Register::SP) == s1.reg(Register::SP));
    }
}

/// A `DIV` whose second operand byte is zero faults with an arithmetic
/// error and mutates no register but the program counter, which has moved
/// past the four fetched bytes.
pub proof fn lemma_div_by_zero(s: MachineView, r: Register)
    requires
        s.wf(),
        s.pc() + 4 <= MEMORY_LENGTH,
        s.mem[s.pc() as int] == opcode_tag(OpCode::DIV),
        s.mem[s.pc() as int + 1] == register_tag(r),
        s.mem[s.pc() as int + 3] == 0,
        r != Register::RegisterCount,
    ensures
        ({
            let (s1, res) = spec_step(s);
            &&& res == Err::<(), VmError>(VmError::ArithmeticError { op: OpCode::DIV })
            &&& forall|q: Register|
                q != Register::PC && q != Register::RegisterCount ==> s1.reg(q) == s.reg(q)
            &&& s1.pc() == s.pc() + 4
            &&& s1.halt == s.halt
            &&& s1.mem == s.mem
            &&& s1.data == s.data
            &&& s1.out == s.out
        }),
{
    let (s1, res) = spec_step(s);
    assert forall|q: Register|
        q != Register::PC && q != Register::RegisterCount implies s1.reg(q) == s.reg(q) by {
        assert(0 <= reg_index(q) < REGISTER_COUNT);
        assert(reg_index(q) != reg_index(Register::PC));
    }
}

} // verus!
