//! A small register-based virtual machine together with the assembler and
//! macro preprocessor that produce the byte images it executes.
//!
//! The crate is organised around three fixed tables (opcodes, registers,
//! syscalls), a uniform byte-decoding capability, the execution engine
//! (`Machine`), the macro preprocessor and assembler (`PreProcessor`), and
//! the textual program-image reader and writer.

use vstd::prelude::*;

pub mod error;
pub mod fetch;
pub mod image;
pub mod macros;
pub mod opcode;
pub mod pp;
pub mod state;
pub mod syscall;
pub mod text;

use crate::error::{StreamKind, VmError};
use crate::fetch::Fetch;
use crate::opcode::OpCode;
use crate::state::{
    spec_fetch, spec_halted, spec_step, spec_step_arith, spec_step_pop, spec_step_push,
    spec_step_swap, spec_step_syscall, spec_write_reg, MachineView,
};

verus! {

/// The machine's named registers.
///
/// `A`, `B` and `C` are general-purpose, `M` is a multipurpose register,
/// `SP` is the stack pointer used implicitly by `PUSH`/`POP`, `PC` is the
/// program counter, and `FLAGS` holds condition flags.  `RegisterCount` is a
/// sentinel that only sizes the register file; it is never addressable at
/// runtime.
#[derive(Debug, Copy, Clone, PartialEq, Eq, Structural)]
pub enum Register {
    A,
    B,
    C,
    M,
    SP,
    PC,
    FLAGS,
    RegisterCount,
}

/// Position of a register in the register file; the sentinel's position is
/// the file's size.
pub open spec fn reg_index(r: Register) -> int {
    match r {
        Register::A => 0,
        Register::B => 1,
        Register::C => 2,
        Register::M => 3,
        Register::SP => 4,
        Register::PC => 5,
        Register::FLAGS => 6,
        Register::RegisterCount => 7,
    }
}

/// How many registers the machine has: the cardinality of the enumeration
/// of named registers.
pub const REGISTER_COUNT: usize = 7;

/// Capacity of the mutable memory array, which holds the executable code.
pub const MEMORY_LENGTH: usize = 4096;

/// Capacity of the read-mostly data array.
pub const DATA_LENGTH: usize = 1024;

/// Exec mirror of [`reg_index`].
pub fn register_index(r: Register) -> (i: usize)
    ensures
        i as int == reg_index(r),
{
    match r {
        Register::A => 0,
        Register::B => 1,
        Register::C => 2,
        Register::M => 3,
        Register::SP => 4,
        Register::PC => 5,
        Register::FLAGS => 6,
        Register::RegisterCount => 7,
    }
}

/// The execution engine.  It owns the register file, the mutable memory
/// array (executable code), the read-mostly data array, the halt flag, the
/// debug flag, and a buffer of everything the program has emitted to
/// standard output.  It is constructed with all-zero state and mutated
/// exclusively by [`Machine::step`].
pub struct Machine {
    registers: Vec<u16>,
    memory: Vec<u8>,
    data: Vec<u8>,
    output: Vec<u8>,
    /// Whether the program has halted; once set, the run loop must stop.
    pub halt: bool,
    /// Whether a caller wants a register snapshot emitted before each step.
    /// The flag changes no machine behaviour; emitting is the caller's job.
    pub debug: bool,
}

impl View for Machine {
    type V = MachineView;

    closed spec fn view(&self) -> MachineView {
        MachineView {
            regs: self.registers@,
            mem: self.memory@,
            data: self.data@,
            halt: self.halt,
            debug: self.debug,
            out: self.output@,
        }
    }
}

impl Machine {
    /// The register file has exactly one cell per named register, and the
    /// two byte arrays have their declared capacities.
    pub open spec fn wf(self) -> bool {
        self@.wf()
    }

    /// Creates a new, empty machine: all registers, memory and data zero,
    /// not halted, debug off, nothing emitted.
    pub fn new() -> (m: Machine)
        ensures
            m.wf(),
            m@.regs =~= Seq::new(REGISTER_COUNT as nat, |i: int| 0u16),
            m@.mem =~= Seq::new(MEMORY_LENGTH as nat, |i: int| 0u8),
            m@.data =~= Seq::new(DATA_LENGTH as nat, |i: int| 0u8),
            !m@.halt,
            !m@.debug,
            m@.out =~= Seq::<u8>::empty(),
    {
        let registers: Vec<u16> = vec![0, 0, 0, 0, 0, 0, 0];
        let mut memory: Vec<u8> = Vec::new();
        let mut i: usize = 0;
        while i < MEMORY_LENGTH
            invariant
                i <= MEMORY_LENGTH,
                memory@.len() == i,
                forall|j: int| 0 <= j < i ==> memory@[j] == 0u8,
            decreases MEMORY_LENGTH - i,
        {
            memory.push(0);
            i = i + 1;
        }
        let mut data: Vec<u8> = Vec::new();
        let mut k: usize = 0;
        while k < DATA_LENGTH
            invariant
                k <= DATA_LENGTH,
                data@.len() == k,
                forall|j: int| 0 <= j < k ==> data@[j] == 0u8,
            decreases DATA_LENGTH - k,
        {
            data.push(0);
            k = k + 1;
        }
        Machine { registers, memory, data, output: Vec::new(), halt: false, debug: false }
    }

    /// Loads the code stream into the memory array: the stream fills the
    /// front, the rest of memory keeps its previous bytes.  A stream longer
    /// than the capacity is rejected, never truncated.
    pub fn set_memory(&mut self, new_data: &[u8]) -> (r: Result<(), VmError>)
        requires
            old(self).wf(),
        ensures
            final(self).wf(),
            match r {
                Ok(()) => new_data@.len() <= MEMORY_LENGTH && final(self)@ == (MachineView {
                    mem: new_data@ + old(self)@.mem.skip(new_data@.len() as int),
                    ..old(self)@
                }),
                Err(e) => new_data@.len() > MEMORY_LENGTH && final(self)@ == old(self)@ && e
                    == (VmError::CapacityExceeded {
                    what: StreamKind::Code,
                    len: new_data@.len() as usize,
                    capacity: MEMORY_LENGTH,
                }),
            },
    {
        if new_data.len() > MEMORY_LENGTH {
            return Err(
                VmError::CapacityExceeded {
                    what: StreamKind::Code,
                    len: new_data.len(),
                    capacity: MEMORY_LENGTH,
                },
            );
        }
        let n = new_data.len();
        let mut fresh: Vec<u8> = Vec::new();
        let mut i: usize = 0;
        while i < MEMORY_LENGTH
            invariant
                i <= MEMORY_LENGTH,
                n == new_data@.len() <= MEMORY_LENGTH,
                self@.mem.len() == MEMORY_LENGTH,
                fresh@.len() == i,
                forall|j: int|
                    0 <= j < i ==> fresh@[j] == (if j < n {
                        new_data@[j]
                    } else {
                        self@.mem[j]
                    }),
            decreases MEMORY_LENGTH - i,
        {
            if i < n {
                fresh.push(new_data[i]);
            } else {
                fresh.push(self.memory[i]);
            }
            i = i + 1;
        }
        proof {
            assert(fresh@ =~= new_data@ + self@.mem.skip(n as int));
        }
        self.memory = fresh;
        Ok(())
    }

    /// Loads the data stream into the data array, in the same way as
    /// [`Machine::set_memory`] loads the code stream.
    pub fn set_data(&mut self, new_data: &[u8]) -> (r: Result<(), VmError>)
        requires
            old(self).wf(),
        ensures
            final(self).wf(),
            match r {
                Ok(()) => new_data@.len() <= DATA_LENGTH && final(self)@ == (MachineView {
                    data: new_data@ + old(self)@.data.skip(new_data@.len() as int),
                    ..old(self)@
                }),
                Err(e) => new_data@.len() > DATA_LENGTH && final(self)@ == old(self)@ && e
                    == (VmError::CapacityExceeded {
                    what: StreamKind::Data,
                    len: new_data@.len() as usize,
                    capacity: DATA_LENGTH,
                }),
            },
    {
        if new_data.len() > DATA_LENGTH {
            return Err(
                VmError::CapacityExceeded {
                    what: StreamKind::Data,
                    len: new_data.len(),
                    capacity: DATA_LENGTH,
                },
            );
        }
        let n = new_data.len();
        let mut fresh: Vec<u8> = Vec::new();
        let mut i: usize = 0;
        while i < DATA_LENGTH
            invariant
                i <= DATA_LENGTH,
                n == new_data@.len() <= DATA_LENGTH,
                self@.data.len() == DATA_LENGTH,
                fresh@.len() == i,
                forall|j: int|
                    0 <= j < i ==> fresh@[j] == (if j < n {
                        new_data@[j]
                    } else {
                        self@.data[j]
                    }),
            decreases DATA_LENGTH - i,
        {
            if i < n {
                fresh.push(new_data[i]);
            } else {
                fresh.push(self.data[i]);
            }
            i = i + 1;
        }
        proof {
            assert(fresh@ =~= new_data@ + self@.data.skip(n as int));
        }
        self.data = fresh;
        Ok(())
    }

    /// Asks for a register snapshot before each step.  The engine's
    /// behaviour is unchanged; a caller that enabled this reads the
    /// registers itself between steps.
    pub fn enable_debug(&mut self)
        ensures
            final(self)@ == (MachineView { debug: true, ..old(self)@ }),
    {
        self.debug = true;
    }

    /// The value a register holds.
    pub fn get_register(&self, r: Register) -> (v: u16)
        requires
            self.wf(),
            r != Register::RegisterCount,
        ensures
            v == self@.reg(r),
    {
        let i = register_index(r);
        self.registers[i]
    }

    /// The byte the memory array holds at `i`.  A debug collaborator uses
    /// this together with [`Machine::get_register`] to show the next
    /// instruction before a step.
    pub fn get_memory_byte(&self, i: usize) -> (b: u8)
        requires
            self.wf(),
            i < MEMORY_LENGTH,
        ensures
            b == self@.mem[i as int],
    {
        self.memory[i]
    }

    /// Everything the program has emitted to standard output so far.
    pub fn output(&self) -> (o: &Vec<u8>)
        ensures
            o@ == self@.out,
    {
        &self.output
    }

    /// The byte the data array holds at `i`.
    fn get_data_byte(&self, i: usize) -> (b: u8)
        requires
            self.wf(),
            i < DATA_LENGTH,
        ensures
            b == self@.data[i as int],
    {
        self.data[i]
    }

    /// Appends `buf` to the output buffer, emptying `buf`.
    fn push_output(&mut self, buf: &mut Vec<u8>)
        ensures
            final(self).wf() == old(self).wf(),
            final(self)@ == (MachineView { out: old(self)@.out + old(buf)@, ..old(self)@ }),
            final(buf)@.len() == 0,
    {
        self.output.append(buf);
    }

    /// Sets the register `r` to `v`.
    fn set_register(&mut self, r: Register, v: u16)
        requires
            old(self).wf(),
            r != Register::RegisterCount,
        ensures
            final(self).wf(),
            final(self)@ == spec_write_reg(old(self)@, r, v),
    {
        let i = register_index(r);
        self.registers[i] = v;
    }

    /// Gets a value of kind `T` from memory at the program counter,
    /// advancing the program counter past the consumed byte.  Fetching at
    /// or beyond the memory capacity is a bounds fault; a byte that does
    /// not decode is a decode fault; either fault leaves the machine as it
    /// stood.
    fn fetch<T: Fetch>(&mut self) -> (r: Result<T, VmError>)
        requires
            old(self).wf(),
        ensures
            final(self).wf(),
            ({
                let (res, s1) = spec_fetch::<T>(old(self)@);
                r == res && final(self)@ == s1
            }),
    {
        let pc_i = register_index(Register::PC);
        let pc = self.registers[pc_i];
        if pc as usize >= MEMORY_LENGTH {
            return Err(VmError::BoundsError { index: pc as usize, capacity: MEMORY_LENGTH });
        }
        let b = self.memory[pc as usize];
        match T::decode_byte(b) {
            Ok(v) => {
                self.registers[pc_i] = pc + 1;
                Ok(v)
            },
            Err(e) => Err(e),
        }
    }

    /// Takes one step of the fetch-decode-execute cycle, exactly as
    /// [`spec_step`] describes: halt without decoding when the program
    /// counter is at or beyond the memory capacity; otherwise decode one
    /// opcode byte, advance the program counter, and dispatch.  Every
    /// fault is returned and leaves the halt flag untouched.
    pub fn step(&mut self) -> (r: Result<(), VmError>)
        requires
            old(self).wf(),
        ensures
            final(self).wf(),
            ({
                let (s1, res) = spec_step(old(self)@);
                final(self)@ == s1 && r == res
            }),
    {
        let pc_i = register_index(Register::PC);
        if self.registers[pc_i] as usize >= MEMORY_LENGTH {
            self.halt = true;
            return Ok(());
        }
        let op = match self.fetch::<OpCode>() {
            Ok(op) => op,
            Err(e) => {
                return Err(e);
            },
        };
        match op {
            OpCode::HALT => {
                self.handle_halt();
                Ok(())
            },
            OpCode::NOP => Ok(()),
            OpCode::ADD => self.handle_add(),
            OpCode::SUB => self.handle_sub(),
            OpCode::MUL => self.handle_mul(),
            OpCode::DIV => self.handle_div(),
            OpCode::PUSH => self.handle_push(),
            OpCode::POP => self.handle_pop(),
            OpCode::SWAP => self.handle_swap(),
            OpCode::SYSCALL => self.handle_syscall(),
        }
    }

    /// Sets the halt flag and nothing else.
    fn set_halt(&mut self)
        ensures
            final(self)@ == spec_halted(old(self)@),
    {
        self.halt = true;
    }

    /// Halt the program: sets the halt flag and nothing else.
    fn handle_halt(&mut self)
        ensures
            final(self)@ == spec_halted(old(self)@),
    {
        self.halt = true;
    }

    /// Shared body of the four arithmetic handlers: fetch a register and
    /// two operand values, compute, and store.
    fn handle_arith(&mut self, op: OpCode) -> (r: Result<(), VmError>)
        requires
            old(self).wf(),
            op == OpCode::ADD || op == OpCode::SUB || op == OpCode::MUL || op == OpCode::DIV,
        ensures
            final(self).wf(),
            ({
                let (s1, res) = spec_step_arith(op, old(self)@);
                final(self)@ == s1 && r == res
            }),
    {
        let reg = match self.fetch::<Register>() {
            Ok(v) => v,
            Err(e) => {
                return Err(e);
            },
        };
        proof {
            crate::fetch::lemma_decoded_register_addressable();
        }
        let a = match self.fetch::<u16>() {
            Ok(v) => v,
            Err(e) => {
                return Err(e);
            },
        };
        let b = match self.fetch::<u16>() {
            Ok(v) => v,
            Err(e) => {
                return Err(e);
            },
        };
        assert(a < 256 && b < 256);
        let result: u16 = match op {
            OpCode::ADD => a + b,
            OpCode::SUB => a.wrapping_sub(b),
            OpCode::MUL => {
                proof {
                    assert(a * b < 65536) by (nonlinear_arith)
                        requires
                            a < 256 && b < 256,
                    ;
                }
                a * b
            },
            _ => {
                if b == 0 {
                    return Err(VmError::ArithmeticError { op });
                }
                a / b
            },
        };
        self.set_register(reg, result);
        Ok(())
    }

    /// Take in a register and two values; adds them and puts the sum into
    /// the register.
    fn handle_add(&mut self) -> (r: Result<(), VmError>)
        requires
            old(self).wf(),
        ensures
            final(self).wf(),
            ({
                let (s1, res) = spec_step_arith(OpCode::ADD, old(self)@);
                final(self)@ == s1 && r == res
            }),
    {
        self.handle_arith(OpCode::ADD)
    }

    /// Take in a register and two values; subtracts them (modulo the
    /// register width) and puts the difference into the register.
    fn handle_sub(&mut self) -> (r: Result<(), VmError>)
        requires
            old(self).wf(),
        ensures
            final(self).wf(),
            ({
                let (s1, res) = spec_step_arith(OpCode::SUB, old(self)@);
                final(self)@ == s1 && r == res
            }),
    {
        self.handle_arith(OpCode::SUB)
    }

    /// Take in a register and two values; multiplies them and puts the
    /// product into the register.
    fn handle_mul(&mut self) -> (r: Result<(), VmError>)
        requires
            old(self).wf(),
        ensures
            final(self).wf(),
            ({
                let (s1, res) = spec_step_arith(OpCode::MUL, old(self)@);
                final(self)@ == s1 && r == res
            }),
    {
        self.handle_arith(OpCode::MUL)
    }

    /// Take in a register and two values; divides them and puts the
    /// quotient into the register.  Division by zero is a fault that
    /// mutates no register.
    fn handle_div(&mut self) -> (r: Result<(), VmError>)
        requires
            old(self).wf(),
        ensures
            final(self).wf(),
            ({
                let (s1, res) = spec_step_arith(OpCode::DIV, old(self)@);
                final(self)@ == s1 && r == res
            }),
    {
        self.handle_arith(OpCode::DIV)
    }

    /// Push the value of the fetched register into the stack pointer
    /// register.
    fn handle_push(&mut self) -> (r: Result<(), VmError>)
        requires
            old(self).wf(),
        ensures
            final(self).wf(),
            ({
                let (s1, res) = spec_step_push(old(self)@);
                final(self)@ == s1 && r == res
            }),
    {
        let reg = match self.fetch::<Register>() {
            Ok(v) => v,
            Err(e) => {
                return Err(e);
            },
        };
        proof {
            crate::fetch::lemma_decoded_register_addressable();
        }
        let v = self.get_register(reg);
        self.set_register(Register::SP, v);
        Ok(())
    }

    /// Pop the value of the stack pointer register into the fetched
    /// register.
    fn handle_pop(&mut self) -> (r: Result<(), VmError>)
        requires
            old(self).wf(),
        ensures
            final(self).wf(),
            ({
                let (s1, res) = spec_step_pop(old(self)@);
                final(self)@ == s1 && r == res
            }),
    {
        let reg = match self.fetch::<Register>() {
            Ok(v) => v,
            Err(e) => {
                return Err(e);
            },
        };
        proof {
            crate::fetch::lemma_decoded_register_addressable();
        }
        let v = self.get_register(Register::SP);
        self.set_register(reg, v);
        Ok(())
    }

    /// Swap the values of the two fetched registers.
    fn handle_swap(&mut self) -> (r: Result<(), VmError>)
        requires
            old(self).wf(),
        ensures
            final(self).wf(),
            ({
                let (s1, res) = spec_step_swap(old(self)@);
                final(self)@ == s1 && r == res
            }),
    {
        let r1 = match self.fetch::<Register>() {
            Ok(v) => v,
            Err(e) => {
                return Err(e);
            },
        };
        let r2 = match self.fetch::<Register>() {
            Ok(v) => v,
            Err(e) => {
                return Err(e);
            },
        };
        proof {
            crate::fetch::lemma_decoded_register_addressable();
        }
        let v1 = self.get_register(r1);
        let v2 = self.get_register(r2);
        self.set_register(r1, v2);
        self.set_register(r2, v1);
        Ok(())
    }

    /// Fetch and decode a syscall tag, then dispatch to its handler.
    fn handle_syscall(&mut self) -> (r: Result<(), VmError>)
        requires
            old(self).wf(),
        ensures
            final(self).wf(),
            ({
                let (s1, res) = spec_step_syscall(old(self)@);
                final(self)@ == s1 && r == res
            }),
    {
        let sc = match self.fetch::<crate::syscall::Syscall>() {
            Ok(v) => v,
            Err(e) => {
                return Err(e);
            },
        };
        sc.handle(self)
    }
}

} // verus!

