//! The flat error taxonomy shared by the engine, the preprocessor, the
//! assembler and the image loader.  Every error aborts the current run; none
//! is retryable.

use vstd::prelude::*;

verus! {

/// The kind of value a byte was being decoded into when decoding failed.
#[derive(Debug, Copy, Clone, PartialEq, Eq, Structural)]
pub enum TargetKind {
    Register,
    OpCode,
    Syscall,
    Byte,
    Word,
}

/// Which of the two output streams of an assembled program overflowed.
#[derive(Debug, Copy, Clone, PartialEq, Eq, Structural)]
pub enum StreamKind {
    Code,
    Data,
}

/// Every failure the core can report.
///
/// Each variant carries enough context (offending byte or token, index and
/// capacity) to locate the fault without re-running.
#[derive(Debug, PartialEq, Eq)]
pub enum VmError {
    /// A byte does not map to a valid register, opcode or syscall.
    DecodeError { byte: u8, target_kind: TargetKind },
    /// The program counter or a data offset lies outside its array.
    BoundsError { index: usize, capacity: usize },
    /// An arithmetic fault, such as division by zero, in the named opcode.
    ArithmeticError { op: crate::opcode::OpCode },
    /// The decoded syscall has no handler.
    SyscallNotImplemented { tag: u8 },
    /// A `WRITE` syscall was invoked with a mode other than 1.
    UnsupportedMode { mode: u8 },
    /// The byte range handed to `WRITE` is not valid UTF-8.
    InvalidEncoding,
    /// A macro invocation names a macro that was never defined.
    UnknownMacro { name: Vec<u8> },
    /// A parameterized macro was invoked with the wrong number of arguments.
    MacroArityMismatch { expected: usize, got: usize },
    /// Macro expansion did not settle within the expansion-depth bound.
    MacroExpansionLimitExceeded,
    /// A source token belongs to none of the token classes.
    UnknownToken { text: Vec<u8> },
    /// A program-image token is not a two-digit `0xHH` byte literal.
    InvalidByteLiteral { text: Vec<u8> },
    /// An assembled stream does not fit the engine's fixed capacity.
    CapacityExceeded { what: StreamKind, len: usize, capacity: usize },
}

/// The abstract value of a [`VmError`]: the same taxonomy with the
/// offending tokens as byte sequences.  Contracts of the preprocessor and
/// the loader speak of errors through this view.
pub ghost enum VmErrorView {
    DecodeError { byte: u8, target_kind: TargetKind },
    BoundsError { index: usize, capacity: usize },
    ArithmeticError { op: crate::opcode::OpCode },
    SyscallNotImplemented { tag: u8 },
    UnsupportedMode { mode: u8 },
    InvalidEncoding,
    UnknownMacro { name: Seq<u8> },
    MacroArityMismatch { expected: usize, got: usize },
    MacroExpansionLimitExceeded,
    UnknownToken { text: Seq<u8> },
    InvalidByteLiteral { text: Seq<u8> },
    CapacityExceeded { what: StreamKind, len: usize, capacity: usize },
}

impl View for VmError {
    type V = VmErrorView;

    open spec fn view(&self) -> VmErrorView {
        match self {
            VmError::DecodeError { byte, target_kind } => VmErrorView::DecodeError {
                byte: *byte,
                target_kind: *target_kind,
            },
            VmError::BoundsError { index, capacity } => VmErrorView::BoundsError {
                index: *index,
                capacity: *capacity,
            },
            VmError::ArithmeticError { op } => VmErrorView::ArithmeticError { op: *op },
            VmError::SyscallNotImplemented { tag } => VmErrorView::SyscallNotImplemented {
                tag: *tag,
            },
            VmError::UnsupportedMode { mode } => VmErrorView::UnsupportedMode { mode: *mode },
            VmError::InvalidEncoding => VmErrorView::InvalidEncoding,
            VmError::UnknownMacro { name } => VmErrorView::UnknownMacro { name: name@ },
            VmError::MacroArityMismatch { expected, got } => VmErrorView::MacroArityMismatch {
                expected: *expected,
                got: *got,
            },
            VmError::MacroExpansionLimitExceeded => VmErrorView::MacroExpansionLimitExceeded,
            VmError::UnknownToken { text } => VmErrorView::UnknownToken { text: text@ },
            VmError::InvalidByteLiteral { text } => VmErrorView::InvalidByteLiteral {
                text: text@,
            },
            VmError::CapacityExceeded { what, len, capacity } => VmErrorView::CapacityExceeded {
                what: *what,
                len: *len,
                capacity: *capacity,
            },
        }
    }
}

} // verus!
