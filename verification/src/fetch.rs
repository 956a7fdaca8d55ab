//! The decode capability: a closed set of "interpret this byte as `T`"
//! conversions, one per kind the engine can pull out of a byte stream,
//! together with the register table.

use vstd::prelude::*;

use crate::error::{TargetKind, VmError};
use crate::opcode::{opcode_of_byte, OpCode};
use crate::syscall::{syscall_of_byte, Syscall};
use crate::text::bytes_eq;
use crate::{reg_index, Register};

verus! {

/// The one-byte tag of each register.  The sentinel's tag equals the
/// register count and is never produced by decoding.
pub open spec fn register_tag(r: Register) -> u8 {
    reg_index(r) as u8
}

/// The register a byte stands for, if any.  The sentinel is not in the
/// table: no byte decodes to it.
pub open spec fn register_of_byte(b: u8) -> Option<Register> {
    if b == 0 {
        Some(Register::A)
    } else if b == 1 {
        Some(Register::B)
    } else if b == 2 {
        Some(Register::C)
    } else if b == 3 {
        Some(Register::M)
    } else if b == 4 {
        Some(Register::SP)
    } else if b == 5 {
        Some(Register::PC)
    } else if b == 6 {
        Some(Register::FLAGS)
    } else {
        None
    }
}

impl Register {
    /// The byte this register is encoded as.
    pub fn encode(self) -> (b: u8)
        ensures
            b == register_tag(self),
    {
        match self {
            Register::A => 0,
            Register::B => 1,
            Register::C => 2,
            Register::M => 3,
            Register::SP => 4,
            Register::PC => 5,
            Register::FLAGS => 6,
            Register::RegisterCount => 7,
        }
    }

    /// Decode a byte into a register; a byte outside the table is a decode
    /// error, never a default.
    pub fn decode(b: u8) -> (r: Result<Register, VmError>)
        ensures
            match r {
                Ok(reg) => register_of_byte(b) == Some(reg),
                Err(e) => register_of_byte(b) is None && e == (VmError::DecodeError {
                    byte: b,
                    target_kind: TargetKind::Register,
                }),
            },
    {
        if b == 0 {
            Ok(Register::A)
        } else if b == 1 {
            Ok(Register::B)
        } else if b == 2 {
            Ok(Register::C)
        } else if b == 3 {
            Ok(Register::M)
        } else if b == 4 {
            Ok(Register::SP)
        } else if b == 5 {
            Ok(Register::PC)
        } else if b == 6 {
            Ok(Register::FLAGS)
        } else {
            Err(VmError::DecodeError { byte: b, target_kind: TargetKind::Register })
        }
    }
}

/// Decoding the tag of any named register yields that register back, and a
/// decoded register re-encodes to the byte it was decoded from.
pub proof fn lemma_register_round_trip()
    ensures
        forall|r: Register|
            r != Register::RegisterCount ==> register_of_byte(register_tag(r)) == Some(r),
        forall|b: u8, r: Register| register_of_byte(b) == Some(r) ==> register_tag(r) == b,
{
}

/// A byte decodes to some register exactly when it is the tag of a named
/// register; every other byte, the sentinel's tag included, is rejected.
pub proof fn lemma_register_rejection()
    ensures
        forall|b: u8|
            (register_of_byte(b) is Some) <==> (exists|r: Register|
                r != Register::RegisterCount && register_tag(r) == b),
{
    assert forall|b: u8| (register_of_byte(b) is Some) implies (exists|r: Register|
        r != Register::RegisterCount && register_tag(r) == b) by {
        let r = register_of_byte(b)->Some_0;
        assert(r != Register::RegisterCount && register_tag(r) == b);
    }
}

/// Every register produced by decoding is addressable: its index lies
/// inside the register file, so the sentinel is never addressed at
/// runtime.
pub proof fn lemma_decoded_register_addressable()
    ensures
        forall|b: u8, r: Register|
            register_of_byte(b) == Some(r) ==> 0 <= reg_index(r) < crate::REGISTER_COUNT,
{
}

/// The mnemonic of each named register, as bytes.
pub open spec fn spec_register_mnemonic(r: Register) -> Seq<u8> {
    match r {
        Register::A => seq!['A' as u8],
        Register::B => seq!['B' as u8],
        Register::C => seq!['C' as u8],
        Register::M => seq!['M' as u8],
        Register::SP => seq!['S' as u8, 'P' as u8],
        Register::PC => seq!['P' as u8, 'C' as u8],
        Register::FLAGS => seq!['F' as u8, 'L' as u8, 'A' as u8, 'G' as u8, 'S' as u8],
        Register::RegisterCount => seq![],
    }
}

/// The register a mnemonic stands for, if any (exact, case-sensitive
/// match; the sentinel has no mnemonic).
pub open spec fn spec_register_of_mnemonic(t: Seq<u8>) -> Option<Register> {
    if t == spec_register_mnemonic(Register::A) {
        Some(Register::A)
    } else if t == spec_register_mnemonic(Register::B) {
        Some(Register::B)
    } else if t == spec_register_mnemonic(Register::C) {
        Some(Register::C)
    } else if t == spec_register_mnemonic(Register::M) {
        Some(Register::M)
    } else if t == spec_register_mnemonic(Register::SP) {
        Some(Register::SP)
    } else if t == spec_register_mnemonic(Register::PC) {
        Some(Register::PC)
    } else if t == spec_register_mnemonic(Register::FLAGS) {
        Some(Register::FLAGS)
    } else {
        None
    }
}

impl Register {
    /// The mnemonic of this register, as bytes.
    pub fn mnemonic(self) -> (v: Vec<u8>)
        ensures
            v@ == spec_register_mnemonic(self),
    {
        match self {
            Register::A => vec!['A' as u8],
            Register::B => vec!['B' as u8],
            Register::C => vec!['C' as u8],
            Register::M => vec!['M' as u8],
            Register::SP => vec!['S' as u8, 'P' as u8],
            Register::PC => vec!['P' as u8, 'C' as u8],
            Register::FLAGS => vec!['F' as u8, 'L' as u8, 'A' as u8, 'G' as u8, 'S' as u8],
            Register::RegisterCount => Vec::new(),
        }
    }

    /// Look a token up in the mnemonic table.
    pub fn from_mnemonic(tok: &[u8]) -> (r: Option<Register>)
        ensures
            r == spec_register_of_mnemonic(tok@),
    {
        if bytes_eq(tok, Register::A.mnemonic().as_slice()) {
            Some(Register::A)
        } else if bytes_eq(tok, Register::B.mnemonic().as_slice()) {
            Some(Register::B)
        } else if bytes_eq(tok, Register::C.mnemonic().as_slice()) {
            Some(Register::C)
        } else if bytes_eq(tok, Register::M.mnemonic().as_slice()) {
            Some(Register::M)
        } else if bytes_eq(tok, Register::SP.mnemonic().as_slice()) {
            Some(Register::SP)
        } else if bytes_eq(tok, Register::PC.mnemonic().as_slice()) {
            Some(Register::PC)
        } else if bytes_eq(tok, Register::FLAGS.mnemonic().as_slice()) {
            Some(Register::FLAGS)
        } else {
            None
        }
    }
}

/// A kind of value the engine can pull out of the byte stream: the set of
/// fetchable kinds is closed and known at design time.
pub trait Fetch: Sized {
    /// The kind named in a decode error for this type.
    spec fn target_kind() -> TargetKind;

    /// The value a byte decodes to, if any.
    spec fn decode_spec(b: u8) -> Option<Self>;

    /// Decode one byte into this kind, or report which byte failed to
    /// decode into which kind.
    fn decode_byte(b: u8) -> (r: Result<Self, VmError>)
        ensures
            match Self::decode_spec(b) {
                Some(v) => r == Ok::<Self, VmError>(v),
                None => r == Err::<Self, VmError>(
                    VmError::DecodeError { byte: b, target_kind: Self::target_kind() },
                ),
            },
    ;
}

impl Fetch for Register {
    open spec fn target_kind() -> TargetKind {
        TargetKind::Register
    }

    open spec fn decode_spec(b: u8) -> Option<Register> {
        register_of_byte(b)
    }

    fn decode_byte(b: u8) -> (r: Result<Register, VmError>) {
        Register::decode(b)
    }
}

impl Fetch for OpCode {
    open spec fn target_kind() -> TargetKind {
        TargetKind::OpCode
    }

    open spec fn decode_spec(b: u8) -> Option<OpCode> {
        opcode_of_byte(b)
    }

    fn decode_byte(b: u8) -> (r: Result<OpCode, VmError>) {
        OpCode::decode(b)
    }
}

impl Fetch for Syscall {
    open spec fn target_kind() -> TargetKind {
        TargetKind::Syscall
    }

    open spec fn decode_spec(b: u8) -> Option<Syscall> {
        syscall_of_byte(b)
    }

    fn decode_byte(b: u8) -> (r: Result<Syscall, VmError>) {
        Syscall::decode(b)
    }
}

/// A raw byte: every byte decodes to itself.
impl Fetch for u8 {
    open spec fn target_kind() -> TargetKind {
        TargetKind::Byte
    }

    open spec fn decode_spec(b: u8) -> Option<u8> {
        Some(b)
    }

    fn decode_byte(b: u8) -> (r: Result<u8, VmError>) {
        Ok(b)
    }
}

/// A 16-bit operand: exactly one byte is consumed and zero-extended to 16
/// bits; operands are never stored as two bytes.
impl Fetch for u16 {
    open spec fn target_kind() -> TargetKind {
        TargetKind::Word
    }

    open spec fn decode_spec(b: u8) -> Option<u16> {
        Some(b as u16)
    }

    fn decode_byte(b: u8) -> (r: Result<u16, VmError>) {
        Ok(b as u16)
    }
}

} // verus!
