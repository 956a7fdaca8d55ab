//! The opcode table: a fixed, injective mapping between one-byte tags and
//! instruction kinds, together with the mnemonic table the assembler uses.

use vstd::prelude::*;

use crate::error::{TargetKind, VmError};
use crate::text::bytes_eq;

verus! {

/// The instruction kinds the engine can execute.
#[derive(Debug, Copy, Clone, PartialEq, Eq, Structural)]
pub enum OpCode {
    HALT,
    NOP,
    ADD,
    SUB,
    MUL,
    DIV,
    PUSH,
    POP,
    SWAP,
    SYSCALL,
}

/// The one-byte tag of each instruction kind.
///
/// `SYSCALL` occupies the reserved tag, assigned here as 0x70.
pub open spec fn opcode_tag(op: OpCode) -> u8 {
    match op {
        OpCode::HALT => 0x00,
        OpCode::NOP => 0x01,
        OpCode::ADD => 0x50,
        OpCode::SUB => 0x51,
        OpCode::MUL => 0x52,
        OpCode::DIV => 0x53,
        OpCode::PUSH => 0x60,
        OpCode::POP => 0x61,
        OpCode::SWAP => 0x62,
        OpCode::SYSCALL => 0x70,
    }
}

/// The instruction kind a byte stands for, if any.
pub open spec fn opcode_of_byte(b: u8) -> Option<OpCode> {
    if b == 0x00 {
        Some(OpCode::HALT)
    } else if b == 0x01 {
        Some(OpCode::NOP)
    } else if b == 0x50 {
        Some(OpCode::ADD)
    } else if b == 0x51 {
        Some(OpCode::SUB)
    } else if b == 0x52 {
        Some(OpCode::MUL)
    } else if b == 0x53 {
        Some(OpCode::DIV)
    } else if b == 0x60 {
        Some(OpCode::PUSH)
    } else if b == 0x61 {
        Some(OpCode::POP)
    } else if b == 0x62 {
        Some(OpCode::SWAP)
    } else if b == 0x70 {
        Some(OpCode::SYSCALL)
    } else {
        None
    }
}

impl OpCode {
    /// The byte this instruction kind is encoded as.
    pub fn encode(self) -> (b: u8)
        ensures
            b == opcode_tag(self),
    {
        match self {
            OpCode::HALT => 0x00,
            OpCode::NOP => 0x01,
            OpCode::ADD => 0x50,
            OpCode::SUB => 0x51,
            OpCode::MUL => 0x52,
            OpCode::DIV => 0x53,
            OpCode::PUSH => 0x60,
            OpCode::POP => 0x61,
            OpCode::SWAP => 0x62,
            OpCode::SYSCALL => 0x70,
        }
    }

    /// Decode a byte into an instruction kind; a byte outside the table is
    /// a decode error, never a default.
    pub fn decode(b: u8) -> (r: Result<OpCode, VmError>)
        ensures
            match r {
                Ok(op) => opcode_of_byte(b) == Some(op),
                Err(e) => opcode_of_byte(b) is None && e == (VmError::DecodeError {
                    byte: b,
                    target_kind: TargetKind::OpCode,
                }),
            },
    {
        if b == 0x00 {
            Ok(OpCode::HALT)
        } else if b == 0x01 {
            Ok(OpCode::NOP)
        } else if b == 0x50 {
            Ok(OpCode::ADD)
        } else if b == 0x51 {
            Ok(OpCode::SUB)
        } else if b == 0x52 {
            Ok(OpCode::MUL)
        } else if b == 0x53 {
            Ok(OpCode::DIV)
        } else if b == 0x60 {
            Ok(OpCode::PUSH)
        } else if b == 0x61 {
            Ok(OpCode::POP)
        } else if b == 0x62 {
            Ok(OpCode::SWAP)
        } else if b == 0x70 {
            Ok(OpCode::SYSCALL)
        } else {
            Err(VmError::DecodeError { byte: b, target_kind: TargetKind::OpCode })
        }
    }
}

/// Decoding the tag of any instruction kind yields that kind back, and a
/// decoded kind re-encodes to the byte it was decoded from: the byte table
/// is a bijection between the tags and the kinds.
pub proof fn lemma_opcode_round_trip()
    ensures
        forall|op: OpCode| opcode_of_byte(opcode_tag(op)) == Some(op),
        forall|b: u8, op: OpCode| opcode_of_byte(b) == Some(op) ==> opcode_tag(op) == b,
{
}

/// A byte decodes to some instruction kind exactly when it is the tag of
/// one; every other byte is rejected.
pub proof fn lemma_opcode_rejection()
    ensures
        forall|b: u8|
            (opcode_of_byte(b) is Some) <==> (exists|op: OpCode| opcode_tag(op) == b),
{
    assert forall|b: u8| (opcode_of_byte(b) is Some) implies (exists|op: OpCode|
        opcode_tag(op) == b) by {
        let op = opcode_of_byte(b)->Some_0;
        assert(opcode_tag(op) == b);
    }
}

/// The mnemonic of each instruction kind, as bytes.
pub open spec fn spec_opcode_mnemonic(op: OpCode) -> Seq<u8> {
    match op {
        OpCode::HALT => seq!['H' as u8, 'A' as u8, 'L' as u8, 'T' as u8],
        OpCode::NOP => seq!['N' as u8, 'O' as u8, 'P' as u8],
        OpCode::ADD => seq!['A' as u8, 'D' as u8, 'D' as u8],
        OpCode::SUB => seq!['S' as u8, 'U' as u8, 'B' as u8],
        OpCode::MUL => seq!['M' as u8, 'U' as u8, 'L' as u8],
        OpCode::DIV => seq!['D' as u8, 'I' as u8, 'V' as u8],
        OpCode::PUSH => seq!['P' as u8, 'U' as u8, 'S' as u8, 'H' as u8],
        OpCode::POP => seq!['P' as u8, 'O' as u8, 'P' as u8],
        OpCode::SWAP => seq!['S' as u8, 'W' as u8, 'A' as u8, 'P' as u8],
        OpCode::SYSCALL => seq![
            'S' as u8,
            'Y' as u8,
            'S' as u8,
            'C' as u8,
            'A' as u8,
            'L' as u8,
            'L' as u8,
        ],
    }
}

/// The instruction kind a mnemonic stands for, if any (exact,
/// case-sensitive match).
pub open spec fn spec_opcode_of_mnemonic(t: Seq<u8>) -> Option<OpCode> {
    if t == spec_opcode_mnemonic(OpCode::HALT) {
        Some(OpCode::HALT)
    } else if t == spec_opcode_mnemonic(OpCode::NOP) {
        Some(OpCode::NOP)
    } else if t == spec_opcode_mnemonic(OpCode::ADD) {
        Some(OpCode::ADD)
    } else if t == spec_opcode_mnemonic(OpCode::SUB) {
        Some(OpCode::SUB)
    } else if t == spec_opcode_mnemonic(OpCode::MUL) {
        Some(OpCode::MUL)
    } else if t == spec_opcode_mnemonic(OpCode::DIV) {
        Some(OpCode::DIV)
    } else if t == spec_opcode_mnemonic(OpCode::PUSH) {
        Some(OpCode::PUSH)
    } else if t == spec_opcode_mnemonic(OpCode::POP) {
        Some(OpCode::POP)
    } else if t == spec_opcode_mnemonic(OpCode::SWAP) {
        Some(OpCode::SWAP)
    } else if t == spec_opcode_mnemonic(OpCode::SYSCALL) {
        Some(OpCode::SYSCALL)
    } else {
        None
    }
}

impl OpCode {
    /// The mnemonic of this instruction kind, as bytes.
    pub fn mnemonic(self) -> (v: Vec<u8>)
        ensures
            v@ == spec_opcode_mnemonic(self),
    {
        match self {
            OpCode::HALT => vec!['H' as u8, 'A' as u8, 'L' as u8, 'T' as u8],
            OpCode::NOP => vec!['N' as u8, 'O' as u8, 'P' as u8],
            OpCode::ADD => vec!['A' as u8, 'D' as u8, 'D' as u8],
            OpCode::SUB => vec!['S' as u8, 'U' as u8, 'B' as u8],
            OpCode::MUL => vec!['M' as u8, 'U' as u8, 'L' as u8],
            OpCode::DIV => vec!['D' as u8, 'I' as u8, 'V' as u8],
            OpCode::PUSH => vec!['P' as u8, 'U' as u8, 'S' as u8, 'H' as u8],
            OpCode::POP => vec!['P' as u8, 'O' as u8, 'P' as u8],
            OpCode::SWAP => vec!['S' as u8, 'W' as u8, 'A' as u8, 'P' as u8],
            OpCode::SYSCALL => vec![
                'S' as u8,
                'Y' as u8,
                'S' as u8,
                'C' as u8,
                'A' as u8,
                'L' as u8,
                'L' as u8,
            ],
        }
    }

    /// Look a token up in the mnemonic table.
    pub fn from_mnemonic(tok: &[u8]) -> (r: Option<OpCode>)
        ensures
            r == spec_opcode_of_mnemonic(tok@),
    {
        if bytes_eq(tok, OpCode::HALT.mnemonic().as_slice()) {
            Some(OpCode::HALT)
        } else if bytes_eq(tok, OpCode::NOP.mnemonic().as_slice()) {
            Some(OpCode::NOP)
        } else if bytes_eq(tok, OpCode::ADD.mnemonic().as_slice()) {
            Some(OpCode::ADD)
        } else if bytes_eq(tok, OpCode::SUB.mnemonic().as_slice()) {
            Some(OpCode::SUB)
        } else if bytes_eq(tok, OpCode::MUL.mnemonic().as_slice()) {
            Some(OpCode::MUL)
        } else if bytes_eq(tok, OpCode::DIV.mnemonic().as_slice()) {
            Some(OpCode::DIV)
        } else if bytes_eq(tok, OpCode::PUSH.mnemonic().as_slice()) {
            Some(OpCode::PUSH)
        } else if bytes_eq(tok, OpCode::POP.mnemonic().as_slice()) {
            Some(OpCode::POP)
        } else if bytes_eq(tok, OpCode::SWAP.mnemonic().as_slice()) {
            Some(OpCode::SWAP)
        } else if bytes_eq(tok, OpCode::SYSCALL.mnemonic().as_slice()) {
            Some(OpCode::SYSCALL)
        } else {
            None
        }
    }
}

} // verus!
