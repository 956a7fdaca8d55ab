//! The syscall table: a fixed mapping between one-byte tags and kernel-like
//! operations, each with a declared operand arity, plus the handler that the
//! engine dispatches to.

use vstd::prelude::*;

use crate::error::{TargetKind, VmError};
use crate::state::spec_syscall_effect;
use crate::text::{bytes_eq, utf8_valid};
use crate::{Machine, DATA_LENGTH};

verus! {

/// The kernel-like operations reachable through the `SYSCALL` opcode.
#[derive(Debug, Copy, Clone, PartialEq, Eq, Structural)]
pub enum Syscall {
    EXIT,
    READ,
    WRITE,
}

/// The one-byte tag of each syscall.
pub open spec fn syscall_tag(s: Syscall) -> u8 {
    match s {
        Syscall::EXIT => 1,
        Syscall::READ => 3,
        Syscall::WRITE => 4,
    }
}

/// The syscall a byte stands for, if any.
pub open spec fn syscall_of_byte(b: u8) -> Option<Syscall> {
    if b == 1 {
        Some(Syscall::EXIT)
    } else if b == 3 {
        Some(Syscall::READ)
    } else if b == 4 {
        Some(Syscall::WRITE)
    } else {
        None
    }
}

/// How many further operand bytes each syscall consumes; declared by the
/// table, never guessed from a call site.
pub open spec fn syscall_arity(s: Syscall) -> u8 {
    match s {
        Syscall::EXIT => 0,
        Syscall::READ => 2,
        Syscall::WRITE => 3,
    }
}

impl Syscall {
    /// The byte this syscall is encoded as.
    pub fn encode(self) -> (b: u8)
        ensures
            b == syscall_tag(self),
    {
        match self {
            Syscall::EXIT => 1,
            Syscall::READ => 3,
            Syscall::WRITE => 4,
        }
    }

    /// Decode a byte into a syscall; a byte outside the table is a decode
    /// error, never a default.
    pub fn decode(b: u8) -> (r: Result<Syscall, VmError>)
        ensures
            match r {
                Ok(s) => syscall_of_byte(b) == Some(s),
                Err(e) => syscall_of_byte(b) is None && e == (VmError::DecodeError {
                    byte: b,
                    target_kind: TargetKind::Syscall,
                }),
            },
    {
        if b == 1 {
            Ok(Syscall::EXIT)
        } else if b == 3 {
            Ok(Syscall::READ)
        } else if b == 4 {
            Ok(Syscall::WRITE)
        } else {
            Err(VmError::DecodeError { byte: b, target_kind: TargetKind::Syscall })
        }
    }

    /// The number of operand bytes this syscall consumes.
    pub fn required_args_count(&self) -> (n: u8)
        ensures
            n == syscall_arity(*self),
    {
        match self {
            Syscall::EXIT => 0,
            Syscall::READ => 2,
            Syscall::WRITE => 3,
        }
    }
}

/// Decoding the tag of any syscall yields that syscall back, and a decoded
/// syscall re-encodes to the byte it was decoded from.
pub proof fn lemma_syscall_round_trip()
    ensures
        forall|s: Syscall| syscall_of_byte(syscall_tag(s)) == Some(s),
        forall|b: u8, s: Syscall| syscall_of_byte(b) == Some(s) ==> syscall_tag(s) == b,
{
}

/// A byte decodes to some syscall exactly when it is the tag of one; every
/// other byte is rejected.
pub proof fn lemma_syscall_rejection()
    ensures
        forall|b: u8| (syscall_of_byte(b) is Some) <==> (exists|s: Syscall| syscall_tag(s) == b),
{
    assert forall|b: u8| (syscall_of_byte(b) is Some) implies (exists|s: Syscall|
        syscall_tag(s) == b) by {
        let s = syscall_of_byte(b)->Some_0;
        assert(syscall_tag(s) == b);
    }
}

/// The mnemonic of each syscall, as bytes.
pub open spec fn spec_syscall_mnemonic(s: Syscall) -> Seq<u8> {
    match s {
        Syscall::EXIT => seq!['E' as u8, 'X' as u8, 'I' as u8, 'T' as u8],
        Syscall::READ => seq!['R' as u8, 'E' as u8, 'A' as u8, 'D' as u8],
        Syscall::WRITE => seq!['W' as u8, 'R' as u8, 'I' as u8, 'T' as u8, 'E' as u8],
    }
}

/// The syscall a mnemonic stands for, if any (exact, case-sensitive match).
pub open spec fn spec_syscall_of_mnemonic(t: Seq<u8>) -> Option<Syscall> {
    if t == spec_syscall_mnemonic(Syscall::EXIT) {
        Some(Syscall::EXIT)
    } else if t == spec_syscall_mnemonic(Syscall::READ) {
        Some(Syscall::READ)
    } else if t == spec_syscall_mnemonic(Syscall::WRITE) {
        Some(Syscall::WRITE)
    } else {
        None
    }
}

impl Syscall {
    /// The mnemonic of this syscall, as bytes.
    pub fn mnemonic(self) -> (v: Vec<u8>)
        ensures
            v@ == spec_syscall_mnemonic(self),
    {
        match self {
            Syscall::EXIT => vec!['E' as u8, 'X' as u8, 'I' as u8, 'T' as u8],
            Syscall::READ => vec!['R' as u8, 'E' as u8, 'A' as u8, 'D' as u8],
            Syscall::WRITE => vec!['W' as u8, 'R' as u8, 'I' as u8, 'T' as u8, 'E' as u8],
        }
    }

    /// Look a token up in the mnemonic table.
    pub fn from_mnemonic(tok: &[u8]) -> (r: Option<Syscall>)
        ensures
            r == spec_syscall_of_mnemonic(tok@),
    {
        if bytes_eq(tok, Syscall::EXIT.mnemonic().as_slice()) {
            Some(Syscall::EXIT)
        } else if bytes_eq(tok, Syscall::READ.mnemonic().as_slice()) {
            Some(Syscall::READ)
        } else if bytes_eq(tok, Syscall::WRITE.mnemonic().as_slice()) {
            Some(Syscall::WRITE)
        } else {
            None
        }
    }

    /// Handle this syscall with the engine as mutable context, exactly as
    /// [`spec_syscall_effect`] describes.  The engine has already fetched
    /// the syscall tag; the handler fetches its own operands.
    ///
    /// `EXIT` sets the halt flag.  `WRITE` fetches a mode byte, a start
    /// offset and a length; in mode 1 it appends the addressed slice of
    /// the data array, which must be valid UTF-8, to the machine's output
    /// buffer.  `READ` is declared but intentionally unimplemented.
    pub fn handle(&self, m: &mut Machine) -> (r: Result<(), VmError>)
        requires
            old(m).wf(),
        ensures
            final(m).wf(),
            ({
                let (s1, res) = spec_syscall_effect(*self, old(m)@);
                final(m)@ == s1 && r == res
            }),
    {
        match self {
            Syscall::EXIT => {
                m.set_halt();
                Ok(())
            },
            Syscall::READ => Err(VmError::SyscallNotImplemented { tag: 3 }),
            Syscall::WRITE => {
                let mode = match m.fetch::<u8>() {
                    Ok(v) => v,
                    Err(e) => {
                        return Err(e);
                    },
                };
                let start = match m.fetch::<u16>() {
                    Ok(v) => v,
                    Err(e) => {
                        return Err(e);
                    },
                };
                let len = match m.fetch::<u16>() {
                    Ok(v) => v,
                    Err(e) => {
                        return Err(e);
                    },
                };
                if mode != 1 {
                    return Err(VmError::UnsupportedMode { mode });
                }
                let s = start as usize;
                let l = len as usize;
                if s + l > DATA_LENGTH {
                    return Err(VmError::BoundsError { index: s + l, capacity: DATA_LENGTH });
                }
                let mut buf: Vec<u8> = Vec::new();
                let mut i: usize = 0;
                while i < l
                    invariant
                        m.wf(),
                        s + l <= DATA_LENGTH,
                        i <= l,
                        buf@.len() == i,
                        forall|j: int| 0 <= j < i ==> buf@[j] == m@.data[s + j],
                    decreases l - i,
                {
                    buf.push(m.get_data_byte(s + i));
                    i = i + 1;
                }
                proof {
                    assert(buf@ =~= m@.data.subrange(s as int, s as int + l as int));
                }
                if utf8_valid(buf.as_slice()) {
                    m.push_output(&mut buf);
                    Ok(())
                } else {
                    Err(VmError::InvalidEncoding)
                }
            },
        }
    }
}

} // verus!
