use novavm::error::{StreamKind, TargetKind, VmError};
use novavm::opcode::OpCode;
use novavm::syscall::Syscall;
use novavm::{Machine, Register, DATA_LENGTH, MEMORY_LENGTH};

fn run_to_halt(m: &mut Machine) {
    let mut steps = 0;
    while !m.halt {
        m.step().expect("no fault expected");
        steps += 1;
        assert!(steps <= 10_000, "program did not halt");
    }
}

#[test]
fn opcode_byte_round_trip() {
    let ops = [
        OpCode::HALT,
        OpCode::NOP,
        OpCode::ADD,
        OpCode::SUB,
        OpCode::MUL,
        OpCode::DIV,
        OpCode::PUSH,
        OpCode::POP,
        OpCode::SWAP,
        OpCode::SYSCALL,
    ];
    for op in ops {
        let b = op.encode();
        assert_eq!(OpCode::decode(b), Ok(op));
    }
    assert_eq!(OpCode::decode(0x00), Ok(OpCode::HALT));
    assert_eq!(OpCode::decode(0x50), Ok(OpCode::ADD));
    assert_eq!(OpCode::decode(0x62), Ok(OpCode::SWAP));
}

#[test]
fn opcode_rejects_unmapped_bytes() {
    for b in [0x02u8, 0x10, 0x54, 0x63, 0x71, 0xFF] {
        assert_eq!(
            OpCode::decode(b),
            Err(VmError::DecodeError { byte: b, target_kind: TargetKind::OpCode })
        );
    }
}

#[test]
fn register_byte_round_trip() {
    let regs = [
        Register::A,
        Register::B,
        Register::C,
        Register::M,
        Register::SP,
        Register::PC,
        Register::FLAGS,
    ];
    for (i, r) in regs.into_iter().enumerate() {
        assert_eq!(r.encode(), i as u8);
        assert_eq!(Register::decode(i as u8), Ok(r));
    }
}

#[test]
fn register_rejects_unmapped_bytes() {
    for b in [7u8, 8, 100, 0xFF] {
        assert_eq!(
            Register::decode(b),
            Err(VmError::DecodeError { byte: b, target_kind: TargetKind::Register })
        );
    }
}

#[test]
fn syscall_byte_round_trip() {
    for s in [Syscall::EXIT, Syscall::READ, Syscall::WRITE] {
        assert_eq!(Syscall::decode(s.encode()), Ok(s));
    }
    assert_eq!(Syscall::decode(1), Ok(Syscall::EXIT));
    assert_eq!(Syscall::decode(3), Ok(Syscall::READ));
    assert_eq!(Syscall::decode(4), Ok(Syscall::WRITE));
}

#[test]
fn syscall_rejects_unmapped_bytes() {
    for b in [0u8, 2, 5, 0xFF] {
        assert_eq!(
            Syscall::decode(b),
            Err(VmError::DecodeError { byte: b, target_kind: TargetKind::Syscall })
        );
    }
}

#[test]
fn syscall_arity_is_declared() {
    assert_eq!(Syscall::EXIT.required_args_count(), 0);
    assert_eq!(Syscall::READ.required_args_count(), 2);
    assert_eq!(Syscall::WRITE.required_args_count(), 3);
}

#[test]
fn halt_sets_flag_and_touches_no_register() {
    let mut m = Machine::new();
    m.set_memory(&[0x00]).unwrap();
    assert_eq!(m.step(), Ok(()));
    assert!(m.halt);
    for r in [Register::A, Register::B, Register::C, Register::M, Register::SP, Register::FLAGS] {
        assert_eq!(m.get_register(r), 0);
    }
    assert_eq!(m.get_register(Register::PC), 1);
}

#[test]
fn add_computes_and_advances_pc() {
    let mut m = Machine::new();
    // ADD A 5 3
    m.set_memory(&[0x50, 0x00, 0x05, 0x03]).unwrap();
    assert_eq!(m.step(), Ok(()));
    assert_eq!(m.get_register(Register::A), 8);
    assert_eq!(m.get_register(Register::PC), 4);
    assert!(!m.halt);
}

#[test]
fn sub_and_mul_compute() {
    let mut m = Machine::new();
    // SUB B 9 4 ; MUL C 6 7
    m.set_memory(&[0x51, 0x01, 0x09, 0x04, 0x52, 0x02, 0x06, 0x07]).unwrap();
    assert_eq!(m.step(), Ok(()));
    assert_eq!(m.get_register(Register::B), 5);
    assert_eq!(m.step(), Ok(()));
    assert_eq!(m.get_register(Register::C), 42);
}

#[test]
fn sub_wraps_modulo_register_width() {
    let mut m = Machine::new();
    // SUB A 5 10
    m.set_memory(&[0x51, 0x00, 0x05, 0x0A]).unwrap();
    assert_eq!(m.step(), Ok(()));
    assert_eq!(m.get_register(Register::A), 0xFFFB);
}

#[test]
fn div_computes() {
    let mut m = Machine::new();
    // DIV M 14 3
    m.set_memory(&[0x53, 0x03, 0x0E, 0x03]).unwrap();
    assert_eq!(m.step(), Ok(()));
    assert_eq!(m.get_register(Register::M), 4);
}

#[test]
fn div_by_zero_faults_without_mutating_register() {
    let mut m = Machine::new();
    // ADD A 40 2 ; DIV A 5 0
    m.set_memory(&[0x50, 0x00, 40, 2, 0x53, 0x00, 0x05, 0x00]).unwrap();
    assert_eq!(m.step(), Ok(()));
    assert_eq!(m.get_register(Register::A), 42);
    assert_eq!(m.step(), Err(VmError::ArithmeticError { op: OpCode::DIV }));
    assert_eq!(m.get_register(Register::A), 42);
    assert!(!m.halt);
}

#[test]
fn push_pop_move_through_stack_pointer() {
    let mut m = Machine::new();
    // ADD A 7 0 ; PUSH A ; POP B
    m.set_memory(&[0x50, 0x00, 0x07, 0x00, 0x60, 0x00, 0x61, 0x01]).unwrap();
    assert_eq!(m.step(), Ok(()));
    assert_eq!(m.step(), Ok(()));
    assert_eq!(m.get_register(Register::SP), 7);
    assert_eq!(m.step(), Ok(()));
    assert_eq!(m.get_register(Register::B), 7);
    assert_eq!(m.get_register(Register::A), 7);
    assert_eq!(m.get_register(Register::C), 0);
    assert_eq!(m.get_register(Register::M), 0);
    assert_eq!(m.get_register(Register::FLAGS), 0);
}

#[test]
fn swap_exchanges_and_is_idempotent_when_doubled() {
    let mut m = Machine::new();
    // ADD A 1 0 ; ADD B 2 0 ; SWAP A B ; SWAP A B
    m.set_memory(&[0x50, 0x00, 1, 0, 0x50, 0x01, 2, 0, 0x62, 0x00, 0x01, 0x62, 0x00, 0x01])
        .unwrap();
    assert_eq!(m.step(), Ok(()));
    assert_eq!(m.step(), Ok(()));
    assert_eq!(m.step(), Ok(()));
    assert_eq!(m.get_register(Register::A), 2);
    assert_eq!(m.get_register(Register::B), 1);
    assert_eq!(m.step(), Ok(()));
    assert_eq!(m.get_register(Register::A), 1);
    assert_eq!(m.get_register(Register::B), 2);
}

#[test]
fn writing_the_program_counter_jumps() {
    let mut m = Machine::new();
    // ADD PC 0 0 : the destination register is the program counter itself
    m.set_memory(&[0x50, 0x05, 0x00, 0x00]).unwrap();
    assert_eq!(m.step(), Ok(()));
    assert_eq!(m.get_register(Register::PC), 0);
    // stepping again re-executes the same instruction
    assert_eq!(m.step(), Ok(()));
    assert_eq!(m.get_register(Register::PC), 0);
}

#[test]
fn unmapped_opcode_byte_faults_with_decode_error() {
    let mut m = Machine::new();
    m.set_memory(&[0x42]).unwrap();
    assert_eq!(
        m.step(),
        Err(VmError::DecodeError { byte: 0x42, target_kind: TargetKind::OpCode })
    );
    assert!(!m.halt);
}

#[test]
fn unmapped_register_byte_faults_with_decode_error() {
    let mut m = Machine::new();
    // ADD with register byte 9
    m.set_memory(&[0x50, 0x09, 0x01, 0x01]).unwrap();
    assert_eq!(
        m.step(),
        Err(VmError::DecodeError { byte: 0x09, target_kind: TargetKind::Register })
    );
}

#[test]
fn operand_fetch_past_end_is_bounds_error() {
    let mut code = vec![0x01u8; MEMORY_LENGTH];
    code[MEMORY_LENGTH - 1] = 0x50;
    let mut m = Machine::new();
    m.set_memory(&code).unwrap();
    // walk to the last byte
    for _ in 0..MEMORY_LENGTH - 1 {
        assert_eq!(m.step(), Ok(()));
    }
    assert_eq!(
        m.step(),
        Err(VmError::BoundsError { index: MEMORY_LENGTH, capacity: MEMORY_LENGTH })
    );
}

#[test]
fn pc_at_capacity_halts_without_fault() {
    let code = vec![0x01u8; MEMORY_LENGTH];
    let mut m = Machine::new();
    m.set_memory(&code).unwrap();
    for _ in 0..MEMORY_LENGTH {
        assert_eq!(m.step(), Ok(()));
        assert!(!m.halt);
    }
    assert_eq!(m.get_register(Register::PC), MEMORY_LENGTH as u16);
    assert_eq!(m.step(), Ok(()));
    assert!(m.halt);
}

#[test]
fn syscall_exit_halts() {
    let mut m = Machine::new();
    m.set_memory(&[0x70, 0x01]).unwrap();
    assert_eq!(m.step(), Ok(()));
    assert!(m.halt);
}

#[test]
fn syscall_read_is_not_implemented() {
    let mut m = Machine::new();
    m.set_memory(&[0x70, 0x03]).unwrap();
    assert_eq!(m.step(), Err(VmError::SyscallNotImplemented { tag: 3 }));
}

#[test]
fn syscall_unknown_tag_is_decode_error() {
    let mut m = Machine::new();
    m.set_memory(&[0x70, 0x02]).unwrap();
    assert_eq!(
        m.step(),
        Err(VmError::DecodeError { byte: 0x02, target_kind: TargetKind::Syscall })
    );
}

#[test]
fn write_emits_data_slice() {
    let mut m = Machine::new();
    // SYSCALL WRITE mode=1 start=1 len=2 over data "xhiy"
    m.set_memory(&[0x70, 0x04, 0x01, 0x01, 0x02]).unwrap();
    m.set_data(b"xhiy").unwrap();
    assert_eq!(m.step(), Ok(()));
    assert_eq!(m.output().as_slice(), b"hi");
    assert!(!m.halt);
}

#[test]
fn write_rejects_other_modes() {
    let mut m = Machine::new();
    m.set_memory(&[0x70, 0x04, 0x02, 0x00, 0x01]).unwrap();
    m.set_data(b"a").unwrap();
    assert_eq!(m.step(), Err(VmError::UnsupportedMode { mode: 2 }));
    assert!(m.output().is_empty());
}

#[test]
fn write_rejects_invalid_utf8() {
    let mut m = Machine::new();
    m.set_memory(&[0x70, 0x04, 0x01, 0x00, 0x01]).unwrap();
    m.set_data(&[0xFF]).unwrap();
    assert_eq!(m.step(), Err(VmError::InvalidEncoding));
    assert!(m.output().is_empty());
}

#[test]
fn set_memory_rejects_oversized_code() {
    let mut m = Machine::new();
    let code = vec![0u8; MEMORY_LENGTH + 1];
    assert_eq!(
        m.set_memory(&code),
        Err(VmError::CapacityExceeded {
            what: StreamKind::Code,
            len: MEMORY_LENGTH + 1,
            capacity: MEMORY_LENGTH,
        })
    );
}

#[test]
fn set_data_rejects_oversized_data() {
    let mut m = Machine::new();
    let data = vec![0u8; DATA_LENGTH + 1];
    assert_eq!(
        m.set_data(&data),
        Err(VmError::CapacityExceeded {
            what: StreamKind::Data,
            len: DATA_LENGTH + 1,
            capacity: DATA_LENGTH,
        })
    );
}

#[test]
fn enable_debug_changes_no_behaviour() {
    let mut m = Machine::new();
    m.set_memory(&[0x50, 0x00, 0x05, 0x03, 0x00]).unwrap();
    m.enable_debug();
    assert!(m.debug);
    run_to_halt(&mut m);
    assert_eq!(m.get_register(Register::A), 8);
}
