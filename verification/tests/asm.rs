use novavm::error::VmError;
use novavm::image::{image_lines, parse_image};
use novavm::pp::PreProcessor;
use novavm::{Machine, Register};

fn lines(src: &[&str]) -> Vec<String> {
    src.iter().map(|s| s.to_string()).collect()
}

fn assemble(src: &[&str]) -> PreProcessor {
    let mut pp = PreProcessor::new(lines(src));
    pp.parse().expect("assembly expected to succeed");
    pp
}

#[test]
fn add_line_assembles_to_four_bytes() {
    let pp = assemble(&["ADD A 5 3"]);
    assert_eq!(pp.memory().as_slice(), &[0x50, 0x00, 0x05, 0x03]);
    assert!(pp.data().is_empty());
}

#[test]
fn mnemonics_resolve_to_table_tags() {
    let pp = assemble(&["HALT NOP SUB MUL DIV PUSH POP SWAP SYSCALL"]);
    assert_eq!(
        pp.memory().as_slice(),
        &[0x00, 0x01, 0x51, 0x52, 0x53, 0x60, 0x61, 0x62, 0x70]
    );
    let pp = assemble(&["A B C M SP PC FLAGS"]);
    assert_eq!(pp.memory().as_slice(), &[0, 1, 2, 3, 4, 5, 6]);
    let pp = assemble(&["EXIT READ WRITE"]);
    assert_eq!(pp.memory().as_slice(), &[1, 3, 4]);
}

#[test]
fn numeric_tokens_contribute_their_low_byte() {
    let pp = assemble(&["$5 $300 0x1F 0x1F4 16 256"]);
    assert_eq!(pp.memory().as_slice(), &[5, 0x2C, 0x1F, 0xF4, 16, 0]);
}

#[test]
fn malformed_immediates_are_unknown_tokens() {
    for tok in ["$", "$abc", "$70000", "0x", "0xG1", "0x10000", "12a", "99999999999999999999"] {
        let mut pp = PreProcessor::new(lines(&[tok]));
        assert_eq!(
            pp.parse(),
            Err(VmError::UnknownToken { text: tok.as_bytes().to_vec() }),
            "token {:?}",
            tok
        );
    }
}

#[test]
fn largest_immediates_truncate_to_low_byte() {
    let pp = assemble(&["$65535 0xFFFF"]);
    assert_eq!(pp.memory().as_slice(), &[0xFF, 0xFF]);
}

#[test]
fn comments_and_blank_lines_produce_nothing() {
    let pp = assemble(&["; a comment", "", "NOP"]);
    assert_eq!(pp.memory().as_slice(), &[0x01]);
}

#[test]
fn unknown_token_aborts_assembly() {
    let mut pp = PreProcessor::new(lines(&["NOP", "bogus"]));
    assert_eq!(
        pp.parse(),
        Err(VmError::UnknownToken { text: b"bogus".to_vec() })
    );
    assert!(pp.memory().is_empty());
}

#[test]
fn plain_macro_expands_to_its_text() {
    let direct = assemble(&["0x05"]);
    let expanded = assemble(&["!define_macro FOO => 0x05", "!FOO"]);
    assert_eq!(expanded.memory(), direct.memory());
    assert_eq!(expanded.memory().as_slice(), &[0x05]);
}

#[test]
fn plain_macro_without_arrow_expands_too() {
    let pp = assemble(&["!define_macro TWO NOP NOP", "!TWO"]);
    assert_eq!(pp.memory().as_slice(), &[0x01, 0x01]);
}

#[test]
fn macro_keeps_rest_of_line() {
    let pp = assemble(&["!define_macro OP ADD", "!OP A 5 3"]);
    assert_eq!(pp.memory().as_slice(), &[0x50, 0x00, 0x05, 0x03]);
}

#[test]
fn redefinition_overwrites() {
    let pp = assemble(&["!define_macro N 1", "!define_macro N 2", "!N"]);
    assert_eq!(pp.memory().as_slice(), &[2]);
}

#[test]
fn func_macro_substitutes_positionally() {
    // Only the macro-name prefix is replaced by the substituted body, so
    // the invocation's trailing argument tokens stay on the line.
    let pp = assemble(&["!define_macro_func LOAD R V => ADD R V 0", "!LOAD A $7"]);
    assert_eq!(pp.memory().as_slice(), &[0x50, 0x00, 0x07, 0x00, 0x00, 0x07]);
}

#[test]
fn func_macro_arity_mismatch_is_an_error() {
    let mut pp = PreProcessor::new(lines(&[
        "!define_macro_func INC R => ADD R R 1",
        "!INC A B",
    ]));
    assert_eq!(
        pp.parse(),
        Err(VmError::MacroArityMismatch { expected: 1, got: 2 })
    );
}

#[test]
fn unknown_macro_is_an_error() {
    let mut pp = PreProcessor::new(lines(&["!NOPE A"]));
    assert_eq!(pp.parse(), Err(VmError::UnknownMacro { name: b"NOPE".to_vec() }));
}

#[test]
fn self_referential_macro_hits_the_expansion_limit() {
    let mut pp = PreProcessor::new(lines(&["!define_macro LOOP !LOOP", "!LOOP"]));
    assert_eq!(pp.parse(), Err(VmError::MacroExpansionLimitExceeded));
}

#[test]
fn mutually_referential_macros_hit_the_expansion_limit() {
    let mut pp = PreProcessor::new(lines(&[
        "!define_macro PING !PONG",
        "!define_macro PONG !PING",
        "!PING",
    ]));
    assert_eq!(pp.parse(), Err(VmError::MacroExpansionLimitExceeded));
}

#[test]
fn macro_expanding_into_a_macro_terminates() {
    let pp = assemble(&["!define_macro INNER NOP", "!define_macro OUTER !INNER", "!OUTER"]);
    assert_eq!(pp.memory().as_slice(), &[0x01]);
}

#[test]
fn data_marker_splits_code_and_data() {
    let pp = assemble(&["ADD A 5 3", "[[DATA]] hello"]);
    assert_eq!(pp.memory().as_slice(), &[0x50, 0x00, 0x05, 0x03]);
    assert_eq!(pp.data().as_slice(), b"hello\0");
}

#[test]
fn data_mode_is_never_left() {
    let pp = assemble(&["NOP", "[[DATA]]", "hi", "ADD"]);
    assert_eq!(pp.memory().as_slice(), &[0x01]);
    assert_eq!(pp.data().as_slice(), &[0, b'h', b'i', 0, b'A', b'D', b'D', 0]);
}

#[test]
fn image_round_trips_through_writer_and_loader() {
    let code = vec![0x50u8, 0x00, 0x05, 0x03, 0x00];
    let data = b"hey\0".to_vec();
    let img = image_lines(&code, &data);
    let (code2, data2) = parse_image(&img).expect("canonical image must load");
    assert_eq!(code2, code);
    assert_eq!(data2, data);
}

#[test]
fn image_loader_reads_canonical_tokens() {
    let img: Vec<Vec<u8>> = vec![
        b"0x50 0x00".to_vec(),
        b"  0x05".to_vec(),
        b"0x03".to_vec(),
        b"[[DATA]]".to_vec(),
        b"0x68 0x69".to_vec(),
    ];
    let (code, data) = parse_image(&img).unwrap();
    assert_eq!(code, vec![0x50, 0x00, 0x05, 0x03]);
    assert_eq!(data, vec![0x68, 0x69]);
}

#[test]
fn image_loader_rejects_bad_literals() {
    let img: Vec<Vec<u8>> = vec![b"0xZZ".to_vec()];
    assert_eq!(
        parse_image(&img),
        Err(VmError::InvalidByteLiteral { text: b"0xZZ".to_vec() })
    );
    let img: Vec<Vec<u8>> = vec![b"0x123".to_vec()];
    assert_eq!(
        parse_image(&img),
        Err(VmError::InvalidByteLiteral { text: b"0x123".to_vec() })
    );
    let img: Vec<Vec<u8>> = vec![b"0x500x61".to_vec()];
    assert_eq!(
        parse_image(&img),
        Err(VmError::InvalidByteLiteral { text: b"0x500x61".to_vec() })
    );
}

#[test]
fn assembled_program_runs_end_to_end() {
    let pp = assemble(&["ADD M 16 1", "HALT"]);
    assert_eq!(pp.memory().as_slice(), &[0x50, 0x03, 16, 1, 0x00]);
    let mut m = Machine::new();
    m.set_memory(pp.memory().as_slice()).unwrap();
    m.set_data(pp.data().as_slice()).unwrap();
    let mut steps = 0;
    while !m.halt {
        m.step().expect("no fault expected");
        steps += 1;
        assert!(steps <= 100, "program did not halt");
    }
    assert_eq!(m.get_register(Register::M), 17);
    assert!(m.halt);
}

#[test]
fn assembled_write_program_emits_its_data() {
    let pp = assemble(&["SYSCALL WRITE $1 $0 $5", "SYSCALL EXIT", "[[DATA]] hello"]);
    let mut m = Machine::new();
    m.set_memory(pp.memory().as_slice()).unwrap();
    m.set_data(pp.data().as_slice()).unwrap();
    let mut steps = 0;
    while !m.halt {
        m.step().expect("no fault expected");
        steps += 1;
        assert!(steps <= 100, "program did not halt");
    }
    assert_eq!(m.output().as_slice(), b"hello");
}
