//! The macro preprocessor and assembler: expands macro directives line by
//! line, tokenizes instruction lines, resolves each token to one byte, and
//! splits the output into a code stream and a data stream.

use vstd::prelude::*;
use vstd::utf8::encode_utf8;

use crate::error::{VmError, VmErrorView};
use crate::fetch::{register_tag, spec_register_of_mnemonic};
use crate::Register;
use crate::macros::{
    define_macro, define_macro_func, expand_line, spec_expand, spec_func_of, spec_subst_of,
    Macs, MacView, MACRO_EXPANSION_LIMIT,
};
use crate::opcode::{opcode_tag, spec_opcode_of_mnemonic, OpCode};
use crate::syscall::{spec_syscall_of_mnemonic, syscall_tag, Syscall};
use crate::text::{
    bytes_eq, copy_range, parse_dec, parse_hex, spec_parse_dec, spec_parse_hex,
    spec_starts_with, spec_tokens, spec_trim, starts_with, tokenize, trim,
};

verus! {

/// The `;` that introduces a comment line.
pub open spec fn spec_semi() -> Seq<u8> {
    seq![';' as u8]
}

/// The `!` that introduces a macro directive or invocation.
pub open spec fn spec_bang() -> Seq<u8> {
    seq!['!' as u8]
}

/// The `$` prefix of a base-10 immediate.
pub open spec fn spec_dollar() -> Seq<u8> {
    seq!['$' as u8]
}

/// The `0x` prefix of a base-16 immediate.
pub open spec fn spec_hex_prefix() -> Seq<u8> {
    seq!['0' as u8, 'x' as u8]
}

/// The `[[DATA]]` marker that switches the assembler into data mode.
pub open spec fn spec_data_marker() -> Seq<u8> {
    seq![
        '[' as u8,
        '[' as u8,
        'D' as u8,
        'A' as u8,
        'T' as u8,
        'A' as u8,
        ']' as u8,
        ']' as u8,
    ]
}

/// Exec mirror of [`spec_data_marker`].
pub fn data_marker_token() -> (v: Vec<u8>)
    ensures
        v@ == spec_data_marker(),
{
    vec![
        '[' as u8,
        '[' as u8,
        'D' as u8,
        'A' as u8,
        'T' as u8,
        'A' as u8,
        ']' as u8,
        ']' as u8,
    ]
}

/// The `!define_macro` directive token.
pub open spec fn spec_define_macro_tok() -> Seq<u8> {
    spec_bang() + spec_define_macro_letters()
}

/// The letters of `define_macro`, used by both directive tokens.
pub open spec fn spec_define_macro_letters() -> Seq<u8> {
    seq![
        'd' as u8,
        'e' as u8,
        'f' as u8,
        'i' as u8,
        'n' as u8,
        'e' as u8,
        '_' as u8,
        'm' as u8,
        'a' as u8,
        'c' as u8,
        'r' as u8,
        'o' as u8,
    ]
}

/// The `!define_macro_func` directive token.
pub open spec fn spec_define_macro_func_tok() -> Seq<u8> {
    spec_define_macro_tok() + seq!['_' as u8, 'f' as u8, 'u' as u8, 'n' as u8, 'c' as u8]
}

/// Exec mirror of [`spec_define_macro_tok`].
pub fn define_macro_token() -> (v: Vec<u8>)
    ensures
        v@ == spec_define_macro_tok(),
{
    let v = vec![
        '!' as u8,
        'd' as u8,
        'e' as u8,
        'f' as u8,
        'i' as u8,
        'n' as u8,
        'e' as u8,
        '_' as u8,
        'm' as u8,
        'a' as u8,
        'c' as u8,
        'r' as u8,
        'o' as u8,
    ];
    proof {
        assert(v@ =~= spec_define_macro_tok());
    }
    v
}

/// Exec mirror of [`spec_define_macro_func_tok`].
pub fn define_macro_func_token() -> (v: Vec<u8>)
    ensures
        v@ == spec_define_macro_func_tok(),
{
    let v = vec![
        '!' as u8,
        'd' as u8,
        'e' as u8,
        'f' as u8,
        'i' as u8,
        'n' as u8,
        'e' as u8,
        '_' as u8,
        'm' as u8,
        'a' as u8,
        'c' as u8,
        'r' as u8,
        'o' as u8,
        '_' as u8,
        'f' as u8,
        'u' as u8,
        'n' as u8,
        'c' as u8,
    ];
    proof {
        assert(v@ =~= spec_define_macro_func_tok());
    }
    v
}

/// The byte one source token contributes to the code stream.
///
/// Classification tries the explicit prefix forms first (`$` base-10,
/// `0x` base-16), then the three mnemonic tables, then a bare base-10
/// immediate; anything else is an unknown token.  A resolved mnemonic
/// contributes its table tag; a numeric token contributes its value
/// truncated to the low 8 bits.
pub open spec fn spec_token_byte(t: Seq<u8>) -> Result<u8, VmErrorView> {
    if spec_starts_with(t, spec_dollar()) {
        match spec_parse_dec(t.drop_first()) {
            Some(v) => Ok((v % 256) as u8),
            None => Err(VmErrorView::UnknownToken { text: t }),
        }
    } else if spec_starts_with(t, spec_hex_prefix()) {
        match spec_parse_hex(t.skip(2)) {
            Some(v) => Ok((v % 256) as u8),
            None => Err(VmErrorView::UnknownToken { text: t }),
        }
    } else if spec_opcode_of_mnemonic(t) is Some {
        Ok(opcode_tag(spec_opcode_of_mnemonic(t)->Some_0))
    } else if spec_register_of_mnemonic(t) is Some {
        Ok(register_tag(spec_register_of_mnemonic(t)->Some_0))
    } else if spec_syscall_of_mnemonic(t) is Some {
        Ok(syscall_tag(spec_syscall_of_mnemonic(t)->Some_0))
    } else {
        match spec_parse_dec(t) {
            Some(v) => Ok((v % 256) as u8),
            None => Err(VmErrorView::UnknownToken { text: t }),
        }
    }
}

/// Resolves one source token to its byte, as [`spec_token_byte`]
/// describes.
pub fn token_byte(tok: &[u8]) -> (r: Result<u8, VmError>)
    ensures
        match r {
            Ok(b) => spec_token_byte(tok@) == Ok::<u8, VmErrorView>(b),
            Err(e) => spec_token_byte(tok@) == Err::<u8, VmErrorView>(e@),
        },
{
    let dollar: Vec<u8> = vec!['$' as u8];
    let hexp: Vec<u8> = vec!['0' as u8, 'x' as u8];
    proof {
        assert(dollar@ =~= spec_dollar());
        assert(hexp@ =~= spec_hex_prefix());
    }
    if starts_with(tok, dollar.as_slice()) {
        let rest = copy_range(tok, 1, tok.len());
        proof {
            assert(rest@ =~= tok@.drop_first());
        }
        match parse_dec(rest.as_slice()) {
            Some(v) => Ok((v % 256) as u8),
            None => {
                let text = copy_range(tok, 0, tok.len());
                proof {
                    assert(text@ =~= tok@);
                }
                Err(VmError::UnknownToken { text })
            },
        }
    } else if starts_with(tok, hexp.as_slice()) {
        let rest = copy_range(tok, 2, tok.len());
        proof {
            assert(rest@ =~= tok@.skip(2));
        }
        match parse_hex(rest.as_slice()) {
            Some(v) => Ok((v % 256) as u8),
            None => {
                let text = copy_range(tok, 0, tok.len());
                proof {
                    assert(text@ =~= tok@);
                }
                Err(VmError::UnknownToken { text })
            },
        }
    } else if let Some(op) = OpCode::from_mnemonic(tok) {
        Ok(op.encode())
    } else if let Some(reg) = Register::from_mnemonic(tok) {
        Ok(reg.encode())
    } else if let Some(sc) = Syscall::from_mnemonic(tok) {
        Ok(sc.encode())
    } else {
        match parse_dec(tok) {
            Some(v) => Ok((v % 256) as u8),
            None => {
                let text = copy_range(tok, 0, tok.len());
                proof {
                    assert(text@ =~= tok@);
                }
                Err(VmError::UnknownToken { text })
            },
        }
    }
}

/// The assembler and the engine agree on the opcode table: every opcode
/// mnemonic resolves to that opcode's tag, and the engine decodes that
/// tag back to the same opcode.
pub proof fn lemma_opcode_mnemonic_coherent()
    ensures
        forall|op: OpCode|
            #![auto]
            spec_token_byte(crate::opcode::spec_opcode_mnemonic(op)) == Ok::<u8, VmErrorView>(
                opcode_tag(op),
            ) && crate::opcode::opcode_of_byte(opcode_tag(op)) == Some(op),
{
    assert forall|op: OpCode|
        #![auto]
        spec_token_byte(crate::opcode::spec_opcode_mnemonic(op)) == Ok::<u8, VmErrorView>(
            opcode_tag(op),
        ) && crate::opcode::opcode_of_byte(opcode_tag(op)) == Some(op) by {
        let t = crate::opcode::spec_opcode_mnemonic(op);
        assert(t[0] != '$' as u8 && t[0] != '0' as u8);
        if spec_starts_with(t, spec_dollar()) {
            crate::text::lemma_starts_with_first(t, spec_dollar());
        }
        if spec_starts_with(t, spec_hex_prefix()) {
            crate::text::lemma_starts_with_first(t, spec_hex_prefix());
        }
        assert(!spec_starts_with(t, spec_dollar()));
        assert(!spec_starts_with(t, spec_hex_prefix()));
        assert(spec_opcode_of_mnemonic(t) == Some(op));
    }
}

/// The assembler and the engine agree on the register table, for every
/// named register.
pub proof fn lemma_register_mnemonic_coherent()
    ensures
        forall|r: Register|
            #![auto]
            r != Register::RegisterCount ==> spec_token_byte(
                crate::fetch::spec_register_mnemonic(r),
            ) == Ok::<u8, VmErrorView>(register_tag(r)) && crate::fetch::register_of_byte(
                register_tag(r),
            ) == Some(r),
{
    assert forall|r: Register|
        #![auto]
        r != Register::RegisterCount implies spec_token_byte(
        crate::fetch::spec_register_mnemonic(r),
    ) == Ok::<u8, VmErrorView>(register_tag(r)) && crate::fetch::register_of_byte(
        register_tag(r),
    ) == Some(r) by {
        let t = crate::fetch::spec_register_mnemonic(r);
        assert(t[0] != '$' as u8 && t[0] != '0' as u8);
        if spec_starts_with(t, spec_dollar()) {
            crate::text::lemma_starts_with_first(t, spec_dollar());
        }
        if spec_starts_with(t, spec_hex_prefix()) {
            crate::text::lemma_starts_with_first(t, spec_hex_prefix());
        }
        assert(!spec_starts_with(t, spec_dollar()));
        assert(!spec_starts_with(t, spec_hex_prefix()));
        assert(spec_opcode_of_mnemonic(t) is None);
        assert(spec_register_of_mnemonic(t) == Some(r));
    }
}

/// The assembler and the engine agree on the syscall table.
pub proof fn lemma_syscall_mnemonic_coherent()
    ensures
        forall|s: Syscall|
            #![auto]
            spec_token_byte(crate::syscall::spec_syscall_mnemonic(s)) == Ok::<u8, VmErrorView>(
                syscall_tag(s),
            ) && crate::syscall::syscall_of_byte(syscall_tag(s)) == Some(s),
{
    assert forall|s: Syscall|
        #![auto]
        spec_token_byte(crate::syscall::spec_syscall_mnemonic(s)) == Ok::<u8, VmErrorView>(
            syscall_tag(s),
        ) && crate::syscall::syscall_of_byte(syscall_tag(s)) == Some(s) by {
        let t = crate::syscall::spec_syscall_mnemonic(s);
        assert(t[0] != '$' as u8 && t[0] != '0' as u8);
        if spec_starts_with(t, spec_dollar()) {
            crate::text::lemma_starts_with_first(t, spec_dollar());
        }
        if spec_starts_with(t, spec_hex_prefix()) {
            crate::text::lemma_starts_with_first(t, spec_hex_prefix());
        }
        assert(!spec_starts_with(t, spec_dollar()));
        assert(!spec_starts_with(t, spec_hex_prefix()));
        assert(spec_opcode_of_mnemonic(t) is None);
        assert(spec_register_of_mnemonic(t) is None);
        assert(spec_syscall_of_mnemonic(t) == Some(s));
    }
}

/// The bytes a token list contributes to the code stream, stopping at the
/// first unresolvable token.
pub open spec fn spec_tokens_bytes(ts: Seq<Seq<u8>>) -> Result<Seq<u8>, VmErrorView>
    decreases ts.len(),
{
    if ts.len() == 0 {
        Ok(Seq::empty())
    } else {
        match spec_token_byte(ts[0]) {
            Err(e) => Err(e),
            Ok(b) => match spec_tokens_bytes(ts.drop_first()) {
                Err(e) => Err(e),
                Ok(bs) => Ok(seq![b] + bs),
            },
        }
    }
}

/// Resolves a token list to its bytes, aborting on the first
/// unresolvable token.
pub fn assemble_tokens(toks: &Vec<Vec<u8>>) -> (r: Result<Vec<u8>, VmError>)
    ensures
        match r {
            Ok(v) => spec_tokens_bytes(toks.deep_view()) == Ok::<Seq<u8>, VmErrorView>(v@),
            Err(e) => spec_tokens_bytes(toks.deep_view()) == Err::<Seq<u8>, VmErrorView>(e@),
        },
{
    let n = toks.len();
    let mut out: Vec<u8> = Vec::new();
    let mut i: usize = 0;
    proof {
        assert(toks.deep_view().skip(0) =~~= toks.deep_view());
    }
    while i < n
        invariant
            i <= n,
            n == toks@.len(),
            toks.deep_view().len() == n,
            ({
                let full = spec_tokens_bytes(toks.deep_view());
                let rest = spec_tokens_bytes(toks.deep_view().skip(i as int));
                match rest {
                    Ok(bs) => full == Ok::<Seq<u8>, VmErrorView>(out@ + bs),
                    Err(e) => full == Err::<Seq<u8>, VmErrorView>(e),
                }
            }),
        decreases n - i,
    {
        proof {
            assert(toks.deep_view()[i as int] =~= toks@[i as int]@);
            assert(toks.deep_view().skip(i as int)[0] == toks.deep_view()[i as int]);
            assert(toks.deep_view().skip(i as int).drop_first() =~~= toks.deep_view().skip(
                i + 1,
            ));
        }
        match token_byte(toks[i].as_slice()) {
            Err(e) => {
                return Err(e);
            },
            Ok(b) => {
                let ghost pre = out@;
                out.push(b);
                proof {
                    if let Ok(bs) = spec_tokens_bytes(toks.deep_view().skip(i + 1)) {
                        assert(pre + (seq![b] + bs) =~= out@ + bs);
                    }
                }
            },
        }
        i = i + 1;
    }
    proof {
        assert(spec_tokens_bytes(toks.deep_view().skip(n as int)) == Ok::<Seq<u8>, VmErrorView>(
            Seq::empty(),
        ));
        assert(out@ + Seq::<u8>::empty() =~= out@);
    }
    Ok(out)
}

/// The assembler's running state: the recorded macros, whether data mode
/// has been entered, and the two output streams built so far.
pub ghost struct AsmState {
    pub macs: Seq<(Seq<u8>, MacView)>,
    pub in_data: bool,
    pub code: Seq<u8>,
    pub data: Seq<u8>,
}

/// A non-directive line after macro expansion.  The `[[DATA]]` marker
/// switches to data mode for good and appends its trailing text (trimmed,
/// with a zero terminator) to the data stream; in data mode every line is
/// appended that way; otherwise the line is tokenized and resolved into
/// code bytes.
pub open spec fn spec_plain_line(st: AsmState, line: Seq<u8>) -> Result<AsmState, VmErrorView> {
    if spec_starts_with(line, spec_data_marker()) {
        Ok(
            AsmState {
                in_data: true,
                data: st.data + spec_trim(line.skip(spec_data_marker().len() as int)) + seq![0u8],
                ..st
            },
        )
    } else if st.in_data {
        Ok(AsmState { data: st.data + spec_trim(line) + seq![0u8], ..st })
    } else {
        match spec_tokens_bytes(spec_tokens(line)) {
            Err(e) => Err(e),
            Ok(bs) => Ok(AsmState { code: st.code + bs, ..st }),
        }
    }
}

/// One source line.  Comment lines are skipped; the two definition
/// directives record a macro (one without a name records nothing); a line
/// beginning with `!` is macro-expanded first; everything else is a plain
/// line.
pub open spec fn spec_line(st: AsmState, line: Seq<u8>) -> Result<AsmState, VmErrorView> {
    let toks = spec_tokens(line);
    if spec_starts_with(line, spec_semi()) {
        Ok(st)
    } else if toks.len() > 0 && toks[0] == spec_define_macro_func_tok() {
        if toks.len() >= 2 {
            Ok(AsmState { macs: st.macs.push((toks[1], spec_func_of(toks.skip(2)))), ..st })
        } else {
            Ok(st)
        }
    } else if toks.len() > 0 && toks[0] == spec_define_macro_tok() {
        if toks.len() >= 2 {
            Ok(AsmState { macs: st.macs.push((toks[1], spec_subst_of(toks.skip(2)))), ..st })
        } else {
            Ok(st)
        }
    } else if spec_starts_with(line, spec_bang()) {
        match spec_expand(line, st.macs, MACRO_EXPANSION_LIMIT as nat) {
            Err(e) => Err(e),
            Ok(line2) => spec_plain_line(st, line2),
        }
    } else {
        spec_plain_line(st, line)
    }
}

/// A whole source, line by line; the first failing line stops the pass,
/// with the state as it stood before that line.
pub open spec fn spec_lines(st: AsmState, lines: Seq<Seq<u8>>) -> (AsmState, Option<
    VmErrorView,
>)
    decreases lines.len(),
{
    if lines.len() == 0 {
        (st, None)
    } else {
        match spec_line(st, lines[0]) {
            Err(e) => (st, Some(e)),
            Ok(st2) => spec_lines(st2, lines.drop_first()),
        }
    }
}

/// The abstract state of a preprocessor: its input lines as bytes and
/// what one pass has produced so far.
pub ghost struct PpView {
    pub lines: Seq<Seq<u8>>,
    pub code: Seq<u8>,
    pub data: Seq<u8>,
    pub macs: Seq<(Seq<u8>, MacView)>,
}

/// The macro preprocessor and assembler.  Holds the input lines, the
/// code and data streams built by [`PreProcessor::parse`], and the
/// recorded macros.
pub struct PreProcessor {
    lines: Vec<Vec<u8>>,
    memory: Vec<u8>,
    data: Vec<u8>,
    macs: Macs,
}

impl View for PreProcessor {
    type V = PpView;

    closed spec fn view(&self) -> PpView {
        PpView {
            lines: self.lines.deep_view(),
            code: self.memory@,
            data: self.data@,
            macs: self.macs@,
        }
    }
}

impl PreProcessor {
    /// Takes the source over, line by line, as the UTF-8 bytes of each
    /// line; nothing is produced yet and no macro is recorded.
    pub fn new(lines: Vec<String>) -> (pp: PreProcessor)
        ensures
            pp@.lines.len() == lines@.len(),
            forall|i: int|
                0 <= i < lines@.len() ==> pp@.lines[i] == encode_utf8(#[trigger] lines@[i]@),
            pp@.code =~= Seq::<u8>::empty(),
            pp@.data =~= Seq::<u8>::empty(),
            pp@.macs =~= Seq::<(Seq<u8>, MacView)>::empty(),
    {
        let n = lines.len();
        let mut byte_lines: Vec<Vec<u8>> = Vec::new();
        let mut i: usize = 0;
        while i < n
            invariant
                i <= n,
                n == lines@.len(),
                byte_lines.deep_view().len() == i,
                forall|j: int|
                    0 <= j < i ==> byte_lines.deep_view()[j] == encode_utf8(
                        #[trigger] lines@[j]@,
                    ),
            decreases n - i,
        {
            let bs = lines[i].as_str().as_bytes_vec();
            let ghost before = byte_lines.deep_view();
            byte_lines.push(bs);
            proof {
                assert(byte_lines.deep_view() =~~= before.push(bs@));
            }
            i = i + 1;
        }
        PreProcessor { lines: byte_lines, memory: Vec::new(), data: Vec::new(), macs: Macs::new() }
    }

    /// The code stream one pass has produced.
    pub fn memory(&self) -> (m: &Vec<u8>)
        ensures
            m@ == self@.code,
    {
        &self.memory
    }

    /// The data stream one pass has produced.
    pub fn data(&self) -> (d: &Vec<u8>)
        ensures
            d@ == self@.data,
    {
        &self.data
    }

    /// One preprocessing and assembly pass over the input lines, exactly
    /// as [`spec_lines`] describes, starting from the macros recorded so
    /// far with empty streams.  On success the produced code and data
    /// streams are appended to the stored ones; the first failing line
    /// aborts the pass, leaving the streams as they were and the macros
    /// as recorded up to that line.
    pub fn parse(&mut self) -> (r: Result<(), VmError>)
        ensures
            final(self)@.lines == old(self)@.lines,
            ({
                let init = AsmState {
                    macs: old(self)@.macs,
                    in_data: false,
                    code: Seq::empty(),
                    data: Seq::empty(),
                };
                let (st, err) = spec_lines(init, old(self)@.lines);
                match r {
                    Ok(()) => err is None && final(self)@.code == old(self)@.code + st.code
                        && final(self)@.data == old(self)@.data + st.data && final(self)@.macs
                        == st.macs,
                    Err(e) => err == Some(e@) && final(self)@.code == old(self)@.code
                        && final(self)@.data == old(self)@.data && final(self)@.macs == st.macs,
                }
            }),
    {
        let ghost lines0 = self@.lines;
        let ghost init = AsmState {
            macs: self@.macs,
            in_data: false,
            code: Seq::empty(),
            data: Seq::empty(),
        };
        let n = self.lines.len();
        let mut code: Vec<u8> = Vec::new();
        let mut data: Vec<u8> = Vec::new();
        let mut in_data = false;
        let mut i: usize = 0;
        proof {
            assert(lines0.skip(0) =~~= lines0);
        }
        while i < n
            invariant
                i <= n,
                n == self.lines@.len(),
                lines0 == old(self)@.lines,
                init == (AsmState {
                    macs: old(self)@.macs,
                    in_data: false,
                    code: Seq::<u8>::empty(),
                    data: Seq::<u8>::empty(),
                }),
                self@.lines == lines0,
                self@.code == old(self)@.code,
                self@.data == old(self)@.data,
                spec_lines(init, lines0) == spec_lines(
                    AsmState { macs: self@.macs, in_data, code: code@, data: data@ },
                    lines0.skip(i as int),
                ),
            decreases n - i,
        {
            let ghost cur = AsmState { macs: self@.macs, in_data, code: code@, data: data@ };
            proof {
                assert(lines0.skip(i as int)[0] == lines0[i as int]);
                assert(lines0.skip(i as int).drop_first() =~~= lines0.skip(i + 1));
            }
            let line = copy_range(self.lines[i].as_slice(), 0, self.lines[i].len());
            proof {
                assert(line@ =~= lines0[i as int]);
            }
            match exec_line(&mut self.macs, &mut in_data, &mut code, &mut data, &line) {
                Ok(()) => {},
                Err(e) => {
                    proof {
                        assert(spec_line(cur, lines0[i as int]) == Err::<AsmState, VmErrorView>(
                            e@,
                        ));
                        assert(spec_lines(cur, lines0.skip(i as int)) == (cur, Some(e@)));
                    }
                    return Err(e);
                },
            }
            i = i + 1;
        }
        proof {
            assert(lines0.skip(n as int) =~~= Seq::<Seq<u8>>::empty());
        }
        let mut code_final = code;
        let mut data_final = data;
        self.memory.append(&mut code_final);
        self.data.append(&mut data_final);
        Ok(())
    }
}

/// Processes one source line against the assembler's running state,
/// exactly as [`spec_line`] describes; a failing line leaves the state
/// untouched.
fn exec_line(
    macs: &mut Macs,
    in_data: &mut bool,
    code: &mut Vec<u8>,
    data: &mut Vec<u8>,
    line: &Vec<u8>,
) -> (r: Result<(), VmError>)
    ensures
        ({
            let st0 = AsmState {
                macs: old(macs)@,
                in_data: *old(in_data),
                code: old(code)@,
                data: old(data)@,
            };
            let st1 = AsmState {
                macs: final(macs)@,
                in_data: *final(in_data),
                code: final(code)@,
                data: final(data)@,
            };
            match r {
                Ok(()) => spec_line(st0, line@) == Ok::<AsmState, VmErrorView>(st1),
                Err(e) => spec_line(st0, line@) == Err::<AsmState, VmErrorView>(e@) && st1 == st0,
            }
        }),
{
    let semi: Vec<u8> = vec![';' as u8];
    let bang: Vec<u8> = vec!['!' as u8];
    proof {
        assert(semi@ =~= spec_semi());
        assert(bang@ =~= spec_bang());
    }
    if starts_with(line.as_slice(), semi.as_slice()) {
        return Ok(());
    }
    let toks = tokenize(line.as_slice());
    proof {
        if toks.deep_view().len() > 0 {
            assert(toks.deep_view()[0] =~= toks@[0]@);
        }
    }
    let dmf_tok = define_macro_func_token();
    if toks.len() > 0 && bytes_eq(toks[0].as_slice(), dmf_tok.as_slice()) {
        match define_macro_func(&toks) {
            Some(pair) => {
                macs.insert(pair.0, pair.1);
            },
            None => {},
        }
        return Ok(());
    }
    let dm_tok = define_macro_token();
    if toks.len() > 0 && bytes_eq(toks[0].as_slice(), dm_tok.as_slice()) {
        match define_macro(&toks) {
            Some(pair) => {
                macs.insert(pair.0, pair.1);
            },
            None => {},
        }
        return Ok(());
    }
    let expanded: bool = starts_with(line.as_slice(), bang.as_slice());
    let line2 = if expanded {
        match expand_line(line, macs) {
            Ok(l) => l,
            Err(e) => {
                return Err(e);
            },
        }
    } else {
        copy_range(line.as_slice(), 0, line.len())
    };
    proof {
        if !expanded {
            assert(line2@ =~= line@);
        }
    }
    exec_plain_line(in_data, code, data, &line2)
}

/// Processes one expanded, non-directive line, exactly as
/// [`spec_plain_line`] describes.
fn exec_plain_line(in_data: &mut bool, code: &mut Vec<u8>, data: &mut Vec<u8>, line: &Vec<
    u8,
>) -> (r: Result<(), VmError>)
    ensures
        ({
            let st0 = AsmState {
                macs: Seq::empty(),
                in_data: *old(in_data),
                code: old(code)@,
                data: old(data)@,
            };
            let st1 = AsmState {
                macs: Seq::empty(),
                in_data: *final(in_data),
                code: final(code)@,
                data: final(data)@,
            };
            match r {
                Ok(()) => spec_plain_line(st0, line@) == Ok::<AsmState, VmErrorView>(st1),
                Err(e) => spec_plain_line(st0, line@) == Err::<AsmState, VmErrorView>(e@) && st1
                    == st0,
            }
        }),
{
    let marker = data_marker_token();
    if starts_with(line.as_slice(), marker.as_slice()) {
        *in_data = true;
        let rest = copy_range(line.as_slice(), marker.len(), line.len());
        proof {
            assert(rest@ =~= line@.skip(spec_data_marker().len() as int));
        }
        let mut t = trim(rest.as_slice());
        let ghost d0 = data@;
        let ghost t0 = t@;
        data.append(&mut t);
        data.push(0);
        proof {
            assert(data@ =~= d0 + t0 + seq![0u8]);
        }
        Ok(())
    } else if *in_data {
        let mut t = trim(line.as_slice());
        let ghost d0 = data@;
        let ghost t0 = t@;
        data.append(&mut t);
        data.push(0);
        proof {
            assert(data@ =~= d0 + t0 + seq![0u8]);
        }
        Ok(())
    } else {
        let toks = tokenize(line.as_slice());
        match assemble_tokens(&toks) {
            Ok(mut bs) => {
                code.append(&mut bs);
                Ok(())
            },
            Err(e) => Err(e),
        }
    }
}

} // verus!
