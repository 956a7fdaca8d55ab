//! The textual program-image format: one `0xHH` token per logical byte,
//! whitespace-separated, with a literal `[[DATA]]` line separating the
//! code-byte stream from the data-byte stream.

use vstd::prelude::*;

use crate::error::{VmError, VmErrorView};
use crate::pp::{data_marker_token, spec_data_marker};
use crate::text::{
    bytes_eq, copy_range, hex_digit, hex_digit_value, is_hex_digit, spec_tokens, tokenize,
};

verus! {

/// The ASCII digit of one hexadecimal value, upper case.
pub open spec fn spec_hex_digit_byte(v: int) -> u8
    recommends
        0 <= v < 16,
{
    if v < 10 {
        (48 + v) as u8
    } else {
        (65 + v - 10) as u8
    }
}

/// The canonical two-digit byte literal `0xHH` of one byte.
pub open spec fn spec_byte_literal(b: u8) -> Seq<u8> {
    seq![
        '0' as u8,
        'x' as u8,
        spec_hex_digit_byte(b as int / 16),
        spec_hex_digit_byte(b as int % 16),
    ]
}

/// Exec mirror of [`spec_hex_digit_byte`].
fn hex_digit_byte(v: u8) -> (r: u8)
    requires
        v < 16,
    ensures
        r == spec_hex_digit_byte(v as int),
{
    if v < 10 {
        48 + v
    } else {
        65 + v - 10
    }
}

/// Writes one byte as its canonical `0xHH` literal.
pub fn byte_literal(b: u8) -> (v: Vec<u8>)
    ensures
        v@ == spec_byte_literal(b),
{
    let v = vec!['0' as u8, 'x' as u8, hex_digit_byte(b / 16), hex_digit_byte(b % 16)];
    proof {
        assert(v@ =~= spec_byte_literal(b));
    }
    v
}

/// The byte a canonical image token denotes: exactly `0x` and two
/// hexadecimal digits; everything else, multi-byte literals included, is
/// no byte literal.
pub open spec fn spec_byte_token(t: Seq<u8>) -> Option<u8> {
    if t.len() == 4 && t[0] == '0' as u8 && t[1] == 'x' as u8 && is_hex_digit(t[2])
        && is_hex_digit(t[3]) {
        Some((hex_digit_value(t[2]) * 16 + hex_digit_value(t[3])) as u8)
    } else {
        None
    }
}

/// Reads one image token as a byte literal, as [`spec_byte_token`]
/// describes.
pub fn byte_token(t: &[u8]) -> (r: Option<u8>)
    ensures
        r == spec_byte_token(t@),
{
    if t.len() != 4 {
        return None;
    }
    if t[0] != '0' as u8 || t[1] != 'x' as u8 {
        return None;
    }
    let h = match hex_digit(t[2]) {
        Some(h) => h,
        None => {
            return None;
        },
    };
    let l = match hex_digit(t[3]) {
        Some(l) => l,
        None => {
            return None;
        },
    };
    assert(h < 16 && l < 16);
    Some(h * 16 + l)
}

/// The image text of a program: each code byte as a `0xHH` line, the
/// `[[DATA]]` marker line, then each data byte as a `0xHH` line.
pub open spec fn spec_image_lines(code: Seq<u8>, data: Seq<u8>) -> Seq<Seq<u8>> {
    code.map_values(|b: u8| spec_byte_literal(b)) + seq![spec_data_marker()] + data.map_values(
        |b: u8| spec_byte_literal(b),
    )
}

/// Writes a program image: one line per byte, with the marker line
/// between the code stream and the data stream.
pub fn image_lines(code: &Vec<u8>, data: &Vec<u8>) -> (r: Vec<Vec<u8>>)
    ensures
        r.deep_view() == spec_image_lines(code@, data@),
{
    let mut out: Vec<Vec<u8>> = Vec::new();
    let mut i: usize = 0;
    let n = code.len();
    while i < n
        invariant
            i <= n,
            n == code@.len(),
            out.deep_view() =~~= code@.take(i as int).map_values(|b: u8| spec_byte_literal(b)),
        decreases n - i,
    {
        let ghost before = out.deep_view();
        let lit = byte_literal(code[i]);
        out.push(lit);
        proof {
            assert(out.deep_view() =~~= before.push(lit@));
            assert(before.push(lit@) =~~= code@.take(i + 1).map_values(
                |b: u8| spec_byte_literal(b),
            ));
        }
        i = i + 1;
    }
    let ghost before_marker = out.deep_view();
    out.push(data_marker_token());
    proof {
        assert(code@.take(n as int) =~= code@);
        assert(out.deep_view() =~~= before_marker.push(spec_data_marker()));
    }
    let mut j: usize = 0;
    let m = data.len();
    while j < m
        invariant
            j <= m,
            m == data@.len(),
            out.deep_view() =~~= code@.map_values(|b: u8| spec_byte_literal(b)) + seq![
                spec_data_marker(),
            ] + data@.take(j as int).map_values(|b: u8| spec_byte_literal(b)),
        decreases m - j,
    {
        let ghost before = out.deep_view();
        let lit = byte_literal(data[j]);
        out.push(lit);
        proof {
            assert(out.deep_view() =~~= before.push(lit@));
            assert(before.push(lit@) =~~= code@.map_values(|b: u8| spec_byte_literal(b)) + seq![
                spec_data_marker(),
            ] + data@.take(j + 1).map_values(|b: u8| spec_byte_literal(b)));
        }
        j = j + 1;
    }
    proof {
        assert(data@.take(m as int) =~= data@);
        assert(out.deep_view() =~~= spec_image_lines(code@, data@));
    }
    out
}

/// The loader's running state: whether the marker line has been passed,
/// and the two byte streams read so far.
pub ghost struct ImageState {
    pub in_data: bool,
    pub code: Seq<u8>,
    pub data: Seq<u8>,
}

/// The tokens of one image line folded into the state; the first token
/// that is no canonical byte literal stops the load.
pub open spec fn spec_image_tokens(st: ImageState, ts: Seq<Seq<u8>>) -> Result<
    ImageState,
    VmErrorView,
>
    decreases ts.len(),
{
    if ts.len() == 0 {
        Ok(st)
    } else {
        match spec_byte_token(ts[0]) {
            None => Err(VmErrorView::InvalidByteLiteral { text: ts[0] }),
            Some(b) => spec_image_tokens(
                if st.in_data {
                    ImageState { data: st.data.push(b), ..st }
                } else {
                    ImageState { code: st.code.push(b), ..st }
                },
                ts.drop_first(),
            ),
        }
    }
}

/// One image line: the literal marker line switches to the data stream
/// for good; every other line is a run of byte literals.
pub open spec fn spec_image_line(st: ImageState, line: Seq<u8>) -> Result<
    ImageState,
    VmErrorView,
> {
    let toks = spec_tokens(line);
    if toks == seq![spec_data_marker()] {
        Ok(ImageState { in_data: true, ..st })
    } else {
        spec_image_tokens(st, toks)
    }
}

/// A whole image, line by line; the first failing line stops the load.
pub open spec fn spec_image_fold(st: ImageState, lines: Seq<Seq<u8>>) -> (ImageState, Option<
    VmErrorView,
>)
    decreases lines.len(),
{
    if lines.len() == 0 {
        (st, None)
    } else {
        match spec_image_line(st, lines[0]) {
            Err(e) => (st, Some(e)),
            Ok(st2) => spec_image_fold(st2, lines.drop_first()),
        }
    }
}

/// What a program image denotes: its code bytes and its data bytes, or
/// the first bad byte literal.
pub open spec fn spec_parse_image(lines: Seq<Seq<u8>>) -> (ImageState, Option<VmErrorView>) {
    spec_image_fold(
        ImageState { in_data: false, code: Seq::empty(), data: Seq::empty() },
        lines,
    )
}

/// A token without whitespace is the only token of its own line.
proof fn lemma_single_token(t: Seq<u8>)
    requires
        t.len() > 0,
        forall|j: int| 0 <= j < t.len() ==> !crate::text::is_space(t[j]),
    ensures
        spec_tokens(t) =~~= seq![t],
{
    crate::text::lemma_word_len_is(t, t.len() as int);
    assert(t.take(t.len() as int) =~= t);
    assert(t.skip(t.len() as int) =~= Seq::<u8>::empty());
    assert(spec_tokens(Seq::<u8>::empty()) =~~= Seq::<Seq<u8>>::empty());
}

/// A canonical byte literal reads back as the byte it was written from,
/// and its line holds exactly that one token.
proof fn lemma_byte_literal_round(b: u8)
    ensures
        spec_byte_token(spec_byte_literal(b)) == Some(b),
        spec_tokens(spec_byte_literal(b)) =~~= seq![spec_byte_literal(b)],
        seq![spec_byte_literal(b)] != seq![spec_data_marker()],
{
    let t = spec_byte_literal(b);
    assert(b as int == 16 * (b as int / 16) + (b as int % 16)) by (nonlinear_arith);
    assert forall|j: int| 0 <= j < t.len() implies !crate::text::is_space(t[j]) by {
        assert(t[0] == '0' as u8 && t[1] == 'x' as u8);
    }
    lemma_single_token(t);
    assert(seq![t][0] == t);
    assert(seq![spec_data_marker()][0] == spec_data_marker());
    assert(t.len() != spec_data_marker().len());
}

/// Loading a run of lines that all succeed, then more lines, is loading
/// the runs one after the other.
proof fn lemma_image_fold_concat(st: ImageState, l1: Seq<Seq<u8>>, l2: Seq<Seq<u8>>)
    requires
        spec_image_fold(st, l1).1 is None,
    ensures
        spec_image_fold(st, l1 + l2) == spec_image_fold(spec_image_fold(st, l1).0, l2),
    decreases l1.len(),
{
    if l1.len() == 0 {
        assert(l1 + l2 =~~= l2);
    } else {
        assert((l1 + l2)[0] == l1[0]);
        match spec_image_line(st, l1[0]) {
            Err(e) => {},
            Ok(st2) => {
                assert((l1 + l2).drop_first() =~~= l1.drop_first() + l2);
                lemma_image_fold_concat(st2, l1.drop_first(), l2);
            },
        }
    }
}

/// Loading the canonical literal lines of a byte run appends exactly
/// that run to the active stream.
proof fn lemma_image_fold_literals(st: ImageState, bs: Seq<u8>)
    ensures
        ({
            let lines = bs.map_values(|b: u8| spec_byte_literal(b));
            if st.in_data {
                spec_image_fold(st, lines) == (ImageState { data: st.data + bs, ..st }, None::<
                    VmErrorView,
                >)
            } else {
                spec_image_fold(st, lines) == (ImageState { code: st.code + bs, ..st }, None::<
                    VmErrorView,
                >)
            }
        }),
    decreases bs.len(),
{
    let lines = bs.map_values(|b: u8| spec_byte_literal(b));
    if bs.len() == 0 {
        assert(lines =~~= Seq::<Seq<u8>>::empty());
        assert(st.data + bs =~= st.data);
        assert(st.code + bs =~= st.code);
        assert(ImageState { data: st.data + bs, ..st } == st);
        assert(ImageState { code: st.code + bs, ..st } == st);
    } else {
        let b = bs[0];
        lemma_byte_literal_round(b);
        assert(lines[0] == spec_byte_literal(b));
        let toks = spec_tokens(spec_byte_literal(b));
        assert(toks[0] == spec_byte_literal(b));
        assert(toks.drop_first() =~~= Seq::<Seq<u8>>::empty());
        let st2 = if st.in_data {
            ImageState { data: st.data.push(b), ..st }
        } else {
            ImageState { code: st.code.push(b), ..st }
        };
        assert(spec_image_tokens(st2, toks.drop_first()) == Ok::<ImageState, VmErrorView>(st2));
        assert(spec_image_line(st, lines[0]) == Ok::<ImageState, VmErrorView>(st2));
        assert(lines.drop_first() =~~= bs.drop_first().map_values(
            |x: u8| spec_byte_literal(x),
        ));
        lemma_image_fold_literals(st2, bs.drop_first());
        assert(st.data.push(b) + bs.drop_first() =~= st.data + bs);
        assert(st.code.push(b) + bs.drop_first() =~= st.code + bs);
    }
}

/// Round trip of the image format: loading what the writer produced for
/// any code and data streams yields exactly those streams back, with no
/// error.
pub proof fn lemma_image_round_trip(code: Seq<u8>, data: Seq<u8>)
    ensures
        spec_parse_image(spec_image_lines(code, data)) == (
            ImageState { in_data: true, code, data },
            None::<VmErrorView>,
        ),
{
    let lcode = code.map_values(|b: u8| spec_byte_literal(b));
    let lmark: Seq<Seq<u8>> = seq![spec_data_marker()];
    let ldata = data.map_values(|b: u8| spec_byte_literal(b));
    let st0 = ImageState { in_data: false, code: Seq::empty(), data: Seq::empty() };
    assert(spec_image_lines(code, data) =~~= lcode + (lmark + ldata));
    lemma_image_fold_literals(st0, code);
    let st1 = ImageState { code: Seq::<u8>::empty() + code, ..st0 };
    lemma_image_fold_concat(st0, lcode, lmark + ldata);
    assert forall|j: int|
        0 <= j < spec_data_marker().len() implies !crate::text::is_space(
        spec_data_marker()[j],
    ) by {
        assert(spec_data_marker()[0] == '[' as u8);
    }
    lemma_single_token(spec_data_marker());
    let st2 = ImageState { in_data: true, ..st1 };
    assert(spec_image_line(st1, spec_data_marker()) == Ok::<ImageState, VmErrorView>(st2));
    assert(lmark + ldata =~~= seq![spec_data_marker()] + ldata);
    assert((lmark + ldata)[0] == spec_data_marker());
    assert((lmark + ldata).drop_first() =~~= ldata);
    lemma_image_fold_literals(st2, data);
    assert(Seq::<u8>::empty() + code =~= code);
    assert(Seq::<u8>::empty() + data =~= data);
    assert(spec_image_fold(st2, ldata) == (
        ImageState { in_data: true, code, data },
        None::<VmErrorView>,
    ));
}

/// Reads one image line into the two streams, as [`spec_image_line`]
/// describes.
fn exec_image_line(in_data: &mut bool, code: &mut Vec<u8>, data: &mut Vec<u8>, line: &Vec<
    u8,
>) -> (r: Result<(), VmError>)
    ensures
        ({
            let st0 = ImageState {
                in_data: *old(in_data),
                code: old(code)@,
                data: old(data)@,
            };
            let st1 = ImageState { in_data: *final(in_data), code: final(code)@, data: final(data)@ };
            match r {
                Ok(()) => spec_image_line(st0, line@) == Ok::<ImageState, VmErrorView>(st1),
                Err(e) => spec_image_line(st0, line@) == Err::<ImageState, VmErrorView>(e@),
            }
        }),
{
    let toks = tokenize(line.as_slice());
    let marker = data_marker_token();
    if toks.len() == 1 && bytes_eq(toks[0].as_slice(), marker.as_slice()) {
        proof {
            assert(toks.deep_view()[0] =~= toks@[0]@);
            assert(toks.deep_view() =~~= seq![spec_data_marker()]);
        }
        *in_data = true;
        return Ok(());
    }
    proof {
        if toks.deep_view().len() == 1 {
            assert(toks.deep_view()[0] =~= toks@[0]@);
        }
    }
    let n = toks.len();
    let mut i: usize = 0;
    proof {
        assert(toks.deep_view().skip(0) =~~= toks.deep_view());
    }
    while i < n
        invariant
            i <= n,
            n == toks@.len(),
            toks.deep_view().len() == n,
            toks.deep_view() == spec_tokens(line@),
            !(spec_tokens(line@) == seq![spec_data_marker()]),
            ({
                let st0 = ImageState {
                    in_data: *old(in_data),
                    code: old(code)@,
                    data: old(data)@,
                };
                let stc = ImageState { in_data: *in_data, code: code@, data: data@ };
                spec_image_tokens(st0, toks.deep_view()) == spec_image_tokens(
                    stc,
                    toks.deep_view().skip(i as int),
                )
            }),
            *in_data == *old(in_data),
        decreases n - i,
    {
        proof {
            assert(toks.deep_view()[i as int] =~= toks@[i as int]@);
            assert(toks.deep_view().skip(i as int)[0] == toks.deep_view()[i as int]);
            assert(toks.deep_view().skip(i as int).drop_first() =~~= toks.deep_view().skip(i + 1));
        }
        match byte_token(toks[i].as_slice()) {
            None => {
                let text = copy_range(toks[i].as_slice(), 0, toks[i].len());
                proof {
                    assert(text@ =~= toks.deep_view()[i as int]);
                }
                return Err(VmError::InvalidByteLiteral { text });
            },
            Some(b) => {
                if *in_data {
                    data.push(b);
                } else {
                    code.push(b);
                }
            },
        }
        i = i + 1;
    }
    proof {
        assert(toks.deep_view().skip(n as int) =~~= Seq::<Seq<u8>>::empty());
    }
    Ok(())
}

/// Reads a whole program image into its code and data streams, as
/// [`spec_parse_image`] describes: the canonical format only, with the
/// first token outside it reported as an invalid byte literal.
pub fn parse_image(lines: &Vec<Vec<u8>>) -> (r: Result<(Vec<u8>, Vec<u8>), VmError>)
    ensures
        ({
            let (st, err) = spec_parse_image(lines.deep_view());
            match r {
                Ok(streams) => err is None && streams.0@ == st.code && streams.1@ == st.data,
                Err(e) => err == Some(e@),
            }
        }),
{
    let ghost lines0 = lines.deep_view();
    let mut code: Vec<u8> = Vec::new();
    let mut data: Vec<u8> = Vec::new();
    let mut in_data = false;
    let n = lines.len();
    let mut i: usize = 0;
    proof {
        assert(lines0.skip(0) =~~= lines0);
    }
    while i < n
        invariant
            i <= n,
            n == lines@.len(),
            lines0 == lines.deep_view(),
            lines0.len() == n,
            spec_parse_image(lines0) == spec_image_fold(
                ImageState { in_data, code: code@, data: data@ },
                lines0.skip(i as int),
            ),
        decreases n - i,
    {
        let ghost cur = ImageState { in_data, code: code@, data: data@ };
        proof {
            assert(lines0.skip(i as int)[0] == lines0[i as int]);
            assert(lines0.skip(i as int).drop_first() =~~= lines0.skip(i + 1));
        }
        let line = copy_range(lines[i].as_slice(), 0, lines[i].len());
        proof {
            assert(line@ =~= lines0[i as int]);
        }
        match exec_image_line(&mut in_data, &mut code, &mut data, &line) {
            Ok(()) => {},
            Err(e) => {
                proof {
                    assert(spec_image_line(cur, lines0[i as int]) == Err::<
                        ImageState,
                        VmErrorView,
                    >(e@));
                    assert(spec_image_fold(cur, lines0.skip(i as int)) == (cur, Some(e@)));
                }
                return Err(e);
            },
        }
        i = i + 1;
    }
    proof {
        assert(lines0.skip(n as int) =~~= Seq::<Seq<u8>>::empty());
    }
    Ok((code, data))
}

} // verus!
