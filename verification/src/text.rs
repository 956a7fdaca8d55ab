//! Byte-level text helpers used by the preprocessor, the assembler and the
//! image loader.  Source lines are handled as byte sequences throughout.

use vstd::prelude::*;

verus! {

/// True for the ASCII whitespace bytes that separate tokens.
pub open spec fn is_space(b: u8) -> bool {
    b == 32 || b == 9 || b == 13 || b == 10
}

/// Exec mirror of [`is_space`].
pub fn byte_is_space(b: u8) -> (r: bool)
    ensures
        r == is_space(b),
{
    b == 32 || b == 9 || b == 13 || b == 10
}

/// Whether `l` begins with the bytes of `p`.
pub open spec fn spec_starts_with(l: Seq<u8>, p: Seq<u8>) -> bool {
    l.len() >= p.len() && l.subrange(0, p.len() as int) == p
}

/// A sequence that starts with a non-empty prefix starts with its first
/// byte.
pub proof fn lemma_starts_with_first(l: Seq<u8>, p: Seq<u8>)
    requires
        p.len() > 0,
        spec_starts_with(l, p),
    ensures
        l.len() > 0 && l[0] == p[0],
{
    assert(l.subrange(0, p.len() as int)[0] == p[0]);
}

/// Byte-for-byte equality of two slices.
pub fn bytes_eq(a: &[u8], b: &[u8]) -> (r: bool)
    ensures
        r == (a@ == b@),
{
    if a.len() != b.len() {
        assert(a@ != b@) by {
            assert(a@.len() != b@.len());
        }
        return false;
    }
    let n = a.len();
    let mut i: usize = 0;
    while i < n
        invariant
            n == a@.len() == b@.len(),
            i <= n,
            forall|j: int| 0 <= j < i ==> a@[j] == b@[j],
        decreases n - i,
    {
        if a[i] != b[i] {
            return false;
        }
        i = i + 1;
    }
    proof {
        assert(a@ =~= b@);
    }
    true
}

/// Relies on `core::str::from_utf8`: it returns `Ok` exactly when the
/// byte slice is valid UTF-8, which `vstd::utf8::valid_utf8` formalizes.
#[verifier::external_body]
pub fn utf8_valid(bytes: &[u8]) -> (r: bool)
    ensures
        r == vstd::utf8::valid_utf8(bytes@),
{
    core::str::from_utf8(bytes).is_ok()
}

/// Whether the slice `l` starts with the prefix `p`.
pub fn starts_with(l: &[u8], p: &[u8]) -> (r: bool)
    ensures
        r == spec_starts_with(l@, p@),
{
    if l.len() < p.len() {
        return false;
    }
    let n = p.len();
    let mut i: usize = 0;
    while i < n
        invariant
            n == p@.len() <= l@.len(),
            i <= n,
            forall|j: int| 0 <= j < i ==> l@[j] == p@[j],
        decreases n - i,
    {
        if l[i] != p[i] {
            assert(l@.subrange(0, n as int)[i as int] != p@[i as int]);
            return false;
        }
        i = i + 1;
    }
    proof {
        assert(l@.subrange(0, n as int) =~= p@);
    }
    true
}

/// Length of the maximal prefix of `s` that holds no whitespace byte.
pub open spec fn word_len(s: Seq<u8>) -> nat
    decreases s.len(),
{
    if s.len() == 0 || is_space(s[0]) {
        0
    } else {
        1 + word_len(s.drop_first())
    }
}

/// The maximal non-whitespace prefix never runs past the end of `s`.
pub proof fn lemma_word_len_bound(s: Seq<u8>)
    ensures
        word_len(s) <= s.len(),
        forall|j: int| 0 <= j < word_len(s) ==> !is_space(s[j]),
        word_len(s) < s.len() ==> is_space(s[word_len(s) as int]),
    decreases s.len(),
{
    if s.len() == 0 || is_space(s[0]) {
    } else {
        lemma_word_len_bound(s.drop_first());
        let t = s.drop_first();
        assert forall|j: int| 0 <= j < word_len(s) implies !is_space(s[j]) by {
            if j > 0 {
                assert(s[j] == t[j - 1]);
            }
        }
        if word_len(s) < s.len() {
            assert(s[word_len(s) as int] == t[word_len(t) as int]);
        }
    }
}

/// A prefix of non-whitespace bytes ended by the end of the sequence or a
/// whitespace byte is exactly the maximal non-whitespace prefix.
pub proof fn lemma_word_len_is(s: Seq<u8>, k: int)
    requires
        0 <= k <= s.len(),
        forall|j: int| 0 <= j < k ==> !is_space(s[j]),
        k < s.len() ==> is_space(s[k]),
    ensures
        word_len(s) == k,
    decreases s.len(),
{
    if k == 0 {
    } else {
        let t = s.drop_first();
        assert forall|j: int| 0 <= j < k - 1 implies !is_space(t[j]) by {
            assert(t[j] == s[j + 1]);
        }
        if k - 1 < t.len() {
            assert(t[k - 1] == s[k]);
        }
        lemma_word_len_is(t, k - 1);
    }
}

/// The whitespace-separated tokens of `s`, in order, each non-empty.
pub open spec fn spec_tokens(s: Seq<u8>) -> Seq<Seq<u8>>
    decreases s.len(),
    via spec_tokens_decreases
{
    if s.len() == 0 {
        Seq::empty()
    } else if is_space(s[0]) {
        spec_tokens(s.drop_first())
    } else {
        seq![s.take(word_len(s) as int)] + spec_tokens(s.skip(word_len(s) as int))
    }
}

#[via_fn]
proof fn spec_tokens_decreases(s: Seq<u8>) {
    lemma_word_len_bound(s);
}

/// Splits a line into its whitespace-separated tokens.
pub fn tokenize(line: &[u8]) -> (toks: Vec<Vec<u8>>)
    ensures
        toks.deep_view() == spec_tokens(line@),
{
    let n = line.len();
    let mut toks: Vec<Vec<u8>> = Vec::new();
    let mut i: usize = 0;
    proof {
        assert(line@.skip(0) =~= line@);
        assert(toks.deep_view() =~~= Seq::<Seq<u8>>::empty());
        assert(toks.deep_view() + spec_tokens(line@) =~~= spec_tokens(line@));
    }
    while i < n
        invariant
            i <= n,
            n == line@.len(),
            spec_tokens(line@) == toks.deep_view() + spec_tokens(line@.skip(i as int)),
        decreases n - i,
    {
        if byte_is_space(line[i]) {
            proof {
                assert(line@.skip(i as int).drop_first() =~= line@.skip(i + 1));
            }
            i = i + 1;
        } else {
            let ghost rest = line@.skip(i as int);
            let start = i;
            let mut word: Vec<u8> = Vec::new();
            word.push(line[i]);
            i = i + 1;
            while i < n && !byte_is_space(line[i])
                invariant
                    start < i <= n,
                    n == line@.len(),
                    rest == line@.skip(start as int),
                    word@ =~= line@.subrange(start as int, i as int),
                    forall|j: int| start <= j < i ==> !is_space(line@[j]),
                decreases n - i,
            {
                word.push(line[i]);
                i = i + 1;
            }
            proof {
                assert forall|j: int| 0 <= j < i - start implies !is_space(rest[j]) by {
                    assert(rest[j] == line@[start + j]);
                }
                if i < n {
                    assert(rest[i - start] == line@[i as int]);
                }
                lemma_word_len_is(rest, i - start);
                assert(word@ =~= rest.take(word_len(rest) as int));
                assert(rest.skip(word_len(rest) as int) =~= line@.skip(i as int));
                assert(spec_tokens(rest) == seq![word@] + spec_tokens(line@.skip(i as int)));
            }
            let ghost old_toks = toks.deep_view();
            toks.push(word);
            proof {
                assert(toks.deep_view() =~~= old_toks + seq![word@]);
            }
        }
    }
    proof {
        assert(spec_tokens(line@.skip(n as int)) =~~= Seq::<Seq<u8>>::empty());
        assert(toks.deep_view() + Seq::<Seq<u8>>::empty() =~~= toks.deep_view());
    }
    toks
}

/// `s` with leading and trailing whitespace removed.
pub open spec fn spec_trim(s: Seq<u8>) -> Seq<u8>
    decreases s.len(),
{
    if s.len() == 0 {
        s
    } else if is_space(s[0]) {
        spec_trim(s.drop_first())
    } else if is_space(s.last()) {
        spec_trim(s.drop_last())
    } else {
        s
    }
}

/// Copies `line` without its leading and trailing whitespace.
pub fn trim(line: &[u8]) -> (t: Vec<u8>)
    ensures
        t@ == spec_trim(line@),
{
    let n = line.len();
    let mut lo: usize = 0;
    proof {
        assert(line@.skip(0) =~= line@);
    }
    while lo < n && byte_is_space(line[lo])
        invariant
            lo <= n,
            n == line@.len(),
            spec_trim(line@) == spec_trim(line@.skip(lo as int)),
        decreases n - lo,
    {
        proof {
            assert(line@.skip(lo as int).drop_first() =~= line@.skip(lo + 1));
        }
        lo = lo + 1;
    }
    let mut hi: usize = n;
    proof {
        assert(line@.subrange(lo as int, n as int) =~= line@.skip(lo as int));
    }
    while hi > lo && byte_is_space(line[hi - 1])
        invariant
            lo <= hi <= n,
            n == line@.len(),
            lo < n ==> !is_space(line@[lo as int]),
            spec_trim(line@) == spec_trim(line@.subrange(lo as int, hi as int)),
        decreases hi,
    {
        proof {
            let cur = line@.subrange(lo as int, hi as int);
            assert(cur.last() == line@[hi - 1]);
            assert(cur[0] == line@[lo as int]);
            assert(cur.drop_last() =~= line@.subrange(lo as int, hi - 1));
        }
        hi = hi - 1;
    }
    proof {
        let cur = line@.subrange(lo as int, hi as int);
        if cur.len() > 0 {
            assert(cur[0] == line@[lo as int]);
            assert(cur.last() == line@[hi - 1]);
        }
        assert(spec_trim(cur) == cur);
    }
    let mut t: Vec<u8> = Vec::new();
    let mut i: usize = lo;
    while i < hi
        invariant
            lo <= i <= hi <= n,
            n == line@.len(),
            t@ =~= line@.subrange(lo as int, i as int),
        decreases hi - i,
    {
        t.push(line[i]);
        i = i + 1;
    }
    proof {
        assert(t@ =~= line@.subrange(lo as int, hi as int));
    }
    t
}

/// The tokens joined back into one line, separated by single spaces.
pub open spec fn spec_join(ts: Seq<Seq<u8>>) -> Seq<u8>
    decreases ts.len(),
{
    if ts.len() == 0 {
        Seq::empty()
    } else if ts.len() == 1 {
        ts[0]
    } else {
        ts[0] + seq![32u8] + spec_join(ts.drop_first())
    }
}

/// Joining tokens grows from the right one token at a time.
pub proof fn lemma_join_push(ts: Seq<Seq<u8>>, t: Seq<u8>)
    ensures
        spec_join(ts.push(t)) == if ts.len() == 0 {
            t
        } else {
            spec_join(ts) + seq![32u8] + t
        },
    decreases ts.len(),
{
    let p = ts.push(t);
    if ts.len() == 0 {
        assert(spec_join(p) == p[0]);
        assert(p[0] == t);
    } else {
        assert(p.drop_first() =~= ts.drop_first().push(t));
        lemma_join_push(ts.drop_first(), t);
        if ts.len() == 1 {
            assert(spec_join(ts) == ts[0]);
            assert(spec_join(p) =~= spec_join(ts) + seq![32u8] + t);
        } else {
            assert(spec_join(p) =~= spec_join(ts) + seq![32u8] + t);
        }
    }
}

/// Joins tokens into one line, separated by single spaces.
pub fn join_tokens(ts: &Vec<Vec<u8>>) -> (line: Vec<u8>)
    ensures
        line@ == spec_join(ts.deep_view()),
{
    let n = ts.len();
    let mut line: Vec<u8> = Vec::new();
    let mut i: usize = 0;
    while i < n
        invariant
            i <= n,
            n == ts.deep_view().len(),
            line@ == spec_join(ts.deep_view().take(i as int)),
        decreases n - i,
    {
        if i > 0 {
            line.push(32);
        }
        let mut j: usize = 0;
        let ghost mid = line@;
        let tok = &ts[i];
        while j < tok.len()
            invariant
                j <= tok@.len(),
                tok@ == ts.deep_view()[i as int],
                line@ =~= mid + tok@.take(j as int),
            decreases tok@.len() - j,
        {
            line.push(tok[j]);
            j = j + 1;
        }
        proof {
            let dv = ts.deep_view();
            assert(tok@.take(tok@.len() as int) =~= dv[i as int]);
            lemma_join_push(dv.take(i as int), dv[i as int]);
            assert(dv.take(i as int).push(dv[i as int]) =~= dv.take(i + 1));
            if i == 0 {
                assert(line@ =~= spec_join(dv.take(i + 1)));
            } else {
                assert(line@ =~= spec_join(dv.take(i + 1)));
            }
        }
        i = i + 1;
    }
    proof {
        assert(ts.deep_view().take(n as int) =~= ts.deep_view());
    }
    line
}

/// Copies the byte range `[from, to)` of a slice.
pub fn copy_range(b: &[u8], from: usize, to: usize) -> (v: Vec<u8>)
    requires
        from <= to <= b@.len(),
    ensures
        v@ == b@.subrange(from as int, to as int),
{
    let mut v: Vec<u8> = Vec::new();
    let mut i = from;
    while i < to
        invariant
            from <= i <= to <= b@.len(),
            v@ =~= b@.subrange(from as int, i as int),
        decreases to - i,
    {
        v.push(b[i]);
        i = i + 1;
    }
    proof {
        assert(v@ =~= b@.subrange(from as int, to as int));
    }
    v
}

/// Copies the token range `[from, to)` of a token list.
pub fn copy_toks(ts: &Vec<Vec<u8>>, from: usize, to: usize) -> (v: Vec<Vec<u8>>)
    requires
        from <= to <= ts.deep_view().len(),
    ensures
        v.deep_view() == ts.deep_view().subrange(from as int, to as int),
{
    let mut v: Vec<Vec<u8>> = Vec::new();
    let mut i = from;
    while i < to
        invariant
            from <= i <= to <= ts.deep_view().len(),
            ts.deep_view().len() == ts@.len(),
            v.deep_view() =~~= ts.deep_view().subrange(from as int, i as int),
        decreases to - i,
    {
        let t = &ts[i];
        let copy = copy_range(t.as_slice(), 0, t.len());
        proof {
            assert(copy@ =~= ts.deep_view()[i as int]);
        }
        let ghost before = v.deep_view();
        v.push(copy);
        proof {
            assert(v.deep_view() =~~= before.push(copy@));
            assert(before.push(copy@) =~~= ts.deep_view().subrange(from as int, i + 1));
        }
        i = i + 1;
    }
    proof {
        assert(v.deep_view() =~~= ts.deep_view().subrange(from as int, to as int));
    }
    v
}

/// Index of the first token in `ts` equal to `t`, if any.
pub open spec fn seq_index_of(ts: Seq<Seq<u8>>, t: Seq<u8>) -> Option<int>
    decreases ts.len(),
{
    if ts.len() == 0 {
        None
    } else if ts[0] == t {
        Some(0)
    } else {
        match seq_index_of(ts.drop_first(), t) {
            None => None,
            Some(k) => Some(k + 1),
        }
    }
}

/// A scan that finds no match before `k`, and at `k` either a match or
/// the end, settles [`seq_index_of`].
pub proof fn lemma_seq_index_of(ts: Seq<Seq<u8>>, t: Seq<u8>, k: int)
    requires
        0 <= k <= ts.len(),
        forall|j: int| 0 <= j < k ==> ts[j] != t,
        k < ts.len() ==> ts[k] == t,
    ensures
        k == ts.len() ==> seq_index_of(ts, t) is None,
        k < ts.len() ==> seq_index_of(ts, t) == Some(k),
    decreases ts.len(),
{
    if ts.len() == 0 {
    } else if ts[0] == t {
        assert(k == 0);
    } else {
        let rest = ts.drop_first();
        assert forall|j: int| 0 <= j < k - 1 implies rest[j] != t by {
            assert(rest[j] == ts[j + 1]);
        }
        if k - 1 < rest.len() {
            assert(rest[k - 1] == ts[k]);
        }
        lemma_seq_index_of(rest, t, k - 1);
    }
}

/// Finds the first token in `ts` equal to `t`, if any.
pub fn index_of_tok(ts: &Vec<Vec<u8>>, t: &[u8]) -> (r: Option<usize>)
    ensures
        match r {
            Some(i) => i < ts.deep_view().len() && seq_index_of(ts.deep_view(), t@) == Some(
                i as int,
            ),
            None => seq_index_of(ts.deep_view(), t@) is None,
        },
{
    let n = ts.len();
    let mut i: usize = 0;
    while i < n
        invariant
            i <= n,
            n == ts@.len(),
            ts.deep_view().len() == n,
            forall|j: int| 0 <= j < i ==> ts.deep_view()[j] != t@,
        decreases n - i,
    {
        proof {
            assert(ts.deep_view()[i as int] =~= ts@[i as int]@);
        }
        if bytes_eq(ts[i].as_slice(), t) {
            proof {
                lemma_seq_index_of(ts.deep_view(), t@, i as int);
            }
            return Some(i);
        }
        i = i + 1;
    }
    proof {
        lemma_seq_index_of(ts.deep_view(), t@, n as int);
    }
    None
}

/// True for the ASCII decimal digits.
pub open spec fn is_dec_digit(b: u8) -> bool {
    48 <= b <= 57
}

/// The numeric value of a run of decimal digits, most significant first.
pub open spec fn dec_value(s: Seq<u8>) -> int
    decreases s.len(),
{
    if s.len() == 0 {
        0
    } else {
        dec_value(s.drop_last()) * 10 + (s.last() - 48)
    }
}

/// What a base-10 immediate token denotes: its value, when the token is a
/// non-empty run of decimal digits whose value fits 16 bits.
pub open spec fn spec_parse_dec(s: Seq<u8>) -> Option<u16> {
    if s.len() > 0 && (forall|i: int| 0 <= i < s.len() ==> is_dec_digit(s[i])) && dec_value(s)
        < 0x10000 {
        Some(dec_value(s) as u16)
    } else {
        None
    }
}

/// The value of a digit run never shrinks as digits are appended.
proof fn lemma_dec_value_step(s: Seq<u8>, i: int)
    requires
        0 <= i < s.len(),
    ensures
        dec_value(s.take(i + 1)) == dec_value(s.take(i)) * 10 + (s[i] - 48),
{
    assert(s.take(i + 1).drop_last() =~= s.take(i));
    assert(s.take(i + 1).last() == s[i]);
}

/// Parses a base-10 immediate: a non-empty all-digit token whose value
/// fits 16 bits; anything else is rejected.
pub fn parse_dec(tok: &[u8]) -> (r: Option<u16>)
    ensures
        r == spec_parse_dec(tok@),
{
    let n = tok.len();
    if n == 0 {
        return None;
    }
    let mut acc: u32 = 0;
    let mut i: usize = 0;
    proof {
        assert(tok@.take(0) =~= Seq::<u8>::empty());
    }
    while i < n
        invariant
            i <= n,
            n == tok@.len(),
            forall|j: int| 0 <= j < i ==> is_dec_digit(tok@[j]),
            dec_value(tok@.take(i as int)) < 0x10000 ==> acc == dec_value(tok@.take(i as int)),
            dec_value(tok@.take(i as int)) >= 0x10000 ==> acc == 0x10000,
            acc <= 0x10000,
        decreases n - i,
    {
        let b = tok[i];
        if b < 48 || b > 57 {
            return None;
        }
        proof {
            lemma_dec_value_step(tok@, i as int);
            if dec_value(tok@.take(i as int)) >= 0x10000 {
                assert(dec_value(tok@.take(i as int)) * 10 >= 0x10000 * 10) by (nonlinear_arith)
                    requires
                        dec_value(tok@.take(i as int)) >= 0x10000,
                ;
            }
        }
        acc = acc * 10 + ((b - 48) as u32);
        if acc > 0xFFFF {
            acc = 0x10000;
        }
        i = i + 1;
    }
    proof {
        assert(tok@.take(n as int) =~= tok@);
    }
    if acc <= 0xFFFF {
        Some(acc as u16)
    } else {
        None
    }
}

/// True for the ASCII hexadecimal digits, both cases.
pub open spec fn is_hex_digit(b: u8) -> bool {
    (48 <= b <= 57) || (97 <= b <= 102) || (65 <= b <= 70)
}

/// The numeric value of one hexadecimal digit.
pub open spec fn hex_digit_value(b: u8) -> int
    recommends
        is_hex_digit(b),
{
    if 48 <= b <= 57 {
        b - 48
    } else if 97 <= b <= 102 {
        b - 97 + 10
    } else {
        b - 65 + 10
    }
}

/// The numeric value of a run of hexadecimal digits, most significant
/// first.
pub open spec fn hex_value(s: Seq<u8>) -> int
    decreases s.len(),
{
    if s.len() == 0 {
        0
    } else {
        hex_value(s.drop_last()) * 16 + hex_digit_value(s.last())
    }
}

/// What a base-16 immediate token (without its `0x` prefix) denotes: its
/// value, when the token is a non-empty run of hexadecimal digits whose
/// value fits 16 bits.
pub open spec fn spec_parse_hex(s: Seq<u8>) -> Option<u16> {
    if s.len() > 0 && (forall|i: int| 0 <= i < s.len() ==> is_hex_digit(s[i])) && hex_value(s)
        < 0x10000 {
        Some(hex_value(s) as u16)
    } else {
        None
    }
}

proof fn lemma_hex_value_step(s: Seq<u8>, i: int)
    requires
        0 <= i < s.len(),
    ensures
        hex_value(s.take(i + 1)) == hex_value(s.take(i)) * 16 + hex_digit_value(s[i]),
{
    assert(s.take(i + 1).drop_last() =~= s.take(i));
    assert(s.take(i + 1).last() == s[i]);
}

/// The value of one hexadecimal digit byte, or nothing.
pub fn hex_digit(b: u8) -> (r: Option<u8>)
    ensures
        match r {
            Some(v) => is_hex_digit(b) && v == hex_digit_value(b),
            None => !is_hex_digit(b),
        },
{
    if 48 <= b && b <= 57 {
        Some(b - 48)
    } else if 97 <= b && b <= 102 {
        Some(b - 97 + 10)
    } else if 65 <= b && b <= 70 {
        Some(b - 65 + 10)
    } else {
        None
    }
}

/// Parses a base-16 immediate (without its `0x` prefix): a non-empty
/// all-hex-digit token whose value fits 16 bits; anything else is
/// rejected.
pub fn parse_hex(tok: &[u8]) -> (r: Option<u16>)
    ensures
        r == spec_parse_hex(tok@),
{
    let n = tok.len();
    if n == 0 {
        return None;
    }
    let mut acc: u32 = 0;
    let mut i: usize = 0;
    proof {
        assert(tok@.take(0) =~= Seq::<u8>::empty());
    }
    while i < n
        invariant
            i <= n,
            n == tok@.len(),
            forall|j: int| 0 <= j < i ==> is_hex_digit(tok@[j]),
            hex_value(tok@.take(i as int)) < 0x10000 ==> acc == hex_value(tok@.take(i as int)),
            hex_value(tok@.take(i as int)) >= 0x10000 ==> acc == 0x10000,
            acc <= 0x10000,
        decreases n - i,
    {
        let d = match hex_digit(tok[i]) {
            Some(d) => d,
            None => {
                return None;
            },
        };
        proof {
            lemma_hex_value_step(tok@, i as int);
            if hex_value(tok@.take(i as int)) >= 0x10000 {
                assert(hex_value(tok@.take(i as int)) * 16 >= 0x10000 * 16) by (nonlinear_arith)
                    requires
                        hex_value(tok@.take(i as int)) >= 0x10000,
                ;
            }
        }
        acc = acc * 16 + (d as u32);
        if acc > 0xFFFF {
            acc = 0x10000;
        }
        i = i + 1;
    }
    proof {
        assert(tok@.take(n as int) =~= tok@);
    }
    if acc <= 0xFFFF {
        Some(acc as u16)
    } else {
        None
    }
}

} // verus!
