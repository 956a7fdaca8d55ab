//! User-defined text macros: plain substitutions and parameterized
//! substitutions, recorded by name and expanded before tokenization.

use vstd::prelude::*;

use crate::error::{VmError, VmErrorView};
use crate::text::{
    bytes_eq, copy_range, copy_toks, index_of_tok, join_tokens, seq_index_of, spec_join,
    spec_starts_with, spec_tokens, starts_with, tokenize,
};

verus! {

/// The abstract value of a macro: a literal replacement text, or an
/// ordered parameter list with an ordered body-token list.
pub ghost enum MacView {
    Subst(Seq<u8>),
    Func { params: Seq<Seq<u8>>, body: Seq<Seq<u8>> },
}

/// A recorded macro: a literal replacement text, or a parameterized body.
pub enum Mac {
    Subst(Vec<u8>),
    Func { params: Vec<Vec<u8>>, body: Vec<Vec<u8>> },
}

impl View for Mac {
    type V = MacView;

    open spec fn view(&self) -> MacView {
        match self {
            Mac::Subst(t) => MacView::Subst(t.view()),
            Mac::Func { params, body } => MacView::Func {
                params: params.deep_view(),
                body: body.deep_view(),
            },
        }
    }
}

/// The macro a name resolves to: the definitions in order, a later
/// definition of the same name overwriting an earlier one.
pub open spec fn spec_lookup(ms: Seq<(Seq<u8>, MacView)>, name: Seq<u8>) -> Option<MacView>
    decreases ms.len(),
{
    if ms.len() == 0 {
        None
    } else if ms.last().0 == name {
        Some(ms.last().1)
    } else {
        spec_lookup(ms.drop_last(), name)
    }
}

/// The macro store of one preprocessing pass: definitions in the order
/// they were recorded.
pub struct Macs {
    entries: Vec<(Vec<u8>, Mac)>,
}

impl View for Macs {
    type V = Seq<(Seq<u8>, MacView)>;

    closed spec fn view(&self) -> Seq<(Seq<u8>, MacView)> {
        Seq::new(self.entries@.len(), |i: int| (self.entries@[i].0@, self.entries@[i].1@))
    }
}

impl Macs {
    /// An empty store.
    pub fn new() -> (m: Macs)
        ensures
            m@ =~= Seq::<(Seq<u8>, MacView)>::empty(),
    {
        Macs { entries: Vec::new() }
    }

    /// Records `mac` under `name`; a later definition of the same name
    /// wins on lookup.
    pub fn insert(&mut self, name: Vec<u8>, mac: Mac)
        ensures
            final(self)@ =~= old(self)@.push((name@, mac@)),
    {
        let ghost n = name@;
        let ghost m = mac@;
        self.entries.push((name, mac));
        proof {
            assert(final(self)@ =~= old(self)@.push((n, m)));
        }
    }

    /// Looks a name up, the last definition winning.
    pub fn get(&self, name: &[u8]) -> (r: Option<&Mac>)
        ensures
            match r {
                Some(mac) => spec_lookup(self@, name@) == Some(mac@),
                None => spec_lookup(self@, name@) is None,
            },
    {
        let n = self.entries.len();
        let mut i: usize = n;
        proof {
            assert(self@.take(n as int) =~= self@);
        }
        while i > 0
            invariant
                i <= n,
                n == self.entries@.len(),
                self@.len() == n,
                spec_lookup(self@, name@) == spec_lookup(self@.take(i as int), name@),
            decreases i,
        {
            i = i - 1;
            proof {
                assert(self@.take(i + 1).last() == self@[i as int]);
                assert(self@.take(i + 1).drop_last() =~= self@.take(i as int));
            }
            if bytes_eq(self.entries[i].0.as_slice(), name) {
                return Some(&self.entries[i].1);
            }
        }
        proof {
            assert(self@.take(0) =~= Seq::<(Seq<u8>, MacView)>::empty());
        }
        None
    }
}

/// The `=>` token that separates a definition's left side from its body.
pub open spec fn spec_arrow() -> Seq<u8> {
    seq!['=' as u8, '>' as u8]
}

/// Exec mirror of [`spec_arrow`].
pub fn arrow_token() -> (v: Vec<u8>)
    ensures
        v@ == spec_arrow(),
{
    vec!['=' as u8, '>' as u8]
}

/// What a plain `!define_macro NAME ...` records for `NAME`: the rest of
/// the line (behind an optional explicit `=>`) as literal replacement
/// text.  `ts` is the token list after the name.
pub open spec fn spec_subst_of(ts: Seq<Seq<u8>>) -> MacView {
    if ts.len() > 0 && ts[0] == spec_arrow() {
        MacView::Subst(spec_join(ts.drop_first()))
    } else {
        MacView::Subst(spec_join(ts))
    }
}

/// What a `!define_macro_func NAME ARGS... => BODY...` records for
/// `NAME`: the tokens before the first `=>` as the ordered parameter
/// list, the tokens after it as the ordered body.  Without an `=>` every
/// token is a parameter and the body is empty.  `ts` is the token list
/// after the name.
pub open spec fn spec_func_of(ts: Seq<Seq<u8>>) -> MacView {
    match seq_index_of(ts, spec_arrow()) {
        Some(k) => MacView::Func { params: ts.take(k), body: ts.skip(k + 1) },
        None => MacView::Func { params: ts, body: Seq::empty() },
    }
}

/// Reads a plain macro definition out of a tokenized directive line.
/// A directive without a name records nothing.
pub fn define_macro(toks: &Vec<Vec<u8>>) -> (r: Option<(Vec<u8>, Mac)>)
    ensures
        match r {
            Some(pair) => toks.deep_view().len() >= 2 && pair.0@ == toks.deep_view()[1] && pair.1@
                == spec_subst_of(toks.deep_view().skip(2)),
            None => toks.deep_view().len() < 2,
        },
{
    if toks.len() < 2 {
        return None;
    }
    let name = copy_range(toks[1].as_slice(), 0, toks[1].len());
    proof {
        assert(name@ =~= toks.deep_view()[1]);
    }
    let rest = if toks.len() > 2 && bytes_eq(toks[2].as_slice(), arrow_token().as_slice()) {
        proof {
            assert(toks.deep_view()[2] =~= toks@[2]@);
            assert(toks.deep_view().skip(2).drop_first() =~= toks.deep_view().skip(3));
        }
        copy_toks(toks, 3, toks.len())
    } else {
        proof {
            if toks.deep_view().len() > 2 {
                assert(toks.deep_view()[2] =~= toks@[2]@);
            }
        }
        copy_toks(toks, 2, toks.len())
    };
    proof {
        assert(toks.deep_view().subrange(2, toks.deep_view().len() as int) =~~= toks.deep_view()
            .skip(2));
        assert(toks.deep_view().subrange(3, toks.deep_view().len() as int) =~~= toks.deep_view()
            .skip(3));
        if toks.deep_view().len() > 2 {
            assert(toks.deep_view().skip(2)[0] == toks.deep_view()[2]);
        }
    }
    let text = join_tokens(&rest);
    Some((name, Mac::Subst(text)))
}

/// Reads a parameterized macro definition out of a tokenized directive
/// line.  A directive without a name records nothing.
pub fn define_macro_func(toks: &Vec<Vec<u8>>) -> (r: Option<(Vec<u8>, Mac)>)
    ensures
        match r {
            Some(pair) => toks.deep_view().len() >= 2 && pair.0@ == toks.deep_view()[1] && pair.1@
                == spec_func_of(toks.deep_view().skip(2)),
            None => toks.deep_view().len() < 2,
        },
{
    if toks.len() < 2 {
        return None;
    }
    let name = copy_range(toks[1].as_slice(), 0, toks[1].len());
    proof {
        assert(name@ =~= toks.deep_view()[1]);
    }
    let rest = copy_toks(toks, 2, toks.len());
    proof {
        assert(rest.deep_view() =~~= toks.deep_view().skip(2));
    }
    let arrow = arrow_token();
    let mac = match index_of_tok(&rest, arrow.as_slice()) {
        Some(k) => {
            let params = copy_toks(&rest, 0, k);
            let body = copy_toks(&rest, k + 1, rest.len());
            proof {
                assert(params.deep_view() =~~= rest.deep_view().take(k as int));
                assert(body.deep_view() =~~= rest.deep_view().skip(k + 1));
            }
            Mac::Func { params, body }
        },
        None => {
            let params = copy_toks(&rest, 0, rest.len());
            let body: Vec<Vec<u8>> = Vec::new();
            proof {
                assert(params.deep_view() =~~= rest.deep_view());
                assert(body.deep_view() =~~= Seq::<Seq<u8>>::empty());
            }
            Mac::Func { params, body }
        },
    };
    Some((name, mac))
}

/// Which argument replaces a body token: the one in the position of the
/// first formal parameter equal to the token, the token itself when no
/// parameter matches.
pub open spec fn spec_subst_tok(t: Seq<u8>, params: Seq<Seq<u8>>, args: Seq<Seq<u8>>) -> Seq<
    u8,
> {
    match seq_index_of(params, t) {
        Some(i) => if 0 <= i < args.len() {
            args[i]
        } else {
            t
        },
        None => t,
    }
}

/// A macro body with every formal parameter occurrence replaced by its
/// positional argument.
pub open spec fn spec_subst_body(
    body: Seq<Seq<u8>>,
    params: Seq<Seq<u8>>,
    args: Seq<Seq<u8>>,
) -> Seq<Seq<u8>> {
    body.map_values(|t: Seq<u8>| spec_subst_tok(t, params, args))
}

/// Builds a macro body with every formal parameter occurrence replaced by
/// its positional argument.
fn subst_body(body: &Vec<Vec<u8>>, params: &Vec<Vec<u8>>, args: &Vec<Vec<u8>>) -> (r: Vec<
    Vec<u8>,
>)
    ensures
        r.deep_view() == spec_subst_body(body.deep_view(), params.deep_view(), args.deep_view()),
{
    let n = body.len();
    let mut r: Vec<Vec<u8>> = Vec::new();
    let mut i: usize = 0;
    while i < n
        invariant
            i <= n,
            n == body@.len(),
            body.deep_view().len() == n,
            args.deep_view().len() == args@.len(),
            r.deep_view().len() == i,
            forall|j: int|
                0 <= j < i ==> r.deep_view()[j] == spec_subst_tok(
                    body.deep_view()[j],
                    params.deep_view(),
                    args.deep_view(),
                ),
        decreases n - i,
    {
        let t = &body[i];
        proof {
            assert(body.deep_view()[i as int] =~= body@[i as int]@);
        }
        let replaced = match index_of_tok(params, t.as_slice()) {
            Some(k) => {
                if k < args.len() {
                    copy_range(args[k].as_slice(), 0, args[k].len())
                } else {
                    copy_range(t.as_slice(), 0, t.len())
                }
            },
            None => copy_range(t.as_slice(), 0, t.len()),
        };
        proof {
            if let Some(k) = seq_index_of(params.deep_view(), body.deep_view()[i as int]) {
                if k < args.deep_view().len() {
                    assert(replaced@ =~= args.deep_view()[k]);
                }
            }
            assert(replaced@ == spec_subst_tok(
                body.deep_view()[i as int],
                params.deep_view(),
                args.deep_view(),
            ));
        }
        let ghost before = r.deep_view();
        r.push(replaced);
        proof {
            assert(r.deep_view() =~~= before.push(replaced@));
        }
        i = i + 1;
    }
    proof {
        assert(r.deep_view() =~~= spec_subst_body(
            body.deep_view(),
            params.deep_view(),
            args.deep_view(),
        ));
    }
    r
}

/// The `!` that introduces a macro directive or invocation.
pub open spec fn spec_bang() -> Seq<u8> {
    seq!['!' as u8]
}

/// How many rewrites of one line the expander performs before it gives
/// the line up as non-terminating.
pub const MACRO_EXPANSION_LIMIT: usize = 64;

/// One line rewritten until it no longer begins with `!`, with at most
/// `fuel` rewrites.  The leading token (with its `!` stripped) is looked
/// up; an unknown name, an argument count differing from the parameter
/// count, and running out of fuel are errors.  A plain substitution
/// replaces the macro-name prefix by its literal text; a parameterized
/// one by its body with the trailing tokens substituted positionally.
pub open spec fn spec_expand(line: Seq<u8>, ms: Seq<(Seq<u8>, MacView)>, fuel: nat) -> Result<
    Seq<u8>,
    VmErrorView,
>
    decreases fuel,
{
    if !spec_starts_with(line, spec_bang()) {
        Ok(line)
    } else if fuel == 0 {
        Err(VmErrorView::MacroExpansionLimitExceeded)
    } else {
        let toks = spec_tokens(line);
        if toks.len() == 0 {
            Ok(line)
        } else {
            let head = toks[0];
            let name = head.drop_first();
            let rest = line.skip(head.len() as int);
            match spec_lookup(ms, name) {
                None => Err(VmErrorView::UnknownMacro { name }),
                Some(MacView::Subst(t)) => spec_expand(t + rest, ms, (fuel - 1) as nat),
                Some(MacView::Func { params, body }) => {
                    let args = toks.drop_first();
                    if args.len() != params.len() {
                        Err(
                            VmErrorView::MacroArityMismatch {
                                expected: params.len() as usize,
                                got: args.len() as usize,
                            },
                        )
                    } else {
                        spec_expand(
                            spec_join(spec_subst_body(body, params, args)) + rest,
                            ms,
                            (fuel - 1) as nat,
                        )
                    }
                },
            }
        }
    }
}

/// A single plain substitution whose result invokes no further macro
/// expands to exactly that result: the macro-name prefix replaced by the
/// recorded literal text, the rest of the line kept as written.
pub proof fn lemma_plain_substitution(line: Seq<u8>, ms: Seq<(Seq<u8>, MacView)>)
    requires
        spec_starts_with(line, spec_bang()),
        spec_tokens(line).len() > 0,
        ({
            let head = spec_tokens(line)[0];
            match spec_lookup(ms, head.drop_first()) {
                Some(MacView::Subst(t)) => !spec_starts_with(
                    t + line.skip(head.len() as int),
                    spec_bang(),
                ),
                _ => false,
            }
        }),
    ensures
        ({
            let head = spec_tokens(line)[0];
            match spec_lookup(ms, head.drop_first()) {
                Some(MacView::Subst(t)) => spec_expand(
                    line,
                    ms,
                    MACRO_EXPANSION_LIMIT as nat,
                ) == Ok::<Seq<u8>, VmErrorView>(t + line.skip(head.len() as int)),
                _ => false,
            }
        }),
{
    let head = spec_tokens(line)[0];
    if let Some(MacView::Subst(t)) = spec_lookup(ms, head.drop_first()) {
        let next = t + line.skip(head.len() as int);
        assert(spec_expand(next, ms, (MACRO_EXPANSION_LIMIT - 1) as nat) == Ok::<
            Seq<u8>,
            VmErrorView,
        >(next));
        assert(spec_expand(line, ms, MACRO_EXPANSION_LIMIT as nat) == spec_expand(
            next,
            ms,
            (MACRO_EXPANSION_LIMIT - 1) as nat,
        ));
    }
}

/// A macro whose substitution reproduces the invoking line never
/// settles: however much fuel expansion is given, it fails with the
/// expansion limit rather than looping forever.
pub proof fn lemma_self_expansion_exceeds_limit(
    line: Seq<u8>,
    ms: Seq<(Seq<u8>, MacView)>,
    fuel: nat,
)
    requires
        spec_starts_with(line, spec_bang()),
        spec_tokens(line).len() > 0,
        ({
            let head = spec_tokens(line)[0];
            match spec_lookup(ms, head.drop_first()) {
                Some(MacView::Subst(t)) => t + line.skip(head.len() as int) == line,
                _ => false,
            }
        }),
    ensures
        spec_expand(line, ms, fuel) == Err::<Seq<u8>, VmErrorView>(
            VmErrorView::MacroExpansionLimitExceeded,
        ),
    decreases fuel,
{
    if fuel > 0 {
        lemma_self_expansion_exceeds_limit(line, ms, (fuel - 1) as nat);
    }
}

/// Expands the leading macro invocations of one line, with the bounded
/// rewriting that [`spec_expand`] describes.
pub fn expand_line(line: &Vec<u8>, macs: &Macs) -> (r: Result<Vec<u8>, VmError>)
    ensures
        match r {
            Ok(l) => spec_expand(line@, macs@, MACRO_EXPANSION_LIMIT as nat) == Ok::<
                Seq<u8>,
                VmErrorView,
            >(l@),
            Err(e) => spec_expand(line@, macs@, MACRO_EXPANSION_LIMIT as nat) == Err::<
                Seq<u8>,
                VmErrorView,
            >(e@),
        },
{
    let mut cur = copy_range(line.as_slice(), 0, line.len());
    proof {
        assert(cur@ =~= line@);
    }
    let mut fuel: usize = MACRO_EXPANSION_LIMIT;
    let bang: Vec<u8> = vec!['!' as u8];
    while starts_with(cur.as_slice(), bang.as_slice())
        invariant
            bang@ == spec_bang(),
            spec_expand(line@, macs@, MACRO_EXPANSION_LIMIT as nat) == spec_expand(
                cur@,
                macs@,
                fuel as nat,
            ),
            fuel <= MACRO_EXPANSION_LIMIT,
        decreases fuel,
    {
        if fuel == 0 {
            return Err(VmError::MacroExpansionLimitExceeded);
        }
        let toks = tokenize(cur.as_slice());
        if toks.len() == 0 {
            return Ok(cur);
        }
        proof {
            crate::text::lemma_word_len_bound(cur@);
            assert(cur@.subrange(0, 1)[0] == cur@[0]);
            assert(cur@[0] == '!' as u8);
            assert(!crate::text::is_space(cur@[0]));
            assert(spec_tokens(cur@)[0] == cur@.take(crate::text::word_len(cur@) as int));
            assert(toks.deep_view()[0] =~= toks@[0]@);
            assert(toks@[0]@.len() == crate::text::word_len(cur@));
        }
        let head_len = toks[0].len();
        let name = copy_range(toks[0].as_slice(), 1, head_len);
        proof {
            assert(name@ =~= toks.deep_view()[0].drop_first());
        }
        let rest = copy_range(cur.as_slice(), head_len, cur.len());
        proof {
            assert(rest@ =~= cur@.skip(head_len as int));
            assert(head_len as int == toks.deep_view()[0].len());
        }
        match macs.get(name.as_slice()) {
            None => {
                return Err(VmError::UnknownMacro { name });
            },
            Some(mac) => match mac {
                Mac::Subst(t) => {
                    let mut next = copy_range(t.as_slice(), 0, t.len());
                    let mut tail = rest;
                    next.append(&mut tail);
                    proof {
                        assert(next@ =~= t@ + cur@.skip(head_len as int));
                    }
                    cur = next;
                    fuel = fuel - 1;
                },
                Mac::Func { params, body } => {
                    let args = copy_toks(&toks, 1, toks.len());
                    proof {
                        assert(args.deep_view() =~~= spec_tokens(cur@).drop_first());
                    }
                    if args.len() != params.len() {
                        return Err(
                            VmError::MacroArityMismatch {
                                expected: params.len(),
                                got: args.len(),
                            },
                        );
                    }
                    let replaced = subst_body(body, params, &args);
                    let mut next = join_tokens(&replaced);
                    let mut tail = rest;
                    next.append(&mut tail);
                    proof {
                        assert(next@ =~= spec_join(
                            spec_subst_body(
                                body.deep_view(),
                                params.deep_view(),
                                spec_tokens(cur@).drop_first(),
                            ),
                        ) + cur@.skip(head_len as int));
                    }
                    cur = next;
                    fuel = fuel - 1;
                },
            },
        }
    }
    Ok(cur)
}

} // verus!
