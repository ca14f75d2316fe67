//! Whole-run laws of the validator, stated over the specification
//! functions that the executable contracts are proved against.

use vstd::prelude::*;

use crate::driver::{
    empty_state, first_undefined, spec_check, spec_line_step, spec_run, ModelState,
};
use crate::error::{ErrorKind, FatalErrorModel, LineErrorModel};
use crate::text::spec_trim;

verus! {

/// A line that carries no statement: after trimming it is empty or a
/// comment, and it does not end in the statement terminator.
pub open spec fn trivial_line(l: Seq<char>) -> bool {
    let t = spec_trim(l);
    (t.len() == 0 || t[0] == '#') && !(t.len() > 0 && t[t.len() - 1] == ';')
}

proof fn lemma_trivial_line_step(st: ModelState, l: Seq<char>)
    requires
        trivial_line(l),
    ensures
        spec_line_step(st, l) == Ok::<ModelState, LineErrorModel>(st),
{
    let t = spec_trim(l);
    if t.len() == 0 {
        assert(!seq!['e', 'c', 'h', 'o', 'l', 'n'].is_prefix_of(t));
        assert(!seq!['m', 'a', 'y', ' '].is_prefix_of(t));
    } else {
        assert(t[0] == '#');
        if seq!['e', 'c', 'h', 'o', 'l', 'n'].is_prefix_of(t) {
            assert(t.subrange(0, 6)[0] == t[0]);
            assert(false);
        }
        if seq!['m', 'a', 'y', ' '].is_prefix_of(t) {
            assert(t.subrange(0, 4)[0] == t[0]);
            assert(false);
        }
    }
}

proof fn lemma_run_trivial(code: Seq<Seq<char>>, i: int)
    requires
        0 <= i <= code.len(),
        forall|k: int| 0 <= k < code.len() ==> trivial_line(code[k]),
    ensures
        spec_run(code, i, empty_state()) == Ok::<ModelState, FatalErrorModel>(empty_state()),
    decreases code.len() - i,
{
    if i < code.len() {
        lemma_trivial_line_step(empty_state(), code[i]);
        lemma_run_trivial(code, i + 1);
    }
}

/// A well-formed program of only comments and blank lines validates
/// successfully, and with empty variable, function and call-site
/// accumulators.
pub proof fn lemma_trivial_program_validates(code: Seq<Seq<char>>)
    requires
        forall|k: int| 0 <= k < code.len() ==> trivial_line(code[k]),
    ensures
        spec_check(code) == Ok::<ModelState, FatalErrorModel>(empty_state()),
{
    lemma_run_trivial(code, 0);
    assert(first_undefined(empty_state().fns, empty_state().calls) == None::<Seq<char>>);
}

/// A line whose trimmed text ends in the statement terminator fails
/// with `UnexpectedTerminator`, whatever its other content and
/// whatever the state it is scanned in.
pub proof fn lemma_terminator_line(st: ModelState, l: Seq<char>)
    requires
        spec_trim(l).len() > 0,
        spec_trim(l)[spec_trim(l).len() - 1] == ';',
    ensures
        spec_line_step(st, l) == Err::<ModelState, LineErrorModel>(
            LineErrorModel { kind: ErrorKind::UnexpectedTerminator, detail: Seq::empty() },
        ),
{
}

proof fn lemma_run_ok_no_terminator(code: Seq<Seq<char>>, i: int, st: ModelState)
    requires
        0 <= i <= code.len(),
        spec_run(code, i, st) is Ok,
    ensures
        forall|k: int|
            i <= k < code.len() ==> !(spec_trim(code[k]).len() > 0 && spec_trim(code[k])[
            spec_trim(code[k]).len() - 1] == ';'),
    decreases code.len() - i,
{
    if i < code.len() {
        if spec_trim(code[i]).len() > 0 && spec_trim(code[i])[spec_trim(code[i]).len() - 1]
            == ';' {
            lemma_terminator_line(st, code[i]);
            assert(false);
        }
        match spec_line_step(st, code[i]) {
            Ok(st2) => {
                lemma_run_ok_no_terminator(code, i + 1, st2);
            },
            Err(_) => {
                assert(false);
            },
        }
    }
}

/// The other face of the terminator rule: a program that validates
/// successfully has no line whose trimmed text ends in the statement
/// terminator.
pub proof fn lemma_success_has_no_terminator(code: Seq<Seq<char>>)
    requires
        spec_check(code) is Ok,
    ensures
        forall|k: int|
            0 <= k < code.len() ==> !(spec_trim(code[k]).len() > 0 && spec_trim(code[k])[
            spec_trim(code[k]).len() - 1] == ';'),
{
    lemma_run_ok_no_terminator(code, 0, empty_state());
}

/// The accumulators are append-only: one accepted line only ever
/// extends the variable table, the function table and the recorded
/// call sites, never mutates or removes earlier entries.
pub proof fn lemma_line_step_extends(st: ModelState, l: Seq<char>)
    ensures
        spec_line_step(st, l) matches Ok(st2) ==> st.vars.is_prefix_of(st2.vars)
            && st.fns.is_prefix_of(st2.fns) && st.calls.is_prefix_of(st2.calls),
{
    assert(st.vars.is_prefix_of(st.vars) && st.fns.is_prefix_of(st.fns) && st.calls.is_prefix_of(
        st.calls,
    )) by {
        assert(st.vars.subrange(0, st.vars.len() as int) =~= st.vars);
        assert(st.fns.subrange(0, st.fns.len() as int) =~= st.fns);
        assert(st.calls.subrange(0, st.calls.len() as int) =~= st.calls);
    }
    assert forall|s: Seq<Seq<char>>, x: Seq<char>| s.is_prefix_of(#[trigger] s.push(x)) by {
        assert(s.push(x).subrange(0, s.len() as int) =~= s);
    }
    assert forall|s: Seq<crate::value::VarModel>, x: crate::value::VarModel| s.is_prefix_of(
        #[trigger] s.push(x),
    ) by {
        assert(s.push(x).subrange(0, s.len() as int) =~= s);
    }
}

} // verus!
