//! The statement classifier and line driver. Each trimmed line is
//! routed, in order, to the terminator rule, the output rule, the
//! variable rule, the comment and blank no-ops, the signature scanner,
//! the block-close no-op, or the call-site rule. The driver runs the
//! classifier over the whole file once, accumulating the three
//! append-only tables, and then resolves every recorded call site
//! against the final function table, so a call may precede the
//! declaration of the function it names.

use vstd::prelude::*;

use crate::args::{parse_arguments, spec_split_args};
use crate::error::{ErrorKind, FatalError, FatalErrorModel, LineError, LineErrorModel};
use crate::signature::{pef, spec_scan_signature};
use crate::text::{
    chars_to_string, count_char, find_char, lemma_find_char_at, spec_trim, starts_with_chars,
    str_eq_chars, str_to_chars, subvec, trim_chars,
};
use crate::value::{
    classify_value, is_literal, spec_classify, spec_is_quoted, spec_var_exists, variable_exists,
    Var, VarModel,
};

verus! {

/// Mathematical model of the three accumulators of one validation
/// run: the variable table, the function table and the recorded call
/// sites, each in accumulation order.
#[verifier::ext_equal]
pub ghost struct ModelState {
    pub vars: Seq<VarModel>,
    pub fns: Seq<Seq<char>>,
    pub calls: Seq<Seq<char>>,
}

/// The three accumulators of one validation run. All three are
/// append-only: no entry is ever mutated or removed.
#[derive(Debug)]
pub struct ValidatorState {
    pub vars: Vec<Var>,
    pub fns: Vec<String>,
    pub calls: Vec<String>,
}

impl View for ValidatorState {
    type V = ModelState;

    open spec fn view(&self) -> ModelState {
        ModelState {
            vars: self.vars.deep_view(),
            fns: self.fns.deep_view(),
            calls: self.calls.deep_view(),
        }
    }
}

/// The state a validation run starts from.
pub open spec fn empty_state() -> ModelState {
    ModelState { vars: Seq::empty(), fns: Seq::empty(), calls: Seq::empty() }
}

impl ValidatorState {
    /// Fresh accumulators for one run.
    pub fn new() -> (r: Self)
        ensures
            r@ == empty_state(),
    {
        let s = ValidatorState { vars: Vec::new(), fns: Vec::new(), calls: Vec::new() };
        proof {
            assert(s@ =~= empty_state());
        }
        s
    }
}

/// The body of an output statement: the text strictly between the
/// keyword's opening parenthesis and the final closing parenthesis,
/// empty when the line is too short to hold both.
pub open spec fn spec_echo_body(t: Seq<char>) -> Seq<char> {
    if t.len() >= 8 {
        t.subrange(7, t.len() - 1)
    } else {
        Seq::empty()
    }
}

/// The first output-statement argument that is neither a quoted
/// literal nor the name of a declared variable, if any.
pub open spec fn first_bad_arg(vars: Seq<VarModel>, args: Seq<Seq<char>>) -> Option<Seq<char>>
    decreases args.len(),
{
    if args.len() == 0 {
        None
    } else if !spec_is_quoted(args[0]) && !spec_var_exists(vars, args[0]) {
        Some(args[0])
    } else {
        first_bad_arg(vars, args.drop_first())
    }
}

/// Apply the variable-declaration rule to a declaration body (the
/// text after the declaration keyword): exactly one `=`, a non-empty
/// trimmed name on its left, and a classifiable value on its right;
/// on success the new entry is appended to the variable table.
pub open spec fn spec_declare(vars: Seq<VarModel>, body: Seq<char>) -> Result<
    Seq<VarModel>,
    LineErrorModel,
> {
    if count_char(body, '=') == 0 {
        Err(LineErrorModel { kind: ErrorKind::InvalidSyntax, detail: Seq::empty() })
    } else if count_char(body, '=') >= 2 {
        Err(LineErrorModel { kind: ErrorKind::TooManyAssignments, detail: Seq::empty() })
    } else {
        let p = find_char(body, '=');
        let name = spec_trim(body.take(p));
        let val = spec_trim(body.skip(p + 1));
        if name.len() == 0 {
            Err(LineErrorModel { kind: ErrorKind::EmptyVariableName, detail: Seq::empty() })
        } else {
            match spec_classify(vars, val) {
                Some(k) => Ok(vars.push(VarModel { name, val, vt: k })),
                None => Err(LineErrorModel { kind: ErrorKind::UnknownValueOrType, detail: val }),
            }
        }
    }
}

/// Is the trimmed line exactly `<name>()` for a function already in
/// the table?
pub open spec fn spec_known_call(fns: Seq<Seq<char>>, t: Seq<char>) -> bool {
    exists|j: int| 0 <= j < fns.len() && t == fns[j] + seq!['(', ')']
}

/// Classify one raw source line against the current state and apply
/// its statement rule.
pub open spec fn spec_line_step(st: ModelState, line: Seq<char>) -> Result<
    ModelState,
    LineErrorModel,
> {
    let t = spec_trim(line);
    if t.len() > 0 && t[t.len() - 1] == ';' {
        Err(LineErrorModel { kind: ErrorKind::UnexpectedTerminator, detail: Seq::empty() })
    } else if seq!['e', 'c', 'h', 'o', 'l', 'n'].is_prefix_of(t) && t.len() > 0 && t[t.len() - 1]
        == ')' {
        match first_bad_arg(st.vars, spec_split_args(spec_echo_body(t))) {
            Some(a) => Err(LineErrorModel { kind: ErrorKind::InvalidArgument, detail: a }),
            None => Ok(st),
        }
    } else if seq!['m', 'a', 'y', ' '].is_prefix_of(t) {
        match spec_declare(st.vars, t.skip(4)) {
            Ok(vs) => Ok(ModelState { vars: vs, fns: st.fns, calls: st.calls }),
            Err(e) => Err(e),
        }
    } else if t.len() > 0 && t[0] == '#' {
        Ok(st)
    } else if forall|i: int| 0 <= i < t.len() ==> t[i] == ' ' {
        Ok(st)
    } else if seq!['O', 'N', ' '].is_prefix_of(t) && ((t.len() >= 2 && t[t.len() - 2] == '{' && t[
        t.len() - 1] == '}') || t[t.len() - 1] == '{') {
        match spec_scan_signature(t) {
            Ok(n) => Ok(ModelState { vars: st.vars, fns: st.fns.push(n), calls: st.calls }),
            Err(k) => Err(LineErrorModel { kind: k, detail: Seq::empty() }),
        }
    } else if t.len() == 1 && t[0] == '}' {
        Ok(st)
    } else if spec_known_call(st.fns, t) {
        Ok(st)
    } else {
        Ok(ModelState { vars: st.vars, fns: st.fns, calls: st.calls.push(t) })
    }
}

/// Apply the output-statement rule: every argument of the body must
/// be a quoted literal or the name of an already-declared variable;
/// the first that is neither is reported.
pub fn peln(line: &str, vrs: &Vec<Var>) -> (r: Result<(), LineError>)
    ensures
        match first_bad_arg(vrs.deep_view(), spec_split_args(spec_echo_body(line@))) {
            Some(a) => r matches Err(e) && e@.kind == ErrorKind::InvalidArgument && e@.detail == a,
            None => r is Ok,
        },
{
    let n = line.unicode_len();
    let body_str = if n >= 8 {
        line.substring_char(7, n - 1)
    } else {
        line.substring_char(0, 0)
    };
    proof {
        assert(body_str@ =~= spec_echo_body(line@));
    }
    let args = parse_arguments(body_str);
    let ghost args_seq = args.deep_view();
    proof {
        assert(args_seq.skip(0) =~= args_seq);
    }
    let mut i: usize = 0;
    while i < args.len()
        invariant
            0 <= i <= args.len(),
            args_seq == args.deep_view(),
            args_seq.len() == args.len(),
            args_seq == spec_split_args(spec_echo_body(line@)),
            first_bad_arg(vrs.deep_view(), args_seq) == first_bad_arg(
                vrs.deep_view(),
                args_seq.skip(i as int),
            ),
        decreases args.len() - i,
    {
        proof {
            assert(args_seq.skip(i as int)[0] == args_seq[i as int]);
        }
        let arg = &args[i];
        if !is_literal(arg.as_str()) && !variable_exists(arg.as_str(), vrs) {
            return Err(LineError { kind: ErrorKind::InvalidArgument, detail: arg.clone() });
        }
        proof {
            assert(args_seq.skip(i as int).drop_first() =~= args_seq.skip(i + 1));
        }
        i = i + 1;
    }
    proof {
        assert(args_seq.skip(args.len() as int) =~= Seq::<Seq<char>>::empty());
    }
    Ok(())
}

/// Apply the variable-declaration rule to a trimmed declaration line;
/// executable mirror of [`spec_declare`] on the text after the
/// keyword.
pub fn pvr(line: &str, vrs: &mut Vec<Var>) -> (r: Result<(), LineError>)
    requires
        line@.len() >= 4,
    ensures
        match spec_declare(old(vrs).deep_view(), line@.skip(4)) {
            Ok(vs) => r is Ok && final(vrs).deep_view() == vs,
            Err(e) => (r matches Err(x) && x@ == e) && final(vrs)@ == old(vrs)@,
        },
{
    let v = str_to_chars(line);
    let body = subvec(&v, 4, v.len());
    proof {
        assert(body@ =~= line@.skip(4));
    }
    let mut cnt: usize = 0;
    let mut p: usize = 0;
    let mut i: usize = 0;
    proof {
        assert(body@.take(0) =~= Seq::<char>::empty());
    }
    while i < body.len()
        invariant
            0 <= i <= body@.len(),
            cnt == count_char(body@.take(i as int), '='),
            cnt <= i,
            vrs@ == old(vrs)@,
            cnt == 0 ==> forall|j: int| 0 <= j < i ==> body@[j] != '=',
            cnt > 0 ==> p < i && body@[p as int] == '=' && (forall|j: int|
                0 <= j < p ==> body@[j] != '='),
        decreases body@.len() - i,
    {
        proof {
            assert(body@.take(i + 1).drop_last() =~= body@.take(i as int));
            assert(body@.take(i + 1).last() == body@[i as int]);
        }
        if body[i] == '=' {
            if cnt == 0 {
                p = i;
            }
            cnt = cnt + 1;
        }
        i = i + 1;
    }
    proof {
        assert(body@.take(body@.len() as int) =~= body@);
    }
    if cnt == 0 {
        return Err(LineError { kind: ErrorKind::InvalidSyntax, detail: String::new() });
    }
    if cnt >= 2 {
        return Err(LineError { kind: ErrorKind::TooManyAssignments, detail: String::new() });
    }
    proof {
        lemma_find_char_at(body@, '=', p as int);
    }
    let head = subvec(&body, 0, p);
    let name_v = trim_chars(&head);
    let tail = subvec(&body, p + 1, body.len());
    let val_v = trim_chars(&tail);
    proof {
        assert(body@.subrange(0, p as int) =~= body@.take(p as int));
        assert(body@.subrange(p + 1, body@.len() as int) =~= body@.skip(p + 1));
    }
    if name_v.len() == 0 {
        return Err(LineError { kind: ErrorKind::EmptyVariableName, detail: String::new() });
    }
    match classify_value(vrs, &val_v) {
        Some(k) => {
            let ghost prev = vrs.deep_view();
            let nm = chars_to_string(&name_v);
            let vl = chars_to_string(&val_v);
            vrs.push(Var { name: nm, val: vl, vt: k });
            proof {
                assert(vrs.deep_view() =~= prev.push(
                    VarModel {
                        name: spec_trim(body@.take(p as int)),
                        val: spec_trim(body@.skip(p + 1)),
                        vt: k,
                    },
                ));
            }
            Ok(())
        },
        None => Err(
            LineError { kind: ErrorKind::UnknownValueOrType, detail: chars_to_string(&val_v) },
        ),
    }
}

fn make_pattern_echoln() -> (r: Vec<char>)
    ensures
        r@ == seq!['e', 'c', 'h', 'o', 'l', 'n'],
{
    let mut p: Vec<char> = Vec::new();
    p.push('e');
    p.push('c');
    p.push('h');
    p.push('o');
    p.push('l');
    p.push('n');
    proof {
        assert(p@ =~= seq!['e', 'c', 'h', 'o', 'l', 'n']);
    }
    p
}

fn make_pattern_may() -> (r: Vec<char>)
    ensures
        r@ == seq!['m', 'a', 'y', ' '],
{
    let mut p: Vec<char> = Vec::new();
    p.push('m');
    p.push('a');
    p.push('y');
    p.push(' ');
    proof {
        assert(p@ =~= seq!['m', 'a', 'y', ' ']);
    }
    p
}

fn make_pattern_on() -> (r: Vec<char>)
    ensures
        r@ == seq!['O', 'N', ' '],
{
    let mut p: Vec<char> = Vec::new();
    p.push('O');
    p.push('N');
    p.push(' ');
    proof {
        assert(p@ =~= seq!['O', 'N', ' ']);
    }
    p
}

fn is_all_spaces(t: &Vec<char>) -> (r: bool)
    ensures
        r == (forall|i: int| 0 <= i < t@.len() ==> t@[i] == ' '),
{
    let mut i: usize = 0;
    while i < t.len()
        invariant
            0 <= i <= t@.len(),
            forall|j: int| 0 <= j < i ==> t@[j] == ' ',
        decreases t@.len() - i,
    {
        if t[i] != ' ' {
            return false;
        }
        i = i + 1;
    }
    true
}

fn matches_call(f: &str, t: &Vec<char>) -> (r: bool)
    ensures
        r == (t@ == f@ + seq!['(', ')']),
{
    let fl = f.unicode_len();
    if t.len() < 2 || fl != t.len() - 2 {
        proof {
            assert((f@ + seq!['(', ')']).len() == f@.len() + 2);
        }
        return false;
    }
    if !(t[t.len() - 2] == '(' && t[t.len() - 1] == ')') {
        proof {
            assert((f@ + seq!['(', ')'])[t@.len() - 2] == '(');
            assert((f@ + seq!['(', ')'])[t@.len() - 1] == ')');
        }
        return false;
    }
    let mut k: usize = 0;
    while k < fl
        invariant
            0 <= k <= fl,
            fl == f@.len(),
            t@.len() == fl + 2,
            forall|j: int| 0 <= j < k ==> t@[j] == f@[j],
        decreases fl - k,
    {
        if f.get_char(k) != t[k] {
            proof {
                assert((f@ + seq!['(', ')'])[k as int] == f@[k as int]);
            }
            return false;
        }
        k = k + 1;
    }
    proof {
        assert(t@ =~= f@ + seq!['(', ')']);
    }
    true
}

fn is_known_call(fns: &Vec<String>, t: &Vec<char>) -> (r: bool)
    ensures
        r == spec_known_call(fns.deep_view(), t@),
{
    let mut j: usize = 0;
    while j < fns.len()
        invariant
            0 <= j <= fns.len(),
            fns.deep_view().len() == fns.len(),
            forall|i: int| 0 <= i < j ==> t@ != fns.deep_view()[i] + seq!['(', ')'],
        decreases fns.len() - j,
    {
        if matches_call(fns[j].as_str(), t) {
            proof {
                assert(spec_known_call(fns.deep_view(), t@)) by {
                    assert(t@ == fns.deep_view()[j as int] + seq!['(', ')']);
                }
            }
            return true;
        }
        j = j + 1;
    }
    false
}

/// Classify one source line and apply its statement rule to the
/// accumulated state; executable mirror of [`spec_line_step`]. On an
/// error the state is unchanged.
pub fn parse_line(line: &str, st: &mut ValidatorState) -> (r: Result<(), LineError>)
    ensures
        match spec_line_step(old(st)@, line@) {
            Ok(m) => r is Ok && final(st)@ == m,
            Err(e) => (r matches Err(x) && x@ == e) && final(st)@ == old(st)@,
        },
{
    let lv = str_to_chars(line);
    let t = trim_chars(&lv);
    if t.len() > 0 && t[t.len() - 1] == ';' {
        return Err(LineError { kind: ErrorKind::UnexpectedTerminator, detail: String::new() });
    }
    let t_str = chars_to_string(&t);
    let p_echoln = make_pattern_echoln();
    let p_may = make_pattern_may();
    let p_on = make_pattern_on();
    if starts_with_chars(&t, &p_echoln) && t.len() > 0 && t[t.len() - 1] == ')' {
        match peln(t_str.as_str(), &st.vars) {
            Ok(()) => Ok(()),
            Err(e) => Err(e),
        }
    } else if starts_with_chars(&t, &p_may) {
        match pvr(t_str.as_str(), &mut st.vars) {
            Ok(()) => Ok(()),
            Err(e) => Err(e),
        }
    } else if t.len() > 0 && t[0] == '#' {
        Ok(())
    } else if is_all_spaces(&t) {
        Ok(())
    } else if starts_with_chars(&t, &p_on) && ((t.len() >= 2 && t[t.len() - 2] == '{' && t[t.len()
        - 1] == '}') || t[t.len() - 1] == '{') {
        match pef(t_str.as_str(), &mut st.fns) {
            Ok(()) => Ok(()),
            Err(e) => Err(e),
        }
    } else if t.len() == 1 && t[0] == '}' {
        Ok(())
    } else {
        if is_known_call(&st.fns, &t) {
            Ok(())
        } else {
            let ghost prev = st.calls.deep_view();
            st.calls.push(t_str);
            proof {
                assert(st.calls.deep_view() =~= prev.push(t@));
            }
            Ok(())
        }
    }
}

/// Run the classifier over the lines of `code` from index `i` on. An
/// error is wrapped with the 1-based line number and the trimmed line
/// text.
pub open spec fn spec_run(code: Seq<Seq<char>>, i: int, st: ModelState) -> Result<
    ModelState,
    FatalErrorModel,
>
    decreases code.len() - i,
{
    if i < 0 || i >= code.len() {
        Ok(st)
    } else {
        match spec_line_step(st, code[i]) {
            Ok(st2) => spec_run(code, i + 1, st2),
            Err(e) => Err(
                FatalErrorModel {
                    kind: e.kind,
                    line: i + 1,
                    line_text: spec_trim(code[i]),
                    detail: e.detail,
                },
            ),
        }
    }
}

/// A recorded call site with every trailing `()` stripped: the name
/// that is resolved against the function table.
pub open spec fn spec_strip_call(s: Seq<char>) -> Seq<char>
    decreases s.len(),
{
    if s.len() >= 2 && s[s.len() - 2] == '(' && s[s.len() - 1] == ')' {
        spec_strip_call(s.take(s.len() - 2))
    } else {
        s
    }
}

/// The stripped name of the first recorded call site that resolves to
/// no declared function, if any.
pub open spec fn first_undefined(fns: Seq<Seq<char>>, calls: Seq<Seq<char>>) -> Option<Seq<char>>
    decreases calls.len(),
{
    if calls.len() == 0 {
        None
    } else {
        let n = spec_strip_call(calls[0]);
        if !fns.contains(n) {
            Some(n)
        } else {
            first_undefined(fns, calls.drop_first())
        }
    }
}

/// Validate a whole file: one top-to-bottom pass over the lines, then
/// call resolution against the final function table.
pub open spec fn spec_check(code: Seq<Seq<char>>) -> Result<ModelState, FatalErrorModel> {
    match spec_run(code, 0, empty_state()) {
        Ok(st) => match first_undefined(st.fns, st.calls) {
            Some(n) => Err(
                FatalErrorModel {
                    kind: ErrorKind::UndefinedFunctionCall,
                    line: 0,
                    line_text: Seq::empty(),
                    detail: n,
                },
            ),
            None => Ok(st),
        },
        Err(e) => Err(e),
    }
}

fn strip_call_chars(v: Vec<char>) -> (r: Vec<char>)
    ensures
        r@ == spec_strip_call(v@),
{
    let ghost orig = v@;
    let mut w = v;
    while w.len() >= 2 && w[w.len() - 2] == '(' && w[w.len() - 1] == ')'
        invariant
            spec_strip_call(orig) == spec_strip_call(w@),
        decreases w.len(),
    {
        let n = w.len();
        let ghost before = w@;
        w.truncate(n - 2);
        proof {
            assert(w@ =~= before.take(n - 2));
        }
    }
    w
}

fn contains_fn(fns: &Vec<String>, n: &Vec<char>) -> (r: bool)
    ensures
        r == fns.deep_view().contains(n@),
{
    let mut i: usize = 0;
    while i < fns.len()
        invariant
            0 <= i <= fns.len(),
            fns.deep_view().len() == fns.len(),
            forall|j: int| 0 <= j < i ==> fns.deep_view()[j] != n@,
        decreases fns.len() - i,
    {
        if str_eq_chars(fns[i].as_str(), n) {
            proof {
                assert(fns.deep_view()[i as int] == n@);
            }
            return true;
        }
        i = i + 1;
    }
    false
}

/// Validate a whole source file, given as its ordered lines. On
/// success the three final accumulators are returned; on the first
/// violated rule, a single fatal diagnostic. Executable mirror of
/// [`spec_check`].
pub fn check(code: Vec<String>) -> (r: Result<ValidatorState, FatalError>)
    ensures
        match spec_check(code.deep_view()) {
            Ok(m) => r matches Ok(st) && st@ == m,
            Err(e) => r matches Err(f) && f@ == e,
        },
{
    let ghost cv = code.deep_view();
    let mut st = ValidatorState::new();
    let mut i: usize = 0;
    while i < code.len()
        invariant
            0 <= i <= code.len(),
            cv == code.deep_view(),
            cv.len() == code.len(),
            spec_run(cv, 0, empty_state()) == spec_run(cv, i as int, st@),
        decreases code.len() - i,
    {
        let line = &code[i];
        proof {
            assert(cv[i as int] == line@);
        }
        match parse_line(line.as_str(), &mut st) {
            Ok(()) => {},
            Err(e) => {
                let lv = str_to_chars(line.as_str());
                let t = trim_chars(&lv);
                return Err(
                    FatalError {
                        kind: e.kind,
                        line: i + 1,
                        line_text: chars_to_string(&t),
                        detail: e.detail,
                    },
                );
            },
        }
        i = i + 1;
    }
    let ghost m = st@;
    proof {
        assert(m.calls.skip(0) =~= m.calls);
    }
    let mut j: usize = 0;
    while j < st.calls.len()
        invariant
            0 <= j <= st.calls.len(),
            st@ == m,
            cv == code.deep_view(),
            m.calls.len() == st.calls.len(),
            spec_run(cv, 0, empty_state()) == Ok::<ModelState, FatalErrorModel>(m),
            first_undefined(m.fns, m.calls) == first_undefined(m.fns, m.calls.skip(j as int)),
        decreases st.calls.len() - j,
    {
        proof {
            assert(m.calls.skip(j as int)[0] == m.calls[j as int]);
        }
        let cvchars = str_to_chars(st.calls[j].as_str());
        let stripped = strip_call_chars(cvchars);
        if !contains_fn(&st.fns, &stripped) {
            let fe = FatalError {
                kind: ErrorKind::UndefinedFunctionCall,
                line: 0,
                line_text: String::new(),
                detail: chars_to_string(&stripped),
            };
            proof {
                let tail = m.calls.skip(j as int);
                assert(tail.len() > 0);
                assert(tail[0] == m.calls[j as int]);
                let n = spec_strip_call(tail[0]);
                assert(stripped@ == n);
                assert(!m.fns.contains(n));
                assert(first_undefined(m.fns, tail) == Some(n));
                assert(first_undefined(m.fns, m.calls) == Some(n));
                assert(fe@ =~= (FatalErrorModel {
                    kind: ErrorKind::UndefinedFunctionCall,
                    line: 0,
                    line_text: Seq::empty(),
                    detail: n,
                }));
            }
            return Err(fe);
        }
        proof {
            assert(m.calls.skip(j as int).drop_first() =~= m.calls.skip(j + 1));
        }
        j = j + 1;
    }
    proof {
        assert(m.calls.skip(st.calls.len() as int) =~= Seq::<Seq<char>>::empty());
    }
    Ok(st)
}

} // verus!
