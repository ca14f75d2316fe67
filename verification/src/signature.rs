//! The signature scanner: a four-phase character state machine that
//! validates one function-declaration line and extracts the declared
//! name. The phases, in reading order: seeking the keyword `ON`,
//! reading the name up to `(`, consuming the parameter span up to `)`
//! (its content is accepted but never interpreted), and allowing only
//! whitespace until the opening `{`.

use vstd::prelude::*;

use crate::error::{ErrorKind, LineError};
use crate::text::{chars_to_string, is_space, is_space_char, spec_trim, str_to_chars, trim_chars};

verus! {

/// The scanner's phase, in reading order.
#[derive(Clone, Copy, Debug, PartialEq, Eq, Structural)]
pub enum ScanPhase {
    Keyword,
    FnName,
    Params,
    Post,
}

/// Does `s` contain a whitespace character?
pub open spec fn has_whitespace(s: Seq<char>) -> bool {
    exists|i: int| 0 <= i < s.len() && is_space(s[i])
}

/// One step-by-step signature scan from position `i` on. `buf` is the
/// character accumulator of the current phase and `name` the
/// registered function name once the name phase has ended.
pub open spec fn scan_rec(
    s: Seq<char>,
    i: int,
    phase: ScanPhase,
    buf: Seq<char>,
    name: Seq<char>,
) -> Result<Seq<char>, ErrorKind>
    decreases s.len() - i,
{
    if i < 0 || i >= s.len() {
        if phase == ScanPhase::Post {
            Ok(name)
        } else {
            Err(ErrorKind::IncompleteFunctionSignature)
        }
    } else {
        let c = s[i];
        match phase {
            ScanPhase::Keyword => {
                let b = buf.push(c);
                if b == seq!['O', 'N'] {
                    scan_rec(s, i + 1, ScanPhase::FnName, Seq::empty(), name)
                } else {
                    scan_rec(s, i + 1, ScanPhase::Keyword, b, name)
                }
            },
            ScanPhase::FnName => {
                if c == '(' {
                    let n = spec_trim(buf);
                    if has_whitespace(n) {
                        Err(ErrorKind::FunctionNameHasWhitespace)
                    } else {
                        scan_rec(s, i + 1, ScanPhase::Params, Seq::empty(), n)
                    }
                } else if c == '{' {
                    Err(ErrorKind::UnexpectedTokenInSignature)
                } else {
                    scan_rec(s, i + 1, ScanPhase::FnName, buf.push(c), name)
                }
            },
            ScanPhase::Params => {
                if c == ')' {
                    scan_rec(s, i + 1, ScanPhase::Post, buf, name)
                } else if c == '(' || c == '{' {
                    Err(ErrorKind::UnexpectedTokenInSignature)
                } else {
                    scan_rec(s, i + 1, ScanPhase::Params, buf, name)
                }
            },
            ScanPhase::Post => {
                if c == '{' {
                    Ok(name)
                } else if c == '(' || c == ')' {
                    Err(ErrorKind::UnexpectedTokenInSignature)
                } else if is_space(c) {
                    scan_rec(s, i + 1, ScanPhase::Post, buf, name)
                } else {
                    Err(ErrorKind::UnexpectedTokenInSignature)
                }
            },
        }
    }
}

/// Scan one function-declaration line: the registered name on
/// success, the violated rule otherwise.
pub open spec fn spec_scan_signature(line: Seq<char>) -> Result<Seq<char>, ErrorKind> {
    scan_rec(line, 0, ScanPhase::Keyword, Seq::empty(), Seq::empty())
}

fn contains_whitespace(v: &Vec<char>) -> (r: bool)
    ensures
        r == has_whitespace(v@),
{
    let mut i: usize = 0;
    while i < v.len()
        invariant
            0 <= i <= v.len(),
            forall|j: int| 0 <= j < i ==> !is_space(v@[j]),
        decreases v.len() - i,
    {
        if is_space_char(v[i]) {
            return true;
        }
        i = i + 1;
    }
    false
}

/// Validate one function-declaration line and, on success, append the
/// declared name to the function table; executable mirror of
/// [`spec_scan_signature`]. On failure the table is unchanged.
pub fn pef(line: &str, fns: &mut Vec<String>) -> (r: Result<(), LineError>)
    ensures
        match spec_scan_signature(line@) {
            Ok(n) => r is Ok && final(fns).deep_view() == old(fns).deep_view().push(n),
            Err(k) => r matches Err(e) && e@.kind == k && e@.detail == Seq::<char>::empty()
                && final(fns)@ == old(fns)@,
        },
{
    let v = str_to_chars(line);
    let mut i: usize = 0;
    let mut phase = ScanPhase::Keyword;
    let mut buf: Vec<char> = Vec::new();
    let mut name: Vec<char> = Vec::new();
    proof {
        assert(buf@ =~= Seq::<char>::empty());
        assert(name@ =~= Seq::<char>::empty());
    }
    while i < v.len()
        invariant
            0 <= i <= v.len(),
            v@ == line@,
            fns@ == old(fns)@,
            spec_scan_signature(line@) == scan_rec(v@, i as int, phase, buf@, name@),
        decreases v.len() - i,
    {
        let c = v[i];
        match phase {
            ScanPhase::Keyword => {
                buf.push(c);
                let is_kw = buf.len() == 2 && buf[0] == 'O' && buf[1] == 'N';
                proof {
                    if is_kw {
                        assert(buf@ =~= seq!['O', 'N']);
                    } else {
                        assert(buf@ != seq!['O', 'N']);
                    }
                }
                if is_kw {
                    phase = ScanPhase::FnName;
                    buf = Vec::new();
                    proof {
                        assert(buf@ =~= Seq::<char>::empty());
                    }
                }
            },
            ScanPhase::FnName => {
                if c == '(' {
                    let t = trim_chars(&buf);
                    if contains_whitespace(&t) {
                        return Err(
                            LineError {
                                kind: ErrorKind::FunctionNameHasWhitespace,
                                detail: String::new(),
                            },
                        );
                    }
                    name = t;
                    phase = ScanPhase::Params;
                    buf = Vec::new();
                    proof {
                        assert(buf@ =~= Seq::<char>::empty());
                    }
                } else if c == '{' {
                    return Err(
                        LineError {
                            kind: ErrorKind::UnexpectedTokenInSignature,
                            detail: String::new(),
                        },
                    );
                } else {
                    buf.push(c);
                }
            },
            ScanPhase::Params => {
                if c == ')' {
                    phase = ScanPhase::Post;
                } else if c == '(' || c == '{' {
                    return Err(
                        LineError {
                            kind: ErrorKind::UnexpectedTokenInSignature,
                            detail: String::new(),
                        },
                    );
                }
            },
            ScanPhase::Post => {
                if c == '{' {
                    let s = chars_to_string(&name);
                    let ghost prev = fns.deep_view();
                    fns.push(s);
                    proof {
                        assert(fns.deep_view() =~= prev.push(name@));
                    }
                    return Ok(());
                } else if c == '(' || c == ')' {
                    return Err(
                        LineError {
                            kind: ErrorKind::UnexpectedTokenInSignature,
                            detail: String::new(),
                        },
                    );
                } else if is_space_char(c) {
                } else {
                    return Err(
                        LineError {
                            kind: ErrorKind::UnexpectedTokenInSignature,
                            detail: String::new(),
                        },
                    );
                }
            },
        }
        i = i + 1;
    }
    if matches!(phase, ScanPhase::Post) {
        let s = chars_to_string(&name);
        let ghost prev = fns.deep_view();
        fns.push(s);
        proof {
            assert(fns.deep_view() =~= prev.push(name@));
        }
        Ok(())
    } else {
        Err(LineError { kind: ErrorKind::IncompleteFunctionSignature, detail: String::new() })
    }
}

} // verus!
