//! The argument splitter for output statements. The statement body is
//! scanned left to right with an "inside quote" flag and the active
//! quote character: inside a quote every character, commas included,
//! is copied verbatim until the matching quote character recurs;
//! outside a quote `,` delimits arguments, which are trimmed, and `"`
//! or `'` opens a quote span. Trailing accumulated text is emitted as
//! a final argument only when it is non-empty after trimming.

use vstd::prelude::*;

use crate::text::{chars_to_string, spec_trim, str_to_chars, trim_chars};

verus! {

/// One step-by-step scan of the body from position `i` on, with the
/// quote state, the argument accumulated so far and the arguments
/// already emitted.
pub open spec fn split_args_rec(
    s: Seq<char>,
    i: int,
    inq: bool,
    qc: char,
    cur: Seq<char>,
    acc: Seq<Seq<char>>,
) -> Seq<Seq<char>>
    decreases s.len() - i,
{
    if i < 0 || i >= s.len() {
        if spec_trim(cur).len() > 0 {
            acc.push(spec_trim(cur))
        } else {
            acc
        }
    } else {
        let c = s[i];
        if inq {
            split_args_rec(s, i + 1, c != qc, qc, cur.push(c), acc)
        } else if c == '"' || c == '\'' {
            split_args_rec(s, i + 1, true, c, cur.push(c), acc)
        } else if c == ',' {
            split_args_rec(s, i + 1, false, qc, Seq::empty(), acc.push(spec_trim(cur)))
        } else {
            split_args_rec(s, i + 1, false, qc, cur.push(c), acc)
        }
    }
}

/// The ordered argument texts of an output-statement body.
pub open spec fn spec_split_args(s: Seq<char>) -> Seq<Seq<char>> {
    split_args_rec(s, 0, false, ' ', Seq::empty(), Seq::empty())
}

/// Split a comma-delimited, quote-aware argument list; executable
/// mirror of [`spec_split_args`].
pub fn parse_arguments(tcts: &str) -> (r: Vec<String>)
    ensures
        r.deep_view() == spec_split_args(tcts@),
{
    let v = str_to_chars(tcts);
    let mut args: Vec<String> = Vec::new();
    let mut cur: Vec<char> = Vec::new();
    let mut inq = false;
    let mut qc: char = ' ';
    let mut i: usize = 0;
    proof {
        assert(args.deep_view() =~= Seq::<Seq<char>>::empty());
        assert(cur@ =~= Seq::<char>::empty());
    }
    while i < v.len()
        invariant
            0 <= i <= v.len(),
            v@ == tcts@,
            spec_split_args(tcts@) == split_args_rec(v@, i as int, inq, qc, cur@, args.deep_view()),
        decreases v.len() - i,
    {
        let c = v[i];
        let ghost prev_args = args.deep_view();
        if inq {
            cur.push(c);
            if c == qc {
                inq = false;
            }
        } else if c == '"' || c == '\'' {
            inq = true;
            qc = c;
            cur.push(c);
        } else if c == ',' {
            let t = trim_chars(&cur);
            let s = chars_to_string(&t);
            args.push(s);
            cur = Vec::new();
            proof {
                assert(args.deep_view() =~= prev_args.push(t@));
            }
        } else {
            cur.push(c);
        }
        i = i + 1;
    }
    let t = trim_chars(&cur);
    if t.len() > 0 {
        let ghost prev_args = args.deep_view();
        let s = chars_to_string(&t);
        args.push(s);
        proof {
            assert(args.deep_view() =~= prev_args.push(t@));
        }
    }
    args
}

} // verus!
