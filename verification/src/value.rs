//! The value classifier and the variable table. A declared variable
//! records its name, its raw value text and the inferred kind of that
//! value. The table is append-only and ordered: lookups return the
//! first entry with a matching name, so the earliest declaration wins.

use vstd::prelude::*;

use crate::numeric::{is_float_literal, is_integer_literal, spec_is_float, spec_is_integer};
use crate::text::str_eq_chars;
use crate::text::str_to_chars;

verus! {

/// The inferred kind of a declaration's value: a quoted string
/// literal, an integer, a float, or an arithmetic expression left for
/// run time.
#[derive(Clone, Copy, Debug, PartialEq, Eq, Structural)]
pub enum VT {
    Str,
    Int,
    Float,
    RT,
}

/// Mathematical model of one variable-table entry.
#[verifier::ext_equal]
pub ghost struct VarModel {
    pub name: Seq<char>,
    pub val: Seq<char>,
    pub vt: VT,
}

/// One entry of the variable table: a declared name, the raw value
/// text it was bound to, and the value's inferred kind.
#[derive(Clone, Debug)]
pub struct Var {
    pub name: String,
    pub val: String,
    pub vt: VT,
}

impl View for Var {
    type V = VarModel;

    open spec fn view(&self) -> VarModel {
        VarModel { name: self.name@, val: self.val@, vt: self.vt }
    }
}

impl DeepView for Var {
    type V = VarModel;

    open spec fn deep_view(&self) -> VarModel {
        self.view()
    }
}

/// Is `s` a quoted literal: the same quote character, single or
/// double, at both ends?
pub open spec fn spec_is_quoted(s: Seq<char>) -> bool {
    s.len() >= 1 && ((s[0] == '"' && s[s.len() - 1] == '"') || (s[0] == '\'' && s[s.len() - 1]
        == '\''))
}

/// Does `s` contain one of the four arithmetic operator characters?
pub open spec fn spec_contains_op(s: Seq<char>) -> bool {
    exists|i: int|
        0 <= i < s.len() && (s[i] == '+' || s[i] == '-' || s[i] == '/' || s[i] == '*')
}

/// The kind of the first table entry named `name`, if any.
pub open spec fn spec_lookup_kind(vars: Seq<VarModel>, name: Seq<char>) -> Option<VT>
    decreases vars.len(),
{
    if vars.len() == 0 {
        None
    } else if vars[0].name == name {
        Some(vars[0].vt)
    } else {
        spec_lookup_kind(vars.drop_first(), name)
    }
}

/// Is some table entry named `name`?
pub open spec fn spec_var_exists(vars: Seq<VarModel>, name: Seq<char>) -> bool {
    spec_lookup_kind(vars, name) is Some
}

/// Classify a declaration's value text against the variables declared
/// so far: a quoted literal, else integer syntax, else float syntax,
/// else an arithmetic expression, else the kind of the first earlier
/// variable of that name; `None` when nothing applies.
pub open spec fn spec_classify(vars: Seq<VarModel>, val: Seq<char>) -> Option<VT> {
    if spec_is_quoted(val) {
        Some(VT::Str)
    } else if spec_is_integer(val) {
        Some(VT::Int)
    } else if spec_is_float(val) {
        Some(VT::Float)
    } else if spec_contains_op(val) {
        Some(VT::RT)
    } else {
        spec_lookup_kind(vars, val)
    }
}

/// Is `arg` a quoted literal?
pub fn is_literal(arg: &str) -> (r: bool)
    ensures
        r == spec_is_quoted(arg@),
{
    let n = arg.unicode_len();
    if n == 0 {
        return false;
    }
    let f = arg.get_char(0);
    let l = arg.get_char(n - 1);
    (f == '"' && l == '"') || (f == '\'' && l == '\'')
}

/// Mirror of [`is_literal`] on a character vector.
pub fn is_quoted_chars(v: &Vec<char>) -> (r: bool)
    ensures
        r == spec_is_quoted(v@),
{
    if v.len() == 0 {
        return false;
    }
    let f = v[0];
    let l = v[v.len() - 1];
    (f == '"' && l == '"') || (f == '\'' && l == '\'')
}

/// Does `v` contain an arithmetic operator character?
pub fn contains_op_chars(v: &Vec<char>) -> (r: bool)
    ensures
        r == spec_contains_op(v@),
{
    let mut i: usize = 0;
    while i < v.len()
        invariant
            0 <= i <= v.len(),
            forall|j: int|
                0 <= j < i ==> !(v@[j] == '+' || v@[j] == '-' || v@[j] == '/' || v@[j] == '*'),
        decreases v.len() - i,
    {
        let c = v[i];
        if c == '+' || c == '-' || c == '/' || c == '*' {
            return true;
        }
        i = i + 1;
    }
    false
}

proof fn lemma_lookup_skip_step(vars: Seq<VarModel>, name: Seq<char>, i: int)
    requires
        0 <= i < vars.len(),
        vars.skip(i)[0].name != name,
    ensures
        spec_lookup_kind(vars.skip(i), name) == spec_lookup_kind(vars.skip(i + 1), name),
{
    assert(vars.skip(i).drop_first() =~= vars.skip(i + 1));
}

/// The kind of the first entry of `vrs` named by the characters of
/// `name`, if any.
pub fn lookup_kind(vrs: &Vec<Var>, name: &Vec<char>) -> (r: Option<VT>)
    ensures
        r == spec_lookup_kind(vrs.deep_view(), name@),
{
    let ghost vars = vrs.deep_view();
    proof {
        assert(vars.skip(0) =~= vars);
    }
    let mut i: usize = 0;
    while i < vrs.len()
        invariant
            0 <= i <= vrs.len(),
            vars == vrs.deep_view(),
            vars.len() == vrs.len(),
            spec_lookup_kind(vars, name@) == spec_lookup_kind(vars.skip(i as int), name@),
        decreases vrs.len() - i,
    {
        proof {
            assert(vars.skip(i as int)[0] == vars[i as int]);
        }
        if str_eq_chars(vrs[i].name.as_str(), name) {
            return Some(vrs[i].vt);
        }
        proof {
            lemma_lookup_skip_step(vars, name@, i as int);
        }
        i = i + 1;
    }
    proof {
        assert(vars.skip(vrs.len() as int) =~= Seq::<VarModel>::empty());
    }
    None
}

/// Is some entry of `vrs` named `arg`? This decides whether an output
/// argument that is not a literal refers to a declared variable.
pub fn variable_exists(arg: &str, vrs: &Vec<Var>) -> (r: bool)
    ensures
        r == spec_var_exists(vrs.deep_view(), arg@),
{
    let a = str_to_chars(arg);
    let k = lookup_kind(vrs, &a);
    k.is_some()
}

/// Classify a declaration value; executable mirror of
/// [`spec_classify`].
pub fn classify_value(vrs: &Vec<Var>, val: &Vec<char>) -> (r: Option<VT>)
    ensures
        r == spec_classify(vrs.deep_view(), val@),
{
    if is_quoted_chars(val) {
        Some(VT::Str)
    } else if is_integer_literal(val) {
        Some(VT::Int)
    } else if is_float_literal(val) {
        Some(VT::Float)
    } else if contains_op_chars(val) {
        Some(VT::RT)
    } else {
        lookup_kind(vrs, val)
    }
}

} // verus!
