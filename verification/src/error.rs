//! Diagnostics. Every rule violation is terminal for the whole run:
//! the first one encountered in top-to-bottom scan order (or, for call
//! resolution, in call-site recording order) aborts validation.

use vstd::prelude::*;

verus! {

/// The closed set of rule violations the validator can report.
#[derive(Clone, Copy, Debug, PartialEq, Eq, Structural)]
pub enum ErrorKind {
    /// A line ends with a statement terminator character; the language
    /// has none, so its presence is always an error.
    UnexpectedTerminator,
    /// An output-statement argument is neither a quoted literal nor the
    /// name of an already-declared variable.
    InvalidArgument,
    /// A declaration value is not a literal, not an expression, and not
    /// the name of a previously declared variable.
    UnknownValueOrType,
    /// A declaration body contains more than one `=`.
    TooManyAssignments,
    /// A declaration has an empty left-hand side.
    EmptyVariableName,
    /// A declared function name contains internal whitespace.
    FunctionNameHasWhitespace,
    /// A function-declaration line ended before both the name and the
    /// parameter span were complete.
    IncompleteFunctionSignature,
    /// A stray `(`, `)` or `{` in the wrong phase of a signature scan,
    /// or a non-space token between `)` and `{`.
    UnexpectedTokenInSignature,
    /// A recorded call site names a function that is declared nowhere
    /// in the file.
    UndefinedFunctionCall,
    /// A statement that matches no rule; here, a declaration body
    /// without any `=`.
    InvalidSyntax,
}

/// Mathematical model of a line-level diagnostic.
#[verifier::ext_equal]
pub ghost struct LineErrorModel {
    pub kind: ErrorKind,
    pub detail: Seq<char>,
}

/// A diagnostic raised by one statement rule. `detail` names the
/// offending argument, value or similar item, and is empty for kinds
/// that carry none.
#[derive(Debug)]
pub struct LineError {
    pub kind: ErrorKind,
    pub detail: String,
}

impl View for LineError {
    type V = LineErrorModel;

    open spec fn view(&self) -> LineErrorModel {
        LineErrorModel { kind: self.kind, detail: self.detail@ }
    }
}

/// Mathematical model of a run-level diagnostic.
#[verifier::ext_equal]
pub ghost struct FatalErrorModel {
    pub kind: ErrorKind,
    pub line: int,
    pub line_text: Seq<char>,
    pub detail: Seq<char>,
}

/// The single diagnostic a whole validation run ends with. `line` is
/// the 1-based index of the offending line and `line_text` its trimmed
/// text; call-resolution diagnostics carry no line (call sites are
/// recorded without one), so there `line` is 0 and `line_text` empty.
#[derive(Debug)]
pub struct FatalError {
    pub kind: ErrorKind,
    pub line: usize,
    pub line_text: String,
    pub detail: String,
}

impl View for FatalError {
    type V = FatalErrorModel;

    open spec fn view(&self) -> FatalErrorModel {
        FatalErrorModel {
            kind: self.kind,
            line: self.line as int,
            line_text: self.line_text@,
            detail: self.detail@,
        }
    }
}

} // verus!
