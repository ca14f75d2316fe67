use bbcheck::args::parse_arguments;
use bbcheck::driver::check;
use bbcheck::error::ErrorKind;
use bbcheck::signature::pef;
use bbcheck::value::{classify_value, is_literal, variable_exists, Var, VT};

fn lines(src: &[&str]) -> Vec<String> {
    src.iter().map(|s| s.to_string()).collect()
}

fn chars(s: &str) -> Vec<char> {
    s.chars().collect()
}

#[test]
fn comments_and_blanks_validate_with_empty_accumulators() {
    let st = check(lines(&["# a comment", "", "   ", "\t", "# another"])).unwrap();
    assert!(st.vars.is_empty());
    assert!(st.fns.is_empty());
    assert!(st.calls.is_empty());
}

#[test]
fn empty_program_validates() {
    let st = check(Vec::new()).unwrap();
    assert!(st.vars.is_empty() && st.fns.is_empty() && st.calls.is_empty());
}

#[test]
fn declared_variable_can_be_echoed() {
    let st = check(lines(&["may x = \"hello\"", "echoln(x)"])).unwrap();
    assert_eq!(st.vars.len(), 1);
    assert_eq!(st.vars[0].name, "x");
    assert_eq!(st.vars[0].val, "\"hello\"");
    assert_eq!(st.vars[0].vt, VT::Str);
}

#[test]
fn undeclared_echo_argument_is_invalid() {
    let e = check(lines(&["echoln(y)"])).unwrap_err();
    assert_eq!(e.kind, ErrorKind::InvalidArgument);
    assert_eq!(e.detail, "y");
    assert_eq!(e.line, 1);
    assert_eq!(e.line_text, "echoln(y)");
}

#[test]
fn integer_declaration_yields_integer_kind() {
    let st = check(lines(&["may n = 42"])).unwrap();
    assert_eq!(st.vars[0].vt, VT::Int);
    assert_eq!(st.vars[0].val, "42");
}

#[test]
fn float_declaration_yields_float_kind() {
    let st = check(lines(&["may f = 3.14"])).unwrap();
    assert_eq!(st.vars[0].vt, VT::Float);
}

#[test]
fn arithmetic_declaration_yields_expression_kind() {
    let st = check(lines(&["may e = 1+2"])).unwrap();
    assert_eq!(st.vars[0].vt, VT::RT);
}

#[test]
fn comma_in_quoted_declaration_value_stays_literal() {
    let st = check(lines(&["may s = \"a,b\""])).unwrap();
    assert_eq!(st.vars.len(), 1);
    assert_eq!(st.vars[0].vt, VT::Str);
    assert_eq!(st.vars[0].val, "\"a,b\"");
}

#[test]
fn signed_integers_keep_integer_kind() {
    let st = check(lines(&["may a = -42", "may b = +7"])).unwrap();
    assert_eq!(st.vars[0].vt, VT::Int);
    assert_eq!(st.vars[1].vt, VT::Int);
}

#[test]
fn integer_range_boundaries() {
    let st = check(lines(&[
        "may max = 170141183460469231731687303715884105727",
        "may min = -170141183460469231731687303715884105728",
        "may over = 170141183460469231731687303715884105728",
    ]))
    .unwrap();
    assert_eq!(st.vars[0].vt, VT::Int);
    assert_eq!(st.vars[1].vt, VT::Int);
    // One past the largest integer no longer parses as one, but its
    // digits still have float syntax.
    assert_eq!(st.vars[2].vt, VT::Float);
}

#[test]
fn float_syntax_variants() {
    let st = check(lines(&[
        "may a = 1e5",
        "may b = .5",
        "may c = 7.",
        "may d = 1E+10",
        "may e = inf",
        "may f = NaN",
    ]))
    .unwrap();
    for v in &st.vars {
        assert_eq!(v.vt, VT::Float);
    }
}

#[test]
fn alias_inherits_kind_of_earliest_declaration() {
    let st = check(lines(&["may a = 1", "may a = \"s\"", "may b = a"])).unwrap();
    assert_eq!(st.vars.len(), 3);
    // Lookup returns the first match, so the alias sees the integer.
    assert_eq!(st.vars[2].vt, VT::Int);
}

#[test]
fn unknown_value_is_rejected() {
    let e = check(lines(&["may x = q"])).unwrap_err();
    assert_eq!(e.kind, ErrorKind::UnknownValueOrType);
    assert_eq!(e.detail, "q");
    assert_eq!(e.line, 1);
}

#[test]
fn two_assignments_are_rejected() {
    let e = check(lines(&["may x = 1 = 2"])).unwrap_err();
    assert_eq!(e.kind, ErrorKind::TooManyAssignments);
}

#[test]
fn missing_assignment_is_rejected() {
    let e = check(lines(&["may x"])).unwrap_err();
    assert_eq!(e.kind, ErrorKind::InvalidSyntax);
}

#[test]
fn empty_variable_name_is_rejected() {
    let e = check(lines(&["may  = 5"])).unwrap_err();
    assert_eq!(e.kind, ErrorKind::EmptyVariableName);
}

#[test]
fn forward_function_reference_resolves() {
    let st = check(lines(&["greet()", "ON greet() {", "}"])).unwrap();
    assert_eq!(st.fns, vec!["greet".to_string()]);
    assert_eq!(st.calls, vec!["greet()".to_string()]);
}

#[test]
fn backward_function_reference_is_accepted_silently() {
    let st = check(lines(&["ON greet() {", "}", "greet()"])).unwrap();
    assert_eq!(st.fns, vec!["greet".to_string()]);
    // The call matched a function already declared, so it was never
    // recorded as a pending call site.
    assert!(st.calls.is_empty());
}

#[test]
fn undefined_function_call_is_reported() {
    let e = check(lines(&["missing()"])).unwrap_err();
    assert_eq!(e.kind, ErrorKind::UndefinedFunctionCall);
    assert_eq!(e.detail, "missing");
    assert_eq!(e.line, 0);
}

#[test]
fn repeated_call_parens_are_stripped_in_resolution() {
    let st = check(lines(&["foo()()", "ON foo() {", "}"])).unwrap();
    assert_eq!(st.calls, vec!["foo()()".to_string()]);
    assert_eq!(st.fns, vec!["foo".to_string()]);
}

#[test]
fn echo_splits_on_commas_outside_quotes_only() {
    let args = parse_arguments("\"a, b\", x");
    assert_eq!(args, vec!["\"a, b\"".to_string(), "x".to_string()]);
}

#[test]
fn echo_with_quoted_comma_argument_validates() {
    let st = check(lines(&["may x = 1", "echoln(\"a, b\", x)"])).unwrap();
    assert_eq!(st.vars.len(), 1);
}

#[test]
fn splitter_keeps_inner_empty_arguments() {
    let args = parse_arguments("a,,b");
    assert_eq!(args, vec!["a".to_string(), String::new(), "b".to_string()]);
}

#[test]
fn splitter_drops_trailing_blank() {
    let args = parse_arguments("a,b, ");
    assert_eq!(args, vec!["a".to_string(), "b".to_string()]);
}

#[test]
fn splitter_handles_single_quotes() {
    let args = parse_arguments("'x, y', z");
    assert_eq!(args, vec!["'x, y'".to_string(), "z".to_string()]);
}

#[test]
fn empty_echo_body_has_no_arguments() {
    let args = parse_arguments("");
    assert!(args.is_empty());
    let st = check(lines(&["echoln()"])).unwrap();
    assert!(st.vars.is_empty());
}

#[test]
fn terminator_fails_even_on_otherwise_valid_content() {
    let e = check(lines(&["may x = 1;"])).unwrap_err();
    assert_eq!(e.kind, ErrorKind::UnexpectedTerminator);
    assert_eq!(e.line, 1);
    assert_eq!(e.line_text, "may x = 1;");
    let e2 = check(lines(&["# comment;"])).unwrap_err();
    assert_eq!(e2.kind, ErrorKind::UnexpectedTerminator);
}

#[test]
fn first_error_wins_and_reports_its_line() {
    let e = check(lines(&["# fine", "may x = 1", "echoln(z)", "bad();"])).unwrap_err();
    assert_eq!(e.kind, ErrorKind::InvalidArgument);
    assert_eq!(e.line, 3);
}

#[test]
fn whitespace_in_function_name_is_rejected() {
    let e = check(lines(&["ON foo bar() {"])).unwrap_err();
    assert_eq!(e.kind, ErrorKind::FunctionNameHasWhitespace);
    assert_eq!(e.line, 1);
}

#[test]
fn parameter_content_is_accepted_and_ignored() {
    let st = check(lines(&["ON foo(x, y) {", "}"])).unwrap();
    assert_eq!(st.fns, vec!["foo".to_string()]);
}

#[test]
fn token_after_parameter_span_is_rejected() {
    let e = check(lines(&["ON foo() x {"])).unwrap_err();
    assert_eq!(e.kind, ErrorKind::UnexpectedTokenInSignature);
}

#[test]
fn nested_parenthesis_in_signature_is_rejected() {
    let e = check(lines(&["ON foo(bar() {"])).unwrap_err();
    assert_eq!(e.kind, ErrorKind::UnexpectedTokenInSignature);
}

#[test]
fn brace_before_name_complete_is_rejected() {
    let e = check(lines(&["ON {"])).unwrap_err();
    assert_eq!(e.kind, ErrorKind::UnexpectedTokenInSignature);
}

#[test]
fn single_line_function_body_is_accepted() {
    let st = check(lines(&["ON tick() {}"])).unwrap();
    assert_eq!(st.fns, vec!["tick".to_string()]);
}

#[test]
fn incomplete_signature_is_reported_by_scanner() {
    let mut fns: Vec<String> = Vec::new();
    let e = pef("ON foo(", &mut fns).unwrap_err();
    assert_eq!(e.kind, ErrorKind::IncompleteFunctionSignature);
    assert!(fns.is_empty());
    let e2 = pef("no keyword here", &mut fns).unwrap_err();
    assert_eq!(e2.kind, ErrorKind::IncompleteFunctionSignature);
}

#[test]
fn scanner_registers_trimmed_name() {
    let mut fns: Vec<String> = Vec::new();
    pef("ON   spaced  (a, b) {", &mut fns).unwrap();
    assert_eq!(fns, vec!["spaced".to_string()]);
}

#[test]
fn unknown_statement_is_recorded_verbatim_trimmed() {
    let st = check(lines(&["   ON greet() {", "}", "  greet()  "])).unwrap();
    assert!(st.calls.is_empty());
    let e = check(lines(&["some stray text"])).unwrap_err();
    assert_eq!(e.kind, ErrorKind::UndefinedFunctionCall);
    assert_eq!(e.detail, "some stray text");
}

#[test]
fn lone_closing_brace_is_a_no_op() {
    let st = check(lines(&["}"])).unwrap();
    assert!(st.calls.is_empty());
}

#[test]
fn is_literal_accepts_matching_quotes_only() {
    assert!(is_literal("\"abc\""));
    assert!(is_literal("'abc'"));
    assert!(!is_literal("\"abc'"));
    assert!(!is_literal("abc"));
    assert!(!is_literal(""));
}

#[test]
fn variable_exists_finds_declared_names() {
    let vars = vec![Var { name: "x".to_string(), val: "1".to_string(), vt: VT::Int }];
    assert!(variable_exists("x", &vars));
    assert!(!variable_exists("y", &vars));
}

#[test]
fn classify_value_direct_calls() {
    let vars: Vec<Var> = vec![Var { name: "x".to_string(), val: "1".to_string(), vt: VT::Int }];
    assert_eq!(classify_value(&vars, &chars("\"s\"")), Some(VT::Str));
    assert_eq!(classify_value(&vars, &chars("10")), Some(VT::Int));
    assert_eq!(classify_value(&vars, &chars("1.5")), Some(VT::Float));
    assert_eq!(classify_value(&vars, &chars("2*3")), Some(VT::RT));
    assert_eq!(classify_value(&vars, &chars("x")), Some(VT::Int));
    assert_eq!(classify_value(&vars, &chars("nope")), None);
}

#[test]
fn duplicate_function_names_are_legal() {
    let st = check(lines(&["ON f() {", "}", "ON f() {", "}"])).unwrap();
    assert_eq!(st.fns, vec!["f".to_string(), "f".to_string()]);
}
