//! End-to-end runs of the pipeline over small programs.

use metlang::interpreter::Interpreter;

fn run_lines(src: &str) -> Vec<String> {
    let mut it = Interpreter::new();
    it.run(&String::from(src), 10_000).expect("program should run");
    it.output_lines().clone()
}

#[test]
fn prints_sum_of_bound_variable() {
    let out = run_lines("x = 5\nprint(x + 3)");
    assert_eq!(out, vec![String::from("8")]);
}

#[test]
fn conditional_takes_true_branch() {
    let out = run_lines("if (5 > 3) { print(\"yes\") } else { print(\"no\") }");
    assert_eq!(out, vec![String::from("yes")]);
}

#[test]
fn conditional_takes_false_branch() {
    let out = run_lines("if (3 > 5) { print(\"yes\") } else { print(\"no\") }");
    assert_eq!(out, vec![String::from("no")]);
}

#[test]
fn function_body_value_is_returned() {
    let out = run_lines("function add(a, b) { a + b }\nprint(add(2, 3))");
    assert_eq!(out, vec![String::from("5")]);
}

#[test]
fn undefined_variable_is_reported_by_name() {
    let mut it = Interpreter::new();
    let r = it.run(&String::from("print(nope + 1)"), 10_000);
    match r {
        Err(metlang::errors::Error::UndefinedVariable { name }) => {
            assert_eq!(name, String::from("nope"));
        }
        other => panic!("expected an undefined-variable report, got {:?}", other.is_ok()),
    }
}

#[test]
fn temperature_conversions_are_exact() {
    let out = run_lines("print(ctof(0))\nprint(ftoc(212))");
    assert_eq!(out, vec![String::from("32"), String::from("100")]);
}

#[test]
fn kelvin_offset_is_exact() {
    let out = run_lines("print(ktoc(273.15))\nprint(ctok(0))");
    assert_eq!(out, vec![String::from("0"), String::from("273.15")]);
}

#[test]
fn fahrenheit_round_trip_is_exact() {
    let out = run_lines("x = 12.3\nprint(ftoc(ctof(x)))\nprint(ftoc(ctof(0.1)))");
    assert_eq!(out, vec![String::from("12.3"), String::from("0.1")]);
}

#[test]
fn comparisons_yield_exactly_one_or_zero() {
    let out = run_lines("print(5 > 3)\nprint(3 > 5)\nprint(2 < 7)\nprint(7 < 2)");
    assert_eq!(
        out,
        vec![
            String::from("1"),
            String::from("0"),
            String::from("1"),
            String::from("0")
        ]
    );
}

#[test]
fn import_merges_functions_but_not_variables() {
    let mut it = Interpreter::new();
    it.add_module(
        String::from("helpers.met"),
        String::from("secret = 41\nfunction double(x) { x * 2 }\nprint(\"loaded\")"),
    );
    it.run(&String::from("import \"helpers\"\nprint(double(21))"), 10_000)
        .expect("import should run");
    assert_eq!(
        it.output_lines().clone(),
        vec![String::from("loaded"), String::from("42")]
    );
    assert!(it.has_function(&String::from("double")));
    assert!(!it.has_variable(&String::from("secret")));
}

#[test]
fn missing_module_is_reported_with_resolved_name() {
    let mut it = Interpreter::new();
    let r = it.run(&String::from("import \"nowhere\""), 10_000);
    match r {
        Err(metlang::errors::Error::ImportError { name }) => {
            assert_eq!(name, String::from("nowhere.met"));
        }
        other => panic!("expected an import report, got {:?}", other.is_ok()),
    }
}

#[test]
fn division_by_zero_is_reported() {
    let mut it = Interpreter::new();
    let r = it.run(&String::from("print(1 / 0)"), 10_000);
    assert!(matches!(r, Err(metlang::errors::Error::DivisionByZero)));
}

#[test]
fn unknown_character_is_a_lex_error() {
    let mut it = Interpreter::new();
    let r = it.run(&String::from("x = 5 ; y = 6"), 10_000);
    match r {
        Err(metlang::errors::Error::LexError { ch }) => assert_eq!(ch, ';'),
        other => panic!("expected a lexical report, got {:?}", other.is_ok()),
    }
}

#[test]
fn comments_and_whitespace_are_skipped() {
    let out = run_lines("# a comment line\n  x = 2 # trailing note\nprint(x * 10)");
    assert_eq!(out, vec![String::from("20")]);
}

#[test]
fn constants_resolve_to_fixed_values() {
    let out = run_lines("print(_kelvin_)\nprint(_cp_)\nprint(_g_)");
    assert_eq!(
        out,
        vec![
            String::from("273.15"),
            String::from("1005"),
            String::from("9.81")
        ]
    );
}

#[test]
fn precedence_climbs_terms_over_factors() {
    let out = run_lines("print(2 + 3 * 4)\nprint((2 + 3) * 4)");
    assert_eq!(out, vec![String::from("14"), String::from("20")]);
}

#[test]
fn gate_gadgets_act_on_scalar_bits() {
    let out = run_lines("print(paulix(0))\nprint(paulix(1))\nprint(cnot(1, 0))\nprint(swap(1, 0))\nprint(measure(7))");
    assert_eq!(
        out,
        vec![
            String::from("1"),
            String::from("0"),
            String::from("1"),
            String::from("1"),
            String::from("1")
        ]
    );
}

#[test]
fn dew_point_is_finite_for_ordinary_inputs() {
    // ln goes through double precision, so check a bracket, not digits:
    // dew point of 20 C at 50% relative humidity is near 9.3 C.
    let mut it = Interpreter::new();
    it.run(
        &String::from("d = dewpoint(20, 0.5)\nprint(d > 9)\nprint(d < 10)"),
        10_000,
    )
    .expect("dew point should evaluate");
    assert_eq!(
        it.output_lines().clone(),
        vec![String::from("1"), String::from("1")]
    );
}

#[test]
fn a_second_relational_operator_is_rejected() {
    let mut it = Interpreter::new();
    let r = it.run(&String::from("print(1 > 2 > 3)"), 10_000);
    assert!(matches!(
        r,
        Err(metlang::errors::Error::ParseError { expected: None, .. })
    ));
}

#[test]
fn one_relational_operator_mixes_with_additive_ones() {
    let out = run_lines("print(1 + 2 > 2)");
    assert_eq!(out, vec![String::from("1")]);
}

#[test]
fn braced_block_in_expression_position_is_an_error() {
    let mut it = Interpreter::new();
    let r = it.run(&String::from("x = { y = 1 }\nprint(y)"), 10_000);
    assert!(matches!(r, Err(metlang::errors::Error::InvalidOperand)));
    assert!(!it.has_variable(&String::from("y")));
    assert!(!it.has_variable(&String::from("x")));
}

#[test]
fn unicode_whitespace_is_skipped() {
    // form feed, next line, and ideographic space are all whitespace
    let out = run_lines("x\u{000C}=\u{0085}5\u{3000}\nprint(x)");
    assert_eq!(out, vec![String::from("5")]);
}

#[test]
fn identifiers_continue_through_unicode_alphanumerics() {
    let out = run_lines("ab\u{00E9} = 7\nprint(ab\u{00E9})");
    assert_eq!(out, vec![String::from("7")]);
}
