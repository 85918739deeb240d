use crab::bindings::Bindings;
use crab::compilation::Compilation;
use crab::compilation::EvaluationResult;
use crab::environment::Environment;
use crab::evaluator::evaluate;
use crab::evaluator::EvalResult;
use crab::evaluator::Evaluator;
use crab::evaluator::Fault;
use crab::types::Object;

const FUEL: u64 = 1_000_000;

fn run(source: &str) -> EvaluationResult {
    Compilation::evaluate(source, FUEL)
}

fn number_value(result: &EvaluationResult) -> i32 {
    assert!(result.diagnostics.diagnostics.is_empty());
    match &result.value {
        EvalResult::Done(Object::Number(n)) => *n,
        other => panic!("expected a number, got {:?}", other),
    }
}

fn output_lines(result: &EvaluationResult) -> Vec<String> {
    assert!(result.diagnostics.diagnostics.is_empty());
    result.output.clone()
}

#[test]
fn precedence_multiplication_binds_tighter() {
    assert_eq!(number_value(&run("1 + 2 * 3")), 7);
}

#[test]
fn precedence_parentheses_override() {
    assert_eq!(number_value(&run("(1 + 2) * 3")), 9);
}

#[test]
fn assignment_is_right_associative() {
    let result = run("var x = 1 var y = 2 x = y = 5");
    assert_eq!(number_value(&result), 5);
    let bound = run("var x = 1 var y = 2 x = y = 5 print x print y");
    assert_eq!(output_lines(&bound), vec!["5".to_string(), "5".to_string()]);
}

#[test]
fn scope_shadowing_inner_does_not_leak() {
    let result = run("var x = 1 { var x = 2 print x } print x");
    assert_eq!(output_lines(&result), vec!["2".to_string(), "1".to_string()]);
}

#[test]
fn type_invariant_assignment_rejected() {
    let result = run("var b = true b = 1");
    assert_eq!(result.diagnostics.diagnostics.len(), 1);
    assert_eq!(
        result.diagnostics.diagnostics[0].message,
        "Name 'b' expects 'Boolean', got 'Number'"
    );
    assert!(result.output.is_empty());
}

#[test]
fn for_loop_upper_bound_exclusive() {
    let result = run("for i = 0, 3 { print i }");
    assert_eq!(
        output_lines(&result),
        vec!["0".to_string(), "1".to_string(), "2".to_string()]
    );
}

#[test]
fn undefined_name_single_diagnostic() {
    let result = run("foo");
    assert_eq!(result.diagnostics.diagnostics.len(), 1);
    assert_eq!(result.diagnostics.diagnostics[0].message, "Name 'foo' is not defined");
    assert!(result.output.is_empty());
}

#[test]
fn logical_and_does_not_short_circuit() {
    let result = run("var x = 0 var t = false t = false && ((x = 5) == 5) print x");
    assert_eq!(output_lines(&result), vec!["5".to_string()]);
}

#[test]
fn logical_or_does_not_short_circuit() {
    let result = run("var y = 0 var u = true u = true || ((y = 7) == 7) print y");
    assert_eq!(output_lines(&result), vec!["7".to_string()]);
}

#[test]
fn while_loop_counts() {
    let result = run("var i = 0 while i < 3 { print i i = i + 1 }");
    assert_eq!(
        output_lines(&result),
        vec!["0".to_string(), "1".to_string(), "2".to_string()]
    );
}

#[test]
fn while_loop_with_false_condition_never_runs() {
    let result = run("while false { print 1 } print 9");
    assert_eq!(output_lines(&result), vec!["9".to_string()]);
}

#[test]
fn division_truncates() {
    assert_eq!(number_value(&run("7 / 2")), 3);
    assert_eq!(number_value(&run("0 - 7 / 2")), -3);
}

#[test]
fn division_by_zero_is_fatal() {
    let result = run("1 / 0");
    assert!(result.diagnostics.diagnostics.is_empty());
    assert!(matches!(result.value, EvalResult::Failed(Fault::DivisionByZero)));
}

#[test]
fn string_concatenation() {
    let result = run("var s = \"ab\" + \"cd\" print s");
    assert_eq!(output_lines(&result), vec!["abcd".to_string()]);
}

#[test]
fn unary_operators() {
    assert_eq!(number_value(&run("-5 + +7")), 2);
    let result = run("print !true print !false");
    assert_eq!(output_lines(&result), vec!["false".to_string(), "true".to_string()]);
}

#[test]
fn equality_and_comparison() {
    let result = run("print 2 == 2 print 2 != 3 print true == false print 2 <= 2 print 3 > 4");
    assert_eq!(
        output_lines(&result),
        vec![
            "true".to_string(),
            "true".to_string(),
            "false".to_string(),
            "true".to_string(),
            "false".to_string()
        ]
    );
}

#[test]
fn if_else_chain() {
    let result = run("if 1 < 2 print 10 else print 20");
    assert_eq!(output_lines(&result), vec!["10".to_string()]);
    let result = run("var x = 5 if x < 2 print 1 else if x < 4 print 2 else print 3");
    assert_eq!(output_lines(&result), vec!["3".to_string()]);
}

#[test]
fn if_without_else_yields_unit() {
    let result = run("if false print 1");
    assert!(result.diagnostics.diagnostics.is_empty());
    assert!(matches!(result.value, EvalResult::Done(Object::Unit)));
}

#[test]
fn condition_must_be_boolean() {
    let result = run("if 1 print 2");
    assert_eq!(result.diagnostics.diagnostics.len(), 1);
    assert_eq!(
        result.diagnostics.diagnostics[0].message,
        "Expected expression of type 'Boolean', got 'Number'"
    );
}

#[test]
fn while_condition_must_be_boolean() {
    let result = run("while 1 print 2");
    assert_eq!(result.diagnostics.diagnostics.len(), 1);
}

#[test]
fn for_bounds_must_be_numbers() {
    let result = run("for i = true, 3 print i");
    assert_eq!(result.diagnostics.diagnostics.len(), 1);
    assert_eq!(
        result.diagnostics.diagnostics[0].message,
        "Expected expression of type 'Number', got 'Boolean'"
    );
}

#[test]
fn invalid_unary_operator_diagnostic() {
    let result = run("-true");
    assert_eq!(result.diagnostics.diagnostics.len(), 1);
    assert_eq!(
        result.diagnostics.diagnostics[0].message,
        "Unary operator '-' is not defined for 'Boolean'"
    );
}

#[test]
fn invalid_binary_operator_diagnostic() {
    let result = run("1 + true");
    assert_eq!(result.diagnostics.diagnostics.len(), 1);
    assert_eq!(
        result.diagnostics.diagnostics[0].message,
        "Binary operator '+' is not defined for 'Number' and 'Boolean'"
    );
}

#[test]
fn unexpected_token_diagnostic() {
    let result = run("(1");
    assert_eq!(result.diagnostics.diagnostics.len(), 1);
    assert_eq!(
        result.diagnostics.diagnostics[0].message,
        "Unexpected token 'EOF', expected ')'"
    );
}

#[test]
fn unexpected_character_diagnostic() {
    let result = run("#");
    assert!(!result.diagnostics.diagnostics.is_empty());
    assert_eq!(result.diagnostics.diagnostics[0].message, "Unexpected character '#'");
}

#[test]
fn infinite_loop_spends_the_budget() {
    let result = Compilation::evaluate("while true { }", 1000);
    assert!(result.diagnostics.diagnostics.is_empty());
    assert!(matches!(result.value, EvalResult::Spent));
}

#[test]
fn for_loop_body_may_perturb_the_induction_variable() {
    let result = run("for i = 0, 6 { print i i = i + 1 }");
    assert_eq!(
        output_lines(&result),
        vec!["0".to_string(), "2".to_string(), "4".to_string()]
    );
}

#[test]
fn arithmetic_wraps_on_overflow() {
    assert_eq!(number_value(&run("2147483647 + 1")), i32::MIN);
    assert_eq!(number_value(&run("0 - 2147483647 - 2")), i32::MAX);
}

#[test]
fn number_rendering_includes_negatives() {
    let result = run("print 0 - 12045");
    assert_eq!(output_lines(&result), vec!["-12045".to_string()]);
}

#[test]
fn var_statement_yields_its_value() {
    assert_eq!(number_value(&run("var x = 41 + 1")), 42);
}

#[test]
fn names_must_be_declared_before_use() {
    let result = run("x = 1 var x = 2");
    assert_eq!(result.diagnostics.diagnostics.len(), 1);
    assert_eq!(result.diagnostics.diagnostics[0].message, "Name 'x' is not defined");
}

#[test]
fn sessions_persist_bindings_between_compilations() {

    let first = Compilation::compile("var x = 40", Bindings::new());
    assert!(first.diagnostic_bag.diagnostics.is_empty());
    let mut evaluator = Evaluator::new(Environment::new());
    let _ = evaluator.evaluate(&first.bound_program, FUEL);

    let second = Compilation::compile("x + 2", first.bindings);
    assert!(second.diagnostic_bag.diagnostics.is_empty());
    let mut evaluator = Evaluator::new(evaluator.bindings);
    match evaluator.evaluate(&second.bound_program, FUEL) {
        EvalResult::Done(Object::Number(n)) => assert_eq!(n, 42),
        other => panic!("unexpected {:?}", other),
    }
}

#[test]
fn empty_source_evaluates_to_unit() {
    let result = run("");
    assert!(result.diagnostics.diagnostics.is_empty());
    assert!(matches!(result.value, EvalResult::Done(Object::Unit)));
    assert!(result.output.is_empty());
}

#[test]
fn evaluate_free_function_threads_the_environment() {

    let compilation = Compilation::compile("var x = 1 print x", Bindings::new());
    assert!(compilation.diagnostic_bag.diagnostics.is_empty());
    let (result, environment, output) = evaluate(&compilation.bound_program, Environment::new(), FUEL);
    assert!(matches!(result, EvalResult::Done(Object::Unit)));
    assert_eq!(output, vec!["1".to_string()]);
    assert!(matches!(environment.get("x"), Some(Object::Number(1))));
}

#[test]
fn declaration_skipped_at_runtime_leaves_the_name_unbound() {
    // The binder records the declaration even though evaluation never runs
    // it, so this compiles clean and then faults: the static checks do not
    // make every fault but division by zero unreachable.
    let result = run("while false var x = 1 print x");
    assert!(result.diagnostics.diagnostics.is_empty());
    assert!(matches!(result.value, EvalResult::Failed(Fault::UndefinedName)));
}

#[test]
fn declaration_skipped_at_runtime_can_leave_a_stale_type() {
    let result = run("var n = 0 if false var n = true print !n");
    assert!(result.diagnostics.diagnostics.is_empty());
    assert!(matches!(result.value, EvalResult::Failed(Fault::TypeMismatch)));
}
