use totx::ast::Expression;
use totx::exception::Exception;
use totx::interpreter::Interpreter;
use totx::parser::Parser;
use totx::scanner::Scanner;
use totx::token::Literal;

#[test]
fn sum_numbers() {
    let mut scan = Scanner::new("5 + 5");
    let tokens = scan.scan_tokens().unwrap();
    let mut binding = Parser::new(tokens);
    let parse = binding.parser();
    let interpreter = Interpreter.evaluate(&parse.unwrap()).unwrap();

    assert_eq!(interpreter, Literal::Number(10));
}

#[test]
fn concat_string() {
    let mut scan = Scanner::new(r#""te" + "st""#);
    let tokens = scan.scan_tokens().unwrap();
    let mut binding = Parser::new(tokens);
    let parse = binding.parser();
    let interpreter = Interpreter.evaluate(&parse.unwrap()).unwrap();

    assert_eq!(interpreter, Literal::String("test".to_string()));
}

#[test]
fn should_fail_string_number() {
    let mut scan = Scanner::new(r#""te" + 5"#);
    let tokens = scan.scan_tokens().unwrap();
    let mut binding = Parser::new(tokens);
    let parse = binding.parser();
    let interpreter = Interpreter.evaluate(&parse.unwrap());

    assert!(interpreter.is_err());
}

#[test]
fn interpreter_expressions() {
    let mut scan = Scanner::new("(10 + 2) / 2");
    let tokens = scan.scan_tokens().unwrap();
    let mut binding = Parser::new(tokens);
    let parse = binding.parser();
    let interpreter = Interpreter.evaluate(&parse.unwrap()).unwrap();

    assert_eq!(interpreter, Literal::Number(6));
}

fn eval_text(text: &str) -> Result<Literal, Exception> {
    let mut scan = Scanner::new(text);
    let tokens = scan.scan_tokens().unwrap();
    let mut parser = Parser::new(tokens);
    let tree = parser.parser().unwrap();
    Interpreter.evaluate(&tree)
}

#[test]
fn division_by_zero_is_an_error_not_a_crash() {
    let error = eval_text("0 / 0").unwrap_err();
    assert_eq!(error.message, "Division by zero.");

    let also = eval_text("1 / (2 - 2)").unwrap_err();
    assert_eq!(also.message, "Division by zero.");
}

#[test]
fn integer_division_truncates() {
    assert_eq!(eval_text("7 / 2").unwrap(), Literal::Number(3));
    assert_eq!(eval_text("-7 / 2").unwrap(), Literal::Number(-3));
    assert_eq!(eval_text("7 / -2").unwrap(), Literal::Number(-3));
}

#[test]
fn unary_minus_negates() {
    assert_eq!(eval_text("-5").unwrap(), Literal::Number(-5));
    assert_eq!(eval_text("--5").unwrap(), Literal::Number(5));
    assert_eq!(eval_text("10 - -5").unwrap(), Literal::Number(15));
}

#[test]
fn unary_minus_needs_a_number() {
    let error = eval_text(r#"-"te""#).unwrap_err();
    assert_eq!(error.message, "Must be a number");

    let compare = eval_text(r#"1 < "te""#).unwrap_err();
    assert_eq!(compare.message, "Must be a number");
}

#[test]
fn bang_follows_truthiness() {
    assert_eq!(eval_text("!false").unwrap(), Literal::Bool(true));
    assert_eq!(eval_text("!null").unwrap(), Literal::Bool(true));
    assert_eq!(eval_text("!0").unwrap(), Literal::Bool(false));
    assert_eq!(eval_text(r#"!"""#).unwrap(), Literal::Bool(false));
    assert_eq!(eval_text("!true").unwrap(), Literal::Bool(false));
}

#[test]
fn comparisons_yield_booleans() {
    assert_eq!(eval_text("1 < 2").unwrap(), Literal::Bool(true));
    assert_eq!(eval_text("2 <= 2").unwrap(), Literal::Bool(true));
    assert_eq!(eval_text("1 > 2").unwrap(), Literal::Bool(false));
    assert_eq!(eval_text("2 >= 3").unwrap(), Literal::Bool(false));
}

#[test]
fn equality_is_structural_without_coercion() {
    assert_eq!(eval_text("1 == 1").unwrap(), Literal::Bool(true));
    assert_eq!(eval_text("1 != 2").unwrap(), Literal::Bool(true));
    assert_eq!(eval_text("0 == false").unwrap(), Literal::Bool(false));
    assert_eq!(eval_text(r#""" == false"#).unwrap(), Literal::Bool(false));
    assert_eq!(eval_text(r#""te" == "te""#).unwrap(), Literal::Bool(true));
    assert_eq!(eval_text("null == null").unwrap(), Literal::Bool(true));
    assert_eq!(eval_text("null == 0").unwrap(), Literal::Bool(false));
}

#[test]
fn arithmetic_overflow_is_an_error() {
    let add = eval_text("9223372036854775807 + 1").unwrap_err();
    assert_eq!(add.message, "Number overflow.");

    let mul = eval_text("9223372036854775807 * 2").unwrap_err();
    assert_eq!(mul.message, "Number overflow.");

    let ok = eval_text("9223372036854775806 + 1").unwrap();
    assert_eq!(ok, Literal::Number(9223372036854775807));
}

#[test]
fn comma_has_no_evaluation_rule() {
    let error = eval_text("1, 2").unwrap_err();
    assert_eq!(error.message, "Invalid operator.");
}

#[test]
fn plus_mismatch_names_both_kinds() {
    let error = eval_text(r#"5 + "te""#).unwrap_err();
    assert_eq!(error.message, "Must be all string or number for PLUS (+)");
}

#[test]
fn grouping_evaluates_inside_first() {
    assert_eq!(eval_text("(10 + 2) * (4 - 3)").unwrap(), Literal::Number(12));
}

#[test]
fn exception_renders_canonically() {
    let exception = Exception::new(3, " at end", "Expect expression.");
    assert_eq!(exception.render(), "[Line - 3 ] Error  at end : Expect expression.");

    let nested: Result<Literal, Exception> = Exception::error(1, "", "Must be a number");
    assert_eq!(nested.unwrap_err().render(), "[Line - 1 ] Error  : Must be a number");

    let reported: Result<Literal, Exception> = Exception::error_panic(2, "", "Division by zero.");
    assert!(reported.is_err());
}

#[test]
fn literal_default_is_nil() {
    let value: Literal = Default::default();
    assert_eq!(value, Literal::Nil);
    assert_eq!(value.to_string(), "");
}
