use totx::ast::Expression;
use totx::parser::Parser;
use totx::scanner::Scanner;
use totx::token::{Literal, Token, TokenEnum};

#[test]
fn parser_it_works() {
    let mut scan = Scanner::new("1 + 2 + 3 / 10;");
    let tokens = scan.scan_tokens().unwrap();
    let mut binding = Parser::new(tokens);
    let parser = binding.parser();

    assert!(parser.is_ok());
}

#[test]
fn should_fail() {
    let mut scan = Scanner::new("var abc = 1 + 2;");
    let tokens = scan.scan_tokens().unwrap();
    let mut binding = Parser::new(tokens);
    let parser = binding.parser();

    assert!(parser.is_err());
}

#[test]
fn n_a_n_numbers() {
    let mut scan = Scanner::new("0 / 0");
    let tokens = scan.scan_tokens().unwrap();
    let mut binding = Parser::new(tokens);
    let parser = binding.parser();

    assert!(parser.is_ok());
}

#[test]
fn parser_expressions() {
    let mut scan = Scanner::new("(10 + 2) / 2");
    let tokens = scan.scan_tokens().unwrap();
    let mut binding = Parser::new(tokens);
    let parser = binding.parser();

    assert!(parser.is_ok());
}

fn parse_text(text: &str) -> Result<Expression, totx::exception::Exception> {
    let mut scan = Scanner::new(text);
    let tokens = scan.scan_tokens().unwrap();
    let mut parser = Parser::new(tokens);
    parser.parser()
}

#[test]
fn precedence_shows_in_printed_form() {
    let tree = parse_text("1 + 2 * 3").unwrap();
    assert_eq!(tree.print().unwrap(), "(+ 1 (* 2 3))");

    let grouped = parse_text("(1 + 2) * 3").unwrap();
    assert_eq!(grouped.print().unwrap(), "(* (group (+ 1 2)) 3)");
}

#[test]
fn left_associative_levels_fold_left() {
    let tree = parse_text("10 - 4 - 3").unwrap();
    assert_eq!(tree.print().unwrap(), "(- (- 10 4) 3)");

    let commas = parse_text("1, 2, 3").unwrap();
    assert_eq!(commas.print().unwrap(), "(, (, 1 2) 3)");
}

#[test]
fn unary_is_right_associative() {
    let tree = parse_text("!!true").unwrap();
    assert_eq!(tree.print().unwrap(), "(! (! true))");

    let minus = parse_text("--1").unwrap();
    assert_eq!(minus.print().unwrap(), "(- (- 1))");
}

#[test]
fn comparison_and_equality_parse() {
    let tree = parse_text("1 < 2 == 3 >= 4").unwrap();
    assert_eq!(tree.print().unwrap(), "(== (< 1 2) (>= 3 4))");
}

#[test]
fn missing_close_paren_is_reported() {
    let error = parse_text("(1 + 2").unwrap_err();
    assert_eq!(error.message, "Expect ')' after expression.");
    assert_eq!(error.where_r, " at end");
}

#[test]
fn missing_expression_is_reported() {
    let error = parse_text("+ 1").unwrap_err();
    assert_eq!(error.message, "Expect expression.");
    assert_eq!(error.where_r, " at '+'");

    let at_end = parse_text("1 +").unwrap_err();
    assert_eq!(at_end.message, "Expect expression.");
    assert_eq!(at_end.where_r, " at end");
}

#[test]
fn trailing_tokens_are_left_alone() {
    let tree = parse_text("1 + 2; 3 + 4").unwrap();
    assert_eq!(tree.print().unwrap(), "(+ 1 2)");
}

#[test]
fn parser_keeps_token_literals() {
    let tokens = vec![
        Token::new(TokenEnum::String, "\"hi\"", Literal::String("hi".to_string()), 1),
        Token::new(TokenEnum::EOF, "", Literal::Nil, 1),
    ];
    let mut parser = Parser::new(tokens);
    let tree = parser.parser().unwrap();
    assert_eq!(tree.print().unwrap(), "hi");
}
