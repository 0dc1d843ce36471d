use totx::ast::Expression;
use totx::token::{Literal, Token, TokenEnum};

#[test]
fn test_literal() {
    let parser = Expression::print(&Expression::Literal {
        value: Literal::String("teste".to_string()),
    });

    assert!(parser.is_ok());
}

#[test]
fn test_numbers() {
    let expression = Expression::Binary {
        operator: Token::new(TokenEnum::Star, "*", Literal::Nil, 1),
        left: Box::new(Expression::Unary {
            operator: Token::new(TokenEnum::Minus, "-", Literal::Nil, 1),
            right: Box::new(Expression::Literal { value: Literal::Number(123) }),
        }),
        right: Box::new(Expression::Grouping {
            expression: Box::new(Expression::Literal { value: Literal::Number(123) }),
        }),
    };

    let parser = Expression::print(&expression);
    assert!(parser.is_ok());
    assert_eq!(parser.unwrap(), "(* (- 123) (group 123))")
}

#[test]
fn test_reverse_polish_notation() {
    let expression: Expression = Expression::Binary {
        operator: Token::new(TokenEnum::Star, "*", Literal::Nil, 1),
        left: Box::new(Expression::Grouping {
            expression: Box::new(Expression::Binary {
                operator: Token::new(TokenEnum::Plus, "+", Literal::Nil, 1),
                left: Box::new(Expression::Literal { value: Literal::Number(1) }),
                right: Box::new(Expression::Literal { value: Literal::Number(2) }),
            }),
        }),
        right: Box::new(Expression::Grouping {
            expression: Box::new(Expression::Binary {
                operator: Token::new(TokenEnum::Minus, "-", Literal::Nil, 1),
                left: Box::new(Expression::Literal { value: Literal::Number(4) }),
                right: Box::new(Expression::Literal { value: Literal::Number(3) }),
            }),
        }),
    };

    let parser = Expression::reverse_polish_notation(&expression);
    assert!(parser.is_ok());
    assert_eq!(parser.unwrap(), "1 2 + 4 3 - *")
}

#[test]
fn print_literal_text_forms() {
    let empty = Expression::print(&Expression::Literal { value: Literal::Nil });
    assert_eq!(empty.unwrap(), "");

    let truth = Expression::print(&Expression::Literal { value: Literal::Bool(true) });
    assert_eq!(truth.unwrap(), "true");

    let lie = Expression::print(&Expression::Literal { value: Literal::Bool(false) });
    assert_eq!(lie.unwrap(), "false");

    let negative = Expression::print(&Expression::Literal { value: Literal::Number(-7) });
    assert_eq!(negative.unwrap(), "-7");

    let text = Expression::print(&Expression::Literal {
        value: Literal::String("verbatim".to_string()),
    });
    assert_eq!(text.unwrap(), "verbatim");
}

#[test]
fn literal_to_string_extremes() {
    assert_eq!(Literal::Number(i64::MIN).to_string(), "-9223372036854775808");
    assert_eq!(Literal::Number(i64::MAX).to_string(), "9223372036854775807");
    assert_eq!(Literal::Number(0).to_string(), "0");
}

#[test]
fn token_to_string_form() {
    let token = Token::new(TokenEnum::Star, "*", Literal::Nil, 1);
    assert_eq!(token.to_string(), "Star - * - None");

    let eof = Token::new(TokenEnum::EOF, "", Literal::Nil, 1);
    assert_eq!(eof.to_string(), "EOF -  - None");

    let number = Token::new(TokenEnum::Number, "10", Literal::Number(10), 2);
    assert_eq!(number.to_string(), "Number - 10 - Number(10)");

    let text = Token::new(
        TokenEnum::String,
        "\"res\"",
        Literal::String("res".to_string()),
        3,
    );
    assert_eq!(text.to_string(), "String - \"res\" - String(\"res\")");

    let truth = Token::new(TokenEnum::True, "true", Literal::Bool(true), 4);
    assert_eq!(truth.to_string(), "True - true - Bool(true)");
}

#[test]
fn rpn_is_transparent_for_grouping() {
    let expression = Expression::Grouping {
        expression: Box::new(Expression::Literal { value: Literal::Number(9) }),
    };
    assert_eq!(Expression::reverse_polish_notation(&expression).unwrap(), "9");
}
