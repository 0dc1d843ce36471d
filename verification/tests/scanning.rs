use totx::scanner::Scanner;
use totx::token::TokenEnum;

#[test]
fn scanner_it_works() {
    let mut binding = Scanner::new("var result = 1;");
    let scanner = binding.scan_tokens();

    assert!(scanner.is_ok());
}

#[test]
fn error() {
    let mut binding = Scanner::new(r#"var "res"#);
    let scanner = binding.scan_tokens();

    assert!(scanner.is_err());
}

#[test]
fn comments() {
    let mut binding = Scanner::new(
        r#"var = /* teste
        tete */ "res""#,
    );
    let scanner = binding.scan_tokens();

    assert!(scanner.is_ok());
}

#[test]
fn scan_always_ends_with_eof() {
    let empty = Scanner::new("").scan_tokens().unwrap();
    assert_eq!(empty.len(), 1);
    assert_eq!(empty[0].token_type, TokenEnum::EOF);

    let tokens = Scanner::new("var result = 1;").scan_tokens().unwrap();
    assert!(tokens.len() > 1);
    assert_eq!(tokens[tokens.len() - 1].token_type, TokenEnum::EOF);

    let after_comment = Scanner::new("// only a comment").scan_tokens().unwrap();
    assert_eq!(after_comment.len(), 1);
    assert_eq!(after_comment[0].token_type, TokenEnum::EOF);
}

#[test]
fn scan_token_kinds_and_lexemes() {
    let tokens = Scanner::new("(1 <= 23) != done").scan_tokens().unwrap();
    let kinds: Vec<TokenEnum> = tokens.iter().map(|t| t.token_type).collect();
    assert_eq!(
        kinds,
        vec![
            TokenEnum::LeftParen,
            TokenEnum::Number,
            TokenEnum::LessEqual,
            TokenEnum::Number,
            TokenEnum::RightParen,
            TokenEnum::BangEqual,
            TokenEnum::Identifier,
            TokenEnum::EOF,
        ]
    );
    assert_eq!(tokens[2].lexeme, "<=");
    assert_eq!(tokens[3].lexeme, "23");
    assert_eq!(tokens[6].lexeme, "done");
}

#[test]
fn string_literal_keeps_newlines_and_counts_lines() {
    let tokens = Scanner::new("\"one\ntwo\" x").scan_tokens().unwrap();
    assert_eq!(tokens[0].token_type, TokenEnum::String);
    assert_eq!(tokens[0].lexeme, "\"one\ntwo\"");
    assert_eq!(tokens[1].token_type, TokenEnum::Identifier);
    assert_eq!(tokens[1].line, 2);
}

#[test]
fn unexpected_character_is_rejected() {
    let result = Scanner::new("1 @ 2").scan_tokens();
    let exception = result.unwrap_err();
    assert_eq!(exception.message, "Unexpected character.");
}

#[test]
fn unterminated_string_reports_its_line() {
    let result = Scanner::new("/*\n*/\n\"open").scan_tokens();
    let exception = result.unwrap_err();
    assert_eq!(exception.message, "Unterminated string.");
    assert_eq!(exception.line, 3);
}

#[test]
fn fractional_number_is_rejected() {
    let result = Scanner::new("1.5").scan_tokens();
    let exception = result.unwrap_err();
    assert_eq!(exception.message, "Fractional number literals are not supported.");
}

#[test]
fn dot_without_fraction_is_its_own_token() {
    let tokens = Scanner::new("1.x").scan_tokens().unwrap();
    assert_eq!(tokens[0].token_type, TokenEnum::Number);
    assert_eq!(tokens[1].token_type, TokenEnum::Dot);
    assert_eq!(tokens[2].token_type, TokenEnum::Identifier);
}

#[test]
fn oversized_number_is_rejected() {
    let result = Scanner::new("99999999999999999999").scan_tokens();
    let exception = result.unwrap_err();
    assert_eq!(exception.message, "Number literal too large.");

    let edge = Scanner::new("9223372036854775807").scan_tokens();
    assert!(edge.is_ok());
}

#[test]
fn keywords_are_case_sensitive() {
    assert_eq!(TokenEnum::from_str("var"), Ok(TokenEnum::Var));
    assert_eq!(TokenEnum::from_str("while"), Ok(TokenEnum::While));
    assert!(TokenEnum::from_str("Var").is_err());
    assert!(TokenEnum::from_str("abc").is_err());

    let tokens = Scanner::new("true truth").scan_tokens().unwrap();
    assert_eq!(tokens[0].token_type, TokenEnum::True);
    assert_eq!(tokens[1].token_type, TokenEnum::Identifier);
}

#[test]
fn line_comment_runs_to_end_of_line() {
    let tokens = Scanner::new("1 // rest is skipped ) (\n2").scan_tokens().unwrap();
    assert_eq!(tokens.len(), 3);
    assert_eq!(tokens[0].lexeme, "1");
    assert_eq!(tokens[1].lexeme, "2");
    assert_eq!(tokens[1].line, 2);
}

#[test]
fn block_comment_counts_lines_and_emits_nothing() {
    let tokens = Scanner::new("1 /* a\nb\nc */ 2").scan_tokens().unwrap();
    assert_eq!(tokens.len(), 3);
    assert_eq!(tokens[1].lexeme, "2");
    assert_eq!(tokens[1].line, 3);

    let unterminated = Scanner::new("1 /* runs to the end").scan_tokens().unwrap();
    assert_eq!(unterminated.len(), 2);
    assert_eq!(unterminated[1].token_type, TokenEnum::EOF);
}
