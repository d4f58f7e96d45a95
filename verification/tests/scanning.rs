//! Scanner scenarios: lexemes, keywords, comments, strings, errors and line
//! counting.

use capers::scanner::{scan_tokens, ScanError, Token, TokenType};

fn kinds(tokens: &[Token]) -> Vec<TokenType> {
    tokens.iter().map(|t| t.token_type).collect()
}

fn lexemes(tokens: &[Token]) -> Vec<String> {
    tokens.iter().map(|t| t.lexeme.clone()).collect()
}

#[test]
fn scan_simple_expression() {
    let (tokens, errors) = scan_tokens("1 + 23".to_string());
    assert!(errors.is_empty());
    assert_eq!(kinds(&tokens), vec![TokenType::Number, TokenType::Plus, TokenType::Number]);
    assert_eq!(lexemes(&tokens), vec!["1", "+", "23"]);
    assert!(tokens.iter().all(|t| t.line == 1));
}

#[test]
fn scan_single_character_tokens() {
    let (tokens, errors) = scan_tokens("(){},.-+;*".to_string());
    assert!(errors.is_empty());
    assert_eq!(
        kinds(&tokens),
        vec![
            TokenType::LeftParen,
            TokenType::RightParen,
            TokenType::LeftBrace,
            TokenType::RightBrace,
            TokenType::Comma,
            TokenType::Dot,
            TokenType::Minus,
            TokenType::Plus,
            TokenType::Semicolon,
            TokenType::Star,
        ]
    );
}

#[test]
fn scan_two_character_operators() {
    let (tokens, errors) = scan_tokens("== != <= >= = ! < > /".to_string());
    assert!(errors.is_empty());
    assert_eq!(
        kinds(&tokens),
        vec![
            TokenType::EqualEqual,
            TokenType::BangEqual,
            TokenType::LessEqual,
            TokenType::GreaterEqual,
            TokenType::Equal,
            TokenType::Bang,
            TokenType::Less,
            TokenType::Greater,
            TokenType::Slash,
        ]
    );
}

#[test]
fn scan_keywords_and_identifiers() {
    let (tokens, errors) = scan_tokens("true false nil and or while foo if42".to_string());
    assert!(errors.is_empty());
    assert_eq!(
        kinds(&tokens),
        vec![
            TokenType::True,
            TokenType::False,
            TokenType::Nil,
            TokenType::And,
            TokenType::Or,
            TokenType::While,
            TokenType::Identifier,
            TokenType::Identifier,
        ]
    );
    assert_eq!(tokens[6].lexeme, "foo");
    assert_eq!(tokens[7].lexeme, "if42");
}

#[test]
fn scan_fractional_number_as_one_lexeme() {
    let (tokens, errors) = scan_tokens("3.25".to_string());
    assert!(errors.is_empty());
    assert_eq!(kinds(&tokens), vec![TokenType::Number]);
    assert_eq!(tokens[0].lexeme, "3.25");
}

#[test]
fn scan_number_with_bare_point_is_invalid() {
    let (tokens, errors) = scan_tokens("1.".to_string());
    assert_eq!(errors, vec![ScanError::InvalidNumber { line: 1 }]);
    // scanning resumes on the point itself
    assert_eq!(kinds(&tokens), vec![TokenType::Dot]);
}

#[test]
fn scan_string_literal() {
    let (tokens, errors) = scan_tokens("\"hi there\"".to_string());
    assert!(errors.is_empty());
    assert_eq!(kinds(&tokens), vec![TokenType::String]);
    assert_eq!(tokens[0].lexeme, "hi there");
}

#[test]
fn scan_string_spanning_lines() {
    let (tokens, errors) = scan_tokens("\"a\nb\" 1".to_string());
    assert!(errors.is_empty());
    assert_eq!(kinds(&tokens), vec![TokenType::String, TokenType::Number]);
    assert_eq!(tokens[0].lexeme, "a\nb");
    assert_eq!(tokens[0].line, 2);
    assert_eq!(tokens[1].line, 2);
}

#[test]
fn scan_unterminated_string_reported() {
    let (tokens, errors) = scan_tokens("\"abc".to_string());
    assert!(tokens.is_empty());
    assert_eq!(errors, vec![ScanError::UnterminatedString { line: 1 }]);
}

#[test]
fn scan_line_comment_skipped() {
    let (tokens, errors) = scan_tokens("1 // the rest is noise *+(\n2".to_string());
    assert!(errors.is_empty());
    assert_eq!(kinds(&tokens), vec![TokenType::Number, TokenType::Number]);
    assert_eq!(tokens[0].line, 1);
    assert_eq!(tokens[1].line, 2);
}

#[test]
fn scan_comment_at_end_of_source() {
    let (tokens, errors) = scan_tokens("7 // trailing".to_string());
    assert!(errors.is_empty());
    assert_eq!(kinds(&tokens), vec![TokenType::Number]);
}

#[test]
fn scan_unrecognized_character_reported_and_skipped() {
    let (tokens, errors) = scan_tokens("1 @ 2".to_string());
    assert_eq!(errors, vec![ScanError::UnrecognizedCharacter { line: 1, found: '@' }]);
    assert_eq!(kinds(&tokens), vec![TokenType::Number, TokenType::Number]);
}

#[test]
fn scan_counts_lines() {
    let (tokens, errors) = scan_tokens("1\n2\n\n3".to_string());
    assert!(errors.is_empty());
    let lines: Vec<usize> = tokens.iter().map(|t| t.line).collect();
    assert_eq!(lines, vec![1, 2, 4]);
}

#[test]
fn scan_empty_source() {
    let (tokens, errors) = scan_tokens(String::new());
    assert!(tokens.is_empty());
    assert!(errors.is_empty());
}
