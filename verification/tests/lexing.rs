use minilang::common::ast::{Span, Spannable};
use minilang::common::token::{BinaryOperator, Token, UnaryOperator};
use minilang::tokenizer::{LexicalError, Tokenizer};

fn tokens_of(source: &str) -> Vec<(Token, usize, usize)> {
    Tokenizer::new(source.to_string())
        .tokenize()
        .unwrap()
        .into_iter()
        .map(|t| (t.node, t.span.line, t.span.column))
        .collect()
}

fn failure_of(source: &str) -> LexicalError {
    Tokenizer::new(source.to_string()).tokenize().unwrap_err()
}

#[test]
fn empty_text_is_the_end_marker() {
    assert_eq!(tokens_of(""), vec![(Token::EOF, 1, 1)]);
    assert_eq!(tokens_of("   "), vec![(Token::EOF, 1, 4)]);
    assert_eq!(tokens_of("\n\n"), vec![(Token::EOF, 3, 1)]);
}

#[test]
fn a_token_is_placed_at_its_last_character() {
    assert_eq!(
        tokens_of("ab\n  cd"),
        vec![
            (Token::Identifier("ab".to_string()), 1, 2),
            (Token::Identifier("cd".to_string()), 2, 4),
            (Token::EOF, 2, 5),
        ]
    );
}

#[test]
fn words_numbers_and_truth_values() {
    assert_eq!(
        tokens_of("_a1 true false truth 007 2147483647"),
        vec![
            (Token::Identifier("_a1".to_string()), 1, 3),
            (Token::BooleanLiteral(true), 1, 8),
            (Token::BooleanLiteral(false), 1, 14),
            (Token::Identifier("truth".to_string()), 1, 20),
            (Token::NumericLiteral(7), 1, 24),
            (Token::NumericLiteral(2147483647), 1, 35),
            (Token::EOF, 1, 36),
        ]
    );
}

#[test]
fn a_number_must_fit_thirty_two_bits() {
    let error = failure_of("x = 2147483648;");
    assert_eq!(error.message, "numeric literal out of range");
    assert_eq!(error.span, Span { line: 1, column: 14 });
    let error = failure_of("99999999999999999999999999");
    assert_eq!(error.message, "numeric literal out of range");
    assert_eq!(error.span, Span { line: 1, column: 26 });
}

#[test]
fn a_character_that_begins_no_token_fails() {
    let error = failure_of(r#"print("Hello", "World!"?"#);
    assert_eq!(error.message, "invalid symbol: ?");
    assert_eq!(error.span, Span { line: 1, column: 24 });
    assert_eq!(error.to_text(), "LexicalError: invalid symbol: ? (at 1:24)");
    let error = failure_of("a\n  #");
    assert_eq!(error.message, "invalid symbol: #");
    assert_eq!(error.span, Span { line: 2, column: 3 });
    let error = failure_of("é");
    assert_eq!(error.message, "invalid symbol: é");
}

#[test]
fn one_and_two_character_operators() {
    assert_eq!(
        tokens_of("<=< >=> ==="),
        vec![
            (Token::BinaryOperator(BinaryOperator::LessThanOrEqual), 1, 2),
            (Token::BinaryOperator(BinaryOperator::LessThan), 1, 3),
            (Token::BinaryOperator(BinaryOperator::GreaterThanOrEqual), 1, 6),
            (Token::BinaryOperator(BinaryOperator::GreaterThan), 1, 7),
            (Token::BinaryOperator(BinaryOperator::Equal), 1, 10),
            (Token::Assign, 1, 11),
            (Token::EOF, 1, 12),
        ]
    );
    assert_eq!(
        tokens_of("!!="),
        vec![
            (Token::UnaryOperator(UnaryOperator::Not), 1, 1),
            (Token::BinaryOperator(BinaryOperator::NotEqual), 1, 3),
            (Token::EOF, 1, 4),
        ]
    );
}

#[test]
fn comments_are_skipped() {
    assert_eq!(
        tokens_of("a // b\nc /* d\n e */ f / g"),
        vec![
            (Token::Identifier("a".to_string()), 1, 1),
            (Token::Identifier("c".to_string()), 2, 1),
            (Token::Identifier("f".to_string()), 3, 7),
            (Token::BinaryOperator(BinaryOperator::Divide), 3, 9),
            (Token::Identifier("g".to_string()), 3, 11),
            (Token::EOF, 3, 12),
        ]
    );
    assert_eq!(tokens_of("/* never closed"), vec![(Token::EOF, 1, 16)]);
    assert_eq!(tokens_of("// only a comment"), vec![(Token::EOF, 1, 18)]);
    assert_eq!(tokens_of("/*/ a */ b"), vec![
        (Token::Identifier("b".to_string()), 1, 10),
        (Token::EOF, 1, 11),
    ]);
}

#[test]
fn string_literals() {
    assert_eq!(
        tokens_of("\"\" \"a b\"\"two\nlines\""),
        vec![
            (Token::StringLiteral("".to_string()), 1, 2),
            (Token::StringLiteral("a b".to_string()), 1, 8),
            (Token::StringLiteral("two\nlines".to_string()), 2, 6),
            (Token::EOF, 2, 7),
        ]
    );
}

#[test]
fn a_string_that_the_text_ends_in_is_taken_as_it_stands() {
    assert_eq!(
        tokens_of("\"abc"),
        vec![(Token::StringLiteral("abc".to_string()), 1, 5), (Token::EOF, 1, 6)]
    );
}

#[test]
fn white_space_of_every_kind_separates() {
    assert_eq!(
        tokens_of("a\tb\u{a0}c\u{2003}d\u{3000}e\r\nf"),
        vec![
            (Token::Identifier("a".to_string()), 1, 1),
            (Token::Identifier("b".to_string()), 1, 3),
            (Token::Identifier("c".to_string()), 1, 5),
            (Token::Identifier("d".to_string()), 1, 7),
            (Token::Identifier("e".to_string()), 1, 9),
            (Token::Identifier("f".to_string()), 2, 1),
            (Token::EOF, 2, 2),
        ]
    );
}

#[test]
fn what_has_been_read_stays_read() {
    let mut tokenizer = Tokenizer::new("a b".to_string());
    let first = tokenizer.tokenize().unwrap();
    assert_eq!(first.len(), 3);
    let second = tokenizer.tokenize().unwrap();
    assert_eq!(second, vec![Token::EOF.spanned(Span { line: 1, column: 4 })]);
}

#[test]
fn tokenizing_stops_at_the_first_failure() {
    let mut tokenizer = Tokenizer::new("a ? b".to_string());
    assert!(tokenizer.tokenize().is_err());
    let rest = tokenizer.tokenize().unwrap();
    assert_eq!(
        rest,
        vec![
            Token::Identifier("b".to_string()).spanned(Span { line: 1, column: 5 }),
            Token::EOF.spanned(Span { line: 1, column: 6 }),
        ]
    );
}
