use dango::errors::{CompileError, CompileErrorKind};
use dango::span_tokenizer::{tokenize_into_spans, Position, SpanKind, SpanToken, SpanTokenizer};

fn span(kind: SpanKind, text: &str, line: usize, column: usize) -> SpanToken {
    SpanToken::new(kind, text.to_string(), line, column)
}

#[test]
fn span_and_position_keep_what_they_are_given() {
    let made = SpanToken::new(SpanKind::Dumpling, "abc".to_string(), 3, 9);
    assert_eq!(made.kind, SpanKind::Dumpling);
    assert_eq!(made.text, "abc");
    assert_eq!(made.line, 3);
    assert_eq!(made.column, 9);
    let place = Position::new(4, 2);
    assert_eq!(place.line, 4);
    assert_eq!(place.column, 2);
}

#[test]
fn dumplings_and_stick_of_one_line() {
    let spans = tokenize_into_spans("(+)(1)(2)----").unwrap();
    assert_eq!(
        spans,
        vec![
            span(SpanKind::Dumpling, "+", 1, 1),
            span(SpanKind::Dumpling, "1", 1, 4),
            span(SpanKind::Dumpling, "2", 1, 7),
            span(SpanKind::Stick, "----", 1, 10),
            span(SpanKind::Eof, "", 1, 14),
        ]
    );
}

#[test]
fn empty_source_is_one_end_of_file_span() {
    assert_eq!(tokenize_into_spans("").unwrap(), vec![span(SpanKind::Eof, "", 1, 1)]);
}

#[test]
fn line_break_is_a_span_and_starts_a_new_line() {
    let spans = tokenize_into_spans("(1)----\n(2)----").unwrap();
    assert_eq!(
        spans,
        vec![
            span(SpanKind::Dumpling, "1", 1, 1),
            span(SpanKind::Stick, "----", 1, 4),
            span(SpanKind::Newline, "", 1, 8),
            span(SpanKind::Dumpling, "2", 2, 1),
            span(SpanKind::Stick, "----", 2, 4),
            span(SpanKind::Eof, "", 2, 8),
        ]
    );
}

#[test]
fn blanks_between_spans_are_passed_over() {
    let spans = tokenize_into_spans("  eat \t remove").unwrap();
    assert_eq!(
        spans,
        vec![
            span(SpanKind::NonDumpling, "eat", 1, 3),
            span(SpanKind::NonDumpling, "remove", 1, 9),
            span(SpanKind::Eof, "", 1, 15),
        ]
    );
}

#[test]
fn unicode_white_space_is_passed_over() {
    let spans = tokenize_into_spans("\u{a0}eat\u{3000}").unwrap();
    assert_eq!(
        spans,
        vec![span(SpanKind::NonDumpling, "eat", 1, 2), span(SpanKind::Eof, "", 1, 6)]
    );
}

#[test]
fn a_bare_word_ends_at_a_bracket_or_a_dash() {
    let spans = tokenize_into_spans("eat(1)fetch----").unwrap();
    assert_eq!(
        spans,
        vec![
            span(SpanKind::NonDumpling, "eat", 1, 1),
            span(SpanKind::Dumpling, "1", 1, 4),
            span(SpanKind::NonDumpling, "fetch", 1, 7),
            span(SpanKind::Stick, "----", 1, 12),
            span(SpanKind::Eof, "", 1, 16),
        ]
    );
}

#[test]
fn dumpling_text_leaves_out_the_brackets() {
    let spans = tokenize_into_spans("(Hello, world!)()").unwrap();
    assert_eq!(
        spans,
        vec![
            span(SpanKind::Dumpling, "Hello, world!", 1, 1),
            span(SpanKind::Dumpling, "", 1, 16),
            span(SpanKind::Eof, "", 1, 18),
        ]
    );
}

#[test]
fn dumpling_text_counts_characters_not_bytes() {
    let spans = tokenize_into_spans("(héllo)(x)").unwrap();
    assert_eq!(
        spans,
        vec![
            span(SpanKind::Dumpling, "héllo", 1, 1),
            span(SpanKind::Dumpling, "x", 1, 8),
            span(SpanKind::Eof, "", 1, 11),
        ]
    );
}

#[test]
fn dumpling_over_two_lines_is_an_error() {
    let errors = tokenize_into_spans("(ab\ncd)").unwrap_err();
    assert_eq!(errors, vec![CompileError::new(CompileErrorKind::MultilineDumpling, 1, 1)]);
}

#[test]
fn dumpling_without_its_end_is_an_error() {
    let errors = tokenize_into_spans(" (abc").unwrap_err();
    assert_eq!(errors, vec![CompileError::new(CompileErrorKind::UnterminatedDumpling, 1, 2)]);
}

#[test]
fn dashes_that_make_no_stick_are_invalid_one_by_one() {
    let errors = tokenize_into_spans("--").unwrap_err();
    assert_eq!(
        errors,
        vec![
            CompileError::new(CompileErrorKind::InvalidToken("-".to_string()), 1, 1),
            CompileError::new(CompileErrorKind::InvalidToken("-".to_string()), 1, 2),
        ]
    );
}

#[test]
fn a_fifth_dash_is_no_part_of_the_stick() {
    let errors = tokenize_into_spans("(1)-----").unwrap_err();
    assert_eq!(
        errors,
        vec![CompileError::new(CompileErrorKind::InvalidToken("-".to_string()), 1, 8)]
    );
}

#[test]
fn errors_of_a_whole_source_are_collected() {
    let errors = tokenize_into_spans("(a\n--\n(b").unwrap_err();
    assert_eq!(
        errors,
        vec![
            CompileError::new(CompileErrorKind::MultilineDumpling, 1, 1),
            CompileError::new(CompileErrorKind::InvalidToken("-".to_string()), 2, 1),
            CompileError::new(CompileErrorKind::InvalidToken("-".to_string()), 2, 2),
            CompileError::new(CompileErrorKind::UnterminatedDumpling, 3, 1),
        ]
    );
}

#[test]
fn scanner_hands_out_span_after_span() {
    let mut scanner = SpanTokenizer::new("(1) eat\n----");
    assert_eq!(scanner.consume_span(), Ok(span(SpanKind::Dumpling, "1", 1, 1)));
    assert_eq!(scanner.consume_span(), Ok(span(SpanKind::NonDumpling, "eat", 1, 5)));
    assert_eq!(scanner.consume_span(), Ok(span(SpanKind::Newline, "", 1, 8)));
    assert_eq!(scanner.consume_span(), Ok(span(SpanKind::Stick, "----", 2, 1)));
    assert_eq!(scanner.consume_span(), Ok(span(SpanKind::Eof, "", 2, 5)));
    assert_eq!(scanner.consume_span(), Ok(span(SpanKind::Eof, "", 2, 5)));
}

#[test]
fn scanner_goes_on_after_an_error() {
    let mut scanner = SpanTokenizer::new("-(1)");
    assert_eq!(
        scanner.consume_span(),
        Err(CompileError::new(CompileErrorKind::InvalidToken("-".to_string()), 1, 1))
    );
    assert_eq!(scanner.consume_span(), Ok(span(SpanKind::Dumpling, "1", 1, 2)));
}
