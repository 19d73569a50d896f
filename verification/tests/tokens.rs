use dango::errors::{CompileError, CompileErrorKind};
use dango::span_tokenizer::{tokenize_into_spans, SpanKind, SpanToken};
use dango::tokenizer::{tokenize, Token, TokenKind, Tokenizer};

fn kinds(source: &str) -> Vec<TokenKind> {
    let spans = tokenize_into_spans(source).unwrap();
    tokenize(spans).unwrap().into_iter().map(|token| token.kind).collect()
}

fn kind_of_dumpling(text: &str) -> TokenKind {
    let spans = vec![SpanToken::new(SpanKind::Dumpling, text.to_string(), 1, 1)];
    let mut tokens = tokenize(spans).unwrap();
    assert_eq!(tokens.len(), 2);
    tokens.remove(0).kind
}

fn errors_of(source: &str) -> Vec<CompileError> {
    tokenize(tokenize_into_spans(source).unwrap()).unwrap_err()
}

#[test]
fn token_keeps_what_it_is_given() {
    let token = Token::new(TokenKind::Fetch(3), 2, 5);
    assert_eq!(token.kind, TokenKind::Fetch(3));
    assert_eq!(token.line, 2);
    assert_eq!(token.column, 5);
}

#[test]
fn tokens_keep_the_places_of_their_spans() {
    let tokens = tokenize(tokenize_into_spans("(+)(1)\n----").unwrap()).unwrap();
    assert_eq!(
        tokens,
        vec![
            Token::new(TokenKind::Add, 1, 1),
            Token::new(TokenKind::Int(1), 1, 4),
            Token::new(TokenKind::Newline, 1, 7),
            Token::new(TokenKind::Stick, 2, 1),
            Token::new(TokenKind::Eof, 2, 5),
            Token::new(TokenKind::Eof, 0, 0),
        ]
    );
}

#[test]
fn operators_and_keywords_by_name() {
    assert_eq!(kind_of_dumpling("+"), TokenKind::Add);
    assert_eq!(kind_of_dumpling("/"), TokenKind::Divide);
    assert_eq!(kind_of_dumpling("="), TokenKind::Equal);
    assert_eq!(kind_of_dumpling(">"), TokenKind::Greater);
    assert_eq!(kind_of_dumpling("<"), TokenKind::Less);
    assert_eq!(kind_of_dumpling("!="), TokenKind::NotEqual);
    assert_eq!(kind_of_dumpling("*"), TokenKind::Multiply);
    assert_eq!(kind_of_dumpling("`"), TokenKind::ToInt);
    assert_eq!(kind_of_dumpling(";"), TokenKind::ToFloat);
    assert_eq!(kind_of_dumpling("'"), TokenKind::Stringify);
    assert_eq!(kind_of_dumpling("'c"), TokenKind::CharFromCodePoint);
    assert_eq!(kind_of_dumpling("-"), TokenKind::Subtract);
    assert_eq!(kind_of_dumpling("j"), TokenKind::Jump);
    assert_eq!(kind_of_dumpling("len"), TokenKind::Length);
    assert_eq!(kind_of_dumpling("while"), TokenKind::While);
}

#[test]
fn empty_dumpling_is_nil() {
    assert_eq!(kind_of_dumpling(""), TokenKind::Null);
}

#[test]
fn colon_starts_a_function_call() {
    assert_eq!(kind_of_dumpling(":io-write"), TokenKind::FunctionCall("io-write".to_string()));
    assert_eq!(kind_of_dumpling(":"), TokenKind::FunctionCall(String::new()));
}

#[test]
fn integers_are_read_before_floats() {
    assert_eq!(kind_of_dumpling("39"), TokenKind::Int(39));
    assert_eq!(kind_of_dumpling("-7"), TokenKind::Int(-7));
    assert_eq!(kind_of_dumpling("+7"), TokenKind::Int(7));
    assert_eq!(kind_of_dumpling("007"), TokenKind::Int(7));
    assert_eq!(kind_of_dumpling("9223372036854775807"), TokenKind::Int(i64::MAX));
    assert_eq!(kind_of_dumpling("-9223372036854775808"), TokenKind::Int(i64::MIN));
}

#[test]
fn an_integer_that_does_not_fit_is_a_float() {
    assert_eq!(
        kind_of_dumpling("9223372036854775808"),
        TokenKind::Float("9223372036854775808".to_string())
    );
}

#[test]
fn floats_keep_their_text() {
    for text in ["0.401", "1.", ".5", "-2.5e10", "1E-3", "1e+3", "inf", "-Infinity", "NaN", "+nan"] {
        assert_eq!(kind_of_dumpling(text), TokenKind::Float(text.to_string()));
        assert!(text.parse::<f64>().is_ok());
    }
}

#[test]
fn what_is_no_number_is_raw_text() {
    for text in [".", "1.2.3", "e5", "1e", "1e+", "--1", "+-1", "in", "infinit", "nano", "1 ", " 1", "0x10", "1_000", "Hello, world!"] {
        assert_eq!(kind_of_dumpling(text), TokenKind::RawText(text.to_string()));
        assert!(text.parse::<f64>().is_err());
    }
}

#[test]
fn commands_without_argument() {
    assert_eq!(
        kinds("eat remove"),
        vec![TokenKind::Eat, TokenKind::Remove, TokenKind::Eof, TokenKind::Eof]
    );
}

#[test]
fn commands_with_argument_take_two_spans() {
    assert_eq!(
        kinds("fetch 12 skewer 5"),
        vec![TokenKind::Fetch(12), TokenKind::Skewer(5), TokenKind::Eof, TokenKind::Eof]
    );
    assert_eq!(kinds("skewer 255")[0], TokenKind::Skewer(255));
    assert_eq!(kinds("fetch 18446744073709551615")[0], TokenKind::Fetch(usize::MAX));
    assert_eq!(kinds("skewer +3")[0], TokenKind::Skewer(3));
}

#[test]
fn skewer_count_must_fit_a_byte() {
    assert_eq!(
        errors_of("skewer 256"),
        vec![CompileError::new(
            CompileErrorKind::CustomError(
                "expected an integer from 0 to 255 after `skewer`".to_string()
            ),
            1,
            1
        )]
    );
}

#[test]
fn fetch_depth_must_be_a_number() {
    let message = "expected a non-negative integer after `fetch`".to_string();
    assert_eq!(
        errors_of("fetch deep"),
        vec![CompileError::new(CompileErrorKind::CustomError(message.clone()), 1, 1)]
    );
    assert_eq!(
        errors_of("(1) fetch"),
        vec![CompileError::new(CompileErrorKind::CustomError(message.clone()), 1, 5)]
    );
    assert_eq!(
        errors_of("fetch 18446744073709551616"),
        vec![CompileError::new(CompileErrorKind::CustomError(message), 1, 1)]
    );
}

#[test]
fn a_dumpling_is_no_argument_and_is_read_on_its_own() {
    let spans = tokenize_into_spans("fetch (1)").unwrap();
    let mut tokenizer = Tokenizer::new(spans);
    assert!(tokenizer.has_more());
    assert_eq!(
        tokenizer.consume_span(),
        Err(CompileError::new(
            CompileErrorKind::CustomError(
                "expected a non-negative integer after `fetch`".to_string()
            ),
            1,
            1
        ))
    );
    assert_eq!(tokenizer.consume_span(), Ok(Token::new(TokenKind::Int(1), 1, 7)));
    assert_eq!(tokenizer.consume_span(), Ok(Token::new(TokenKind::Eof, 1, 10)));
    assert!(!tokenizer.has_more());
    assert_eq!(tokenizer.consume_span(), Ok(Token::new(TokenKind::Eof, 0, 0)));
}

#[test]
fn unknown_words_are_invalid_each() {
    assert_eq!(
        errors_of("eat ;: Hello"),
        vec![
            CompileError::new(CompileErrorKind::InvalidToken(";:".to_string()), 1, 5),
            CompileError::new(CompileErrorKind::InvalidToken("Hello".to_string()), 1, 8),
        ]
    );
}
