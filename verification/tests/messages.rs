use dango::errors::{CompileError, CompileErrorKind, DangoError, RuntimeError};
use dango::text::{
    chars_of, is_float_literal, parse_i64, parse_unsigned, push_decimal, push_signed_decimal,
    string_of,
};

fn chars(s: &str) -> Vec<char> {
    s.chars().collect()
}

#[test]
fn compile_error_kinds_have_their_sentences() {
    assert_eq!(CompileErrorKind::CustomError("as given".to_string()).message(), "as given");
    assert_eq!(CompileErrorKind::InvalidToken("tok".to_string()).message(), "invalid token 'tok'");
    assert_eq!(
        CompileErrorKind::MultilineComment.message(),
        "due to complexities, multiline comments are not supported"
    );
    assert_eq!(CompileErrorKind::MultilineDumpling.message(), "dumplings cannot span multiple lines");
    assert_eq!(CompileErrorKind::OrphanedDumpling.message(), "dumpling(s) must be connected to sticks");
    assert_eq!(CompileErrorKind::OrphanedStick.message(), "sticks must hold dango");
    assert_eq!(CompileErrorKind::UnterminatedComment.message(), "comments must be closed with a ':;'");
    assert_eq!(CompileErrorKind::UnterminatedDumpling.message(), "dumplings must be closed with a ')'");
}

#[test]
fn compile_error_names_its_place() {
    let error = CompileError::new(CompileErrorKind::OrphanedStick, 12, 340);
    assert_eq!(error.kind, CompileErrorKind::OrphanedStick);
    assert_eq!(error.line, 12);
    assert_eq!(error.column, 340);
    assert_eq!(error.message(), "error at 12:340: sticks must hold dango");
}

#[test]
fn compile_error_without_place_is_at_the_end() {
    let error = CompileError::new(CompileErrorKind::OrphanedDumpling, 0, 0);
    assert_eq!(error.message(), "error at end: dumpling(s) must be connected to sticks");
    let error = CompileError::new(CompileErrorKind::OrphanedDumpling, 3, 0);
    assert_eq!(error.message(), "error at end: dumpling(s) must be connected to sticks");
}

#[test]
fn runtime_errors_have_their_sentences() {
    assert_eq!(RuntimeError::CustomError("as given".to_string()).message(), "as given");
    assert_eq!(
        RuntimeError::IncorrectOperationTypes("addition".to_string()).message(),
        "error: incorrect addition types"
    );
    assert_eq!(
        RuntimeError::NonexistentFunction("f".to_string()).message(),
        "error: function `:f` does not exist"
    );
    assert_eq!(
        RuntimeError::NotACodePoint(Some(-5)).message(),
        "error: integer -5 is not a code point"
    );
    assert_eq!(RuntimeError::NotACodePoint(None).message(), "error: value is not a code point");
    assert_eq!(
        RuntimeError::StackUnderflow.message(),
        "error: the stack cannot be popped from when it is already empty"
    );
}

#[test]
fn all_compile_errors_are_reported_line_by_line() {
    let error = DangoError::Compile(vec![
        CompileError::new(CompileErrorKind::OrphanedStick, 1, 1),
        CompileError::new(CompileErrorKind::InvalidToken("x".to_string()), 2, 3),
    ]);
    assert_eq!(error.message(), "error at 1:1: sticks must hold dango\nerror at 2:3: invalid token 'x'\n");
    assert_eq!(DangoError::Compile(vec![]).message(), "");
    assert_eq!(
        DangoError::Runtime(RuntimeError::StackUnderflow).message(),
        RuntimeError::StackUnderflow.message()
    );
}

#[test]
fn numbers_are_written_in_decimal() {
    let mut out = String::from("n=");
    push_decimal(&mut out, 0);
    out.push(',');
    push_decimal(&mut out, 10);
    out.push(',');
    push_decimal(&mut out, u64::MAX);
    out.push(',');
    push_signed_decimal(&mut out, -1);
    out.push(',');
    push_signed_decimal(&mut out, i64::MIN);
    out.push(',');
    push_signed_decimal(&mut out, 907);
    assert_eq!(out, "n=0,10,18446744073709551615,-1,-9223372036854775808,907");
}

#[test]
fn integers_are_read_as_the_standard_library_reads_them() {
    for text in [
        "0", "7", "-7", "+7", "0012", "-0", "9223372036854775807", "9223372036854775808",
        "-9223372036854775808", "-9223372036854775809", "", "+", "-", "1a", "a1", "1 ", "٣", "1.0",
        "99999999999999999999999999", "--1",
    ] {
        assert_eq!(parse_i64(&chars(text)), text.parse::<i64>().ok(), "{:?}", text);
    }
}

#[test]
fn unsigned_integers_are_read_up_to_a_limit() {
    for text in ["0", "255", "256", "+255", "-0", "-1", "", "+", "12x", "000255", "18446744073709551616"] {
        assert_eq!(
            parse_unsigned(&chars(text), 255),
            text.parse::<u8>().ok().map(u64::from),
            "{:?}",
            text
        );
        assert_eq!(parse_unsigned(&chars(text), u64::MAX), text.parse::<u64>().ok(), "{:?}", text);
    }
}

#[test]
fn float_literals_are_told_as_the_standard_library_tells_them() {
    for text in [
        "1", "1.", ".1", "1.5", "-1.5", "+1.5", "1e5", "1E5", "1e+5", "1e-5", "1.e5", ".5e5", ".",
        "", "+", "-", "e5", ".e5", "1e", "1e+", "1e5.", "1.5.5", "inf", "INF", "-inf", "+Infinity",
        "infinity", "infinit", "nan", "NaN", "-nan", "nanx", "1f", "0x1", " 1", "1 ", "1_0",
        "123456789012345678901234567890", "1e999", "--1", "+-1", "١",
    ] {
        assert_eq!(is_float_literal(&chars(text)), text.parse::<f64>().is_ok(), "{:?}", text);
    }
}

#[test]
fn strings_and_their_characters() {
    assert_eq!(chars_of("a🍡é"), vec!['a', '🍡', 'é']);
    assert_eq!(chars_of(""), Vec::<char>::new());
    let source = chars("(héllo)");
    assert_eq!(string_of(&source, 1, 6), "héllo");
    assert_eq!(string_of(&source, 3, 3), "");
    assert_eq!(string_of(&source, 0, 7), "(héllo)");
}
