use dango::errors::{CompileError, CompileErrorKind};
use dango::instructions::{Instruction, Program};
use dango::parser::{parse, validate_tokens};
use dango::span_tokenizer::tokenize_into_spans;
use dango::tokenizer::{tokenize, Token, TokenKind};
use dango::utils::{compile_str, compile_string};

fn tokens_of(source: &str) -> Vec<Token> {
    tokenize(tokenize_into_spans(source).unwrap()).unwrap()
}

fn lines_of(program: &Program) -> Vec<Vec<Instruction>> {
    (0..program.lines())
        .map(|line| program.get_line(line).iter().map(|instruction| instruction.copy()).collect())
        .collect()
}

#[test]
fn a_line_is_generated_in_reverse() {
    let program = compile_str("(+)(1)(2)----").unwrap();
    assert_eq!(
        lines_of(&program),
        vec![
            vec![Instruction::Int(2), Instruction::Int(1), Instruction::Add],
            vec![],
            vec![Instruction::Nop],
        ]
    );
}

#[test]
fn empty_source_still_has_its_closing_line() {
    let program = compile_str("").unwrap();
    assert_eq!(lines_of(&program), vec![vec![], vec![], vec![Instruction::Nop]]);
    assert_eq!(program.lines(), 3);
}

#[test]
fn each_line_break_closes_a_line() {
    let program = compile_string("(1)----\n\n(')(x)---- eat".to_string()).unwrap();
    assert_eq!(
        lines_of(&program),
        vec![
            vec![Instruction::Int(1)],
            vec![],
            vec![Instruction::Eat, Instruction::Text("x".to_string()), Instruction::Stringify],
            vec![],
            vec![Instruction::Nop],
        ]
    );
}

#[test]
fn every_token_has_its_instruction() {
    let source = "(/)(=)(>)(<)(!=)(*)(`)(;)('c)(-)(j)(len)(while)()(:f)(1.5)fetch 2 skewer 3 ---- remove";
    let program = compile_str(source).unwrap();
    assert_eq!(
        lines_of(&program)[0],
        vec![
            Instruction::Remove,
            Instruction::Skewer(3),
            Instruction::Fetch(2),
            Instruction::Float("1.5".to_string()),
            Instruction::FnCall("f".to_string()),
            Instruction::Null,
            Instruction::While,
            Instruction::Length,
            Instruction::Jump,
            Instruction::Subtract,
            Instruction::CharFromCodePoint,
            Instruction::ToFloat,
            Instruction::ToInt,
            Instruction::Multiply,
            Instruction::NotEqual,
            Instruction::Less,
            Instruction::Greater,
            Instruction::Equal,
            Instruction::Divide,
        ]
    );
}

#[test]
fn paired_dumplings_and_sticks_have_no_errors() {
    assert_eq!(validate_tokens(&tokens_of("(+)(1)(2)----\n(3)---- eat\nremove")), vec![]);
}

#[test]
fn dumpling_left_at_a_line_break_is_reported_where_it_stands() {
    let errors = validate_tokens(&tokens_of("(1)  (2)\n(3)----"));
    assert_eq!(errors, vec![CompileError::new(CompileErrorKind::OrphanedDumpling, 1, 6)]);
}

#[test]
fn dumpling_left_at_the_end_is_reported_at_no_place() {
    let errors = compile_str("(1)----\n(2)").unwrap_err();
    assert_eq!(errors, vec![CompileError::new(CompileErrorKind::OrphanedDumpling, 0, 0)]);
}

#[test]
fn dumpling_before_a_command_is_orphaned() {
    let errors = compile_str("(1) eat").unwrap_err();
    assert_eq!(errors, vec![CompileError::new(CompileErrorKind::OrphanedDumpling, 1, 1)]);
}

#[test]
fn stick_after_a_stick_is_orphaned() {
    let errors = compile_str("(1)---- ----\n----").unwrap_err();
    assert_eq!(
        errors,
        vec![
            CompileError::new(CompileErrorKind::OrphanedStick, 1, 9),
            CompileError::new(CompileErrorKind::OrphanedStick, 2, 1),
        ]
    );
}

#[test]
fn validation_ends_at_the_end_of_the_file() {
    let tokens = vec![
        Token::new(TokenKind::Eof, 1, 1),
        Token::new(TokenKind::Stick, 1, 2),
        Token::new(TokenKind::Int(1), 1, 6),
    ];
    assert_eq!(validate_tokens(&tokens), vec![]);
}

#[test]
fn commands_with_arguments_count_as_dumplings() {
    assert!(compile_str("fetch 0 ----").is_ok());
    assert!(compile_str("skewer 2 ----").is_ok());
    let errors = compile_str("fetch 0").unwrap_err();
    assert_eq!(errors, vec![CompileError::new(CompileErrorKind::OrphanedDumpling, 0, 0)]);
}

#[test]
fn parse_returns_the_errors_and_no_program() {
    let result = parse(tokens_of("----"));
    assert_eq!(result, Err(vec![CompileError::new(CompileErrorKind::OrphanedStick, 1, 1)]));
}

#[test]
fn scan_errors_come_before_token_errors() {
    let errors = compile_str("source (").unwrap_err();
    assert_eq!(errors, vec![CompileError::new(CompileErrorKind::UnterminatedDumpling, 1, 8)]);
}

#[test]
fn program_is_built_line_by_line() {
    let mut program = Program::new();
    assert_eq!(program.lines(), 0);
    program.add_line(vec![Instruction::Int(1)]);
    program.add_line(vec![Instruction::Nop]);
    assert_eq!(program.lines(), 2);
    assert_eq!(program.get_line(0), &vec![Instruction::Int(1)]);
    program.get_line_mut(0).push(Instruction::Eat);
    assert_eq!(program.get_line(0), &vec![Instruction::Int(1), Instruction::Eat]);
    assert_eq!(program.get_line(1), &vec![Instruction::Nop]);
}
