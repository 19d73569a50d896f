use dango::errors::{CompileError, CompileErrorKind, DangoError, RuntimeError};
use dango::instructions::Instruction;
use dango::runtime::{Request, Runtime, Step};
use dango::utils::{compile_str, execute_str};
use dango::value::Value;

fn number(value: &Value) -> f64 {
    match value {
        Value::Int(i) => *i as f64,
        Value::Float(bits) => f64::from_bits(*bits),
        other => panic!("not a number: {:?}", other),
    }
}

fn float(x: f64) -> Value {
    Value::Float(x.to_bits())
}

fn show(value: &Value) -> String {
    let texts = value.floats().iter().map(|bits| format!("{}", f64::from_bits(*bits))).collect();
    value.display_with(&texts).unwrap()
}

fn answers(a: &Value, b: &Value) -> Vec<bool> {
    a.float_pairs(b).iter().map(|(a, b)| number(a) == number(b)).collect()
}

// The floating-point unit that the machine asks for.
fn calculate(instruction: &Instruction, operands: &[Value]) -> Value {
    match instruction {
        Instruction::Float(text) => float(text.parse::<f64>().unwrap()),
        Instruction::Add => float(number(&operands[0]) + number(&operands[1])),
        Instruction::Subtract => float(number(&operands[0]) - number(&operands[1])),
        Instruction::Multiply => float(number(&operands[0]) * number(&operands[1])),
        Instruction::Divide => float(number(&operands[0]) / number(&operands[1])),
        Instruction::Greater => Value::Int((number(&operands[0]) > number(&operands[1])) as i64),
        Instruction::Less => Value::Int((number(&operands[0]) < number(&operands[1])) as i64),
        Instruction::Equal => {
            let same = answers(&operands[0], &operands[1]);
            Value::Int(operands[0].equals_with(&operands[1], &same).unwrap() as i64)
        }
        Instruction::NotEqual => {
            let same = answers(&operands[0], &operands[1]);
            Value::Int(operands[0].differs_with(&operands[1], &same).unwrap() as i64)
        }
        Instruction::ToFloat => match &operands[0] {
            Value::String(text) => float(text.parse::<f64>().unwrap()),
            other => float(number(other)),
        },
        Instruction::ToInt => Value::Int(number(&operands[0]) as i64),
        Instruction::Stringify => Value::String(show(&operands[0])),
        other => panic!("no floating point in {:?}", other),
    }
}

// Runs the source to its end, doing for the machine what it asks for.
fn execute(runtime: &mut Runtime, source: &str) -> Result<Value, DangoError> {
    let mut step = execute_str(runtime, source, 100_000)?;
    loop {
        match step {
            Step::Finished(value) => return Ok(value),
            Step::Running => panic!("the program did not end"),
            Step::Request(Request::Float(instruction, operands)) => {
                runtime.push(calculate(&instruction, &operands));
            }
            Step::Request(Request::Print(_)) => {}
            Step::Request(Request::Native(name)) => panic!("no native function {}", name),
        }
        step = runtime.resume(100_000).map_err(DangoError::Runtime)?;
    }
}

#[test]
fn test_addition() {
    let mut runtime = Runtime::new();

    let result = execute(&mut runtime, "(+)(1)(2)----");
    assert_eq!(result, Ok(Value::Int(3)));

    let result = execute(&mut runtime, "(+)(1.0)(2.0)----");
    assert_eq!(result, Ok(float(3.0)));

    let result = execute(&mut runtime, "(+)(')(world!)(')(Hello, )----");
    assert_eq!(result, Ok(Value::String("Hello, world!".to_string())));
}

#[test]
fn test_comparison() {
    let mut runtime = Runtime::new();

    let result = execute(&mut runtime, "(>)(1)(2)----");
    assert_eq!(result, Ok(Value::Int(1)));

    let result = execute(&mut runtime, "(<)(1)(2)----");
    assert_eq!(result, Ok(Value::Int(0)));

    let result = execute(&mut runtime, "(>)(2)(1)----");
    assert_eq!(result, Ok(Value::Int(0)));

    let result = execute(&mut runtime, "(<)(2)(1)----");
    assert_eq!(result, Ok(Value::Int(1)));
}

#[test]
fn test_dango_data_structure() {
    let mut runtime = Runtime::new();

    let result = execute(&mut runtime, "skewer 2 (1)(2)----");
    assert_eq!(result, Ok(Value::Dango(vec![Value::Int(1), Value::Int(2)])));
}

#[test]
fn test_compile_errors() {
    let result = compile_str("source");
    assert!(result.is_err());

    let result = compile_str("----");
    assert!(result.is_err());

    let result = compile_str("eat ;: Hello\n:; (2)----");
    assert!(result.is_err());
}

#[test]
fn orphaned_stick_is_the_only_error_of_a_lone_stick() {
    let errors = compile_str("----").unwrap_err();
    assert_eq!(errors, vec![CompileError::new(CompileErrorKind::OrphanedStick, 1, 1)]);
}

#[test]
fn unknown_command_word_is_an_invalid_token() {
    let errors = compile_str("source").unwrap_err();
    assert_eq!(
        errors,
        vec![CompileError::new(CompileErrorKind::InvalidToken("source".to_string()), 1, 1)]
    );
}

#[test]
fn two_runs_of_one_program_agree() {
    let first = execute(&mut Runtime::new(), "(*)(6)(7)----");
    let second = execute(&mut Runtime::new(), "(*)(6)(7)----");
    assert_eq!(first, Ok(Value::Int(42)));
    assert_eq!(first, second);
}

#[test]
fn stringify_twice_is_stringify_once() {
    let once = execute(&mut Runtime::new(), "(')(12)----");
    let twice = execute(&mut Runtime::new(), "(')(')(12)----");
    assert_eq!(once, Ok(Value::String("12".to_string())));
    assert_eq!(twice, once);
}

#[test]
fn popping_an_empty_stack_is_an_error() {
    let result = execute(&mut Runtime::new(), "(+)(1)----");
    assert_eq!(result, Err(DangoError::Runtime(RuntimeError::StackUnderflow)));
}

#[test]
fn integers_and_floats_mix_in_arithmetic() {
    let mut runtime = Runtime::new();
    assert_eq!(execute(&mut runtime, "(+)(1)(2.5)----"), Ok(float(3.5)));
    assert_eq!(execute(&mut runtime, "(-)(1.5)(2)----"), Ok(float(0.5)));
    assert_eq!(execute(&mut runtime, "(*)(4)(0.25)----"), Ok(float(1.0)));
    assert_eq!(execute(&mut runtime, "(/)(4.0)(1)----"), Ok(float(0.25)));
    assert_eq!(execute(&mut runtime, "(/)(0.0)(1.0)----"), Ok(float(f64::INFINITY)));
}

#[test]
fn integers_and_floats_compare() {
    let mut runtime = Runtime::new();
    assert_eq!(execute(&mut runtime, "(=)(1)(1.0)----"), Ok(Value::Int(1)));
    assert_eq!(execute(&mut runtime, "(!=)(1)(1.0)----"), Ok(Value::Int(0)));
    assert_eq!(execute(&mut runtime, "(=)(nan)(nan)----"), Ok(Value::Int(0)));
    assert_eq!(execute(&mut runtime, "(!=)(nan)(nan)----"), Ok(Value::Int(1)));
    assert_eq!(execute(&mut runtime, "(>)(1.5)(2)----"), Ok(Value::Int(1)));
    assert_eq!(execute(&mut runtime, "(<)(1.5)(2)----"), Ok(Value::Int(0)));
    assert_eq!(
        execute(&mut runtime, "(=)skewer 2 (1.0)(2) skewer 2 (1)(2.0)----"),
        Ok(Value::Int(1))
    );
    assert_eq!(
        execute(&mut runtime, "(!=)skewer 2 (1.0)(2) skewer 2 (1)(2.5)----"),
        Ok(Value::Int(1))
    );
}

#[test]
fn floats_are_shown_as_the_language_writes_them() {
    let mut runtime = Runtime::new();
    assert_eq!(execute(&mut runtime, "(')(1.50)----"), Ok(Value::String("1.5".to_string())));
    assert_eq!(
        execute(&mut runtime, "(')skewer 2 (0.5)(7)----"),
        Ok(Value::String("(0.5)(7)----".to_string()))
    );
    assert_eq!(execute(&mut runtime, "(`)(2.9)----"), Ok(Value::Int(2)));
    assert_eq!(execute(&mut runtime, "(;)(2)----"), Ok(float(2.0)));
    assert_eq!(execute(&mut runtime, "(;)(')(2.5)----"), Ok(float(2.5)));
    assert_eq!(execute(&mut runtime, "(;)(')(two)----"), Ok(Value::Nil));
}
