//! From source text to a program, and from source text to a run.
use crate::errors::{compile_errors_view, CompileError, CompileErrorModel, DangoError};
use crate::instructions::{InstructionModel, Program};
use crate::parser::{generate, parse, validate_from};
use crate::runtime::{loaded, machine_run, Machine, Runtime, Step, StepModel};
use crate::span_tokenizer::{eof_span, origin, scan_from, tokenize_into_spans};
use crate::tokenizer::{closing_token, lex_from, tokenize};
use vstd::prelude::*;

verus! {

/// What compiling `source` comes to: the errors of the first pass that
/// finds any (the scan, the tokens, the pairing of dumplings and sticks), else
/// the program generated from the tokens.
pub open spec fn compiled(source: Seq<char>) -> Result<
    Seq<Seq<InstructionModel>>,
    Seq<CompileErrorModel>,
> {
    let scan = scan_from(source, origin());
    let lexing = lex_from(scan.spans.push(eof_span(scan.end)), 0);
    let tokens = lexing.tokens.push(closing_token());
    if scan.errors.len() > 0 {
        Err(scan.errors)
    } else if lexing.errors.len() > 0 {
        Err(lexing.errors)
    } else if validate_from(tokens, 0, None).len() > 0 {
        Err(validate_from(tokens, 0, None))
    } else {
        Ok(generate(tokens, 0, Seq::empty()))
    }
}

/// Whether `r` is what `expected` says.
pub open spec fn compile_outcome(
    r: Result<Program, Vec<CompileError>>,
    expected: Result<Seq<Seq<InstructionModel>>, Seq<CompileErrorModel>>,
) -> bool {
    match expected {
        Ok(lines) => r matches Ok(program) && program@ == lines,
        Err(errors) => r matches Err(found) && compile_errors_view(found@) == errors,
    }
}

/// Compiles `source` to a program, or returns all the errors of the pass
/// that failed.
pub fn compile_str(source: &str) -> (r: Result<Program, Vec<CompileError>>)
    requires
        source@.len() < usize::MAX,
    ensures
        compile_outcome(r, compiled(source@)),
        r matches Ok(program) ==> program@.len() >= 1 && program@.last()
            == seq![InstructionModel::Nop],
{
    let spans = match tokenize_into_spans(source) {
        Ok(spans) => spans,
        Err(errors) => {
            return Err(errors);
        },
    };
    let tokens = match tokenize(spans) {
        Ok(tokens) => tokens,
        Err(errors) => {
            return Err(errors);
        },
    };
    parse(tokens)
}

/// Compiles `source` to a program, or returns all the errors of the pass
/// that failed.
pub fn compile_string(source: String) -> (r: Result<Program, Vec<CompileError>>)
    requires
        source@.len() < usize::MAX,
    ensures
        compile_outcome(r, compiled(source@)),
{
    compile_str(source.as_str())
}

/// Whether `r`, with the machine left as `after`, is the outcome of
/// compiling `source` and running the program on machine `m` for up to
/// `fuel` steps. Compile errors leave the machine as it was.
pub open spec fn execute_outcome(
    r: Result<Step, DangoError>,
    after: Machine,
    m: Machine,
    source: Seq<char>,
    fuel: nat,
) -> bool {
    match compiled(source) {
        Err(errors) => r matches Err(DangoError::Compile(found)) && compile_errors_view(found@)
            == errors && after == m,
        Ok(lines) => {
            let run = machine_run(loaded(m, lines), fuel);
            after == run.next && match run.result {
                StepModel::Running => r matches Ok(Step::Running),
                StepModel::Finished(v) => r matches Ok(Step::Finished(x)) && x@ == v,
                StepModel::Request(q) => r matches Ok(Step::Request(x)) && x@ == q,
                StepModel::Failed(e) => r matches Err(DangoError::Runtime(x)) && x@ == e,
            }
        },
    }
}

/// Compiles `source` and runs the program for up to `fuel` steps. Where the
/// run stops for a request or for want of steps, `Runtime::resume` takes
/// it up again.
pub fn execute_str(runtime: &mut Runtime, source: &str, fuel: usize) -> (r: Result<
    Step,
    DangoError,
>)
    requires
        source@.len() < usize::MAX,
    ensures
        execute_outcome(r, final(runtime)@, old(runtime)@, source@, fuel as nat),
{
    match compile_str(source) {
        Ok(program) => match runtime.run(program, fuel) {
            Ok(step) => Ok(step),
            Err(error) => Err(DangoError::Runtime(error)),
        },
        Err(errors) => Err(DangoError::Compile(errors)),
    }
}

/// Compiles `source` and runs the program for up to `fuel` steps.
pub fn execute_string(runtime: &mut Runtime, source: String, fuel: usize) -> (r: Result<
    Step,
    DangoError,
>)
    requires
        source@.len() < usize::MAX,
    ensures
        execute_outcome(r, final(runtime)@, old(runtime)@, source@, fuel as nat),
{
    execute_str(runtime, source.as_str(), fuel)
}

} // verus!
