//! The two families of errors: positioned compile errors, which are collected
//! over a whole pass, and runtime errors, of which the first ends the run.
use crate::text::{decimal, push_decimal, push_signed_decimal, signed_decimal};
use vstd::prelude::*;

verus! {

/// What went wrong while compiling.
#[derive(Debug, PartialEq)]
pub enum CompileErrorKind {
    CustomError(String),
    InvalidToken(String),
    MultilineComment,
    MultilineDumpling,
    OrphanedDumpling,
    OrphanedStick,
    UnterminatedComment,
    UnterminatedDumpling,
}

/// The mathematical content of a [`CompileErrorKind`].
pub enum CompileErrorKindModel {
    CustomError(Seq<char>),
    InvalidToken(Seq<char>),
    MultilineComment,
    MultilineDumpling,
    OrphanedDumpling,
    OrphanedStick,
    UnterminatedComment,
    UnterminatedDumpling,
}

impl CompileErrorKindModel {
    /// The sentence shown to the user for this kind of error.
    pub open spec fn message(self) -> Seq<char> {
        match self {
            CompileErrorKindModel::CustomError(msg) => msg,
            CompileErrorKindModel::InvalidToken(tok) => "invalid token '"@ + tok + "'"@,
            CompileErrorKindModel::MultilineComment =>
                "due to complexities, multiline comments are not supported"@,
            CompileErrorKindModel::MultilineDumpling => "dumplings cannot span multiple lines"@,
            CompileErrorKindModel::OrphanedDumpling => "dumpling(s) must be connected to sticks"@,
            CompileErrorKindModel::OrphanedStick => "sticks must hold dango"@,
            CompileErrorKindModel::UnterminatedComment => "comments must be closed with a ':;'"@,
            CompileErrorKindModel::UnterminatedDumpling => "dumplings must be closed with a ')'"@,
        }
    }
}

impl View for CompileErrorKind {
    type V = CompileErrorKindModel;

    open spec fn view(&self) -> CompileErrorKindModel {
        match self {
            CompileErrorKind::CustomError(msg) => CompileErrorKindModel::CustomError(msg@),
            CompileErrorKind::InvalidToken(tok) => CompileErrorKindModel::InvalidToken(tok@),
            CompileErrorKind::MultilineComment => CompileErrorKindModel::MultilineComment,
            CompileErrorKind::MultilineDumpling => CompileErrorKindModel::MultilineDumpling,
            CompileErrorKind::OrphanedDumpling => CompileErrorKindModel::OrphanedDumpling,
            CompileErrorKind::OrphanedStick => CompileErrorKindModel::OrphanedStick,
            CompileErrorKind::UnterminatedComment => CompileErrorKindModel::UnterminatedComment,
            CompileErrorKind::UnterminatedDumpling => CompileErrorKindModel::UnterminatedDumpling,
        }
    }
}

impl CompileErrorKind {
    /// The sentence shown to the user for this kind of error.
    pub fn message(&self) -> (r: String)
        ensures
            r@ == self@.message(),
    {
        match self {
            CompileErrorKind::CustomError(msg) => msg.clone(),
            CompileErrorKind::InvalidToken(tok) => {
                let mut out = String::from_str("invalid token '");
                out.append(tok.as_str());
                out.append("'");
                out
            },
            CompileErrorKind::MultilineComment => String::from_str(
                "due to complexities, multiline comments are not supported",
            ),
            CompileErrorKind::MultilineDumpling => String::from_str(
                "dumplings cannot span multiple lines",
            ),
            CompileErrorKind::OrphanedDumpling => String::from_str(
                "dumpling(s) must be connected to sticks",
            ),
            CompileErrorKind::OrphanedStick => String::from_str("sticks must hold dango"),
            CompileErrorKind::UnterminatedComment => String::from_str(
                "comments must be closed with a ':;'",
            ),
            CompileErrorKind::UnterminatedDumpling => String::from_str(
                "dumplings must be closed with a ')'",
            ),
        }
    }
}

/// A compile error and the place in the source where it was found. Line and
/// column count from 1; the pair (0, 0) stands for the end of the input.
#[derive(Debug, PartialEq)]
pub struct CompileError {
    pub kind: CompileErrorKind,
    pub line: usize,
    pub column: usize,
}

/// The mathematical content of a [`CompileError`].
pub struct CompileErrorModel {
    pub kind: CompileErrorKindModel,
    pub line: nat,
    pub column: nat,
}

impl CompileErrorModel {
    /// The line shown to the user: where the error is, then what it is.
    pub open spec fn message(self) -> Seq<char> {
        if self.line > 0 && self.column > 0 {
            "error at "@ + decimal(self.line) + ":"@ + decimal(self.column) + ": "@
                + self.kind.message()
        } else {
            "error at end: "@ + self.kind.message()
        }
    }
}

impl View for CompileError {
    type V = CompileErrorModel;

    open spec fn view(&self) -> CompileErrorModel {
        CompileErrorModel { kind: self.kind@, line: self.line as nat, column: self.column as nat }
    }
}

impl CompileError {
    pub fn new(kind: CompileErrorKind, line: usize, column: usize) -> (r: Self)
        ensures
            r.kind == kind,
            r.line == line,
            r.column == column,
    {
        Self { kind, line, column }
    }

    /// The line shown to the user: where the error is, then what it is.
    pub fn message(&self) -> (r: String)
        ensures
            r@ == self@.message(),
    {
        let kind = self.kind.message();
        if self.line > 0 && self.column > 0 {
            let mut out = String::from_str("error at ");
            push_decimal(&mut out, self.line as u64);
            out.append(":");
            push_decimal(&mut out, self.column as u64);
            out.append(": ");
            out.append(kind.as_str());
            out
        } else {
            let mut out = String::from_str("error at end: ");
            out.append(kind.as_str());
            out
        }
    }
}

/// The views of a list of compile errors, in order.
pub open spec fn compile_errors_view(errors: Seq<CompileError>) -> Seq<CompileErrorModel> {
    Seq::new(errors.len(), |i: int| errors[i]@)
}

/// Why a run stopped.
#[derive(Debug, PartialEq)]
pub enum RuntimeError {
    CustomError(String),
    IncorrectOperationTypes(String),
    NonexistentFunction(String),
    NotACodePoint(Option<i64>),
    StackUnderflow,
}

/// The mathematical content of a [`RuntimeError`].
pub enum RuntimeErrorModel {
    CustomError(Seq<char>),
    IncorrectOperationTypes(Seq<char>),
    NonexistentFunction(Seq<char>),
    NotACodePoint(Option<int>),
    StackUnderflow,
}

impl RuntimeErrorModel {
    /// The line shown to the user.
    pub open spec fn message(self) -> Seq<char> {
        match self {
            RuntimeErrorModel::CustomError(msg) => msg,
            RuntimeErrorModel::IncorrectOperationTypes(op) => "error: incorrect "@ + op
                + " types"@,
            RuntimeErrorModel::NonexistentFunction(name) => "error: function `:"@ + name
                + "` does not exist"@,
            RuntimeErrorModel::NotACodePoint(Some(val)) => "error: integer "@ + signed_decimal(val)
                + " is not a code point"@,
            RuntimeErrorModel::NotACodePoint(None) => "error: value is not a code point"@,
            RuntimeErrorModel::StackUnderflow =>
                "error: the stack cannot be popped from when it is already empty"@,
        }
    }
}

impl View for RuntimeError {
    type V = RuntimeErrorModel;

    open spec fn view(&self) -> RuntimeErrorModel {
        match self {
            RuntimeError::CustomError(msg) => RuntimeErrorModel::CustomError(msg@),
            RuntimeError::IncorrectOperationTypes(op) => RuntimeErrorModel::IncorrectOperationTypes(
                op@,
            ),
            RuntimeError::NonexistentFunction(name) => RuntimeErrorModel::NonexistentFunction(
                name@,
            ),
            RuntimeError::NotACodePoint(Some(val)) => RuntimeErrorModel::NotACodePoint(
                Some(*val as int),
            ),
            RuntimeError::NotACodePoint(None) => RuntimeErrorModel::NotACodePoint(None),
            RuntimeError::StackUnderflow => RuntimeErrorModel::StackUnderflow,
        }
    }
}

impl RuntimeError {
    /// The line shown to the user.
    pub fn message(&self) -> (r: String)
        ensures
            r@ == self@.message(),
    {
        match self {
            RuntimeError::CustomError(msg) => msg.clone(),
            RuntimeError::IncorrectOperationTypes(op) => {
                let mut out = String::from_str("error: incorrect ");
                out.append(op.as_str());
                out.append(" types");
                out
            },
            RuntimeError::NonexistentFunction(name) => {
                let mut out = String::from_str("error: function `:");
                out.append(name.as_str());
                out.append("` does not exist");
                out
            },
            RuntimeError::NotACodePoint(Some(val)) => {
                let mut out = String::from_str("error: integer ");
                push_signed_decimal(&mut out, *val);
                out.append(" is not a code point");
                out
            },
            RuntimeError::NotACodePoint(None) => String::from_str(
                "error: value is not a code point",
            ),
            RuntimeError::StackUnderflow => String::from_str(
                "error: the stack cannot be popped from when it is already empty",
            ),
        }
    }
}

/// Either all the errors of a compilation, or the error that ended a run.
#[derive(Debug, PartialEq)]
pub enum DangoError {
    Compile(Vec<CompileError>),
    Runtime(RuntimeError),
}

/// The mathematical content of a [`DangoError`].
pub enum DangoErrorModel {
    Compile(Seq<CompileErrorModel>),
    Runtime(RuntimeErrorModel),
}

/// The messages of `errors`, each followed by a line break.
pub open spec fn compile_report(errors: Seq<CompileErrorModel>) -> Seq<char>
    decreases errors.len(),
{
    if errors.len() == 0 {
        Seq::empty()
    } else {
        compile_report(errors.drop_last()) + errors.last().message() + "\n"@
    }
}

impl DangoErrorModel {
    /// The text shown to the user: one line for each compile error, or the
    /// message of the runtime error.
    pub open spec fn message(self) -> Seq<char> {
        match self {
            DangoErrorModel::Compile(errors) => compile_report(errors),
            DangoErrorModel::Runtime(err) => err.message(),
        }
    }
}

impl View for DangoError {
    type V = DangoErrorModel;

    open spec fn view(&self) -> DangoErrorModel {
        match self {
            DangoError::Compile(errors) => DangoErrorModel::Compile(compile_errors_view(errors@)),
            DangoError::Runtime(err) => DangoErrorModel::Runtime(err@),
        }
    }
}

impl DangoError {
    /// The text shown to the user: one line for each compile error, or the
    /// message of the runtime error.
    pub fn message(&self) -> (r: String)
        ensures
            r@ == self@.message(),
    {
        match self {
            DangoError::Compile(errors) => {
                let mut out = String::new();
                let mut i: usize = 0;
                while i < errors.len()
                    invariant
                        i <= errors.len(),
                        out@ == compile_report(compile_errors_view(errors@).take(i as int)),
                    decreases errors.len() - i,
                {
                    let line = errors[i].message();
                    out.append(line.as_str());
                    out.append("\n");
                    proof {
                        let all = compile_errors_view(errors@);
                        assert(all.take(i + 1).drop_last() =~= all.take(i as int));
                        assert(all.take(i + 1).last() == errors[i as int]@);
                    }
                    i += 1;
                }
                assert(compile_errors_view(errors@).take(i as int) =~= compile_errors_view(
                    errors@,
                ));
                out
            },
            DangoError::Runtime(err) => err.message(),
        }
    }
}

} // verus!
