//! Dango: a small stack language written as dumplings on sticks.
//!
//! Source text is cut into spans, the spans are given their meaning as
//! tokens, the tokens are validated and turned into a program of lines, and
//! a stack machine runs the program. Every function states what it returns
//! over a mathematical model of its data, and is proved to do so.
//!
//! The machine itself neither prints nor calculates with floating-point
//! numbers: it holds such a number as its bit pattern and stops with a
//! request whenever one has to be read, combined or shown.
pub mod errors;
pub mod instructions;
pub mod parser;
pub mod runtime;
pub mod span_tokenizer;
pub mod stdlib;
pub mod text;
pub mod tokenizer;
pub mod utils;
pub mod value;
