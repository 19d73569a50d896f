//! The names of the standard library's native functions. The functions
//! themselves read, write and calculate with floating-point numbers, so they
//! live with the caller; the machine only has to know that they exist.
use crate::runtime::{Machine, Runtime};
use vstd::prelude::*;

verus! {

/// The names of the native functions for input and output, in the order in
/// which they are registered.
pub open spec fn io_names() -> Seq<Seq<char>> {
    seq!["io-input"@, "io-write"@, "env-args"@]
}

/// The names of the native functions for mathematics, in the order in which
/// they are registered.
pub open spec fn math_names() -> Seq<Seq<char>> {
    seq![
        "math-abs"@,
        "math-asin"@,
        "math-acos"@,
        "math-atan"@,
        "math-cos"@,
        "math-logb"@,
        "math-pi"@,
        "math-pow"@,
        "math-sin"@,
        "math-sqrt"@,
        "math-sqrt2"@,
        "math-tan"@,
    ]
}

/// Registers the native functions for input and output.
pub fn load_io(runtime: &mut Runtime)
    ensures
        final(runtime)@ == (Machine {
            natives: old(runtime)@.natives + io_names(),
            ..old(runtime)@
        }),
{
    runtime.register_function(String::from_str("io-input"));
    runtime.register_function(String::from_str("io-write"));
    runtime.register_function(String::from_str("env-args"));
    assert(runtime@.natives =~= old(runtime)@.natives + io_names());
}

/// Registers the native functions for mathematics.
pub fn load_math(runtime: &mut Runtime)
    ensures
        final(runtime)@ == (Machine {
            natives: old(runtime)@.natives + math_names(),
            ..old(runtime)@
        }),
{
    runtime.register_function(String::from_str("math-abs"));
    runtime.register_function(String::from_str("math-asin"));
    runtime.register_function(String::from_str("math-acos"));
    runtime.register_function(String::from_str("math-atan"));
    runtime.register_function(String::from_str("math-cos"));
    runtime.register_function(String::from_str("math-logb"));
    runtime.register_function(String::from_str("math-pi"));
    runtime.register_function(String::from_str("math-pow"));
    runtime.register_function(String::from_str("math-sin"));
    runtime.register_function(String::from_str("math-sqrt"));
    runtime.register_function(String::from_str("math-sqrt2"));
    runtime.register_function(String::from_str("math-tan"));
    assert(runtime@.natives =~= old(runtime)@.natives + math_names());
}

} // verus!
