//! A small imperative scripting language: scanner, parser, scope manager,
//! tree-walking evaluator and a code generator for a stack machine.
//!
//! The library does no floating-point arithmetic of its own. A number is
//! carried as the bit pattern of a double together with its decimal
//! rendering; the caller supplies a reader that turns the text of a number
//! literal into a number, and a host callback that performs the arithmetic
//! that rounds. Contracts say what the library does for every answer of
//! these two, provided they answer equal requests equally.
//!
//! Nothing is printed here either: what a program prints, and what is
//! logged, is collected for the caller to show.

use vstd::prelude::*;
use vstd::string::StringExecFns;

pub mod ast;
pub mod codegen;
pub mod environment;
pub mod interpreter;
pub mod number;
pub mod parser;
pub mod pipeline;
pub mod roundtrip;
pub mod scanner;
pub mod text;

verus! {

/// The text of a diagnostic raised at `line`: the line in square brackets,
/// the word `Error:` and the message.
pub open spec fn error_text(line: u32, message: Seq<char>) -> Seq<char> {
    "[line "@ + text::decimal_digits(line as nat) + "] Error: "@ + message
}

/// Formats a diagnostic for display.
pub fn error(line: u32, message: &str) -> (report: String)
    ensures
        report@ == error_text(line, message@),
{
    let mut report = String::from_str("[line ");
    let number = text::decimal(line as u64);
    report.append(number.as_str());
    report.append("] Error: ");
    report.append(message);
    report
}

} // verus!
