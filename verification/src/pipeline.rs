//! The whole way from source text to output: scanning, parsing, and then
//! either running the program or compiling it.

use vstd::prelude::*;
use crate::ast::lemma_stmt_views_index;
use crate::ast::Value;
use crate::codegen::assemble;
use crate::codegen::assemble_numbered;
use crate::codegen::counting;
use crate::codegen::drawn_tags;
use crate::codegen::labels_before;
use crate::codegen::program_code;
use crate::environment::added;
use crate::environment::EnvironmentArena;
use crate::environment::Failure;
use crate::environment::RuntimeError;
use crate::interpreter::host_model;
use crate::interpreter::host_ready;
use crate::interpreter::interpret;
use crate::interpreter::run_program;
use crate::interpreter::Console;
use crate::interpreter::HostCall;
use crate::interpreter::Machine;
use crate::number::Number;
use crate::number::NumberView;
use crate::parser::program;
use crate::parser::ParseError;
use crate::parser::Parser;
use crate::parser::Program;
use crate::scanner::reader_model;
use crate::scanner::reader_ready;
use crate::scanner::scan;
use crate::scanner::token_views;
use crate::scanner::Scanner;
use crate::text::texts;

verus! {

/// The program that a source text stands for: its tokens, from the first
/// character on, parsed from the first token on. `line` is the number of
/// its first line.
pub open spec fn parsed_source(
    source: Seq<char>,
    line: u32,
    read: spec_fn(Seq<char>) -> NumberView,
) -> Program {
    program(scan(source, 0, line as int, read).tokens, 0)
}

/// The state a run starts in: the global scope, empty, and nothing printed
/// or logged.
pub open spec fn initial_machine() -> Machine {
    Machine { arena: added(Seq::empty(), None), output: Seq::empty(), log: Seq::empty() }
}

/// What became of a source text that was run.
pub struct Report {
    /// The errors of the scanner.
    pub scan_errors: Vec<String>,
    /// The errors of the parser.
    pub parse_errors: Vec<ParseError>,
    /// The lines the program printed.
    pub output: Vec<String>,
    /// The lines that were logged while it ran.
    pub diagnostics: Vec<String>,
    /// The failure that ended the run, if one did.
    pub failure: Option<RuntimeError>,
}

/// What became of a source text that was compiled.
pub struct Translation {
    /// The errors of the scanner.
    pub scan_errors: Vec<String>,
    /// The errors of the parser.
    pub parse_errors: Vec<ParseError>,
    /// The assembly text of the statements that parsed.
    pub assembly: String,
}

/// The failure of a run, if it has one.
pub open spec fn failure_of(r: Result<(), Failure>) -> Option<Failure> {
    match r {
        Ok(_) => None,
        Err(f) => Some(f),
    }
}

/// Runs a source text: the statements that parse run in order in the
/// global scope, whatever errors the scanner and the parser report.
pub fn run_source<P: Fn(String) -> Number, H: Fn(HostCall) -> Value>(
    source: String,
    line: u32,
    read: &P,
    host: &H,
    budget: u64,
) -> (report: Report)
    requires
        line + source@.len() <= u32::MAX,
        reader_ready(read),
        host_ready(host),
    ensures
        texts(report.scan_errors@) == scan(source@, 0, line as int, reader_model(read)).errors,
        report.parse_errors@ == parsed_source(source@, line, reader_model(read)).errors,
        ({
            let ran = run_program(
                parsed_source(source@, line, reader_model(read)).statements,
                0,
                initial_machine(),
                0,
                host_model(host),
                budget as nat,
            );
            &&& texts(report.output@) == ran.1.output
            &&& texts(report.diagnostics@) == ran.1.log
            &&& match report.failure {
                Some(e) => failure_of(ran.0) == Some(e@),
                None => failure_of(ran.0) is None,
            }
        }),
{
    let scanner = Scanner { source, tokens: Vec::new(), start: 0, current: 0, line };
    let (tokens, scan_errors) = scanner.scan_tokens(read);
    assert(token_views(Seq::empty()) + token_views(tokens@)
        =~= token_views(tokens@));
    let mut parser = Parser { tokens, current: 0 };
    let (statements, parse_errors) = parser.parse();
    let mut env_arena = EnvironmentArena::new();
    assert(env_arena@ =~= Seq::empty());
    let global_env: usize = env_arena.add(None);
    let mut console = Console::new();
    let result = interpret(&statements, &mut env_arena, global_env, &mut console, host, budget);
    let failure = match result {
        Ok(_) => None,
        Err(e) => Some(e),
    };
    Report {
        scan_errors,
        parse_errors,
        output: console.output,
        diagnostics: console.diagnostics,
        failure,
    }
}

/// Compiles a source text: the statements that parse become one assembly
/// program, with randomly drawn label tags from 100 up to, not including,
/// 1000.
pub fn compile_source<P: Fn(String) -> Number>(source: String, line: u32, read: &P) -> (done:
    Translation)
    requires
        line + source@.len() <= u32::MAX,
        reader_ready(read),
    ensures
        texts(done.scan_errors@) == scan(source@, 0, line as int, reader_model(read)).errors,
        done.parse_errors@ == parsed_source(source@, line, reader_model(read)).errors,
        ({
            let statements = parsed_source(source@, line, reader_model(read)).statements;
            exists|labels: Seq<u64>|
                labels.len() == labels_before(statements, statements.len()) && drawn_tags(labels)
                    && done.assembly@ == program_code(statements, labels)
        }),
{
    let scanner = Scanner { source, tokens: Vec::new(), start: 0, current: 0, line };
    let (tokens, scan_errors) = scanner.scan_tokens(read);
    assert(token_views(Seq::empty()) + token_views(tokens@)
        =~= token_views(tokens@));
    let mut parser = Parser { tokens, current: 0 };
    let (statements, parse_errors) = parser.parse();
    proof {
        lemma_stmt_views_index(statements@, statements@.len());
    }
    let assembly = assemble(&statements);
    Translation { scan_errors, parse_errors, assembly }
}

/// Compiles a source text with the label tags `first`, `first + 1` and so
/// on; nothing when the tags would pass the largest number.
pub fn compile_source_numbered<P: Fn(String) -> Number>(
    source: String,
    line: u32,
    read: &P,
    first: u64,
) -> (done: Option<Translation>)
    requires
        line + source@.len() <= u32::MAX,
        reader_ready(read),
    ensures
        ({
            let statements = parsed_source(source@, line, reader_model(read)).statements;
            let count = labels_before(statements, statements.len());
            &&& done is Some <==> first + count <= u64::MAX
            &&& done matches Some(t) ==> {
                &&& texts(t.scan_errors@) == scan(
                    source@,
                    0,
                    line as int,
                    reader_model(read),
                ).errors
                &&& t.parse_errors@ == parsed_source(source@, line, reader_model(read)).errors
                &&& t.assembly@ == program_code(statements, counting(first, count))
            }
        }),
{
    let scanner = Scanner { source, tokens: Vec::new(), start: 0, current: 0, line };
    let (tokens, scan_errors) = scanner.scan_tokens(read);
    assert(token_views(Seq::empty()) + token_views(tokens@)
        =~= token_views(tokens@));
    let mut parser = Parser { tokens, current: 0 };
    let (statements, parse_errors) = parser.parse();
    proof {
        lemma_stmt_views_index(statements@, statements@.len());
    }
    match assemble_numbered(&statements, first) {
        Some(assembly) => Some(Translation { scan_errors, parse_errors, assembly }),
        None => None,
    }
}

} // verus!
