use ceya::ast::Value;
use ceya::environment::RuntimeError;
use ceya::interpreter::HostCall;
use ceya::number::Number;
use ceya::parser::ParseError;
use ceya::pipeline::{compile_source, compile_source_numbered, run_source};

fn num(value: f64) -> Number {
    Number { bits: value.to_bits(), text: format!("{}", value) }
}

fn read(text: String) -> Number {
    num(text.parse::<f64>().unwrap())
}

fn host(call: HostCall) -> Value {
    match call {
        HostCall::Add(a, b) => Value::Number(num(f64::from_bits(a) + f64::from_bits(b))),
        HostCall::Subtract(a, b) => Value::Number(num(f64::from_bits(a) - f64::from_bits(b))),
        HostCall::Multiply(a, b) => Value::Number(num(f64::from_bits(a) * f64::from_bits(b))),
        HostCall::Divide(a, b) => Value::Number(num(f64::from_bits(a) / f64::from_bits(b))),
        HostCall::Negate(a) => Value::Number(num(-f64::from_bits(a))),
        HostCall::Native(_, _) => Value::Null,
    }
}

#[test]
fn source_runs_from_text_to_output() {
    let report = run_source("let a = 2; print a * 21;".into(), 1, &read, &host, 100);
    assert!(report.scan_errors.is_empty());
    assert!(report.parse_errors.is_empty());
    assert_eq!(report.output, vec!["42"]);
    assert!(report.diagnostics.is_empty());
    assert_eq!(report.failure, None);
}

#[test]
fn errors_of_every_stage_are_reported_and_the_rest_runs() {
    let source = "print 1; @\nprint 2 +;\nprint 3; x = 4;\nprint y; print 5;";
    let report = run_source(source.into(), 1, &read, &host, 100);
    assert_eq!(report.scan_errors, vec!["[line 1] Error: Unexpected token '@'."]);
    assert_eq!(report.parse_errors, vec![ParseError { line: 2, message: "Expect expression." }]);
    assert_eq!(report.output, vec!["1", "3"]);
    assert_eq!(report.diagnostics, vec!["Undefined variable 'x'"]);
    assert_eq!(report.failure, Some(RuntimeError::UndefinedVariable("y".into())));
}

#[test]
fn lines_count_from_the_given_first_line() {
    let report = run_source("\n\n#".into(), 0, &read, &host, 100);
    assert_eq!(report.scan_errors, vec!["[line 2] Error: Unexpected token '#'."]);
    let report = run_source("\n\n#".into(), 10, &read, &host, 100);
    assert_eq!(report.scan_errors, vec!["[line 12] Error: Unexpected token '#'."]);
}

#[test]
fn source_compiles_to_a_program() {
    let done = compile_source_numbered("print 1 + 2;".into(), 1, &read, 0).unwrap();
    assert!(done.scan_errors.is_empty());
    assert!(done.parse_errors.is_empty());
    let expected = "bits 64\ndefault rel\n\nsegment .data\n   msg db \"%d\", 0xd, 0xa, 0\n\nsegment .text\n\nglobal main\n\nextern ExitProcess\nextern printf\n\nmain:\n   ; print (+ 1 2)\n   ; 1\n   push 1\n   ; 2\n   push 2\n   ; (+ 1 2)\n   pop rbx\n   pop rax\n   add eax, ebx\n   push rax\n   lea rcx, [msg]\n   pop rdx\n   call printf\n\n   lea rcx, [msg]\n   pop rdx\n   call printf\n\n   xor rcx, rcx\n   call ExitProcess\n";
    assert_eq!(done.assembly, expected);
    let drawn = compile_source("print 1 + 2;".into(), 1, &read);
    assert_eq!(drawn.assembly, expected);
}

#[test]
fn compiling_reports_errors_and_keeps_what_parsed() {
    let done = compile_source_numbered("1 +; if (true) 2;".into(), 1, &read, 3).unwrap();
    assert_eq!(done.parse_errors, vec![ParseError { line: 1, message: "Expect expression." }]);
    assert!(done.assembly.contains("   jne .end_3\n"));
    assert!(compile_source_numbered("if (true) 2;".into(), 1, &read, u64::MAX).is_none());
    let drawn = compile_source("while (true) 1;".into(), 1, &read);
    assert!(drawn.assembly.contains("   jmp .cond_"));
}
