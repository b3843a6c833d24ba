use std::rc::Rc;

use ceya::ast::{Fun, Value};
use ceya::environment::{EnvironmentArena, RuntimeError};
use ceya::interpreter::{interpret, Console, HostCall};
use ceya::number::Number;
use ceya::parser::Parser;
use ceya::scanner::{Scanner, Token, TokenType};

fn num(value: f64) -> Number {
    Number { bits: value.to_bits(), text: format!("{}", value) }
}

fn read(text: String) -> Number {
    num(text.parse::<f64>().unwrap())
}

fn host(call: HostCall) -> Value {
    match call {
        HostCall::Add(a, b) => Value::Number(num(f64::from_bits(a) + f64::from_bits(b))),
        HostCall::Subtract(a, b) => Value::Number(num(f64::from_bits(a) - f64::from_bits(b))),
        HostCall::Multiply(a, b) => Value::Number(num(f64::from_bits(a) * f64::from_bits(b))),
        HostCall::Divide(a, b) => Value::Number(num(f64::from_bits(a) / f64::from_bits(b))),
        HostCall::Negate(a) => Value::Number(num(-f64::from_bits(a))),
        HostCall::Native(name, arguments) => {
            if name == "twice" {
                match &arguments[0] {
                    Value::Number(n) => Value::Number(num(2.0 * f64::from_bits(n.bits))),
                    _ => Value::Null,
                }
            } else {
                Value::Null
            }
        }
    }
}

struct Run {
    output: Vec<String>,
    log: Vec<String>,
    result: Result<(), RuntimeError>,
}

fn run_with(source: &str, budget: u64) -> Run {
    let scanner = Scanner { source: source.into(), tokens: vec![], start: 0, current: 0, line: 1 };
    let (tokens, scan_errors) = scanner.scan_tokens(&read);
    assert!(scan_errors.is_empty(), "{:?}", scan_errors);
    let mut parser = Parser { tokens, current: 0 };
    let (statements, parse_errors) = parser.parse();
    assert!(parse_errors.is_empty(), "{:?}", parse_errors);
    let mut arena = EnvironmentArena::new();
    let global = arena.add(None);
    let twice = Fun::Native {
        name: "twice".into(),
        params: vec![Rc::new(Token { lexeme: "x".into(), line: 0, typ: TokenType::Identifier })],
    };
    arena.define(global, "twice", Value::Callable(twice));
    let mut console = Console::new();
    let result = interpret(&statements, &mut arena, global, &mut console, &host, budget);
    Run { output: console.output, log: console.diagnostics, result }
}

fn run(source: &str) -> Run {
    run_with(source, 10_000)
}

fn prints(source: &str) -> Vec<String> {
    let run = run(source);
    assert_eq!(run.result, Ok(()));
    assert!(run.log.is_empty(), "{:?}", run.log);
    run.output
}

#[test]
fn shadowed_name_is_restored_after_block() {
    assert_eq!(prints("let a = 1; { let a = 2; print a; } print a;"), vec!["2", "1"]);
}

#[test]
fn multiplication_binds_tighter_than_addition() {
    assert_eq!(prints("print 1 + 2 * 3;"), vec!["7"]);
}

#[test]
fn string_plus_number_concatenates() {
    assert_eq!(prints("print \"a\" + 1;"), vec!["a1"]);
    assert_eq!(prints("print 1 + \"a\";"), vec!["1a"]);
    assert_eq!(prints("print \"a\" + \"b\";"), vec!["ab"]);
}

#[test]
fn string_plus_any_value_concatenates() {
    assert_eq!(prints("print \"a\" + true;"), vec!["atrue"]);
    assert_eq!(prints("print null + \"a\";"), vec!["nulla"]);
}

#[test]
fn while_loop_counts_and_terminates() {
    assert_eq!(
        prints("let i = 0; while (i < 3) { print i; i = i + 1; }"),
        vec!["0", "1", "2"]
    );
}

#[test]
fn for_loop_runs_as_a_while() {
    assert_eq!(prints("for (let i = 0; i < 3; i = i + 1) print i;"), vec!["0", "1", "2"]);
    assert_eq!(prints("let i = 5; for (; i < 7;) { print i; i = i + 1; }"), vec!["5", "6"]);
}

#[test]
fn arithmetic_follows_floating_point() {
    assert_eq!(prints("print 2 + 3 * 4 - 6 / 2;"), vec!["11"]);
    assert_eq!(prints("print (1 + 2) * 3;"), vec!["9"]);
    assert_eq!(prints("print 0.1 + 0.2;"), vec!["0.30000000000000004"]);
    assert_eq!(prints("print 1 / 0;"), vec!["inf"]);
    assert_eq!(prints("print 1 - 2 - 3;"), vec!["-4"]);
    assert_eq!(prints("print 8 / 4 / 2;"), vec!["1"]);
    assert_eq!(prints("print -3 * 2;"), vec!["-6"]);
    assert_eq!(prints("print - - 3;"), vec!["3"]);
    assert_eq!(prints("print 7 / 2;"), vec!["3.5"]);
}

#[test]
fn operators_on_other_kinds_yield_null() {
    assert_eq!(prints("print true + 1;"), vec!["null"]);
    assert_eq!(prints("print \"a\" - 1;"), vec!["null"]);
    assert_eq!(prints("print null * 2;"), vec!["null"]);
    assert_eq!(prints("print true / false;"), vec!["null"]);
    assert_eq!(prints("print -\"a\";"), vec!["null"]);
}

#[test]
fn comparisons_of_other_kinds_are_false() {
    assert_eq!(prints("print \"a\" < 1;"), vec!["false"]);
    assert_eq!(prints("print true >= true;"), vec!["false"]);
    assert_eq!(prints("print null <= null;"), vec!["false"]);
    assert_eq!(prints("print 1 < 2;"), vec!["true"]);
    assert_eq!(prints("print 2 <= 2;"), vec!["true"]);
    assert_eq!(prints("print 2 > 3;"), vec!["false"]);
    assert_eq!(prints("print 3 >= 3;"), vec!["true"]);
    assert_eq!(prints("print -1 < 0;"), vec!["true"]);
    assert_eq!(prints("print -1 < -2;"), vec!["false"]);
}

#[test]
fn equality_is_by_kind() {
    assert_eq!(prints("print 1 == 1;"), vec!["true"]);
    assert_eq!(prints("print 1 != 1;"), vec!["false"]);
    assert_eq!(prints("print \"a\" == \"a\";"), vec!["true"]);
    assert_eq!(prints("print \"a\" != \"b\";"), vec!["true"]);
    assert_eq!(prints("print true == true;"), vec!["true"]);
    assert_eq!(prints("print null == null;"), vec!["true"]);
    assert_eq!(prints("print 1 == \"1\";"), vec!["false"]);
    assert_eq!(prints("print 1 != \"1\";"), vec!["true"]);
    assert_eq!(prints("print null == false;"), vec!["false"]);
    assert_eq!(prints("print 0 == -0;"), vec!["true"]);
    assert_eq!(prints("print 0 / 0 == 0 / 0;"), vec!["false"]);
}

#[test]
fn truthiness_in_conditions() {
    assert_eq!(prints("if (0) print \"t\"; else print \"f\";"), vec!["f"]);
    assert_eq!(prints("if (\"\") print \"t\"; else print \"f\";"), vec!["f"]);
    assert_eq!(prints("if (null) print \"t\"; else print \"f\";"), vec!["f"]);
    assert_eq!(prints("if (false) print \"t\"; else print \"f\";"), vec!["f"]);
    assert_eq!(prints("if (1) print \"t\"; else print \"f\";"), vec!["t"]);
    assert_eq!(prints("if (\"x\") print \"t\"; else print \"f\";"), vec!["t"]);
    assert_eq!(prints("fn g() {} if (g) print \"t\"; else print \"f\";"), vec!["t"]);
    assert_eq!(prints("if (false) print \"t\";"), Vec::<String>::new());
}

#[test]
fn bang_negates_presence() {
    assert_eq!(prints("print !null;"), vec!["true"]);
    assert_eq!(prints("print !false;"), vec!["true"]);
    assert_eq!(prints("print !true;"), vec!["false"]);
    assert_eq!(prints("print !0;"), vec!["false"]);
    assert_eq!(prints("print !\"\";"), vec!["false"]);
}

#[test]
fn logical_operators_short_circuit() {
    assert_eq!(prints("print null or \"x\";"), vec!["x"]);
    assert_eq!(prints("print 1 or 2;"), vec!["1"]);
    assert_eq!(prints("print 0 and 2;"), vec!["0"]);
    assert_eq!(prints("print 1 and 2;"), vec!["2"]);
    assert_eq!(prints("print false or false or 3;"), vec!["3"]);
    assert_eq!(
        prints("fn f() { print \"called\"; return true; } print true or f(); print false and f();"),
        vec!["true", "false"]
    );
    assert_eq!(
        prints("fn f() { print \"called\"; return 1; } print false or f();"),
        vec!["called", "1"]
    );
}

#[test]
fn closure_sees_later_assignment() {
    let source = "let x = 1; fn show() { print x; } show(); x = 2; show();";
    assert_eq!(prints(source), vec!["1", "2"]);
}

#[test]
fn closure_keeps_its_defining_scope() {
    let source = "fn make() { let c = 0; fn inc() { c = c + 1; return c; } return inc; } \
                  let a = make(); let b = make(); print a(); print a(); print b();";
    assert_eq!(prints(source), vec!["1", "2", "1"]);
}

#[test]
fn call_uses_defining_scope_not_callers() {
    let source = "let x = \"global\"; fn show() { print x; } { let x = \"local\"; show(); }";
    assert_eq!(prints(source), vec!["global"]);
}

#[test]
fn curried_calls_chain() {
    let source = "fn add(a) { fn inner(b) { return a + b; } return inner; } print add(1)(2);";
    assert_eq!(prints(source), vec!["3"]);
}

#[test]
fn recursion_computes() {
    let source = "fn fib(n) { if (n < 2) return n; return fib(n - 1) + fib(n - 2); } print fib(10);";
    assert_eq!(prints(source), vec!["55"]);
}

#[test]
fn return_propagates_through_blocks_and_loops() {
    let source = "fn first() { let i = 0; while (true) { { if (i == 3) { return i; } } i = i + 1; } } \
                  print first();";
    assert_eq!(prints(source), vec!["3"]);
}

#[test]
fn function_without_return_yields_null() {
    assert_eq!(prints("fn f() { 1; } print f();"), vec!["null"]);
    assert_eq!(prints("fn f() { return; } print f();"), vec!["null"]);
}

#[test]
fn calling_a_value_that_is_not_callable_yields_it() {
    assert_eq!(prints("let x = 4; print x();"), vec!["4"]);
}

#[test]
fn callable_prints_with_its_name() {
    assert_eq!(prints("fn f() {} print f;"), vec!["fun f"]);
}

#[test]
fn declaration_without_initializer_is_null() {
    assert_eq!(prints("let a; print a;"), vec!["null"]);
}

#[test]
fn host_function_is_asked_of_the_host() {
    assert_eq!(prints("print twice(21);"), vec!["42"]);
}

#[test]
fn undefined_variable_read_fails_naming_it() {
    let run = run("print 1; print missing; print 2;");
    assert_eq!(run.output, vec!["1"]);
    assert_eq!(run.result, Err(RuntimeError::UndefinedVariable("missing".into())));
    assert_eq!(
        RuntimeError::UndefinedVariable("missing".into()).message(),
        "Undefined variable 'missing'"
    );
}

#[test]
fn undefined_variable_write_is_logged_and_creates_nothing() {
    let first = run("print missing = 1; print 2;");
    assert_eq!(first.log, vec!["Undefined variable 'missing'"]);
    assert_eq!(first.output, vec!["null", "2"]);
    assert_eq!(first.result, Ok(()));
    let again = run("missing = 1; print missing;");
    assert_eq!(again.result, Err(RuntimeError::UndefinedVariable("missing".into())));
}

#[test]
fn arity_mismatch_is_logged_and_yields_null() {
    let run = run("fn f(a) { print \"ran\"; } print f(1, 2); print f();");
    assert_eq!(
        run.log,
        vec!["Expected 1 arguments, but found 2.", "Expected 1 arguments, but found 0."]
    );
    assert_eq!(run.output, vec!["null", "null"]);
    assert_eq!(run.result, Ok(()));
}

#[test]
fn arity_is_checked_before_arguments_are_evaluated() {
    let run = run("fn noisy() { print \"evaluated\"; return 1; } fn f() {} f(noisy());");
    assert_eq!(run.output, Vec::<String>::new());
    assert_eq!(run.log, vec!["Expected 0 arguments, but found 1."]);
}

#[test]
fn arguments_are_evaluated_left_to_right() {
    let source = "fn say(x) { print x; return x; } fn f(a, b, c) {} f(say(1), say(2), say(3));";
    assert_eq!(prints(source), vec!["1", "2", "3"]);
}

#[test]
fn assignment_yields_the_value() {
    assert_eq!(prints("let a = 1; print a = 5; print a;"), vec!["5", "5"]);
    assert_eq!(prints("let a; let b; a = b = 3; print a; print b;"), vec!["3", "3"]);
}

#[test]
fn endless_loop_runs_out_of_budget() {
    let run = run_with("print 1; while (true) {} print 2;", 50);
    assert_eq!(run.output, vec!["1"]);
    assert_eq!(run.result, Err(RuntimeError::BudgetExhausted));
}

#[test]
fn endless_recursion_runs_out_of_budget() {
    let run = run_with("fn f() { return f(); } f();", 50);
    assert_eq!(run.result, Err(RuntimeError::BudgetExhausted));
}

#[test]
fn budget_counts_rounds_of_a_loop() {
    let source = "let i = 0; while (i < 3) { i = i + 1; } print i;";
    assert_eq!(run_with(source, 4).output, vec!["3"]);
    assert_eq!(run_with(source, 3).result, Err(RuntimeError::BudgetExhausted));
}

#[test]
fn top_level_return_ends_nothing() {
    assert_eq!(prints("return 1; print 2;"), vec!["2"]);
}

#[test]
fn function_from_another_store_is_refused() {
    let mut arena = EnvironmentArena::new();
    let global = arena.add(None);
    let body = Rc::new(ceya::ast::Stmt::Block { statements: vec![] });
    let stray = Fun::Code { name: "f".into(), params: vec![], body, closure: 7 };
    let mut console = Console::new();
    let result = stray.call(vec![], &mut arena, &mut console, &host, 10);
    assert_eq!(result, Err(RuntimeError::UnknownScope(7)));
    assert_eq!(global, 0);
}
