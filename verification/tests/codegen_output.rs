use ceya::ast::Stmt;
use ceya::codegen::{assemble, assemble_numbered};
use ceya::number::Number;
use ceya::parser::Parser;
use ceya::scanner::Scanner;

fn num(value: f64) -> Number {
    Number { bits: value.to_bits(), text: format!("{}", value) }
}

fn read(text: String) -> Number {
    num(text.parse::<f64>().unwrap())
}

fn parse(source: &str) -> Vec<Stmt> {
    let scanner = Scanner { source: source.into(), tokens: vec![], start: 0, current: 0, line: 1 };
    let (tokens, scan_errors) = scanner.scan_tokens(&read);
    assert!(scan_errors.is_empty(), "{:?}", scan_errors);
    let mut parser = Parser { tokens, current: 0 };
    let (statements, parse_errors) = parser.parse();
    assert!(parse_errors.is_empty(), "{:?}", parse_errors);
    statements
}

fn one(source: &str) -> Stmt {
    let mut statements = parse(source);
    assert_eq!(statements.len(), 1);
    statements.remove(0)
}

const ADD: &str = "   pop rbx\n   pop rax\n   add eax, ebx\n   push rax\n";
const PRINT: &str = "   lea rcx, [msg]\n   pop rdx\n   call printf\n";

#[test]
fn print_of_a_sum_pushes_adds_and_prints() {
    let code = one("print 1 + 2;").compile();
    let expected = format!(
        "   ; print (+ 1 2)\n   ; 1\n   push 1\n   ; 2\n   push 2\n   ; (+ 1 2)\n{}{}",
        ADD, PRINT
    );
    assert_eq!(code, expected);
}

#[test]
fn arithmetic_operators_emit_their_instructions() {
    let tail = |source: &str| {
        let code = one(source).compile();
        code.split("   push 2\n").nth(1).unwrap().to_string()
    };
    assert_eq!(tail("1 + 2;"), format!("   ; (+ 1 2)\n{}", ADD));
    assert_eq!(
        tail("1 - 2;"),
        "   ; (- 1 2)\n   pop rbx\n   pop rax\n   sub eax, ebx\n   push rax\n"
    );
    assert_eq!(tail("1 * 2;"), "   ; (* 1 2)\n   pop rbx\n   pop rax\n   imul ebx\n   push rax\n");
    assert_eq!(
        tail("1 / 2;"),
        "   ; (/ 1 2)\n   pop rbx\n   pop rax\n   cqo\n   idiv rbx\n   push rax\n"
    );
}

#[test]
fn comparison_operators_set_a_flag_and_widen_it() {
    let cases = [
        ("<", "setl"),
        ("<=", "setle"),
        (">", "setg"),
        (">=", "setge"),
        ("==", "sete"),
        ("!=", "setne"),
    ];
    for (operator, instruction) in cases {
        let code = one(&format!("1 {} 2;", operator)).compile();
        let expected = format!(
            "   ; 1\n   push 1\n   ; 2\n   push 2\n   ; ({} 1 2)\n   pop rbx\n   pop rax\n   cmp rax, rbx\n   {} al\n   movzx rax, al\n   push rax\n",
            operator, instruction
        );
        assert_eq!(code, expected);
    }
}

#[test]
fn literals_are_pushed_or_marked() {
    assert_eq!(one("12.5;").compile(), "   ; 12.5\n   push 12.5\n");
    assert_eq!(one("true;").compile(), "   ; true\n   push 1\n");
    assert_eq!(one("false;").compile(), "   ; false\n   push 0\n");
    assert_eq!(one("null;").compile(), "   ; null\n   ; not implemented yet!\n");
    assert_eq!(one("\"text\";").compile(), "   ; text\n   ; not implemented yet!\n\n");
}

#[test]
fn negation_and_grouping_are_realised() {
    assert_eq!(
        one("-(3);").compile(),
        "   ; (- (group 3))\n   ; (group 3)\n   ; 3\n   push 3\n   pop rax\n   neg rax\n   push rax\n"
    );
    assert_eq!(one("!true;").compile(), "   ; (! true)\nnot implemented yet!\n");
}

#[test]
fn other_expressions_are_marked() {
    assert_eq!(one("a;").compile(), "   ; a\n   ; not implemented yet!\n");
    assert_eq!(one("a = 1;").compile(), "   ; (a= 1)\n   ; not implemented yet!\n");
    assert_eq!(one("f(1, 2);").compile(), "   ; (f() 1 2)\n   ; not implemented yet!\n");
    assert_eq!(one("a or b;").compile(), "   ; (or a b)\n   ; not implemented yet!\n");
    assert_eq!(
        one("1 + a;").compile(),
        format!("   ; 1\n   push 1\n   ; a\n   ; not implemented yet!\n   ; (+ 1 a)\n{}", ADD)
    );
}

#[test]
fn declarations_and_return_are_marked() {
    assert_eq!(one("let a = 1;").compile(), "   ; let a\n   ; not implemented yet!\n");
    assert_eq!(one("fn f() {}").compile(), "   ; fn f\n   ; not implemented yet!\n");
    assert_eq!(one("return 1;").compile(), "   ; return\n   ; not implemented yet!\n");
}

#[test]
fn if_without_else_branches_over_its_body() {
    let code = one("if (true) print 1;").compile_numbered(7).unwrap();
    let expected = format!(
        "   ; if true\n   ; true\n   push 1\n   pop rax\n   cmp rax, 1\n   jne .end_7\n   ; print 1\n   ; 1\n   push 1\n{}.end_7:\n",
        PRINT
    );
    assert_eq!(code, expected);
}

#[test]
fn if_with_else_has_both_labels() {
    let code = one("if (false) 1; else 2;").compile_numbered(0).unwrap();
    let expected = "   ; if false\n   ; false\n   push 0\n   pop rax\n   cmp rax, 1\n   jne .ne_0\n   ; 1\n   push 1\n   jmp .end_0\n.ne_0:\n   ; 2\n   push 2\n.end_0:\n";
    assert_eq!(code, expected);
}

#[test]
fn while_tests_its_condition_after_the_body() {
    let code = one("while (1 < 2) 3;").compile_numbered(41).unwrap();
    let expected = "   ; while (< 1 2)\n   jmp .cond_41\n.body_41:\n   ; 3\n   push 3\n.cond_41:\n   ; 1\n   push 1\n   ; 2\n   push 2\n   ; (< 1 2)\n   pop rbx\n   pop rax\n   cmp rax, rbx\n   setl al\n   movzx rax, al\n   push rax\n   pop rax\n   cmp rax, 1\n   je .body_41\n";
    assert_eq!(code, expected);
}

#[test]
fn nested_constructs_take_tags_in_opening_order() {
    let code = one("{ if (true) { while (false) 1; } else if (true) 2; while (true) 3; }")
        .compile_numbered(10)
        .unwrap();
    let labels: Vec<&str> =
        code.lines().filter(|l| l.starts_with('.') && l.ends_with(':')).collect();
    assert_eq!(
        labels,
        vec![".body_11:", ".cond_11:", ".ne_10:", ".end_12:", ".end_10:", ".body_13:", ".cond_13:"]
    );
}

#[test]
fn numbered_tags_stop_at_the_largest_number() {
    let statement = one("if (true) 1;");
    assert!(statement.compile_numbered(u64::MAX - 1).is_some());
    assert_eq!(statement.compile_numbered(u64::MAX), None);
    let two = one("{ if (true) 1; if (true) 2; }");
    assert!(two.compile_numbered(u64::MAX - 2).is_some());
    assert_eq!(two.compile_numbered(u64::MAX - 1), None);
    assert!(one("print 1;").compile_numbered(u64::MAX).is_some());
}

#[test]
fn drawn_tags_are_three_digits_and_used_consistently() {
    let mut seen: Vec<u64> = Vec::new();
    for _ in 0..50 {
        let code = one("if (true) 1; else 2;").compile();
        let jump = code.lines().find(|l| l.starts_with("   jne .ne_")).unwrap();
        let tag = &jump["   jne .ne_".len()..];
        let value: u64 = tag.parse().unwrap();
        assert!((100..1000).contains(&value), "{}", value);
        let expected = one("if (true) 1; else 2;").compile_numbered(value).unwrap();
        assert_eq!(code, expected);
        seen.push(value);
    }
    assert!(seen.iter().any(|tag| *tag != seen[0]), "{:?}", seen);
}

#[test]
fn drawn_tags_fit_the_numbered_form_for_each_construct() {
    let source = "while (true) { if (false) 1; }";
    let code = one(source).compile();
    let tags: Vec<u64> = code
        .lines()
        .filter(|l| l.starts_with(".body_") || l.starts_with(".end_"))
        .map(|l| l.trim_end_matches(':').rsplit('_').next().unwrap().parse().unwrap())
        .collect();
    assert_eq!(tags.len(), 2);
    for tag in tags {
        assert!((100..1000).contains(&tag));
    }
}

#[test]
fn program_has_header_entry_and_exit() {
    let statements = parse("print 1 + 2;");
    let code = assemble_numbered(&statements, 0).unwrap();
    let body = statements[0].compile();
    let expected = format!(
        "bits 64\ndefault rel\n\nsegment .data\n   msg db \"%d\", 0xd, 0xa, 0\n\nsegment .text\n\nglobal main\n\nextern ExitProcess\nextern printf\n\nmain:\n{}\n   lea rcx, [msg]\n   pop rdx\n   call printf\n\n   xor rcx, rcx\n   call ExitProcess\n",
        body
    );
    assert_eq!(code, expected);
    assert_eq!(assemble(&statements), expected);
}

#[test]
fn program_numbers_tags_across_statements() {
    let statements = parse("if (true) 1; while (false) 2;");
    let code = assemble_numbered(&statements, 5).unwrap();
    assert!(code.contains(".end_5:\n"));
    assert!(code.contains(".body_6:\n"));
    assert_eq!(assemble_numbered(&statements, u64::MAX - 1), None);
    let drawn = assemble(&statements);
    assert!(drawn.starts_with("bits 64\n"));
    assert!(drawn.ends_with("   call ExitProcess\n"));
}
