//! The code generator: assembly text for a stack machine.
//!
//! Every expression leaves one value on the stack. Each `if` and `while`
//! takes one label tag; the tags of a statement are listed in the order in
//! which its `if`s and `while`s open.

use vstd::prelude::*;
use vstd::string::StringExecFns;
use rand::Rng;
use crate::ast::block_view;
use crate::ast::expr_text;
use crate::ast::lemma_stmt_views_index;
use crate::ast::Expr;
use crate::ast::ExprView;
use crate::ast::Stmt;
use crate::ast::StmtView;
use crate::ast::Value;
use crate::ast::ValueView;
use crate::scanner::TokenType;
use crate::scanner::TokenTypeView;
use crate::text::decimal;
use crate::text::decimal_digits;

verus! {

/// `rand::rngs::ThreadRng`, the random number generator of a thread. It is
/// only handed from `rand::thread_rng` to `rand::Rng::gen_range`; nothing
/// inside it is read.
#[verifier::external_type_specification]
#[verifier::external_body]
pub struct ExThreadRng(rand::rngs::ThreadRng);

/// `rand::thread_rng`: hands out the generator of the current thread.
/// Nothing is claimed of it. (It does not return where the system has no
/// entropy to seed the generator with.)
pub assume_specification[ rand::thread_rng ]() -> (generator: rand::rngs::ThreadRng)
;

/// `rand::Rng::gen_range` on a half-open range of `u64`: the result lies in
/// the range, whatever the generator draws. An empty range is left out,
/// since the call does not return on one.
#[verifier::external_body]
fn random_in(generator: &mut rand::rngs::ThreadRng, low: u64, high: u64) -> (drawn: u64)
    requires
        low < high,
    ensures
        low <= drawn < high,
{
    generator.gen_range(low..high)
}

/// A comment line that holds `text`.
pub open spec fn comment(text: Seq<char>) -> Seq<char> {
    "   ; "@ + text + "\n"@
}

/// The code of a literal: a number is pushed by its rendering, a boolean as
/// 1 or 0, and the other values are marked as not realised.
pub open spec fn literal_code(v: ValueView) -> Seq<char> {
    match v {
        ValueView::Null => "   ; not implemented yet!\n"@,
        ValueView::Number(n) => "   push "@ + n.text + "\n"@,
        ValueView::Boolean(b) => if b {
            "   push 1\n"@
        } else {
            "   push 0\n"@
        },
        ValueView::String(_) => "   ; not implemented yet!\n\n"@,
        ValueView::Callable(_) => "   ; not implemented yet!\n"@,
    }
}

/// The instructions of a binary operator: both operands are popped, the
/// right one first, and the result is pushed.
pub open spec fn binary_instructions(op: TokenTypeView) -> Seq<char> {
    match op {
        TokenTypeView::Plus => "   pop rbx\n   pop rax\n   add eax, ebx\n   push rax\n"@,
        TokenTypeView::Star => "   pop rbx\n   pop rax\n   imul ebx\n   push rax\n"@,
        TokenTypeView::Minus => "   pop rbx\n   pop rax\n   sub eax, ebx\n   push rax\n"@,
        TokenTypeView::Slash => "   pop rbx\n   pop rax\n   cqo\n   idiv rbx\n   push rax\n"@,
        TokenTypeView::Less =>
            "   pop rbx\n   pop rax\n   cmp rax, rbx\n   setl al\n   movzx rax, al\n   push rax\n"@,
        TokenTypeView::LessEqual =>
            "   pop rbx\n   pop rax\n   cmp rax, rbx\n   setle al\n   movzx rax, al\n   push rax\n"@,
        TokenTypeView::Greater =>
            "   pop rbx\n   pop rax\n   cmp rax, rbx\n   setg al\n   movzx rax, al\n   push rax\n"@,
        TokenTypeView::GreaterEqual =>
            "   pop rbx\n   pop rax\n   cmp rax, rbx\n   setge al\n   movzx rax, al\n   push rax\n"@,
        TokenTypeView::EqualEqual =>
            "   pop rbx\n   pop rax\n   cmp rax, rbx\n   sete al\n   movzx rax, al\n   push rax\n"@,
        TokenTypeView::BangEqual =>
            "   pop rbx\n   pop rax\n   cmp rax, rbx\n   setne al\n   movzx rax, al\n   push rax\n"@,
        _ => "    ; not implemented yet!\n"@,
    }
}

/// The instructions of a unary operator, after the code of its operand.
pub open spec fn unary_code(op: TokenTypeView, operand: Seq<char>) -> Seq<char> {
    match op {
        TokenTypeView::Minus => operand + "   pop rax\n   neg rax\n   push rax\n"@,
        TokenTypeView::Bang => "not implemented yet!\n"@,
        _ => "error\n"@,
    }
}

/// The code of an expression. Literals, grouping, negation and the
/// arithmetic and comparison operators are realised; every other
/// expression is a comment and a marker.
pub open spec fn expr_code(e: ExprView) -> Seq<char>
    decreases e,
{
    match e {
        ExprView::Literal { value } => comment(expr_text(e)) + literal_code(value),
        ExprView::Unary { operator, right } => comment(expr_text(e)) + unary_code(
            operator.typ,
            expr_code(*right),
        ),
        ExprView::Binary { left, operator, right } => expr_code(*left) + expr_code(*right)
            + comment(expr_text(e)) + binary_instructions(operator.typ),
        ExprView::Grouping { expression } => comment(expr_text(e)) + expr_code(*expression),
        _ => comment(expr_text(e)) + "   ; not implemented yet!\n"@,
    }
}

fn binary_operator_code(op: &TokenType) -> (s: &'static str)
    ensures
        s@ == binary_instructions(op@),
{
    match op {
        TokenType::Plus => "   pop rbx\n   pop rax\n   add eax, ebx\n   push rax\n",
        TokenType::Star => "   pop rbx\n   pop rax\n   imul ebx\n   push rax\n",
        TokenType::Minus => "   pop rbx\n   pop rax\n   sub eax, ebx\n   push rax\n",
        TokenType::Slash => "   pop rbx\n   pop rax\n   cqo\n   idiv rbx\n   push rax\n",
        TokenType::Less =>
            "   pop rbx\n   pop rax\n   cmp rax, rbx\n   setl al\n   movzx rax, al\n   push rax\n",
        TokenType::LessEqual =>
            "   pop rbx\n   pop rax\n   cmp rax, rbx\n   setle al\n   movzx rax, al\n   push rax\n",
        TokenType::Greater =>
            "   pop rbx\n   pop rax\n   cmp rax, rbx\n   setg al\n   movzx rax, al\n   push rax\n",
        TokenType::GreaterEqual =>
            "   pop rbx\n   pop rax\n   cmp rax, rbx\n   setge al\n   movzx rax, al\n   push rax\n",
        TokenType::EqualEqual =>
            "   pop rbx\n   pop rax\n   cmp rax, rbx\n   sete al\n   movzx rax, al\n   push rax\n",
        TokenType::BangEqual =>
            "   pop rbx\n   pop rax\n   cmp rax, rbx\n   setne al\n   movzx rax, al\n   push rax\n",
        _ => "    ; not implemented yet!\n",
    }
}

fn comment_line(text: &str) -> (s: String)
    ensures
        s@ == comment(text@),
{
    let mut s = String::from_str("   ; ");
    s.append(text);
    s.append("\n");
    s
}

fn literal_instructions(value: &Value) -> (s: String)
    ensures
        s@ == literal_code(value@),
{
    match value {
        Value::Null => String::from_str("   ; not implemented yet!\n"),
        Value::Number(n) => {
            let mut s = String::from_str("   push ");
            s.append(n.text.as_str());
            s.append("\n");
            s
        },
        Value::Boolean(b) => if *b {
            String::from_str("   push 1\n")
        } else {
            String::from_str("   push 0\n")
        },
        Value::String(_) => String::from_str("   ; not implemented yet!\n\n"),
        Value::Callable(_) => String::from_str("   ; not implemented yet!\n"),
    }
}

impl Expr {
    /// Emits the code of this expression.
    pub fn compile(&self) -> (code: String)
        ensures
            code@ == expr_code(self@),
        decreases *self,
    {
        let text = self.fmt_output();
        match self {
            Expr::Literal { value } => {
                let mut res = comment_line(text.as_str());
                let push = literal_instructions(value);
                res.append(push.as_str());
                res
            },
            Expr::Unary { operator, right } => {
                let mut res = comment_line(text.as_str());
                match &operator.typ {
                    TokenType::Minus => {
                        let operand = right.compile();
                        res.append(operand.as_str());
                        res.append("   pop rax\n   neg rax\n   push rax\n");
                        assert(res@ =~= expr_code(self@));
                    },
                    TokenType::Bang => {
                        res.append("not implemented yet!\n");
                    },
                    _ => {
                        res.append("error\n");
                    },
                }
                res
            },
            Expr::Binary { left, operator, right } => {
                let mut res = left.compile();
                let second = right.compile();
                res.append(second.as_str());
                let note = comment_line(text.as_str());
                res.append(note.as_str());
                res.append(binary_operator_code(&operator.typ));
                res
            },
            Expr::Grouping { expression } => {
                let mut res = comment_line(text.as_str());
                let inner = expression.compile();
                res.append(inner.as_str());
                res
            },
            _ => {
                let mut res = comment_line(text.as_str());
                res.append("   ; not implemented yet!\n");
                res
            },
        }
    }
}

/// How many label tags a statement takes: one for each `if` and `while` in it.
pub open spec fn label_count(s: StmtView) -> nat
    decreases s, 0nat,
{
    match s {
        StmtView::Block { statements } => labels_before(statements, statements.len()),
        StmtView::If { condition, then_branch, else_branch } => 1 + label_count(*then_branch)
            + match else_branch {
            Some(e) => label_count(*e),
            None => 0,
        },
        StmtView::While { condition, body } => 1 + label_count(*body),
        _ => 0,
    }
}

/// How many label tags the first `n` statements of a list take.
pub open spec fn labels_before(list: Seq<StmtView>, n: nat) -> nat
    decreases list, n,
{
    if n == 0 || n > list.len() {
        0
    } else {
        labels_before(list, (n - 1) as nat) + label_count(list[n - 1])
    }
}

/// The code of a statement, given its label tags (`label_count` of them).
/// A declaration and a `return` are a comment and a marker.
pub open spec fn stmt_code(s: StmtView, labels: Seq<u64>) -> Seq<char>
    decreases s, 0nat,
{
    match s {
        StmtView::Expression { expression } => expr_code(expression),
        StmtView::Print { expression } => "   ; print "@ + expr_text(expression) + "\n"@
            + expr_code(expression) + "   lea rcx, [msg]\n   pop rdx\n   call printf\n"@,
        StmtView::Block { statements } => list_code(statements, statements.len(), labels),
        StmtView::If { condition, then_branch, else_branch } => {
            let tag = decimal_digits(labels[0] as nat);
            let inner = labels.skip(1);
            let first = label_count(*then_branch) as int;
            let head = "   ; if "@ + expr_text(condition) + "\n"@ + expr_code(condition)
                + "   pop rax\n   cmp rax, 1\n"@;
            match else_branch {
                Some(e) => head + "   jne .ne_"@ + tag + "\n"@ + stmt_code(
                    *then_branch,
                    inner.take(first),
                ) + "   jmp .end_"@ + tag + "\n.ne_"@ + tag + ":\n"@ + stmt_code(
                    *e,
                    inner.skip(first),
                ) + ".end_"@ + tag + ":\n"@,
                None => head + "   jne .end_"@ + tag + "\n"@ + stmt_code(*then_branch, inner)
                    + ".end_"@ + tag + ":\n"@,
            }
        },
        StmtView::While { condition, body } => {
            let tag = decimal_digits(labels[0] as nat);
            "   ; while "@ + expr_text(condition) + "\n   jmp .cond_"@ + tag + "\n.body_"@ + tag
                + ":\n"@ + stmt_code(*body, labels.skip(1)) + ".cond_"@ + tag + ":\n"@
                + expr_code(condition) + "   pop rax\n   cmp rax, 1\n   je .body_"@ + tag
                + "\n"@
        },
        StmtView::VariableDecl { name, initializer } => comment("let "@ + name.lexeme)
            + "   ; not implemented yet!\n"@,
        StmtView::FunctionDecl { name, params, body } => comment("fn "@ + name.lexeme)
            + "   ; not implemented yet!\n"@,
        StmtView::Return { keyword, value } => comment("return"@) + "   ; not implemented yet!\n"@,
    }
}

/// The code of the first `n` statements of a list, one after the other,
/// given the label tags of those statements.
pub open spec fn list_code(list: Seq<StmtView>, n: nat, labels: Seq<u64>) -> Seq<char>
    decreases list, n,
{
    if n == 0 || n > list.len() {
        Seq::empty()
    } else {
        let before = labels_before(list, (n - 1) as nat) as int;
        list_code(list, (n - 1) as nat, labels.take(before)) + stmt_code(
            list[n - 1],
            labels.skip(before),
        )
    }
}

/// The tags `first`, `first + 1`, and so on, `n` of them.
pub open spec fn counting(first: u64, n: nat) -> Seq<u64> {
    Seq::new(n, |i: int| (first + i) as u64)
}

/// Whether every tag is one that a random draw can give.
pub open spec fn drawn_tags(labels: Seq<u64>) -> bool {
    forall|i: int| 0 <= i < labels.len() ==> 100 <= #[trigger] labels[i] < 1000
}

/// Where label tags come from: random draws, or a counter.
enum LabelSource {
    Random,
    Counter(u64),
}

impl LabelSource {
    spec fn can_give(self, n: nat) -> bool {
        match self {
            LabelSource::Random => true,
            LabelSource::Counter(c) => c + n <= u64::MAX,
        }
    }

    spec fn gives(self, labels: Seq<u64>) -> bool {
        match self {
            LabelSource::Random => drawn_tags(labels),
            LabelSource::Counter(c) => labels == counting(c, labels.len()),
        }
    }

    spec fn after(self, n: nat) -> LabelSource {
        match self {
            LabelSource::Random => LabelSource::Random,
            LabelSource::Counter(c) => LabelSource::Counter((c + n) as u64),
        }
    }

    fn next(&mut self) -> (label: Option<u64>)
        ensures
            label is Some <==> old(self).can_give(1),
            label matches Some(l) ==> old(self).gives(seq![l]) && *final(self) == old(self).after(
                1,
            ),
    {
        match self {
            LabelSource::Random => {
                let mut generator = rand::thread_rng();
                let l: u64 = random_in(&mut generator, 100, 1000);
                Some(l)
            },
            LabelSource::Counter(c) => {
                let l: u64 = *c;
                if l < u64::MAX {
                    *c = l + 1;
                    assert(seq![l] =~= counting(l, 1));
                    Some(l)
                } else {
                    None
                }
            },
        }
    }
}

proof fn lemma_gives_join(source: LabelSource, a: Seq<u64>, b: Seq<u64>)
    requires
        source.can_give(a.len() + b.len()),
        source.gives(a),
        source.after(a.len()).gives(b),
    ensures
        source.gives(a + b),
        source.after(a.len()).after(b.len()) == source.after(a.len() + b.len()),
{
    match source {
        LabelSource::Random => {},
        LabelSource::Counter(c) => {
            assert(a + b =~= counting(c, (a + b).len()));
        },
    }
}

proof fn lemma_labels_before_grows(list: Seq<StmtView>, m: nat, n: nat)
    requires
        m <= n <= list.len(),
    ensures
        labels_before(list, m) <= labels_before(list, n),
    decreases n,
{
    if m < n {
        lemma_labels_before_grows(list, m, (n - 1) as nat);
    }
}

/// Emits the statements of a list in order, taking their tags from `source`.
#[verifier::loop_isolation(false)]
fn emit_list(list: &Vec<Stmt>, source: &mut LabelSource) -> (r: (Option<String>, Ghost<Seq<u64>>))
    ensures
        r.0 is Some <==> old(source).can_give(labels_before(block_view(list@), list@.len())),
        r.0 matches Some(code) ==> {
            &&& r.1@.len() == labels_before(block_view(list@), list@.len())
            &&& old(source).gives(r.1@)
            &&& *final(source) == old(source).after(labels_before(block_view(list@), list@.len()))
            &&& code@ == list_code(block_view(list@), list@.len(), r.1@)
        },
    decreases *list, 0nat,
{
    let ghost start = *source;
    let ghost mut drawn: Seq<u64> = Seq::empty();
    proof {
        lemma_stmt_views_index(list@, list@.len());
    }
    let mut res = String::new();
    let mut i: usize = 0;
    assert(start.gives(drawn)) by {
        assert(drawn =~= counting(0, 0));
        match start {
            LabelSource::Random => {},
            LabelSource::Counter(c) => {
                assert(drawn =~= counting(c, 0));
            },
        }
    }
    while i < list.len()
        invariant
            i <= list.len(),
            start == *old(source),
            start.can_give(labels_before(block_view(list@), i as nat)),
            *source == start.after(labels_before(block_view(list@), i as nat)),
            drawn.len() == labels_before(block_view(list@), i as nat),
            start.gives(drawn),
            res@ == list_code(block_view(list@), i as nat, drawn),
        decreases list.len() - i,
    {
        let ghost before = labels_before(block_view(list@), i as nat);
        let ghost mid = *source;
        let (part, Ghost(tags)) = list[i].emit(source);
        match part {
            Some(code) => {
                proof {
                    lemma_gives_join(start, drawn, tags);
                    assert((drawn + tags).take(before as int) =~= drawn);
                    assert((drawn + tags).skip(before as int) =~= tags);
                    drawn = drawn + tags;
                }
                res.append(code.as_str());
            },
            None => {
                proof {
                    assert(labels_before(block_view(list@), (i + 1) as nat) == before + label_count(
                        list@[i as int]@,
                    ));
                    assert(!start.can_give(labels_before(block_view(list@), (i + 1) as nat)));
                    lemma_labels_before_grows(block_view(list@), (i + 1) as nat, list@.len());
                }
                return (None, Ghost(Seq::empty()));
            },
        }
        i += 1;
    }
    (Some(res), Ghost(drawn))
}

impl Stmt {
    /// Emits this statement, taking its tags from `source`; nothing is
    /// emitted when the source runs out.
    fn emit(&self, source: &mut LabelSource) -> (r: (Option<String>, Ghost<Seq<u64>>))
        ensures
            r.0 is Some <==> old(source).can_give(label_count(self@)),
            r.0 matches Some(code) ==> {
                &&& r.1@.len() == label_count(self@)
                &&& old(source).gives(r.1@)
                &&& *final(source) == old(source).after(label_count(self@))
                &&& code@ == stmt_code(self@, r.1@)
            },
        decreases *self, 1nat,
    {
        let ghost start = *source;
        let ghost none: Seq<u64> = Seq::empty();
        proof {
            assert(none =~= counting(0, 0));
            match start {
                LabelSource::Random => {},
                LabelSource::Counter(c) => {
                    assert(none =~= counting(c, 0));
                },
            }
        }
        match self {
            Stmt::Expression { expression } => (Some(expression.compile()), Ghost(none)),
            Stmt::Print { expression } => {
                let mut res = String::from_str("   ; print ");
                let text = expression.fmt_output();
                res.append(text.as_str());
                res.append("\n");
                let code = expression.compile();
                res.append(code.as_str());
                res.append("   lea rcx, [msg]\n   pop rdx\n   call printf\n");
                (Some(res), Ghost(none))
            },
            Stmt::Block { statements } => {
                proof {
                    lemma_stmt_views_index(statements@, statements@.len());
                }
                emit_list(statements, source)
            },
            Stmt::If { condition, then_branch, else_branch } => {
                let label: u64 = match source.next() {
                    Some(label) => label,
                    None => {
                        return (None, Ghost(none));
                    },
                };
                let tag = decimal(label);
                let mut res = String::from_str("   ; if ");
                let text = condition.fmt_output();
                res.append(text.as_str());
                res.append("\n");
                let test = condition.compile();
                res.append(test.as_str());
                res.append("   pop rax\n   cmp rax, 1\n");
                match else_branch {
                    Some(e) => {
                        res.append("   jne .ne_");
                        res.append(tag.as_str());
                        res.append("\n");
                        let (first, Ghost(first_tags)) = then_branch.emit(source);
                        let first = match first {
                            Some(code) => code,
                            None => {
                                return (None, Ghost(none));
                            },
                        };
                        res.append(first.as_str());
                        res.append("   jmp .end_");
                        res.append(tag.as_str());
                        res.append("\n.ne_");
                        res.append(tag.as_str());
                        res.append(":\n");
                        let (second, Ghost(second_tags)) = e.emit(source);
                        let second = match second {
                            Some(code) => code,
                            None => {
                                return (None, Ghost(none));
                            },
                        };
                        res.append(second.as_str());
                        res.append(".end_");
                        res.append(tag.as_str());
                        res.append(":\n");
                        let ghost tags = seq![label] + first_tags + second_tags;
                        proof {
                            lemma_gives_join(start, seq![label], first_tags);
                            lemma_gives_join(start, seq![label] + first_tags, second_tags);
                            assert(tags.skip(1).take(first_tags.len() as int) =~= first_tags);
                            assert(tags.skip(1).skip(first_tags.len() as int) =~= second_tags);
                            assert(res@ =~= stmt_code(self@, tags));
                        }
                        (Some(res), Ghost(tags))
                    },
                    None => {
                        res.append("   jne .end_");
                        res.append(tag.as_str());
                        res.append("\n");
                        let (first, Ghost(first_tags)) = then_branch.emit(source);
                        let first = match first {
                            Some(code) => code,
                            None => {
                                return (None, Ghost(none));
                            },
                        };
                        res.append(first.as_str());
                        res.append(".end_");
                        res.append(tag.as_str());
                        res.append(":\n");
                        let ghost tags = seq![label] + first_tags;
                        proof {
                            lemma_gives_join(start, seq![label], first_tags);
                            assert(tags.skip(1) =~= first_tags);
                            assert(res@ =~= stmt_code(self@, tags));
                        }
                        (Some(res), Ghost(tags))
                    },
                }
            },
            Stmt::While { condition, body } => {
                let label: u64 = match source.next() {
                    Some(label) => label,
                    None => {
                        return (None, Ghost(none));
                    },
                };
                let tag = decimal(label);
                let mut res = String::from_str("   ; while ");
                let text = condition.fmt_output();
                res.append(text.as_str());
                res.append("\n   jmp .cond_");
                res.append(tag.as_str());
                res.append("\n.body_");
                res.append(tag.as_str());
                res.append(":\n");
                let (inner, Ghost(inner_tags)) = body.emit(source);
                let inner = match inner {
                    Some(code) => code,
                    None => {
                        return (None, Ghost(none));
                    },
                };
                res.append(inner.as_str());
                res.append(".cond_");
                res.append(tag.as_str());
                res.append(":\n");
                let test = condition.compile();
                res.append(test.as_str());
                res.append("   pop rax\n   cmp rax, 1\n   je .body_");
                res.append(tag.as_str());
                res.append("\n");
                let ghost tags = seq![label] + inner_tags;
                proof {
                    lemma_gives_join(start, seq![label], inner_tags);
                    assert(tags.skip(1) =~= inner_tags);
                    assert(res@ =~= stmt_code(self@, tags));
                }
                (Some(res), Ghost(tags))
            },
            Stmt::VariableDecl { name, initializer } => {
                let mut note = String::from_str("let ");
                note.append(name.lexeme.as_str());
                let mut res = comment_line(note.as_str());
                res.append("   ; not implemented yet!\n");
                (Some(res), Ghost(none))
            },
            Stmt::FunctionDecl { name, params, body } => {
                let mut note = String::from_str("fn ");
                note.append(name.lexeme.as_str());
                let mut res = comment_line(note.as_str());
                res.append("   ; not implemented yet!\n");
                (Some(res), Ghost(none))
            },
            Stmt::Return { keyword, value } => {
                let mut res = comment_line("return");
                res.append("   ; not implemented yet!\n");
                (Some(res), Ghost(none))
            },
        }
    }

    /// Emits the code of this statement. Each `if` and `while` gets a
    /// randomly drawn tag from 100 up to, not including, 1000.
    pub fn compile(&self) -> (code: String)
        ensures
            exists|labels: Seq<u64>|
                labels.len() == label_count(self@) && drawn_tags(labels) && code@ == stmt_code(
                    self@,
                    labels,
                ),
    {
        let mut source = LabelSource::Random;
        let (code, Ghost(labels)) = self.emit(&mut source);
        match code {
            Some(code) => {
                assert(labels.len() == label_count(self@) && drawn_tags(labels) && code@
                    == stmt_code(self@, labels));
                code
            },
            None => String::new(),
        }
    }

    /// Emits the code of this statement with the tags `first`, `first + 1`
    /// and so on in place of random ones; nothing when the tags would pass
    /// the largest number.
    pub fn compile_numbered(&self, first: u64) -> (code: Option<String>)
        ensures
            code is Some <==> first + label_count(self@) <= u64::MAX,
            code matches Some(c) ==> c@ == stmt_code(self@, counting(first, label_count(self@))),
    {
        let mut source = LabelSource::Counter(first);
        let (code, Ghost(labels)) = self.emit(&mut source);
        code
    }
}

/// The whole program: the header (64-bit mode, the format of a printed
/// number, the outside symbols), the entry label with the code of every
/// statement, then a call that prints the value on top of the stack and a
/// call that ends the process.
pub open spec fn program_code(statements: Seq<StmtView>, labels: Seq<u64>) -> Seq<char> {
    "bits 64\ndefault rel\n\nsegment .data\n   msg db \"%d\", 0xd, 0xa, 0\n\nsegment .text\n\nglobal main\n\nextern ExitProcess\nextern printf\n\nmain:\n"@
        + list_code(statements, statements.len(), labels)
        + "\n   lea rcx, [msg]\n   pop rdx\n   call printf\n\n   xor rcx, rcx\n   call ExitProcess\n"@
}

fn wrap_program(body: String) -> (code: String)
    ensures
        code@
            == "bits 64\ndefault rel\n\nsegment .data\n   msg db \"%d\", 0xd, 0xa, 0\n\nsegment .text\n\nglobal main\n\nextern ExitProcess\nextern printf\n\nmain:\n"@
            + body@
            + "\n   lea rcx, [msg]\n   pop rdx\n   call printf\n\n   xor rcx, rcx\n   call ExitProcess\n"@,
{
    let mut code = String::from_str(
        "bits 64\ndefault rel\n\nsegment .data\n   msg db \"%d\", 0xd, 0xa, 0\n\nsegment .text\n\nglobal main\n\nextern ExitProcess\nextern printf\n\nmain:\n",
    );
    code.append(body.as_str());
    code.append(
        "\n   lea rcx, [msg]\n   pop rdx\n   call printf\n\n   xor rcx, rcx\n   call ExitProcess\n",
    );
    code
}

/// Emits the whole program, with randomly drawn tags from 100 up to, not
/// including, 1000.
pub fn assemble(statements: &Vec<Stmt>) -> (code: String)
    ensures
        exists|labels: Seq<u64>|
            labels.len() == labels_before(block_view(statements@), statements@.len()) && drawn_tags(labels)
                && code@ == program_code(block_view(statements@), labels),
{
    let mut source = LabelSource::Random;
    proof {
        lemma_stmt_views_index(statements@, statements@.len());
    }
    let (body, Ghost(labels)) = emit_list(statements, &mut source);
    match body {
        Some(body) => {
            let code = wrap_program(body);
            assert(labels.len() == labels_before(block_view(statements@), statements@.len()) && drawn_tags(
                labels,
            ) && code@ == program_code(block_view(statements@), labels));
            code
        },
        None => String::new(),
    }
}

/// Emits the whole program with the tags `first`, `first + 1` and so on;
/// nothing when the tags would pass the largest number.
pub fn assemble_numbered(statements: &Vec<Stmt>, first: u64) -> (code: Option<String>)
    ensures
        code is Some <==> first + labels_before(block_view(statements@), statements@.len()) <= u64::MAX,
        code matches Some(c) ==> c@ == program_code(
            block_view(statements@),
            counting(first, labels_before(block_view(statements@), statements@.len())),
        ),
{
    let mut source = LabelSource::Counter(first);
    proof {
        lemma_stmt_views_index(statements@, statements@.len());
    }
    let (body, Ghost(labels)) = emit_list(statements, &mut source);
    match body {
        Some(body) => Some(wrap_program(body)),
        None => None,
    }
}

} // verus!
