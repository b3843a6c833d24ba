//! Values and syntax trees, and their rendering as text.

use vstd::prelude::*;
use vstd::string::StringExecFns;
use std::rc::Rc;
use crate::number::Number;
use crate::number::NumberView;
use crate::scanner::token_views;
use crate::scanner::Token;
use crate::scanner::TokenView;
use crate::text::texts;

verus! {

/// Something that can be called: a function of the program, with the scope
/// it was declared in, or a function that the host provides under a name.
#[derive(Debug, PartialEq)]
pub enum Fun {
    Code { name: String, params: Vec<Rc<Token>>, body: Rc<Stmt>, closure: usize },
    Native { name: String, params: Vec<Rc<Token>> },
}

/// A runtime value.
#[derive(Debug, PartialEq)]
pub enum Value {
    String(String),
    Number(Number),
    Boolean(bool),
    Null,
    Callable(Fun),
}

/// An expression.
#[allow(inconsistent_fields)]
#[derive(Debug, PartialEq)]
pub enum Expr {
    Assign { name: Rc<Token>, value: Box<Expr> },
    Binary { left: Box<Expr>, operator: Rc<Token>, right: Box<Expr> },
    Logical { left: Box<Expr>, operator: Rc<Token>, right: Box<Expr> },
    Grouping { expression: Box<Expr> },
    Literal { value: Value },
    Unary { operator: Rc<Token>, right: Box<Expr> },
    Variable { name: Rc<Token> },
    Call { callee: Box<Expr>, paren: Rc<Token>, arguments: Vec<Box<Expr>> },
}

/// A statement.
#[allow(inconsistent_fields)]
#[derive(Debug, PartialEq)]
pub enum Stmt {
    Block { statements: Vec<Stmt> },
    Expression { expression: Box<Expr> },
    Print { expression: Box<Expr> },
    VariableDecl { name: Rc<Token>, initializer: Box<Expr> },
    If { condition: Box<Expr>, then_branch: Box<Stmt>, else_branch: Option<Box<Stmt>> },
    While { condition: Box<Expr>, body: Box<Stmt> },
    FunctionDecl { name: Rc<Token>, params: Vec<Rc<Token>>, body: Rc<Stmt> },
    Return { keyword: Rc<Token>, value: Box<Expr> },
}

/// A callable in contracts.
pub enum FunView {
    Code { name: Seq<char>, params: Seq<TokenView>, body: Box<StmtView>, closure: usize },
    Native { name: Seq<char>, params: Seq<TokenView> },
}

/// A value in contracts.
pub enum ValueView {
    String(Seq<char>),
    Number(NumberView),
    Boolean(bool),
    Null,
    Callable(FunView),
}

/// An expression in contracts.
#[allow(inconsistent_fields)]
pub enum ExprView {
    Assign { name: TokenView, value: Box<ExprView> },
    Binary { left: Box<ExprView>, operator: TokenView, right: Box<ExprView> },
    Logical { left: Box<ExprView>, operator: TokenView, right: Box<ExprView> },
    Grouping { expression: Box<ExprView> },
    Literal { value: ValueView },
    Unary { operator: TokenView, right: Box<ExprView> },
    Variable { name: TokenView },
    Call { callee: Box<ExprView>, paren: TokenView, arguments: Seq<ExprView> },
}

/// A statement in contracts.
#[allow(inconsistent_fields)]
pub enum StmtView {
    Block { statements: Seq<StmtView> },
    Expression { expression: ExprView },
    Print { expression: ExprView },
    VariableDecl { name: TokenView, initializer: ExprView },
    If { condition: ExprView, then_branch: Box<StmtView>, else_branch: Option<Box<StmtView>> },
    While { condition: ExprView, body: Box<StmtView> },
    FunctionDecl { name: TokenView, params: Seq<TokenView>, body: Box<StmtView> },
    Return { keyword: TokenView, value: ExprView },
}

/// The view of a callable.
pub open spec fn fun_view(f: Fun) -> FunView
    decreases f, 0nat,
{
    match f {
        Fun::Code { name, params, body, closure } => FunView::Code {
            name: name@,
            params: token_views(params@),
            body: Box::new(stmt_view(*body)),
            closure,
        },
        Fun::Native { name, params } => FunView::Native {
            name: name@,
            params: token_views(params@),
        },
    }
}

/// The view of a value.
pub open spec fn value_view(v: Value) -> ValueView
    decreases v, 0nat,
{
    match v {
        Value::String(s) => ValueView::String(s@),
        Value::Number(n) => ValueView::Number(n@),
        Value::Boolean(b) => ValueView::Boolean(b),
        Value::Null => ValueView::Null,
        Value::Callable(f) => ValueView::Callable(fun_view(f)),
    }
}

/// The view of an expression.
pub open spec fn expr_view(e: Expr) -> ExprView
    decreases e, 0nat,
{
    match e {
        Expr::Assign { name, value } => ExprView::Assign {
            name: name@,
            value: Box::new(expr_view(*value)),
        },
        Expr::Binary { left, operator, right } => ExprView::Binary {
            left: Box::new(expr_view(*left)),
            operator: operator@,
            right: Box::new(expr_view(*right)),
        },
        Expr::Logical { left, operator, right } => ExprView::Logical {
            left: Box::new(expr_view(*left)),
            operator: operator@,
            right: Box::new(expr_view(*right)),
        },
        Expr::Grouping { expression } => ExprView::Grouping {
            expression: Box::new(expr_view(*expression)),
        },
        Expr::Literal { value } => ExprView::Literal { value: value_view(value) },
        Expr::Unary { operator, right } => ExprView::Unary {
            operator: operator@,
            right: Box::new(expr_view(*right)),
        },
        Expr::Variable { name } => ExprView::Variable { name: name@ },
        Expr::Call { callee, paren, arguments } => ExprView::Call {
            callee: Box::new(expr_view(*callee)),
            paren: paren@,
            arguments: expr_views(arguments@, arguments@.len()),
        },
    }
}

/// The views of the first `n` expressions of a list.
pub open spec fn expr_views(list: Seq<Box<Expr>>, n: nat) -> Seq<ExprView>
    decreases list, n,
{
    if n == 0 || n > list.len() {
        Seq::empty()
    } else {
        expr_views(list, (n - 1) as nat).push(expr_view(*list[n - 1]))
    }
}

/// The view of a statement.
pub open spec fn stmt_view(s: Stmt) -> StmtView
    decreases s, 0nat,
{
    match s {
        Stmt::Block { statements } => StmtView::Block {
            statements: stmt_views(statements@, statements@.len()),
        },
        Stmt::Expression { expression } => StmtView::Expression {
            expression: expr_view(*expression),
        },
        Stmt::Print { expression } => StmtView::Print { expression: expr_view(*expression) },
        Stmt::VariableDecl { name, initializer } => StmtView::VariableDecl {
            name: name@,
            initializer: expr_view(*initializer),
        },
        Stmt::If { condition, then_branch, else_branch } => StmtView::If {
            condition: expr_view(*condition),
            then_branch: Box::new(stmt_view(*then_branch)),
            else_branch: match else_branch {
                Some(e) => Some(Box::new(stmt_view(*e))),
                None => None,
            },
        },
        Stmt::While { condition, body } => StmtView::While {
            condition: expr_view(*condition),
            body: Box::new(stmt_view(*body)),
        },
        Stmt::FunctionDecl { name, params, body } => StmtView::FunctionDecl {
            name: name@,
            params: token_views(params@),
            body: Box::new(stmt_view(*body)),
        },
        Stmt::Return { keyword, value } => StmtView::Return {
            keyword: keyword@,
            value: expr_view(*value),
        },
    }
}

/// The views of the first `n` statements of a list.
pub open spec fn stmt_views(list: Seq<Stmt>, n: nat) -> Seq<StmtView>
    decreases list, n,
{
    if n == 0 || n > list.len() {
        Seq::empty()
    } else {
        stmt_views(list, (n - 1) as nat).push(stmt_view(list[n - 1]))
    }
}

/// The views of the expressions of a list.
pub open spec fn list_view(list: Seq<Box<Expr>>) -> Seq<ExprView> {
    expr_views(list, list.len())
}

/// The views of the statements of a list.
pub open spec fn block_view(list: Seq<Stmt>) -> Seq<StmtView> {
    stmt_views(list, list.len())
}

impl View for Fun {
    type V = FunView;

    open spec fn view(&self) -> FunView {
        fun_view(*self)
    }
}

impl View for Value {
    type V = ValueView;

    open spec fn view(&self) -> ValueView {
        value_view(*self)
    }
}

impl View for Expr {
    type V = ExprView;

    open spec fn view(&self) -> ExprView {
        expr_view(*self)
    }
}

impl View for Stmt {
    type V = StmtView;

    open spec fn view(&self) -> StmtView {
        stmt_view(*self)
    }
}

/// The views of the first expressions of a list do not depend on what
/// is appended to it.
pub proof fn lemma_expr_views_prefix(list: Seq<Box<Expr>>, e: Box<Expr>, n: nat)
    requires
        n <= list.len(),
    ensures
        expr_views(list.push(e), n) == expr_views(list, n),
    decreases n,
{
    if n > 0 {
        lemma_expr_views_prefix(list, e, (n - 1) as nat);
        assert(list.push(e)[n - 1] == list[n - 1]);
    }
}

/// The views of a list with one more expression: those of the list, and
/// the view of the new one.
pub proof fn lemma_expr_views_push(list: Seq<Box<Expr>>, e: Box<Expr>)
    ensures
        expr_views(list.push(e), list.len() + 1) == expr_views(list, list.len()).push(
            expr_view(*e),
        ),
{
    lemma_expr_views_prefix(list, e, list.len());
    assert(list.push(e)[list.len() as int] == e);
}

/// The views of a list of expressions are as many as the expressions,
/// each the view of the expression at its place.
pub proof fn lemma_expr_views_index(list: Seq<Box<Expr>>, n: nat)
    requires
        n <= list.len(),
    ensures
        expr_views(list, n).len() == n,
        forall|i: int| 0 <= i < n ==> #[trigger] expr_views(list, n)[i] == expr_view(*list[i]),
    decreases n,
{
    if n > 0 {
        lemma_expr_views_index(list, (n - 1) as nat);
    }
}

/// The views of the first statements of a list do not depend on what is
/// appended to it.
pub proof fn lemma_stmt_views_prefix(list: Seq<Stmt>, s: Stmt, n: nat)
    requires
        n <= list.len(),
    ensures
        stmt_views(list.push(s), n) == stmt_views(list, n),
    decreases n,
{
    if n > 0 {
        lemma_stmt_views_prefix(list, s, (n - 1) as nat);
        assert(list.push(s)[n - 1] == list[n - 1]);
    }
}

/// The views of a list with one more statement: those of the list, and
/// the view of the new one.
pub proof fn lemma_stmt_views_push(list: Seq<Stmt>, s: Stmt)
    ensures
        stmt_views(list.push(s), list.len() + 1) == stmt_views(list, list.len()).push(
            stmt_view(s),
        ),
{
    lemma_stmt_views_prefix(list, s, list.len());
    assert(list.push(s)[list.len() as int] == s);
}

/// The views of a list of statements are as many as the statements, each
/// the view of the statement at its place.
pub proof fn lemma_stmt_views_index(list: Seq<Stmt>, n: nat)
    requires
        n <= list.len(),
    ensures
        stmt_views(list, n).len() == n,
        forall|i: int| 0 <= i < n ==> #[trigger] stmt_views(list, n)[i] == stmt_view(list[i]),
    decreases n,
{
    if n > 0 {
        lemma_stmt_views_index(list, (n - 1) as nat);
    }
}

impl FunView {
    /// The name the callable was declared under.
    pub open spec fn name(self) -> Seq<char> {
        match self {
            FunView::Code { name, .. } => name,
            FunView::Native { name, .. } => name,
        }
    }

    /// The declared parameters.
    pub open spec fn params(self) -> Seq<TokenView> {
        match self {
            FunView::Code { params, .. } => params,
            FunView::Native { params, .. } => params,
        }
    }
}

/// The text a value is printed as: a string verbatim, a number by its
/// rendering, a boolean as `true` or `false`, null as `null`, a callable as
/// `fun` and its name.
pub open spec fn value_text(v: ValueView) -> Seq<char> {
    match v {
        ValueView::String(s) => s,
        ValueView::Number(n) => n.text,
        ValueView::Boolean(b) => if b {
            "true"@
        } else {
            "false"@
        },
        ValueView::Null => "null"@,
        ValueView::Callable(f) => "fun "@ + f.name(),
    }
}

/// The parts, each preceded by one space.
pub open spec fn spaced(parts: Seq<Seq<char>>) -> Seq<char>
    decreases parts.len(),
{
    if parts.len() == 0 {
        Seq::empty()
    } else {
        spaced(parts.drop_last()) + seq![' '] + parts.last()
    }
}

/// A name and its parts between round brackets.
pub open spec fn parenthesized(name: Seq<char>, parts: Seq<Seq<char>>) -> Seq<char> {
    seq!['('] + name + spaced(parts) + seq![')']
}

/// The prefix form of an expression: every operator application stands
/// between round brackets, operator first.
pub open spec fn expr_text(e: ExprView) -> Seq<char>
    decreases e, 0nat,
{
    match e {
        ExprView::Assign { name, value } => parenthesized(
            name.lexeme + "="@,
            seq![expr_text(*value)],
        ),
        ExprView::Binary { left, operator, right } => parenthesized(
            operator.lexeme,
            seq![expr_text(*left), expr_text(*right)],
        ),
        ExprView::Logical { left, operator, right } => parenthesized(
            operator.lexeme,
            seq![expr_text(*left), expr_text(*right)],
        ),
        ExprView::Grouping { expression } => parenthesized(
            "group"@,
            seq![expr_text(*expression)],
        ),
        ExprView::Literal { value } => value_text(value),
        ExprView::Unary { operator, right } => parenthesized(
            operator.lexeme,
            seq![expr_text(*right)],
        ),
        ExprView::Variable { name } => name.lexeme,
        ExprView::Call { callee, paren, arguments } => parenthesized(
            expr_text(*callee) + "()"@,
            exprs_text(arguments, arguments.len()),
        ),
    }
}

/// The prefix forms of the first `n` expressions of a list.
pub open spec fn exprs_text(list: Seq<ExprView>, n: nat) -> Seq<Seq<char>>
    decreases list, n,
{
    if n == 0 || n > list.len() {
        Seq::empty()
    } else {
        exprs_text(list, (n - 1) as nat).push(expr_text(list[n - 1]))
    }
}

/// `Rc::clone`: another handle to the value that `handle` points to.
#[verifier::external_body]
pub(crate) fn share<T>(handle: &Rc<T>) -> (other: Rc<T>)
    ensures
        other == *handle,
{
    Rc::clone(handle)
}

/// Another list of handles to the same tokens.
pub(crate) fn share_all(list: &Vec<Rc<Token>>) -> (other: Vec<Rc<Token>>)
    ensures
        other@ == list@,
{
    let mut other: Vec<Rc<Token>> = Vec::new();
    let mut i: usize = 0;
    while i < list.len()
        invariant
            i <= list.len(),
            other@ == list@.take(i as int),
        decreases list.len() - i,
    {
        other.push(share(&list[i]));
        assert(other@ =~= list@.take(i + 1));
        i += 1;
    }
    assert(list@.take(i as int) =~= list@);
    other
}

impl Clone for Fun {
    fn clone(&self) -> (copy: Self)
        ensures
            copy@ == self@,
    {
        match self {
            Fun::Code { name, params, body, closure } => Fun::Code {
                name: name.clone(),
                params: share_all(params),
                body: share(body),
                closure: *closure,
            },
            Fun::Native { name, params } => Fun::Native {
                name: name.clone(),
                params: share_all(params),
            },
        }
    }
}

impl Clone for Value {
    fn clone(&self) -> (copy: Self)
        ensures
            copy@ == self@,
    {
        match self {
            Value::String(s) => Value::String(s.clone()),
            Value::Number(n) => Value::Number(n.clone()),
            Value::Boolean(b) => Value::Boolean(*b),
            Value::Null => Value::Null,
            Value::Callable(f) => Value::Callable(f.clone()),
        }
    }
}

impl Value {
    /// The text this value is printed as.
    pub fn to_text(&self) -> (s: String)
        ensures
            s@ == value_text(self@),
    {
        match self {
            Value::String(s) => s.clone(),
            Value::Number(n) => n.text.clone(),
            Value::Boolean(b) => if *b {
                String::from_str("true")
            } else {
                String::from_str("false")
            },
            Value::Null => String::from_str("null"),
            Value::Callable(f) => {
                let mut s = String::from_str("fun ");
                match f {
                    Fun::Code { name, .. } => s.append(name.as_str()),
                    Fun::Native { name, .. } => s.append(name.as_str()),
                }
                s
            },
        }
    }
}

/// Writes a name and the given parts between round brackets.
fn parenthesize(name: &str, parts: &Vec<String>) -> (s: String)
    ensures
        s@ == parenthesized(name@, texts(parts@)),
{
    let mut builder = String::from_str("(");
    builder.append(name);
    proof {
        reveal_strlit("(");
        reveal_strlit(" ");
        reveal_strlit(")");
        assert(texts(parts@).take(0).len() == 0);
        assert(builder@ =~= seq!['('] + name@ + spaced(texts(parts@).take(0)));
    }
    let mut i: usize = 0;
    while i < parts.len()
        invariant
            i <= parts.len(),
            " "@ == seq![' '],
            builder@ == seq!['('] + name@ + spaced(texts(parts@).take(i as int)),
        decreases parts.len() - i,
    {
        builder.append(" ");
        builder.append(parts[i].as_str());
        proof {
            let all = texts(parts@);
            assert(all.take(i + 1).drop_last() =~= all.take(i as int));
            assert(all.take(i + 1).last() == parts[i as int]@);
            assert(builder@ =~= seq!['('] + name@ + spaced(all.take(i + 1)));
        }
        i += 1;
    }
    builder.append(")");
    proof {
        assert(texts(parts@).take(i as int) =~= texts(parts@));
        assert(builder@ =~= parenthesized(name@, texts(parts@)));
    }
    builder
}

impl Expr {
    /// The prefix form of this expression.
    #[verifier::loop_isolation(false)]
    pub fn fmt_output(&self) -> (s: String)
        ensures
            s@ == expr_text(self@),
        decreases *self,
    {
        let mut parts: Vec<String> = Vec::new();
        match self {
            Expr::Assign { name, value } => {
                let mut head = name.lexeme.clone();
                head.append("=");
                parts.push(value.fmt_output());
                assert(texts(parts@) =~= seq![expr_text(value@)]);
                parenthesize(head.as_str(), &parts)
            },
            Expr::Binary { left, operator, right } => {
                parts.push(left.fmt_output());
                parts.push(right.fmt_output());
                assert(texts(parts@) =~= seq![expr_text(left@), expr_text(right@)]);
                parenthesize(operator.lexeme.as_str(), &parts)
            },
            Expr::Logical { left, operator, right } => {
                parts.push(left.fmt_output());
                parts.push(right.fmt_output());
                assert(texts(parts@) =~= seq![expr_text(left@), expr_text(right@)]);
                parenthesize(operator.lexeme.as_str(), &parts)
            },
            Expr::Grouping { expression } => {
                parts.push(expression.fmt_output());
                assert(texts(parts@) =~= seq![expr_text(expression@)]);
                parenthesize("group", &parts)
            },
            Expr::Literal { value } => value.to_text(),
            Expr::Unary { operator, right } => {
                parts.push(right.fmt_output());
                assert(texts(parts@) =~= seq![expr_text(right@)]);
                parenthesize(operator.lexeme.as_str(), &parts)
            },
            Expr::Variable { name } => name.lexeme.clone(),
            Expr::Call { callee, paren, arguments } => {
                let mut head = callee.fmt_output();
                head.append("()");
                let ghost views = expr_views(arguments@, arguments@.len());
                proof {
                    lemma_expr_views_index(arguments@, arguments@.len());
                }
                let mut i: usize = 0;
                assert(texts(parts@) =~= exprs_text(views, 0));
                while i < arguments.len()
                    invariant
                        i <= arguments.len(),
                        texts(parts@) == exprs_text(views, i as nat),
                    decreases arguments.len() - i,
                {
                    parts.push(arguments[i].fmt_output());
                    assert(texts(parts@) =~= exprs_text(views, (i + 1) as nat));
                    i += 1;
                }
                parenthesize(head.as_str(), &parts)
            },
        }
    }
}

} // verus!
