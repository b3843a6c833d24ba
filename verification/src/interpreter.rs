//! The tree-walking evaluator.
//!
//! Expressions and statements run against a scope of the store. What is
//! printed and what is logged is collected on a console for the caller to
//! show. Arithmetic that rounds, and the functions that the host provides,
//! are asked of the host through one callback. A budget bounds how deep
//! calls nest and how often a loop repeats, so that every run ends.

use vstd::prelude::*;
use vstd::string::StringExecFns;
use crate::ast::block_view;
use crate::ast::lemma_expr_views_index;
use crate::ast::lemma_stmt_views_index;
use crate::ast::list_view;
use crate::ast::value_text;
use crate::ast::Expr;
use crate::ast::ExprView;
use crate::ast::Fun;
use crate::ast::FunView;
use crate::ast::Stmt;
use crate::ast::StmtView;
use crate::ast::Value;
use crate::ast::ValueView;
use crate::environment::added;
use crate::environment::assigned;
use crate::environment::defined;
use crate::environment::lookup;
use crate::environment::resolve;
use crate::environment::undefined_text;
use crate::environment::EnvironmentArena;
use crate::environment::Failure;
use crate::environment::RuntimeError;
use crate::environment::ScopeView;
use crate::number::is_zero;
use crate::number::number_at_most;
use crate::number::number_less;
use crate::number::numbers_equal;
use crate::scanner::token_views;
use crate::scanner::TokenType;
use crate::scanner::TokenTypeView;
use crate::scanner::TokenView;
use crate::text::decimal;
use crate::text::decimal_digits;
use crate::text::texts;

verus! {

/// What the evaluator asks of its host: arithmetic on the bit patterns of
/// two numbers, the negation of one, or a call of a host function by name.
#[derive(Debug, PartialEq)]
pub enum HostCall {
    Add(u64, u64),
    Subtract(u64, u64),
    Multiply(u64, u64),
    Divide(u64, u64),
    Negate(u64),
    Native(String, Vec<Value>),
}

/// A request to the host in contracts.
pub enum HostCallView {
    Add(u64, u64),
    Subtract(u64, u64),
    Multiply(u64, u64),
    Divide(u64, u64),
    Negate(u64),
    Native(Seq<char>, Seq<ValueView>),
}

/// The views of a list of values.
pub open spec fn value_views(values: Seq<Value>) -> Seq<ValueView> {
    values.map_values(|v: Value| v@)
}

impl View for HostCall {
    type V = HostCallView;

    open spec fn view(&self) -> HostCallView {
        match *self {
            HostCall::Add(a, b) => HostCallView::Add(a, b),
            HostCall::Subtract(a, b) => HostCallView::Subtract(a, b),
            HostCall::Multiply(a, b) => HostCallView::Multiply(a, b),
            HostCall::Divide(a, b) => HostCallView::Divide(a, b),
            HostCall::Negate(a) => HostCallView::Negate(a),
            HostCall::Native(name, arguments) => HostCallView::Native(
                name@,
                value_views(arguments@),
            ),
        }
    }
}

/// The state of a run: the scopes, the lines printed and the lines logged.
pub struct Machine {
    pub arena: Seq<ScopeView>,
    pub output: Seq<Seq<char>>,
    pub log: Seq<Seq<char>>,
}

/// Truthiness: false, null, zero and the empty string are falsy, every
/// other value is truthy.
pub open spec fn truthy(v: ValueView) -> bool {
    match v {
        ValueView::Boolean(b) => b,
        ValueView::Null => false,
        ValueView::String(s) => s.len() != 0,
        ValueView::Number(n) => !is_zero(n.bits),
        ValueView::Callable(_) => true,
    }
}

/// What `!` negates: null counts as false, a boolean as itself, and every
/// other value as true.
pub open spec fn present(v: ValueView) -> bool {
    match v {
        ValueView::Null => false,
        ValueView::Boolean(b) => b,
        _ => true,
    }
}

/// Equality of two values: values of one kind are equal when they hold the
/// same (numbers: numerically equal), values of different kinds are never
/// equal, and a callable equals nothing.
pub open spec fn values_equal(l: ValueView, r: ValueView) -> bool {
    match (l, r) {
        (ValueView::Number(a), ValueView::Number(b)) => numbers_equal(a.bits, b.bits),
        (ValueView::String(a), ValueView::String(b)) => a == b,
        (ValueView::Boolean(a), ValueView::Boolean(b)) => a == b,
        (ValueView::Null, ValueView::Null) => true,
        _ => false,
    }
}

/// The value of a binary operator on two values. Arithmetic on two numbers
/// is asked of the host; `+` joins the texts of its operands when either is
/// a string; a comparison of two numbers is decided by their order, and of
/// anything else is false; every other combination is null.
pub open spec fn binary_value(
    op: TokenTypeView,
    l: ValueView,
    r: ValueView,
    reply: spec_fn(HostCallView) -> ValueView,
) -> ValueView {
    match op {
        TokenTypeView::Minus => match (l, r) {
            (ValueView::Number(a), ValueView::Number(b)) => reply(
                HostCallView::Subtract(a.bits, b.bits),
            ),
            _ => ValueView::Null,
        },
        TokenTypeView::Slash => match (l, r) {
            (ValueView::Number(a), ValueView::Number(b)) => reply(
                HostCallView::Divide(a.bits, b.bits),
            ),
            _ => ValueView::Null,
        },
        TokenTypeView::Star => match (l, r) {
            (ValueView::Number(a), ValueView::Number(b)) => reply(
                HostCallView::Multiply(a.bits, b.bits),
            ),
            _ => ValueView::Null,
        },
        TokenTypeView::Plus => if l is String || r is String {
            ValueView::String(value_text(l) + value_text(r))
        } else {
            match (l, r) {
                (ValueView::Number(a), ValueView::Number(b)) => reply(
                    HostCallView::Add(a.bits, b.bits),
                ),
                _ => ValueView::Null,
            }
        },
        TokenTypeView::Greater => match (l, r) {
            (ValueView::Number(a), ValueView::Number(b)) => ValueView::Boolean(
                number_less(b.bits, a.bits),
            ),
            _ => ValueView::Boolean(false),
        },
        TokenTypeView::GreaterEqual => match (l, r) {
            (ValueView::Number(a), ValueView::Number(b)) => ValueView::Boolean(
                number_at_most(b.bits, a.bits),
            ),
            _ => ValueView::Boolean(false),
        },
        TokenTypeView::Less => match (l, r) {
            (ValueView::Number(a), ValueView::Number(b)) => ValueView::Boolean(
                number_less(a.bits, b.bits),
            ),
            _ => ValueView::Boolean(false),
        },
        TokenTypeView::LessEqual => match (l, r) {
            (ValueView::Number(a), ValueView::Number(b)) => ValueView::Boolean(
                number_at_most(a.bits, b.bits),
            ),
            _ => ValueView::Boolean(false),
        },
        TokenTypeView::BangEqual => ValueView::Boolean(!values_equal(l, r)),
        TokenTypeView::EqualEqual => ValueView::Boolean(values_equal(l, r)),
        _ => ValueView::Null,
    }
}

/// The value of a unary operator: the negation of a number is asked of the
/// host, `-` on anything else is null, and `!` negates presence.
pub open spec fn unary_value(
    op: TokenTypeView,
    v: ValueView,
    reply: spec_fn(HostCallView) -> ValueView,
) -> ValueView {
    match op {
        TokenTypeView::Minus => match v {
            ValueView::Number(n) => reply(HostCallView::Negate(n.bits)),
            _ => ValueView::Null,
        },
        TokenTypeView::Bang => ValueView::Boolean(!present(v)),
        _ => ValueView::Null,
    }
}

/// The message logged when a call gives the wrong number of arguments.
pub open spec fn arity_text(expected: nat, found: nat) -> Seq<char> {
    "Expected "@ + decimal_digits(expected) + " arguments, but found "@ + decimal_digits(found)
        + "."@
}

/// The store after the first `n` parameters are bound, in scope `scope`,
/// to the arguments at their positions.
pub open spec fn bound(
    arena: Seq<ScopeView>,
    scope: int,
    params: Seq<TokenView>,
    arguments: Seq<ValueView>,
    n: nat,
) -> Seq<ScopeView>
    decreases n,
{
    if n == 0 || n > params.len() || n > arguments.len() {
        arena
    } else {
        defined(
            bound(arena, scope, params, arguments, (n - 1) as nat),
            scope,
            params[n - 1].lexeme,
            arguments[n - 1],
        )
    }
}

/// The value of an expression in scope `env`, and the state it leaves.
///
/// An undefined variable fails the evaluation. An assignment to an
/// undefined variable is logged and yields null. `and` and `or` evaluate
/// their left operand once and their right operand only when the left does
/// not decide. A call of something that is not callable yields that value;
/// a call with the wrong number of arguments is logged and yields null
/// before any argument is evaluated; otherwise the arguments are evaluated
/// from left to right and the call takes one unit of the budget.
pub open spec fn eval(
    e: ExprView,
    st: Machine,
    env: usize,
    reply: spec_fn(HostCallView) -> ValueView,
    fuel: nat,
) -> (Result<ValueView, Failure>, Machine)
    decreases fuel, e, 0nat,
{
    match e {
        ExprView::Literal { value } => (Ok(value), st),
        ExprView::Grouping { expression } => eval(*expression, st, env, reply, fuel),
        ExprView::Variable { name } => match lookup(st.arena, env as int, name.lexeme) {
            Some(v) => (Ok(v), st),
            None => (Err(Failure::UndefinedVariable(name.lexeme)), st),
        },
        ExprView::Assign { name, value } => {
            let (r, st1) = eval(*value, st, env, reply, fuel);
            match r {
                Err(f) => (Err(f), st1),
                Ok(v) => match resolve(st1.arena, env as int, name.lexeme) {
                    Some(_) => (
                        Ok(v),
                        Machine { arena: assigned(st1.arena, env as int, name.lexeme, v), ..st1 },
                    ),
                    None => (
                        Ok(ValueView::Null),
                        Machine { log: st1.log.push(undefined_text(name.lexeme)), ..st1 },
                    ),
                },
            }
        },
        ExprView::Unary { operator, right } => {
            let (r, st1) = eval(*right, st, env, reply, fuel);
            match r {
                Err(f) => (Err(f), st1),
                Ok(v) => (Ok(unary_value(operator.typ, v, reply)), st1),
            }
        },
        ExprView::Binary { left, operator, right } => {
            let (l, st1) = eval(*left, st, env, reply, fuel);
            match l {
                Err(f) => (Err(f), st1),
                Ok(lv) => {
                    let (r, st2) = eval(*right, st1, env, reply, fuel);
                    match r {
                        Err(f) => (Err(f), st2),
                        Ok(rv) => (Ok(binary_value(operator.typ, lv, rv, reply)), st2),
                    }
                },
            }
        },
        ExprView::Logical { left, operator, right } => {
            let (l, st1) = eval(*left, st, env, reply, fuel);
            match l {
                Err(f) => (Err(f), st1),
                Ok(lv) => {
                    let decided = match operator.typ {
                        TokenTypeView::Or => truthy(lv),
                        TokenTypeView::And => !truthy(lv),
                        _ => false,
                    };
                    if decided {
                        (Ok(lv), st1)
                    } else {
                        eval(*right, st1, env, reply, fuel)
                    }
                },
            }
        },
        ExprView::Call { callee, paren, arguments } => {
            let (c, st1) = eval(*callee, st, env, reply, fuel);
            match c {
                Err(f) => (Err(f), st1),
                Ok(ValueView::Callable(f)) => if f.params().len() != arguments.len() {
                    (
                        Ok(ValueView::Null),
                        Machine {
                            log: st1.log.push(arity_text(f.params().len(), arguments.len())),
                            ..st1
                        },
                    )
                } else {
                    let (a, st2) = eval_list(arguments, 0, st1, env, reply, fuel);
                    match a {
                        Err(f) => (Err(f), st2),
                        Ok(values) => if fuel == 0 {
                            (Err(Failure::BudgetExhausted), st2)
                        } else {
                            match f {
                                FunView::Native { name, params } => (
                                    Ok(reply(HostCallView::Native(name, values))),
                                    st2,
                                ),
                                FunView::Code { name, params, body, closure } => run(
                                    params,
                                    *body,
                                    closure,
                                    values,
                                    st2,
                                    reply,
                                    (fuel - 1) as nat,
                                ),
                            }
                        },
                    }
                },
                Ok(other) => (Ok(other), st1),
            }
        },
    }
}

/// The values of the expressions of a list from position `from` on,
/// evaluated from left to right, up to the first failure.
pub open spec fn eval_list(
    list: Seq<ExprView>,
    from: nat,
    st: Machine,
    env: usize,
    reply: spec_fn(HostCallView) -> ValueView,
    fuel: nat,
) -> (Result<Seq<ValueView>, Failure>, Machine)
    decreases fuel, list, list.len() - from,
{
    if from >= list.len() {
        (Ok(Seq::empty()), st)
    } else {
        let (r, st1) = eval(list[from as int], st, env, reply, fuel);
        match r {
            Err(f) => (Err(f), st1),
            Ok(v) => {
                let (rest, st2) = eval_list(list, from + 1, st1, env, reply, fuel);
                match rest {
                    Err(f) => (Err(f), st2),
                    Ok(values) => (Ok(seq![v] + values), st2),
                }
            },
        }
    }
}

/// A call of a function of the program: its body runs in a fresh scope
/// under `closure`, the scope the function was declared in, with its
/// parameters bound to the arguments, and the call yields what the body
/// returns, or null. It fails when `closure` is no scope of the store.
pub open spec fn run(
    params: Seq<TokenView>,
    body: StmtView,
    closure: usize,
    arguments: Seq<ValueView>,
    st: Machine,
    reply: spec_fn(HostCallView) -> ValueView,
    fuel: nat,
) -> (Result<ValueView, Failure>, Machine)
    decreases fuel, body, 2nat,
{
    if closure >= st.arena.len() {
        (Err(Failure::UnknownScope(closure)), st)
    } else {
        let scope = st.arena.len();
        let arena = bound(
            added(st.arena, Some(closure)),
            scope as int,
            params,
            arguments,
            params.len(),
        );
        let (r, st1) = exec(body, Machine { arena, ..st }, scope as usize, reply, fuel);
        match r {
            Err(f) => (Err(f), st1),
            Ok(Some(v)) => (Ok(v), st1),
            Ok(None) => (Ok(ValueView::Null), st1),
        }
    }
}

/// A call: a host function is asked of the host by its name, a function of
/// the program is run.
pub open spec fn call(
    f: FunView,
    arguments: Seq<ValueView>,
    st: Machine,
    reply: spec_fn(HostCallView) -> ValueView,
    fuel: nat,
) -> (Result<ValueView, Failure>, Machine) {
    match f {
        FunView::Native { name, params } => (Ok(reply(HostCallView::Native(name, arguments))), st),
        FunView::Code { name, params, body, closure } => run(
            params,
            *body,
            closure,
            arguments,
            st,
            reply,
            fuel,
        ),
    }
}

/// The effect of a statement in scope `env`: the state it leaves, and the
/// value of a `return` that ended it, if one did.
pub open spec fn exec(
    s: StmtView,
    st: Machine,
    env: usize,
    reply: spec_fn(HostCallView) -> ValueView,
    fuel: nat,
) -> (Result<Option<ValueView>, Failure>, Machine)
    decreases fuel, s, 1nat,
{
    match s {
        StmtView::Block { statements } => exec_list(
            statements,
            0,
            Machine { arena: added(st.arena, Some(env)), ..st },
            st.arena.len() as usize,
            reply,
            fuel,
        ),
        StmtView::Expression { expression } => {
            let (r, st1) = eval(expression, st, env, reply, fuel);
            match r {
                Err(f) => (Err(f), st1),
                Ok(_) => (Ok(None), st1),
            }
        },
        StmtView::Print { expression } => {
            let (r, st1) = eval(expression, st, env, reply, fuel);
            match r {
                Err(f) => (Err(f), st1),
                Ok(v) => (Ok(None), Machine { output: st1.output.push(value_text(v)), ..st1 }),
            }
        },
        StmtView::VariableDecl { name, initializer } => {
            let (r, st1) = eval(initializer, st, env, reply, fuel);
            match r {
                Err(f) => (Err(f), st1),
                Ok(v) => (
                    Ok(None),
                    Machine { arena: defined(st1.arena, env as int, name.lexeme, v), ..st1 },
                ),
            }
        },
        StmtView::If { condition, then_branch, else_branch } => {
            let (r, st1) = eval(condition, st, env, reply, fuel);
            match r {
                Err(f) => (Err(f), st1),
                Ok(v) => if truthy(v) {
                    exec(*then_branch, st1, env, reply, fuel)
                } else {
                    match else_branch {
                        Some(e) => exec(*e, st1, env, reply, fuel),
                        None => (Ok(None), st1),
                    }
                },
            }
        },
        StmtView::While { condition, body } => exec_while(s, st, env, reply, fuel),
        StmtView::FunctionDecl { name, params, body } => (
            Ok(None),
            Machine {
                arena: defined(
                    st.arena,
                    env as int,
                    name.lexeme,
                    ValueView::Callable(
                        FunView::Code { name: name.lexeme, params, body, closure: env },
                    ),
                ),
                ..st
            },
        ),
        StmtView::Return { keyword, value } => {
            let (r, st1) = eval(value, st, env, reply, fuel);
            match r {
                Err(f) => (Err(f), st1),
                Ok(v) => (Ok(Some(v)), st1),
            }
        },
    }
}

/// The statements of a list from position `from` on, in order, up to the
/// first that fails or returns.
pub open spec fn exec_list(
    list: Seq<StmtView>,
    from: nat,
    st: Machine,
    env: usize,
    reply: spec_fn(HostCallView) -> ValueView,
    fuel: nat,
) -> (Result<Option<ValueView>, Failure>, Machine)
    decreases fuel, list, list.len() - from,
{
    if from >= list.len() {
        (Ok(None), st)
    } else {
        let (r, st1) = exec(list[from as int], st, env, reply, fuel);
        match r {
            Ok(None) => exec_list(list, from + 1, st1, env, reply, fuel),
            _ => (r, st1),
        }
    }
}

/// A `while` statement: as long as the condition is truthy the body runs;
/// a body that returns ends the loop with that value. Each round takes one
/// unit of the budget.
pub open spec fn exec_while(
    s: StmtView,
    st: Machine,
    env: usize,
    reply: spec_fn(HostCallView) -> ValueView,
    fuel: nat,
) -> (Result<Option<ValueView>, Failure>, Machine)
    decreases fuel, s, 0nat,
{
    match s {
        StmtView::While { condition, body } => if fuel == 0 {
            (Err(Failure::BudgetExhausted), st)
        } else {
            let (c, st1) = eval(condition, st, env, reply, fuel);
            match c {
                Err(f) => (Err(f), st1),
                Ok(v) => if !truthy(v) {
                    (Ok(None), st1)
                } else {
                    let (r, st2) = exec(*body, st1, env, reply, fuel);
                    match r {
                        Ok(None) => exec_while(s, st2, env, reply, (fuel - 1) as nat),
                        _ => (r, st2),
                    }
                },
            }
        },
        _ => (Ok(None), st),
    }
}

/// What a run has printed and logged, for the caller to show.
pub struct Console {
    pub output: Vec<String>,
    pub diagnostics: Vec<String>,
}

impl Console {
    /// The lines printed so far.
    pub open spec fn printed(&self) -> Seq<Seq<char>> {
        texts(self.output@)
    }

    /// The lines logged so far.
    pub open spec fn logged(&self) -> Seq<Seq<char>> {
        texts(self.diagnostics@)
    }

    /// A console with nothing on it.
    pub fn new() -> (console: Console)
        ensures
            console.printed() == Seq::<Seq<char>>::empty(),
            console.logged() == Seq::<Seq<char>>::empty(),
    {
        let console = Console { output: Vec::new(), diagnostics: Vec::new() };
        assert(console.printed() =~= Seq::<Seq<char>>::empty());
        assert(console.logged() =~= Seq::<Seq<char>>::empty());
        console
    }

    /// Adds a printed line.
    pub fn print(&mut self, line: String)
        ensures
            final(self).printed() == old(self).printed().push(line@),
            final(self).logged() == old(self).logged(),
    {
        self.output.push(line);
        assert(self.printed() =~= old(self).printed().push(line@));
    }

    /// Adds a logged line.
    pub fn log(&mut self, line: String)
        ensures
            final(self).logged() == old(self).logged().push(line@),
            final(self).printed() == old(self).printed(),
    {
        self.diagnostics.push(line);
        assert(self.logged() =~= old(self).logged().push(line@));
    }
}

/// The state that a store and a console stand for.
pub open spec fn machine(arena: &EnvironmentArena, console: &Console) -> Machine {
    Machine { arena: arena@, output: console.printed(), log: console.logged() }
}

/// A host that answers every request, and equal requests equally.
pub open spec fn host_ready<H: Fn(HostCall) -> Value>(host: &H) -> bool {
    &&& forall|c: HostCall| #[trigger] host.requires((c,))
    &&& forall|c1: HostCall, c2: HostCall, r1: Value, r2: Value|
        c1@ == c2@ && #[trigger] host.ensures((c1,), r1) && #[trigger] host.ensures((c2,), r2)
            ==> r1@ == r2@
}

/// The answers of a host, as a function of the request.
pub open spec fn host_model<H: Fn(HostCall) -> Value>(host: &H) -> spec_fn(
    HostCallView,
) -> ValueView {
    |c: HostCallView|
        {
            let (request, r) = choose|request: HostCall, r: Value|
                request@ == c && #[trigger] host.ensures((request,), r);
            r@
        }
}

/// Asks the host.
fn ask<H: Fn(HostCall) -> Value>(host: &H, request: HostCall) -> (r: Value)
    requires
        host_ready(host),
    ensures
        r@ == host_model(host)(request@),
{
    let ghost c = request@;
    let ghost sent = request;
    let r = host(request);
    proof {
        assert(sent@ == c && host.ensures((sent,), r));
        let (request2, other): (HostCall, Value) = choose|request: HostCall, other: Value|
            request@ == c && #[trigger] host.ensures((request,), other);
        assert(other@ == r@);
    }
    r
}

/// The view of the outcome of an evaluation.
pub open spec fn value_result(r: Result<Value, RuntimeError>) -> Result<ValueView, Failure> {
    match r {
        Ok(v) => Ok(v@),
        Err(e) => Err(e@),
    }
}

/// The view of the outcome of a statement.
pub open spec fn completion(r: Result<Option<Value>, RuntimeError>) -> Result<
    Option<ValueView>,
    Failure,
> {
    match r {
        Ok(Some(v)) => Ok(Some(v@)),
        Ok(None) => Ok(None),
        Err(e) => Err(e@),
    }
}

fn is_string(v: &Value) -> (b: bool)
    ensures
        b == (v@ is String),
{
    match v {
        Value::String(_) => true,
        _ => false,
    }
}

fn values_are_equal(l: &Value, r: &Value) -> (b: bool)
    ensures
        b == values_equal(l@, r@),
{
    match l {
        Value::Number(a) => match r {
            Value::Number(b) => a.equals(b),
            _ => false,
        },
        Value::String(a) => match r {
            Value::String(b) => *a == *b,
            _ => false,
        },
        Value::Boolean(a) => match r {
            Value::Boolean(b) => *a == *b,
            _ => false,
        },
        Value::Null => match r {
            Value::Null => true,
            _ => false,
        },
        Value::Callable(_) => false,
    }
}

/// Applies a binary operator to two values.
fn apply_binary<H: Fn(HostCall) -> Value>(op: &TokenType, l: Value, r: Value, host: &H) -> (v:
    Value)
    requires
        host_ready(host),
    ensures
        v@ == binary_value(op@, l@, r@, host_model(host)),
{
    match op {
        TokenType::Minus => match (l, r) {
            (Value::Number(a), Value::Number(b)) => ask(host, HostCall::Subtract(a.bits, b.bits)),
            _ => Value::Null,
        },
        TokenType::Slash => match (l, r) {
            (Value::Number(a), Value::Number(b)) => ask(host, HostCall::Divide(a.bits, b.bits)),
            _ => Value::Null,
        },
        TokenType::Star => match (l, r) {
            (Value::Number(a), Value::Number(b)) => ask(host, HostCall::Multiply(a.bits, b.bits)),
            _ => Value::Null,
        },
        TokenType::Plus => if is_string(&l) || is_string(&r) {
            let mut s = l.to_text();
            let second = r.to_text();
            s.append(second.as_str());
            Value::String(s)
        } else {
            match (l, r) {
                (Value::Number(a), Value::Number(b)) => ask(host, HostCall::Add(a.bits, b.bits)),
                _ => Value::Null,
            }
        },
        TokenType::Greater => match (l, r) {
            (Value::Number(a), Value::Number(b)) => Value::Boolean(b.less_than(&a)),
            _ => Value::Boolean(false),
        },
        TokenType::GreaterEqual => match (l, r) {
            (Value::Number(a), Value::Number(b)) => Value::Boolean(b.at_most(&a)),
            _ => Value::Boolean(false),
        },
        TokenType::Less => match (l, r) {
            (Value::Number(a), Value::Number(b)) => Value::Boolean(a.less_than(&b)),
            _ => Value::Boolean(false),
        },
        TokenType::LessEqual => match (l, r) {
            (Value::Number(a), Value::Number(b)) => Value::Boolean(a.at_most(&b)),
            _ => Value::Boolean(false),
        },
        TokenType::BangEqual => Value::Boolean(!values_are_equal(&l, &r)),
        TokenType::EqualEqual => Value::Boolean(values_are_equal(&l, &r)),
        _ => Value::Null,
    }
}

/// Applies a unary operator to a value.
fn apply_unary<H: Fn(HostCall) -> Value>(op: &TokenType, v: Value, host: &H) -> (r: Value)
    requires
        host_ready(host),
    ensures
        r@ == unary_value(op@, v@, host_model(host)),
{
    match op {
        TokenType::Minus => match v {
            Value::Number(n) => ask(host, HostCall::Negate(n.bits)),
            _ => Value::Null,
        },
        TokenType::Bang => Value::Boolean(
            !match v {
                Value::Null => false,
                Value::Boolean(b) => b,
                _ => true,
            },
        ),
        _ => Value::Null,
    }
}

impl Value {
    /// Whether this value counts as true in a condition.
    pub fn is_truthy(&self) -> (b: bool)
        ensures
            b == truthy(self@),
    {
        match self {
            Value::Boolean(b) => *b,
            Value::Null => false,
            Value::String(s) => !s.as_str().is_empty(),
            Value::Number(n) => !n.is_zero(),
            Value::Callable(_) => true,
        }
    }
}

impl Fun {
    /// How many parameters the callable declares.
    pub fn arity(&self) -> (n: usize)
        ensures
            n == self@.params().len(),
    {
        match self {
            Fun::Code { params, .. } => params.len(),
            Fun::Native { params, .. } => params.len(),
        }
    }
}

fn arity_message(expected: usize, found: usize) -> (s: String)
    ensures
        s@ == arity_text(expected as nat, found as nat),
{
    let mut s = String::from_str("Expected ");
    let first = decimal(expected as u64);
    s.append(first.as_str());
    s.append(" arguments, but found ");
    let second = decimal(found as u64);
    s.append(second.as_str());
    s.append(".");
    s
}

impl Expr {
    /// Evaluates this expression in scope `environment`.
    #[verifier::loop_isolation(false)]
    pub fn evaluate<H: Fn(HostCall) -> Value>(
        &self,
        env_arena: &mut EnvironmentArena,
        environment: usize,
        console: &mut Console,
        host: &H,
        budget: u64,
    ) -> (r: Result<Value, RuntimeError>)
        requires
            old(env_arena).wf(),
            environment < old(env_arena)@.len(),
            host_ready(host),
        ensures
            final(env_arena).wf(),
            final(env_arena)@.len() >= old(env_arena)@.len(),
            value_result(r) == eval(
                self@,
                machine(old(env_arena), old(console)),
                environment,
                host_model(host),
                budget as nat,
            ).0,
            machine(final(env_arena), final(console)) == eval(
                self@,
                machine(old(env_arena), old(console)),
                environment,
                host_model(host),
                budget as nat,
            ).1,
        decreases budget, *self, 0nat,
    {
        let ghost reply = host_model(host);
        let ghost fuel = budget as nat;
        match self {
            Expr::Literal { value } => {
                assert(self@ == ExprView::Literal { value: value@ });
                Ok(value.clone())
            },
            Expr::Grouping { expression } => {
                assert(self@ == ExprView::Grouping { expression: Box::new(expression@) });
                expression.evaluate(env_arena, environment, console, host, budget)
            },
            Expr::Variable { name } => {
                assert(self@ == ExprView::Variable { name: name@ });
                match env_arena.get(environment, name) {
                    Ok(v) => Ok(v.clone()),
                    Err(e) => Err(e),
                }
            },
            Expr::Assign { name, value } => {
                assert(self@ == ExprView::Assign { name: name@, value: Box::new(value@) });
                let v = match value.evaluate(env_arena, environment, console, host, budget) {
                    Ok(v) => v,
                    Err(e) => {
                        return Err(e);
                    },
                };
                let kept = v.clone();
                match env_arena.assign(environment, name, v) {
                    Ok(()) => Ok(kept),
                    Err(e) => {
                        console.log(e.message());
                        Ok(Value::Null)
                    },
                }
            },
            Expr::Unary { operator, right } => {
                assert(self@ == ExprView::Unary { operator: operator@, right: Box::new(right@) });
                let v = match right.evaluate(env_arena, environment, console, host, budget) {
                    Ok(v) => v,
                    Err(e) => {
                        return Err(e);
                    },
                };
                Ok(apply_unary(&operator.typ, v, host))
            },
            Expr::Binary { left, operator, right } => {
                assert(self@ == ExprView::Binary {
                    left: Box::new(left@),
                    operator: operator@,
                    right: Box::new(right@),
                });
                let l = match left.evaluate(env_arena, environment, console, host, budget) {
                    Ok(v) => v,
                    Err(e) => {
                        return Err(e);
                    },
                };
                let r = match right.evaluate(env_arena, environment, console, host, budget) {
                    Ok(v) => v,
                    Err(e) => {
                        return Err(e);
                    },
                };
                Ok(apply_binary(&operator.typ, l, r, host))
            },
            Expr::Logical { left, operator, right } => {
                assert(self@ == ExprView::Logical {
                    left: Box::new(left@),
                    operator: operator@,
                    right: Box::new(right@),
                });
                let l = match left.evaluate(env_arena, environment, console, host, budget) {
                    Ok(v) => v,
                    Err(e) => {
                        return Err(e);
                    },
                };
                let decided = match &operator.typ {
                    TokenType::Or => l.is_truthy(),
                    TokenType::And => !l.is_truthy(),
                    _ => false,
                };
                if decided {
                    Ok(l)
                } else {
                    right.evaluate(env_arena, environment, console, host, budget)
                }
            },
            Expr::Call { callee, paren, arguments } => {
                assert(self@ == ExprView::Call {
                    callee: Box::new(callee@),
                    paren: paren@,
                    arguments: list_view(arguments@),
                });
                proof {
                    lemma_expr_views_index(arguments@, arguments@.len());
                }
                let c = match callee.evaluate(env_arena, environment, console, host, budget) {
                    Ok(v) => v,
                    Err(e) => {
                        return Err(e);
                    },
                };
                let f = match c {
                    Value::Callable(f) => f,
                    other => {
                        return Ok(other);
                    },
                };
                if f.arity() != arguments.len() {
                    console.log(arity_message(f.arity(), arguments.len()));
                    return Ok(Value::Null);
                }
                let ghost st1 = machine(env_arena, console);
                let ghost total = eval_list(list_view(arguments@), 0, st1, environment, reply, fuel);
                let mut values: Vec<Value> = Vec::new();
                let mut i: usize = 0;
                assert(value_views(values@) + Seq::<ValueView>::empty() =~= Seq::<
                    ValueView,
                >::empty());
                while i < arguments.len()
                    invariant
                        i <= arguments.len(),
                        values@.len() == i,
                        env_arena.wf(),
                        environment < env_arena@.len(),
                        env_arena@.len() >= old(env_arena)@.len(),
                        match eval_list(
                            list_view(arguments@),
                            i as nat,
                            machine(env_arena, console),
                            environment,
                            reply,
                            fuel,
                        ) {
                            (Err(f), m) => total == (Err::<Seq<ValueView>, Failure>(f), m),
                            (Ok(rest), m) => total.1 == m && total.0 == Ok::<
                                Seq<ValueView>,
                                Failure,
                            >(value_views(values@) + rest),
                        },
                    decreases arguments.len() - i,
                {
                    let ghost before = value_views(values@);
                    match arguments[i].evaluate(env_arena, environment, console, host, budget) {
                        Ok(v) => {
                            values.push(v);
                            proof {
                                assert(value_views(values@) =~= before.push(v@));
                                let next = eval_list(
                                    list_view(arguments@),
                                    (i + 1) as nat,
                                    machine(env_arena, console),
                                    environment,
                                    reply,
                                    fuel,
                                );
                                match next.0 {
                                    Ok(rest) => {
                                        assert(before + (seq![v@] + rest) =~= before.push(v@)
                                            + rest);
                                    },
                                    Err(_) => {},
                                }
                            }
                        },
                        Err(e) => {
                            return Err(e);
                        },
                    }
                    i += 1;
                }
                assert(value_views(values@) + Seq::<ValueView>::empty() =~= value_views(values@));
                if budget == 0 {
                    return Err(RuntimeError::BudgetExhausted);
                }
                f.call(values, env_arena, console, host, budget - 1)
            },
        }
    }

    /// Whether this expression evaluates to a truthy value.
    pub fn is_true<H: Fn(HostCall) -> Value>(
        &self,
        env_arena: &mut EnvironmentArena,
        environment: usize,
        console: &mut Console,
        host: &H,
        budget: u64,
    ) -> (r: Result<bool, RuntimeError>)
        requires
            old(env_arena).wf(),
            environment < old(env_arena)@.len(),
            host_ready(host),
        ensures
            final(env_arena).wf(),
            final(env_arena)@.len() >= old(env_arena)@.len(),
            machine(final(env_arena), final(console)) == eval(
                self@,
                machine(old(env_arena), old(console)),
                environment,
                host_model(host),
                budget as nat,
            ).1,
            match eval(
                self@,
                machine(old(env_arena), old(console)),
                environment,
                host_model(host),
                budget as nat,
            ).0 {
                Ok(v) => r == Ok::<bool, RuntimeError>(truthy(v)),
                Err(f) => r matches Err(e) && e@ == f,
            },
    {
        match self.evaluate(env_arena, environment, console, host, budget) {
            Ok(v) => Ok(v.is_truthy()),
            Err(e) => Err(e),
        }
    }
}

impl Fun {
    /// Calls this callable with the given arguments: a host function is
    /// asked of the host, a function of the program runs its body in a
    /// fresh scope under the scope it was declared in.
    #[verifier::loop_isolation(false)]
    pub fn call<H: Fn(HostCall) -> Value>(
        &self,
        arguments: Vec<Value>,
        env_arena: &mut EnvironmentArena,
        console: &mut Console,
        host: &H,
        budget: u64,
    ) -> (r: Result<Value, RuntimeError>)
        requires
            old(env_arena).wf(),
            host_ready(host),
            self@.params().len() <= arguments@.len(),
        ensures
            final(env_arena).wf(),
            final(env_arena)@.len() >= old(env_arena)@.len(),
            value_result(r) == call(
                self@,
                value_views(arguments@),
                machine(old(env_arena), old(console)),
                host_model(host),
                budget as nat,
            ).0,
            machine(final(env_arena), final(console)) == call(
                self@,
                value_views(arguments@),
                machine(old(env_arena), old(console)),
                host_model(host),
                budget as nat,
            ).1,
        decreases budget, *self, 0nat,
    {
        match self {
            Fun::Native { name, params } => Ok(
                ask(host, HostCall::Native(name.clone(), arguments)),
            ),
            Fun::Code { name, params, body, closure } => {
                if *closure >= env_arena.envs.len() {
                    return Err(RuntimeError::UnknownScope(*closure));
                }
                let ghost start = env_arena@;
                let scope: usize = env_arena.add(Some(*closure));
                let mut i: usize = 0;
                while i < params.len()
                    invariant
                        i <= params.len(),
                        params.len() <= arguments.len(),
                        env_arena.wf(),
                        scope == start.len(),
                        env_arena@.len() == start.len() + 1,
                        env_arena@ == bound(
                            added(start, Some(*closure)),
                            scope as int,
                            token_views(params@),
                            value_views(arguments@),
                            i as nat,
                        ),
                    decreases params.len() - i,
                {
                    env_arena.define(scope, params[i].lexeme.as_str(), arguments[i].clone());
                    i += 1;
                }
                match body.execute(env_arena, scope, console, host, budget) {
                    Err(e) => Err(e),
                    Ok(Some(v)) => Ok(v),
                    Ok(None) => Ok(Value::Null),
                }
            },
        }
    }
}

impl Stmt {
    /// Executes this statement in scope `environment`; yields the value of
    /// a `return` that ended it, if one did.
    #[verifier::loop_isolation(false)]
    pub fn execute<H: Fn(HostCall) -> Value>(
        &self,
        env_arena: &mut EnvironmentArena,
        environment: usize,
        console: &mut Console,
        host: &H,
        budget: u64,
    ) -> (r: Result<Option<Value>, RuntimeError>)
        requires
            old(env_arena).wf(),
            environment < old(env_arena)@.len(),
            host_ready(host),
        ensures
            final(env_arena).wf(),
            final(env_arena)@.len() >= old(env_arena)@.len(),
            completion(r) == exec(
                self@,
                machine(old(env_arena), old(console)),
                environment,
                host_model(host),
                budget as nat,
            ).0,
            machine(final(env_arena), final(console)) == exec(
                self@,
                machine(old(env_arena), old(console)),
                environment,
                host_model(host),
                budget as nat,
            ).1,
        decreases budget, *self, 1nat,
    {
        let ghost reply = host_model(host);
        let ghost fuel = budget as nat;
        match self {
            Stmt::Block { statements } => {
                assert(self@ == StmtView::Block { statements: block_view(statements@) });
                proof {
                    lemma_stmt_views_index(statements@, statements@.len());
                }
                let new_env: usize = env_arena.add(Some(environment));
                let ghost total = exec_list(
                    block_view(statements@),
                    0,
                    machine(env_arena, console),
                    new_env,
                    reply,
                    fuel,
                );
                let mut i: usize = 0;
                while i < statements.len()
                    invariant
                        i <= statements.len(),
                        env_arena.wf(),
                        new_env < env_arena@.len(),
                        env_arena@.len() >= old(env_arena)@.len(),
                        total == exec_list(
                            block_view(statements@),
                            i as nat,
                            machine(env_arena, console),
                            new_env,
                            reply,
                            fuel,
                        ),
                    decreases statements.len() - i,
                {
                    match statements[i].execute(env_arena, new_env, console, host, budget) {
                        Ok(None) => {},
                        Ok(Some(v)) => {
                            return Ok(Some(v));
                        },
                        Err(e) => {
                            return Err(e);
                        },
                    }
                    i += 1;
                }
                Ok(None)
            },
            Stmt::Expression { expression } => {
                assert(self@ == StmtView::Expression { expression: expression@ });
                match expression.evaluate(env_arena, environment, console, host, budget) {
                    Ok(_) => Ok(None),
                    Err(e) => Err(e),
                }
            },
            Stmt::Print { expression } => {
                assert(self@ == StmtView::Print { expression: expression@ });
                match expression.evaluate(env_arena, environment, console, host, budget) {
                    Ok(v) => {
                        console.print(v.to_text());
                        Ok(None)
                    },
                    Err(e) => Err(e),
                }
            },
            Stmt::VariableDecl { name, initializer } => {
                assert(self@ == StmtView::VariableDecl { name: name@, initializer: initializer@ });
                match initializer.evaluate(env_arena, environment, console, host, budget) {
                    Ok(v) => {
                        env_arena.define(environment, name.lexeme.as_str(), v);
                        Ok(None)
                    },
                    Err(e) => Err(e),
                }
            },
            Stmt::If { condition, then_branch, else_branch } => {
                assert(self@ == StmtView::If {
                    condition: condition@,
                    then_branch: Box::new(then_branch@),
                    else_branch: match else_branch {
                        Some(e) => Some(Box::new(e@)),
                        None => None,
                    },
                });
                let v = match condition.evaluate(env_arena, environment, console, host, budget) {
                    Ok(v) => v,
                    Err(e) => {
                        return Err(e);
                    },
                };
                if v.is_truthy() {
                    then_branch.execute(env_arena, environment, console, host, budget)
                } else {
                    match else_branch {
                        Some(e) => e.execute(env_arena, environment, console, host, budget),
                        None => Ok(None),
                    }
                }
            },
            Stmt::While { condition, body } => {
                assert(self@ == StmtView::While { condition: condition@, body: Box::new(body@) });
                let ghost total = exec_while(
                    self@,
                    machine(env_arena, console),
                    environment,
                    reply,
                    fuel,
                );
                let mut left: u64 = budget;
                loop
                    invariant
                        left <= budget,
                        env_arena.wf(),
                        environment < env_arena@.len(),
                        env_arena@.len() >= old(env_arena)@.len(),
                        total == exec_while(
                            self@,
                            machine(env_arena, console),
                            environment,
                            reply,
                            left as nat,
                        ),
                    decreases left,
                {
                    if left == 0 {
                        return Err(RuntimeError::BudgetExhausted);
                    }
                    let v = match condition.evaluate(env_arena, environment, console, host, left) {
                        Ok(v) => v,
                        Err(e) => {
                            return Err(e);
                        },
                    };
                    if !v.is_truthy() {
                        return Ok(None);
                    }
                    match body.execute(env_arena, environment, console, host, left) {
                        Ok(None) => {},
                        Ok(Some(v)) => {
                            return Ok(Some(v));
                        },
                        Err(e) => {
                            return Err(e);
                        },
                    }
                    left = left - 1;
                }
            },
            Stmt::FunctionDecl { name, params, body } => {
                assert(self@ == StmtView::FunctionDecl {
                    name: name@,
                    params: token_views(params@),
                    body: Box::new(body@),
                });
                let fun = Fun::Code {
                    name: name.lexeme.clone(),
                    params: crate::ast::share_all(params),
                    body: crate::ast::share(body),
                    closure: environment,
                };
                env_arena.define(environment, name.lexeme.as_str(), Value::Callable(fun));
                Ok(None)
            },
            Stmt::Return { keyword, value } => {
                assert(self@ == StmtView::Return { keyword: keyword@, value: value@ });
                match value.evaluate(env_arena, environment, console, host, budget) {
                    Ok(v) => Ok(Some(v)),
                    Err(e) => Err(e),
                }
            },
        }
    }
}

/// A program: its statements from position `from` on run in order in scope
/// `env`. A `return` outside of a function ends nothing; the first failure
/// ends the run.
pub open spec fn run_program(
    list: Seq<StmtView>,
    from: nat,
    st: Machine,
    env: usize,
    reply: spec_fn(HostCallView) -> ValueView,
    fuel: nat,
) -> (Result<(), Failure>, Machine)
    decreases list.len() - from,
{
    if from >= list.len() {
        (Ok(()), st)
    } else {
        let (r, st1) = exec(list[from as int], st, env, reply, fuel);
        match r {
            Err(f) => (Err(f), st1),
            Ok(_) => run_program(list, from + 1, st1, env, reply, fuel),
        }
    }
}

/// Runs a program in scope `environment`.
#[verifier::loop_isolation(false)]
pub fn interpret<H: Fn(HostCall) -> Value>(
    statements: &Vec<Stmt>,
    env_arena: &mut EnvironmentArena,
    environment: usize,
    console: &mut Console,
    host: &H,
    budget: u64,
) -> (r: Result<(), RuntimeError>)
    requires
        old(env_arena).wf(),
        environment < old(env_arena)@.len(),
        host_ready(host),
    ensures
        final(env_arena).wf(),
        final(env_arena)@.len() >= old(env_arena)@.len(),
        match run_program(
            block_view(statements@),
            0,
            machine(old(env_arena), old(console)),
            environment,
            host_model(host),
            budget as nat,
        ).0 {
            Ok(_) => r is Ok,
            Err(f) => r matches Err(e) && e@ == f,
        },
        machine(final(env_arena), final(console)) == run_program(
            block_view(statements@),
            0,
            machine(old(env_arena), old(console)),
            environment,
            host_model(host),
            budget as nat,
        ).1,
{
    let ghost reply = host_model(host);
    proof {
        lemma_stmt_views_index(statements@, statements@.len());
    }
    let ghost total = run_program(
        block_view(statements@),
        0,
        machine(env_arena, console),
        environment,
        reply,
        budget as nat,
    );
    let mut i: usize = 0;
    while i < statements.len()
        invariant
            i <= statements.len(),
            env_arena.wf(),
            environment < env_arena@.len(),
            env_arena@.len() >= old(env_arena)@.len(),
            host_ready(host),
            reply == host_model(host),
            total == run_program(
                block_view(statements@),
                i as nat,
                machine(env_arena, console),
                environment,
                reply,
                budget as nat,
            ),
        decreases statements.len() - i,
    {
        match statements[i].execute(env_arena, environment, console, host, budget) {
            Ok(_) => {},
            Err(e) => {
                return Err(e);
            },
        }
        i += 1;
    }
    Ok(())
}

/// An expression that is arithmetic on number literals: number literals,
/// brackets, negation, and `+`, `-`, `*` and `/`.
pub open spec fn numeric(e: ExprView) -> bool
    decreases e,
{
    match e {
        ExprView::Literal { value } => value is Number,
        ExprView::Grouping { expression } => numeric(*expression),
        ExprView::Unary { operator, right } => operator.typ is Minus && numeric(*right),
        ExprView::Binary { left, operator, right } => (operator.typ is Plus || operator.typ is Minus
            || operator.typ is Star || operator.typ is Slash) && numeric(*left) && numeric(
            *right,
        ),
        _ => false,
    }
}

/// The value of arithmetic on number literals: the host's arithmetic,
/// applied along the tree.
pub open spec fn arithmetic(e: ExprView, reply: spec_fn(HostCallView) -> ValueView) -> ValueView
    decreases e,
{
    match e {
        ExprView::Literal { value } => value,
        ExprView::Grouping { expression } => arithmetic(*expression, reply),
        ExprView::Unary { operator, right } => unary_value(
            operator.typ,
            arithmetic(*right, reply),
            reply,
        ),
        ExprView::Binary { left, operator, right } => binary_value(
            operator.typ,
            arithmetic(*left, reply),
            arithmetic(*right, reply),
            reply,
        ),
        _ => ValueView::Null,
    }
}

/// Arithmetic on number literals evaluates to the host's arithmetic
/// applied along the tree, as the tree groups the operands: it does not
/// fail, it leaves the state as it was, and it is the same in every
/// scope, in every state and on every budget.
pub proof fn lemma_arithmetic_follows_the_tree(
    e: ExprView,
    st: Machine,
    env: usize,
    reply: spec_fn(HostCallView) -> ValueView,
    fuel: nat,
)
    requires
        numeric(e),
    ensures
        eval(e, st, env, reply, fuel) == (
            Ok::<ValueView, Failure>(arithmetic(e, reply)),
            st,
        ),
    decreases e,
{
    match e {
        ExprView::Grouping { expression } => {
            lemma_arithmetic_follows_the_tree(*expression, st, env, reply, fuel);
        },
        ExprView::Unary { operator, right } => {
            lemma_arithmetic_follows_the_tree(*right, st, env, reply, fuel);
        },
        ExprView::Binary { left, operator, right } => {
            lemma_arithmetic_follows_the_tree(*left, st, env, reply, fuel);
            lemma_arithmetic_follows_the_tree(*right, st, env, reply, fuel);
        },
        _ => {},
    }
}

} // verus!
