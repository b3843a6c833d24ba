use ceya::ast::Value;
use ceya::environment::{EnvironmentArena, RuntimeError};
use ceya::scanner::{Token, TokenType};

fn name(text: &str) -> Token {
    Token { lexeme: text.into(), line: 1, typ: TokenType::Identifier }
}

fn text(value: &str) -> Value {
    Value::String(value.into())
}

#[test]
fn scopes_get_positions_in_order() {
    let mut arena = EnvironmentArena::new();
    assert_eq!(arena.add(None), 0);
    assert_eq!(arena.add(Some(0)), 1);
    assert_eq!(arena.add(Some(0)), 2);
    assert_eq!(arena.add(Some(2)), 3);
    assert_eq!(arena.envs.len(), 4);
}

#[test]
fn get_walks_the_parent_chain() {
    let mut arena = EnvironmentArena::new();
    let global = arena.add(None);
    let inner = arena.add(Some(global));
    let innermost = arena.add(Some(inner));
    let sibling = arena.add(Some(global));
    arena.define(global, "a", text("global a"));
    arena.define(inner, "b", text("inner b"));
    assert_eq!(arena.get(innermost, &name("a")), Ok(&text("global a")));
    assert_eq!(arena.get(innermost, &name("b")), Ok(&text("inner b")));
    assert_eq!(arena.get(sibling, &name("a")), Ok(&text("global a")));
    assert_eq!(
        arena.get(sibling, &name("b")),
        Err(RuntimeError::UndefinedVariable("b".into()))
    );
    assert_eq!(
        arena.get(global, &name("b")),
        Err(RuntimeError::UndefinedVariable("b".into()))
    );
}

#[test]
fn define_overwrites_in_the_same_scope() {
    let mut arena = EnvironmentArena::new();
    let global = arena.add(None);
    arena.define(global, "a", text("one"));
    arena.define(global, "a", text("two"));
    assert_eq!(arena.get(global, &name("a")), Ok(&text("two")));
}

#[test]
fn shadowing_leaves_the_enclosing_binding() {
    let mut arena = EnvironmentArena::new();
    let global = arena.add(None);
    arena.define(global, "a", Value::Boolean(true));
    let block = arena.add(Some(global));
    arena.define(block, "a", Value::Boolean(false));
    assert_eq!(arena.get(block, &name("a")), Ok(&Value::Boolean(false)));
    assert_eq!(arena.assign(block, &name("a"), Value::Null), Ok(()));
    assert_eq!(arena.get(block, &name("a")), Ok(&Value::Null));
    assert_eq!(arena.get(global, &name("a")), Ok(&Value::Boolean(true)));
}

#[test]
fn assign_reaches_the_nearest_binding() {
    let mut arena = EnvironmentArena::new();
    let global = arena.add(None);
    let inner = arena.add(Some(global));
    let innermost = arena.add(Some(inner));
    arena.define(global, "a", text("global"));
    arena.define(inner, "a", text("inner"));
    assert_eq!(arena.assign(innermost, &name("a"), text("changed")), Ok(()));
    assert_eq!(arena.get(inner, &name("a")), Ok(&text("changed")));
    assert_eq!(arena.get(global, &name("a")), Ok(&text("global")));
    assert_eq!(
        arena.get(innermost, &name("a")),
        Ok(&text("changed"))
    );
}

#[test]
fn assignment_is_seen_from_a_scope_opened_later() {
    let mut arena = EnvironmentArena::new();
    let global = arena.add(None);
    let captured = arena.add(Some(global));
    arena.define(global, "x", text("before"));
    let elsewhere = arena.add(Some(global));
    assert_eq!(arena.assign(elsewhere, &name("x"), text("after")), Ok(()));
    let call = arena.add(Some(captured));
    assert_eq!(arena.get(call, &name("x")), Ok(&text("after")));
}

#[test]
fn assign_to_an_unbound_name_fails_and_creates_nothing() {
    let mut arena = EnvironmentArena::new();
    let global = arena.add(None);
    let inner = arena.add(Some(global));
    assert_eq!(
        arena.assign(inner, &name("ghost"), Value::Null),
        Err(RuntimeError::UndefinedVariable("ghost".into()))
    );
    assert_eq!(
        arena.get(inner, &name("ghost")),
        Err(RuntimeError::UndefinedVariable("ghost".into()))
    );
    assert_eq!(
        arena.get(global, &name("ghost")),
        Err(RuntimeError::UndefinedVariable("ghost".into()))
    );
}

#[test]
fn failures_render_their_message() {
    assert_eq!(
        RuntimeError::UndefinedVariable("x".into()).message(),
        "Undefined variable 'x'"
    );
    assert_eq!(RuntimeError::BudgetExhausted.message(), "Budget exhausted.");
    assert_eq!(RuntimeError::UnknownScope(3).message(), "Function from another store.");
}

#[test]
fn default_env_is_the_global_scope() {
    let mut arena = EnvironmentArena::new();
    let global = arena.add(None);
    arena.define(global, "a", Value::Null);
    let _scope = arena.default_env();
    assert_eq!(arena.get(global, &name("a")), Ok(&Value::Null));
}
