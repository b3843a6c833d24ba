//! Lexical scopes: an append-only store of scope records, each with its
//! bindings and a link to the scope around it.

use vstd::prelude::*;
use vstd::hash_map::StringHashMap;
use vstd::string::StringExecFns;
use crate::ast::Value;
use crate::ast::ValueView;
use crate::scanner::Token;

verus! {

/// A runtime failure.
#[derive(Debug, PartialEq)]
pub enum RuntimeError {
    /// A name was used that no scope on the chain binds.
    UndefinedVariable(String),
    /// The budget of the run was used up.
    BudgetExhausted,
    /// A function was called whose defining scope is not in the store.
    UnknownScope(usize),
}

/// A runtime failure in contracts.
pub enum Failure {
    UndefinedVariable(Seq<char>),
    BudgetExhausted,
    UnknownScope(usize),
}

impl View for RuntimeError {
    type V = Failure;

    open spec fn view(&self) -> Failure {
        match *self {
            RuntimeError::UndefinedVariable(name) => Failure::UndefinedVariable(name@),
            RuntimeError::BudgetExhausted => Failure::BudgetExhausted,
            RuntimeError::UnknownScope(scope) => Failure::UnknownScope(scope),
        }
    }
}

/// The message of an undefined name.
pub open spec fn undefined_text(name: Seq<char>) -> Seq<char> {
    "Undefined variable '"@ + name + "'"@
}

/// The message of a failure.
pub open spec fn failure_text(failure: Failure) -> Seq<char> {
    match failure {
        Failure::UndefinedVariable(name) => undefined_text(name),
        Failure::BudgetExhausted => "Budget exhausted."@,
        Failure::UnknownScope(_) => "Function from another store."@,
    }
}

impl RuntimeError {
    /// Renders this failure for display.
    pub fn message(&self) -> (s: String)
        ensures
            s@ == failure_text(self@),
    {
        match self {
            RuntimeError::UndefinedVariable(name) => {
                let mut s = String::from_str("Undefined variable '");
                s.append(name.as_str());
                s.append("'");
                s
            },
            RuntimeError::BudgetExhausted => String::from_str("Budget exhausted."),
            RuntimeError::UnknownScope(_) => String::from_str("Function from another store."),
        }
    }
}

/// One scope: its bindings and the scope around it.
pub struct Environment {
    parent: Option<usize>,
    values: StringHashMap<Value>,
}

/// A scope in contracts.
pub struct ScopeView {
    pub parent: Option<usize>,
    pub values: Map<Seq<char>, ValueView>,
}

impl View for Environment {
    type V = ScopeView;

    closed spec fn view(&self) -> ScopeView {
        ScopeView { parent: self.parent, values: self.values@.map_values(|v: Value| v@) }
    }
}

/// The scopes of a run. A scope is known by its position, which never
/// changes; position 0 is the global scope.
pub struct EnvironmentArena {
    pub envs: Vec<Environment>,
}

impl View for EnvironmentArena {
    type V = Seq<ScopeView>;

    open spec fn view(&self) -> Seq<ScopeView> {
        self.envs@.map_values(|e: Environment| e@)
    }
}

/// Every parent link points to an earlier scope, so the links form a
/// forest without cycles.
pub open spec fn links_back(arena: Seq<ScopeView>) -> bool {
    forall|i: int|
        0 <= i < arena.len() ==> (#[trigger] arena[i].parent matches Some(p) ==> p < i)
}

/// The scope that binds `name` for code running in scope `env`: the nearest
/// one on the chain of parents, `env` itself included.
pub open spec fn resolve(arena: Seq<ScopeView>, env: int, name: Seq<char>) -> Option<int>
    decreases env,
{
    if env < 0 || env >= arena.len() {
        None
    } else if arena[env].values.contains_key(name) {
        Some(env)
    } else {
        match arena[env].parent {
            Some(p) => if p < env {
                resolve(arena, p as int, name)
            } else {
                None
            },
            None => None,
        }
    }
}

/// The value of `name` for code running in scope `env`.
pub open spec fn lookup(arena: Seq<ScopeView>, env: int, name: Seq<char>) -> Option<ValueView> {
    match resolve(arena, env, name) {
        Some(s) => Some(arena[s].values[name]),
        None => None,
    }
}

/// The store with one more scope, empty, under `parent`.
pub open spec fn added(arena: Seq<ScopeView>, parent: Option<usize>) -> Seq<ScopeView> {
    arena.push(ScopeView { parent, values: Map::empty() })
}

/// The store after `name` is bound to `value` in scope `env` itself.
pub open spec fn defined(arena: Seq<ScopeView>, env: int, name: Seq<char>, value: ValueView) -> Seq<
    ScopeView,
> {
    arena.update(
        env,
        ScopeView { parent: arena[env].parent, values: arena[env].values.insert(name, value) },
    )
}

/// The store after `value` is assigned to `name` from scope `env`: the
/// scope that binds the name gets the value, and nothing changes when no
/// scope binds it.
pub open spec fn assigned(arena: Seq<ScopeView>, env: int, name: Seq<char>, value: ValueView) -> Seq<
    ScopeView,
> {
    match resolve(arena, env, name) {
        Some(s) => defined(arena, s, name, value),
        None => arena,
    }
}

impl EnvironmentArena {
    /// Whether the parent links of this store point backwards.
    pub open spec fn wf(&self) -> bool {
        links_back(self@)
    }

    /// A store without scopes.
    pub fn new() -> (arena: EnvironmentArena)
        ensures
            arena@.len() == 0,
            arena.wf(),
    {
        EnvironmentArena { envs: Vec::new() }
    }

    /// Appends an empty scope under `parent` and returns its position.
    pub fn add(&mut self, parent: Option<usize>) -> (id: usize)
        requires
            old(self).wf(),
            parent matches Some(p) ==> p < old(self)@.len(),
        ensures
            id == old(self)@.len(),
            final(self)@ == added(old(self)@, parent),
            final(self).wf(),
    {
        let next_index: usize = self.envs.len();
        let env = Environment { parent, values: StringHashMap::new() };
        proof {
            assert(env@.values =~= Map::empty());
        }
        self.envs.push(env);
        proof {
            assert(self@ =~= added(old(self)@, parent));
        }
        next_index
    }

    /// Binds `name` to `value` in scope `env` itself, over any binding the
    /// scope had for that name.
    pub fn define(&mut self, env: usize, name: &str, value: Value)
        requires
            old(self).wf(),
            env < old(self)@.len(),
        ensures
            final(self)@ == defined(old(self)@, env as int, name@, value@),
            final(self)@.len() == old(self)@.len(),
            final(self).wf(),
    {
        self.envs[env].values.insert(String::from_str(name), value);
        proof {
            assert(self.envs@[env as int]@.values =~= old(self)@[env as int].values.insert(
                name@,
                value@,
            ));
            assert(self@ =~= defined(old(self)@, env as int, name@, value@));
        }
    }

    /// Reads `name` from scope `env` or the nearest scope around it that
    /// binds it; fails, naming the identifier, when none does.
    pub fn get(&self, env: usize, name: &Token) -> (r: Result<&Value, RuntimeError>)
        requires
            self.wf(),
            env < self@.len(),
        ensures
            match lookup(self@, env as int, name.lexeme@) {
                Some(v) => r matches Ok(found) && found@ == v,
                None => r matches Err(e) && e@ == Failure::UndefinedVariable(name.lexeme@),
            },
        decreases env,
    {
        let scope = &self.envs[env];
        assert(scope@ == self@[env as int]);
        match scope.values.get(name.lexeme.as_str()) {
            Some(v) => Ok(v),
            None => match scope.parent {
                Some(parent) => self.get(parent, name),
                None => Err(RuntimeError::UndefinedVariable(name.lexeme.clone())),
            },
        }
    }

    /// Assigns `value` to `name` in the nearest scope, from `env` outwards,
    /// that binds it; fails, naming the identifier and changing nothing,
    /// when none does.
    pub fn assign(&mut self, env: usize, name: &Token, value: Value) -> (r: Result<
        (),
        RuntimeError,
    >)
        requires
            old(self).wf(),
            env < old(self)@.len(),
        ensures
            final(self)@ == assigned(old(self)@, env as int, name.lexeme@, value@),
            final(self)@.len() == old(self)@.len(),
            final(self).wf(),
            match resolve(old(self)@, env as int, name.lexeme@) {
                Some(_) => r is Ok,
                None => r matches Err(e) && e@ == Failure::UndefinedVariable(name.lexeme@),
            },
        decreases env,
    {
        assert(self.envs@[env as int]@ == self@[env as int]);
        if self.envs[env].values.contains_key(name.lexeme.as_str()) {
            self.define(env, name.lexeme.as_str(), value);
            return Ok(());
        }
        match self.envs[env].parent {
            Some(parent) => self.assign(parent, name, value),
            None => Err(RuntimeError::UndefinedVariable(name.lexeme.clone())),
        }
    }
}

impl EnvironmentArena {
    /// The global scope, for the host to fill before a run.
    pub fn default_env(&mut self) -> (global: &mut Environment)
        requires
            old(self)@.len() > 0,
        ensures
            *global == old(self).envs@[0],
            final(self).envs@ == old(self).envs@.update(0, *final(global)),
    {
        &mut self.envs[0]
    }
}

/// A name resolves to a scope on the chain, at or before the starting
/// scope, and that scope binds the name.
pub proof fn lemma_resolve_binds(arena: Seq<ScopeView>, env: int, name: Seq<char>)
    ensures
        resolve(arena, env, name) matches Some(s) ==> 0 <= s <= env < arena.len()
            && arena[s].values.contains_key(name),
    decreases env,
{
    if 0 <= env < arena.len() && !arena[env].values.contains_key(name) {
        if let Some(p) = arena[env].parent {
            if p < env {
                lemma_resolve_binds(arena, p as int, name);
            }
        }
    }
}

/// Scopes that are appended, and whatever happens in them, are not seen
/// from the scopes that were there before: a store that agrees with
/// `arena` on the scopes of `arena` resolves every name, from each of
/// them, as `arena` does.
pub proof fn lemma_older_scopes_unaffected(
    arena: Seq<ScopeView>,
    later: Seq<ScopeView>,
    from: int,
    name: Seq<char>,
)
    requires
        arena.len() <= later.len(),
        forall|i: int| 0 <= i < arena.len() ==> later[i] == arena[i],
        0 <= from < arena.len(),
    ensures
        resolve(later, from, name) == resolve(arena, from, name),
        lookup(later, from, name) == lookup(arena, from, name),
    decreases from,
{
    lemma_resolve_binds(arena, from, name);
    if !arena[from].values.contains_key(name) {
        if let Some(p) = arena[from].parent {
            if p < from {
                lemma_older_scopes_unaffected(arena, later, p as int, name);
            }
        }
    }
}

/// Shadowing. After a block opens a scope under `enclosing` and declares
/// `name` in it, the block reads the declared value, and also after the
/// block assigns to `name`, every name reads from every scope that existed
/// before the block as it did before: when the block is left, the
/// enclosing binding of `name` has its earlier value.
pub proof fn lemma_shadowing_is_local(
    arena: Seq<ScopeView>,
    enclosing: usize,
    name: Seq<char>,
    declared: ValueView,
    reassigned: ValueView,
    from: int,
    other: Seq<char>,
)
    requires
        links_back(arena),
        enclosing < arena.len(),
        0 <= from < arena.len(),
    ensures
        ({
            let block = arena.len() as int;
            let inside = defined(added(arena, Some(enclosing)), block, name, declared);
            let later = assigned(inside, block, name, reassigned);
            &&& lookup(inside, block, name) == Some(declared)
            &&& lookup(later, block, name) == Some(reassigned)
            &&& lookup(inside, from, other) == lookup(arena, from, other)
            &&& lookup(later, from, other) == lookup(arena, from, other)
        }),
{
    let block = arena.len() as int;
    let inside = defined(added(arena, Some(enclosing)), block, name, declared);
    let later = assigned(inside, block, name, reassigned);
    assert(inside[block].values.contains_key(name));
    assert(resolve(inside, block, name) == Some(block));
    assert(later == defined(inside, block, name, reassigned));
    assert(later[block].values.contains_key(name));
    assert(resolve(later, block, name) == Some(block));
    lemma_older_scopes_unaffected(arena, inside, from, other);
    lemma_older_scopes_unaffected(arena, later, from, other);
}

/// Binding a name that a scope already binds changes no scope's names, so
/// every name resolves as before.
pub proof fn lemma_rebinding_keeps_resolution(
    arena: Seq<ScopeView>,
    scope: int,
    name: Seq<char>,
    value: ValueView,
    from: int,
    other: Seq<char>,
)
    requires
        0 <= scope < arena.len(),
        arena[scope].values.contains_key(name),
    ensures
        resolve(defined(arena, scope, name, value), from, other) == resolve(arena, from, other),
    decreases from,
{
    let after = defined(arena, scope, name, value);
    if 0 <= from < arena.len() {
        assert(after[from].parent == arena[from].parent);
        assert(after[from].values.contains_key(other) == arena[from].values.contains_key(other));
        if !arena[from].values.contains_key(other) {
            if let Some(p) = arena[from].parent {
                if p < from {
                    lemma_rebinding_keeps_resolution(arena, scope, name, value, p as int, other);
                }
            }
        }
    }
}

/// Closures read through their scope, they hold no copy. When an
/// assignment to `name`, made from scope `from`, reaches the binding that
/// the defining scope `captured` of a function sees, a call of the
/// function made afterwards, which runs in a fresh scope under `captured`,
/// reads the assigned value.
pub proof fn lemma_closure_sees_assignment(
    arena: Seq<ScopeView>,
    captured: usize,
    from: int,
    name: Seq<char>,
    value: ValueView,
)
    requires
        links_back(arena),
        captured < arena.len(),
        0 <= from < arena.len(),
        resolve(arena, from, name) is Some,
        resolve(arena, from, name) == resolve(arena, captured as int, name),
    ensures
        lookup(added(assigned(arena, from, name, value), Some(captured)), arena.len() as int, name)
            == Some(value),
        lookup(assigned(arena, from, name, value), captured as int, name) == Some(value),
{
    let target = resolve(arena, from, name)->0;
    lemma_resolve_binds(arena, from, name);
    let after = assigned(arena, from, name, value);
    assert(after == defined(arena, target, name, value));
    lemma_rebinding_keeps_resolution(arena, target, name, value, captured as int, name);
    assert(after[target].values[name] == value);
    let called = added(after, Some(captured));
    let fresh = arena.len() as int;
    assert(called[fresh].parent == Some(captured));
    assert(!called[fresh].values.contains_key(name));
    lemma_older_scopes_unaffected(after, called, captured as int, name);
    assert(resolve(called, fresh, name) == resolve(called, captured as int, name));
}

/// An assignment creates no binding: each scope binds the same names after
/// it as before, under the same parent, and when no scope on the chain
/// binds the name the store is unchanged.
pub proof fn lemma_assign_creates_no_binding(
    arena: Seq<ScopeView>,
    env: int,
    name: Seq<char>,
    value: ValueView,
)
    ensures
        ({
            let after = assigned(arena, env, name, value);
            &&& after.len() == arena.len()
            &&& resolve(arena, env, name) is None ==> after == arena
            &&& forall|i: int|
                0 <= i < arena.len() ==> (#[trigger] after[i]).parent == arena[i].parent
                    && after[i].values.dom() == arena[i].values.dom()
            &&& forall|from: int, other: Seq<char>|
                resolve(after, from, other) == resolve(arena, from, other)
        }),
{
    let after = assigned(arena, env, name, value);
    lemma_resolve_binds(arena, env, name);
    match resolve(arena, env, name) {
        Some(s) => {
            assert(arena[s].values.insert(name, value).dom() =~= arena[s].values.dom());
            assert forall|from: int, other: Seq<char>|
                resolve(after, from, other) == resolve(arena, from, other) by {
                lemma_rebinding_keeps_resolution(arena, s, name, value, from, other);
            }
        },
        None => {},
    }
}

} // verus!
