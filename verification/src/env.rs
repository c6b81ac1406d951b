//! Environments: scopes that bind names to values, each linked to the scope
//! that encloses it.
//!
//! The scopes of one evaluation live side by side in one `Environment`, each
//! under its index. A closure names the scope it was defined in by that
//! index, and so do the links between scopes. A binding made in a scope is
//! therefore seen at once by every closure and every call that reaches the
//! scope through its links.

use vstd::prelude::*;
use crate::object::{Object, ObjectView};

verus! {

/// One scope: its bindings and the index of the scope that encloses it.
#[derive(Debug)]
pub struct Scope {
    store: Vec<(String, Object)>,
    outer: Option<usize>,
}

/// The mathematical value of a [`Scope`].
pub struct ScopeView {
    pub store: Map<Seq<char>, ObjectView>,
    pub outer: Option<nat>,
}

/// The scopes of an evaluation and the index of the one in which
/// evaluation currently takes place.
#[derive(Debug)]
pub struct Environment {
    scopes: Vec<Scope>,
    current: usize,
}

/// The mathematical value of an [`Environment`].
pub struct EnvironmentView {
    pub scopes: Seq<ScopeView>,
    pub current: nat,
}

/// The map that a list of bindings stands for: a later binding of a name
/// replaces an earlier one.
pub open spec fn bindings_map(bindings: Seq<(String, Object)>) -> Map<Seq<char>, ObjectView>
    decreases bindings.len(),
{
    if bindings.len() == 0 {
        Map::empty()
    } else {
        bindings_map(bindings.drop_last()).insert(bindings.last().0@, bindings.last().1@)
    }
}

/// The value that `store` binds to `key`, if any.
pub open spec fn binding(store: Map<Seq<char>, ObjectView>, key: Seq<char>) -> Option<ObjectView> {
    if store.contains_key(key) {
        Some(store[key])
    } else {
        None
    }
}

/// Looks `key` up in the scope `at` and, where that scope does not bind it,
/// outward through the enclosing scopes. A link is followed only to a scope
/// with a smaller index: scopes are made after the scopes that enclose them.
pub open spec fn lookup_from(scopes: Seq<ScopeView>, at: nat, key: Seq<char>) -> Option<ObjectView>
    decreases at,
{
    if at >= scopes.len() {
        None
    } else if scopes[at as int].store.contains_key(key) {
        Some(scopes[at as int].store[key])
    } else {
        match scopes[at as int].outer {
            Some(outer) => if outer < at {
                lookup_from(scopes, outer, key)
            } else {
                None
            },
            None => None,
        }
    }
}

impl ScopeView {
    /// A scope without bindings.
    pub open spec fn empty(outer: Option<nat>) -> ScopeView {
        ScopeView { store: Map::empty(), outer }
    }
}

impl EnvironmentView {
    /// One scope without bindings and without an enclosing scope.
    pub open spec fn root() -> EnvironmentView {
        EnvironmentView { scopes: seq![ScopeView::empty(None)], current: 0 }
    }

    /// The value that `key` is bound to, seen from the current scope.
    pub open spec fn lookup(self, key: Seq<char>) -> Option<ObjectView> {
        lookup_from(self.scopes, self.current, key)
    }

    /// The environment after `key` is bound to `value` in the current scope.
    pub open spec fn bind(self, key: Seq<char>, value: ObjectView) -> EnvironmentView {
        if self.current < self.scopes.len() {
            EnvironmentView {
                scopes: self.scopes.update(
                    self.current as int,
                    ScopeView {
                        store: self.scopes[self.current as int].store.insert(key, value),
                        outer: self.scopes[self.current as int].outer,
                    },
                ),
                current: self.current,
            }
        } else {
            self
        }
    }

    /// The environment after a new scope without bindings, enclosed by the
    /// scope `outer`, is added and made the current one.
    pub open spec fn enter(self, outer: nat) -> EnvironmentView {
        EnvironmentView {
            scopes: self.scopes.push(ScopeView::empty(Some(outer))),
            current: self.scopes.len(),
        }
    }

    /// The environment with `scope` as the current scope, where there is
    /// such a scope.
    pub open spec fn select(self, scope: nat) -> EnvironmentView {
        if scope < self.scopes.len() {
            EnvironmentView { scopes: self.scopes, current: scope }
        } else {
            self
        }
    }
}

impl View for Scope {
    type V = ScopeView;

    closed spec fn view(&self) -> ScopeView {
        ScopeView {
            store: bindings_map(self.store@),
            outer: match self.outer {
                Some(outer) => Some(outer as nat),
                None => None,
            },
        }
    }
}

impl Scope {
    /// The value that this scope itself binds to `key`, if any.
    fn find(&self, key: &String) -> (found: Option<&Object>)
        ensures
            match binding(self@.store, key@) {
                Some(value) => found matches Some(object) && object@ == value,
                None => found is None,
            },
    {
        let mut i: usize = self.store.len();
        assert(self.store@.take(i as int) =~= self.store@);
        while i > 0
            invariant
                i <= self.store.len(),
                binding(bindings_map(self.store@), key@) == binding(
                    bindings_map(self.store@.take(i as int)),
                    key@,
                ),
            decreases i,
        {
            i = i - 1;
            proof {
                let prefix = self.store@.take(i as int + 1);
                assert(prefix.drop_last() =~= self.store@.take(i as int));
                assert(prefix.last() == self.store@[i as int]);
            }
            if self.store[i].0 == *key {
                return Some(&self.store[i].1);
            }
        }
        None
    }
}

/// Replacing the last binding of a name by another binding of that name
/// binds the name anew and leaves every other name as it was.
proof fn rebinding(bindings: Seq<(String, Object)>, at: int, entry: (String, Object))
    requires
        0 <= at < bindings.len(),
        bindings[at].0@ == entry.0@,
        forall|j: int| at < j < bindings.len() ==> (#[trigger] bindings[j]).0@ != entry.0@,
    ensures
        bindings_map(bindings.update(at, entry)) == bindings_map(bindings).insert(
            entry.0@,
            entry.1@,
        ),
    decreases bindings.len(),
{
    let replaced = bindings.update(at, entry);
    if at == bindings.len() - 1 {
        assert(replaced.drop_last() =~= bindings.drop_last());
        assert(bindings_map(replaced) =~= bindings_map(bindings).insert(entry.0@, entry.1@));
    } else {
        rebinding(bindings.drop_last(), at, entry);
        assert(replaced.drop_last() =~= bindings.drop_last().update(at, entry));
        assert(replaced.last() == bindings.last());
        assert(bindings.last().0@ != entry.0@);
        assert(bindings_map(replaced) =~= bindings_map(bindings).insert(entry.0@, entry.1@));
    }
}

impl Scope {
    /// Binds `key` to `value` in this scope: the binding of `key` is
    /// replaced where there is one, and a binding is added where there is
    /// none.
    fn bind(&mut self, key: String, value: Object)
        ensures
            final(self)@.store == old(self)@.store.insert(key@, value@),
            final(self)@.outer == old(self)@.outer,
    {
        let mut i: usize = self.store.len();
        while i > 0
            invariant
                i <= self.store.len(),
                self.store == old(self).store,
                self.outer == old(self).outer,
                forall|j: int| i <= j < self.store.len() ==> (#[trigger] self.store@[j]).0@ != key@,
            decreases i,
        {
            i = i - 1;
            if self.store[i].0 == key {
                proof {
                    rebinding(self.store@, i as int, (key, value));
                }
                self.store.set(i, (key, value));
                return ;
            }
        }
        let ghost before = self.store@;
        self.store.push((key, value));
        assert(self.store@.drop_last() =~= before);
    }
}

impl Clone for Scope {
    fn clone(&self) -> (res: Self)
        ensures
            res@ == self@,
    {
        let mut store: Vec<(String, Object)> = Vec::new();
        let mut i: usize = 0;
        assert(self.store@.take(0) =~= store@);
        while i < self.store.len()
            invariant
                i <= self.store.len(),
                store.len() == i,
                bindings_map(store@) == bindings_map(self.store@.take(i as int)),
            decreases self.store.len() - i,
        {
            let ghost before = store@;
            store.push((self.store[i].0.clone(), self.store[i].1.clone()));
            proof {
                let prefix = self.store@.take(i as int + 1);
                assert(prefix.drop_last() =~= self.store@.take(i as int));
                assert(store@.drop_last() =~= before);
            }
            i = i + 1;
        }
        assert(self.store@.take(i as int) =~= self.store@);
        Scope { store, outer: self.outer }
    }
}

/// The views of a sequence of scopes.
pub open spec fn scope_views(scopes: Seq<Scope>) -> Seq<ScopeView> {
    Seq::new(scopes.len(), |i: int| scopes[i]@)
}

impl View for Environment {
    type V = EnvironmentView;

    closed spec fn view(&self) -> EnvironmentView {
        EnvironmentView { scopes: scope_views(self.scopes@), current: self.current as nat }
    }
}

impl Clone for Environment {
    /// A copy of the environment. The copy shares nothing with the
    /// environment it was made from: a binding made in one of them is not
    /// seen in the other.
    fn clone(&self) -> (res: Self)
        ensures
            res@ == self@,
    {
        let mut scopes: Vec<Scope> = Vec::new();
        let mut i: usize = 0;
        while i < self.scopes.len()
            invariant
                i <= self.scopes.len(),
                scopes.len() == i,
                forall|j: int| 0 <= j < i ==> scopes[j]@ == self.scopes[j]@,
            decreases self.scopes.len() - i,
        {
            scopes.push(self.scopes[i].clone());
            i = i + 1;
        }
        let res = Environment { scopes, current: self.current };
        assert(res@.scopes =~= self@.scopes);
        res
    }
}

impl Environment {
    /// An environment of one scope without bindings.
    pub fn new() -> (env: Environment)
        ensures
            env@ == EnvironmentView::root(),
    {
        let mut scopes: Vec<Scope> = Vec::new();
        scopes.push(Scope { store: Vec::new(), outer: None });
        let env = Environment { scopes, current: 0 };
        assert(env@.scopes =~= EnvironmentView::root().scopes) by {
            assert(env.scopes@[0]@.store =~= Map::<Seq<char>, ObjectView>::empty());
        }
        env
    }

    /// The environment `host` with a new scope without bindings in it,
    /// enclosed by the scope that was current in `host`, and made current.
    pub fn virtual_environment(host: Environment) -> (env: Environment)
        ensures
            env@ == host@.enter(host@.current),
    {
        let mut env = host;
        let outer = env.current();
        env.enter(outer);
        env
    }

    /// The index of the current scope.
    pub fn current(&self) -> (scope: usize)
        ensures
            scope == self@.current,
    {
        self.current
    }

    /// Adds a scope without bindings, enclosed by the scope `outer`, and
    /// makes it the current one. Returns the index of the scope that was
    /// current before.
    pub fn enter(&mut self, outer: usize) -> (previous: usize)
        ensures
            final(self)@ == old(self)@.enter(outer as nat),
            previous == old(self)@.current,
    {
        let previous = self.current;
        let index = self.scopes.len();
        let scope = Scope { store: Vec::new(), outer: Some(outer) };
        assert(scope@.store =~= Map::<Seq<char>, ObjectView>::empty());
        self.scopes.push(scope);
        self.current = index;
        assert(self@.scopes =~= old(self)@.enter(outer as nat).scopes);
        previous
    }

    /// Makes `scope` the current scope, where there is such a scope.
    pub fn select(&mut self, scope: usize)
        ensures
            final(self)@ == old(self)@.select(scope as nat),
    {
        if scope < self.scopes.len() {
            self.current = scope;
        }
    }

    /// The value that `key` is bound to, seen from the current scope: the
    /// binding of the current scope or else of the nearest enclosing scope
    /// that has one.
    pub fn lookup(&self, key: &String) -> (found: Option<Object>)
        ensures
            match self@.lookup(key@) {
                Some(value) => found matches Some(object) && object@ == value,
                None => found is None,
            },
    {
        let mut at: usize = self.current;
        loop
            invariant
                lookup_from(self@.scopes, at as nat, key@) == self@.lookup(key@),
            decreases at,
        {
            if at >= self.scopes.len() {
                return None;
            }
            let scope = &self.scopes[at];
            match scope.find(key) {
                Some(object) => {
                    return Some(object.clone());
                },
                None => {},
            }
            match scope.outer {
                Some(outer) => {
                    if outer < at {
                        at = outer;
                    } else {
                        return None;
                    }
                },
                None => {
                    return None;
                },
            }
        }
    }

    /// The value that `key` is bound to, seen from the current scope.
    pub fn get(&self, key: &str) -> (found: Option<Object>)
        ensures
            match self@.lookup(key@) {
                Some(value) => found matches Some(object) && object@ == value,
                None => found is None,
            },
    {
        let key = String::from_str(key);
        self.lookup(&key)
    }

    /// Binds `key` to `value` in the current scope. An earlier binding of
    /// `key` in that scope is replaced; bindings of `key` in enclosing
    /// scopes stay as they are, hidden from the current scope.
    pub fn set(&mut self, key: String, value: Object)
        ensures
            final(self)@ == old(self)@.bind(key@, value@),
    {
        let at = self.current;
        if at < self.scopes.len() {
            self.scopes[at].bind(key, value);
            assert(self@.scopes =~= old(self)@.bind(key@, value@).scopes);
        }
    }
}


/// Whether the links from the scope `from` lead to the scope `to` through
/// scopes that do not bind `key` themselves.
pub open spec fn leads_to(scopes: Seq<ScopeView>, from: nat, to: nat, key: Seq<char>) -> bool
    decreases from,
{
    from < scopes.len() && (from == to || (!scopes[from as int].store.contains_key(key)
        && match scopes[from as int].outer {
        Some(outer) => outer < from && leads_to(scopes, outer, to, key),
        None => false,
    }))
}

/// A name is bound to the value that was bound to it last in the current
/// scope.
pub proof fn bound_value_is_found(env: EnvironmentView, key: Seq<char>, value: ObjectView)
    requires
        env.current < env.scopes.len(),
    ensures
        env.bind(key, value).lookup(key) == Some(value),
{
}

/// Binding one name leaves every other name as it was.
pub proof fn other_names_are_untouched(
    env: EnvironmentView,
    key: Seq<char>,
    value: ObjectView,
    from: nat,
    other: Seq<char>,
)
    requires
        other != key,
    ensures
        lookup_from(env.bind(key, value).scopes, from, other) == lookup_from(
            env.scopes,
            from,
            other,
        ),
    decreases from,
{
    if from < env.scopes.len() && env.current < env.scopes.len() {
        if !env.bind(key, value).scopes[from as int].store.contains_key(other) {
            match env.scopes[from as int].outer {
                Some(outer) => {
                    if outer < from {
                        other_names_are_untouched(env, key, value, outer, other);
                    }
                },
                None => {},
            }
        }
    }
}

/// A binding is shared, not copied: once a name is bound in the current
/// scope, every scope whose links lead to that scope, and that does not
/// bind the name nearer by, sees the new value. So a closure sees what its
/// scope binds at the time of the call, whatever it bound when the closure
/// was made.
pub proof fn binding_is_seen_through_links(
    env: EnvironmentView,
    key: Seq<char>,
    value: ObjectView,
    from: nat,
)
    requires
        leads_to(env.scopes, from, env.current, key),
    ensures
        lookup_from(env.bind(key, value).scopes, from, key) == Some(value),
    decreases from,
{
    if from != env.current {
        match env.scopes[from as int].outer {
            Some(outer) => {
                binding_is_seen_through_links(env, key, value, outer);
            },
            None => {},
        }
    }
}

/// A scope that was entered from the scope `outer` sees the bindings of
/// `outer`: names resolve in the scope that was given, whichever scope was
/// current before.
pub proof fn new_scope_sees_its_outer_scope(env: EnvironmentView, outer: nat, key: Seq<char>)
    requires
        outer < env.scopes.len(),
    ensures
        env.enter(outer).lookup(key) == lookup_from(env.scopes, outer, key),
{
    let entered = env.enter(outer);
    assert(entered.scopes[entered.current as int].outer == Some(outer));
    scopes_below_do_not_see_new_ones(env.scopes, ScopeView::empty(Some(outer)), outer, key);
}

/// What a scope sees does not depend on the scopes that are made after it.
pub proof fn scopes_below_do_not_see_new_ones(
    scopes: Seq<ScopeView>,
    added: ScopeView,
    from: nat,
    key: Seq<char>,
)
    requires
        from < scopes.len(),
    ensures
        lookup_from(scopes.push(added), from, key) == lookup_from(scopes, from, key),
    decreases from,
{
    if !scopes[from as int].store.contains_key(key) {
        match scopes[from as int].outer {
            Some(outer) => {
                if outer < from {
                    scopes_below_do_not_see_new_ones(scopes, added, outer, key);
                }
            },
            None => {},
        }
    }
}


/// A function that is bound to a name in the scope it was defined in sees
/// that name when it is called, and so can call itself: the scope that is
/// made for the call is enclosed by the scope that holds the binding.
pub proof fn function_sees_its_own_name(env: EnvironmentView, name: Seq<char>, function: ObjectView)
    requires
        env.current < env.scopes.len(),
        function matches ObjectView::Function { env: defined_in, .. } && defined_in == env.current,
    ensures
        env.bind(name, function).enter(env.current).lookup(name) == Some(function),
{
    let bound = env.bind(name, function);
    new_scope_sees_its_outer_scope(bound, env.current, name);
    bound_value_is_found(env, name, function);
}

} // verus!
