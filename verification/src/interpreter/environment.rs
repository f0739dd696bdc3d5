use crate::error::RuntimeError;
use crate::text::owned;
use crate::token::Token;
use crate::types::LiteralType;
use fnv::FnvHashMap;
use vstd::prelude::*;

verus! {

/// `fnv::FnvHasher`, the hasher of the maps that hold the bindings. Nothing is
/// known of it.
#[verifier::external_type_specification]
#[verifier::external_body]
pub struct ExFnvHasher(fnv::FnvHasher);

/// `std::hash::BuildHasherDefault`, which makes the hashers of those maps.
/// Nothing is known of it.
#[verifier::external_type_specification]
#[verifier::external_body]
#[verifier::reject_recursive_types(H)]
pub struct ExBuildHasherDefault<H>(std::hash::BuildHasherDefault<H>);

/// What a hash map of names holds: each name that is bound, by its
/// characters, with the value it is bound to.
pub uninterp spec fn bindings(map: FnvHashMap<String, LiteralType>) -> Map<Seq<char>, LiteralType>;

/// No bindings.
pub open spec fn no_bindings() -> Map<Seq<char>, LiteralType> {
    Map::empty()
}

/// One scope as a mathematical value: its bindings, the scope around it, and
/// whether a function keeps it.
pub struct ScopeModel {
    pub enclosing: Option<usize>,
    pub bindings: Map<Seq<char>, LiteralType>,
    pub kept: bool,
}

/// A scope without bindings that no function keeps.
pub open spec fn empty_scope(enclosing: Option<usize>) -> ScopeModel {
    ScopeModel { enclosing, bindings: no_bindings(), kept: false }
}

/// `FnvHashMap::default`: a map that holds nothing.
#[verifier::external_body]
fn map_new() -> (map: FnvHashMap<String, LiteralType>)
    ensures
        bindings(map) == no_bindings(),
{
    FnvHashMap::default()
}

/// `HashMap::insert`: binds the name to the value, in place of what it was
/// bound to before, and leaves every other name as it was.
#[verifier::external_body]
fn map_insert(map: &mut FnvHashMap<String, LiteralType>, name: String, value: LiteralType)
    ensures
        bindings(*final(map)) == bindings(*old(map)).insert(name@, value),
{
    map.insert(name, value);
}

/// `HashMap::contains_key`: whether the name is bound.
#[verifier::external_body]
fn map_contains(map: &FnvHashMap<String, LiteralType>, name: &String) -> (found: bool)
    ensures
        found == bindings(*map).contains_key(name@),
{
    map.contains_key(name)
}

/// `HashMap::get`: the value that the name is bound to, if it is bound.
#[verifier::external_body]
fn map_get<'a>(map: &'a FnvHashMap<String, LiteralType>, name: &String) -> (value: Option<
    &'a LiteralType,
>)
    ensures
        value == (if bindings(*map).contains_key(name@) {
            Some(&bindings(*map)[name@])
        } else {
            None
        }),
{
    map.get(name)
}

/// One scope: its own bindings, the scope that encloses it, if any, and
/// whether a function was declared in it and so keeps it.
pub struct Scope {
    pub enclosing: Option<usize>,
    pub values: FnvHashMap<String, LiteralType>,
    pub kept: bool,
}

impl View for Scope {
    type V = ScopeModel;

    open spec fn view(&self) -> ScopeModel {
        ScopeModel {
            enclosing: self.enclosing,
            bindings: bindings(self.values),
            kept: self.kept,
        }
    }
}

/// The scopes of a run, each addressed by its index. Scope 0 is the global
/// scope. Every holder of an index sees the same bindings. Only the newest
/// scope can be discarded.
pub struct Environment {
    pub scopes: Vec<Scope>,
}

impl View for Environment {
    type V = Seq<ScopeModel>;

    open spec fn view(&self) -> Seq<ScopeModel> {
        self.scopes@.map_values(|scope: Scope| scope@)
    }
}

/// Scope 0 exists and has no parent, and every other scope has a parent that
/// was made before it.
pub open spec fn chained(scopes: Seq<ScopeModel>) -> bool {
    &&& scopes.len() > 0
    &&& scopes[0].enclosing is None
    &&& forall|i: int|
        0 < i < scopes.len() ==> (#[trigger] scopes[i]).enclosing is Some
            && scopes[i].enclosing->0 < i
}

/// The innermost scope, from `scope` outwards, that binds `name`.
pub open spec fn resolve(scopes: Seq<ScopeModel>, scope: int, name: Seq<char>) -> Option<int>
    decreases scope,
{
    if scope < 0 || scope >= scopes.len() {
        None
    } else if scopes[scope].bindings.contains_key(name) {
        Some(scope)
    } else {
        match scopes[scope].enclosing {
            Some(outer) => if outer < scope {
                resolve(scopes, outer as int, name)
            } else {
                None
            },
            None => None,
        }
    }
}

/// What `name` means in `scope`: its value in the innermost scope that binds it.
pub open spec fn lookup(scopes: Seq<ScopeModel>, scope: int, name: Seq<char>) -> Option<
    LiteralType,
> {
    match resolve(scopes, scope, name) {
        Some(holder) => Some(scopes[holder].bindings[name]),
        None => None,
    }
}

/// The scopes after a function has been declared in `scope`.
pub open spec fn keep(scopes: Seq<ScopeModel>, scope: int) -> Seq<ScopeModel> {
    scopes.update(
        scope,
        ScopeModel {
            enclosing: scopes[scope].enclosing,
            bindings: scopes[scope].bindings,
            kept: true,
        },
    )
}

/// The scopes after `name` is bound to `value` in `scope`.
pub open spec fn bind(scopes: Seq<ScopeModel>, scope: int, name: Seq<char>, value: LiteralType) -> Seq<
    ScopeModel,
> {
    scopes.update(
        scope,
        ScopeModel {
            enclosing: scopes[scope].enclosing,
            bindings: scopes[scope].bindings.insert(name, value),
            kept: scopes[scope].kept,
        },
    )
}

impl Environment {
    pub open spec fn wf(&self) -> bool {
        chained(self@)
    }

    /// An environment that holds the global scope alone, without bindings.
    pub fn new() -> (environment: Environment)
        ensures
            environment.wf(),
            environment@ == seq![empty_scope(None)],
    {
        let mut scopes: Vec<Scope> = Vec::new();
        scopes.push(Scope { enclosing: None, values: map_new(), kept: false });
        let environment = Environment { scopes };
        assert(environment@ =~= seq![empty_scope(None)]);
        environment
    }

    /// The number of scopes.
    pub fn len(&self) -> (count: usize)
        ensures
            count == self@.len(),
    {
        self.scopes.len()
    }

    /// Adds an empty scope inside `enclosing` and returns its index.
    pub fn with_enclosing(&mut self, enclosing: usize) -> (scope: usize)
        requires
            old(self).wf(),
            enclosing < old(self)@.len(),
        ensures
            final(self).wf(),
            scope == old(self)@.len(),
            final(self)@ == old(self)@.push(empty_scope(Some(enclosing))),
    {
        let scope = self.scopes.len();
        self.scopes.push(Scope { enclosing: Some(enclosing), values: map_new(), kept: false });
        assert(self@ =~= old(self)@.push(empty_scope(Some(enclosing))));
        scope
    }

    /// Marks `scope` as kept by a function that was declared in it.
    pub fn keep(&mut self, scope: usize)
        requires
            old(self).wf(),
            scope < old(self)@.len(),
        ensures
            final(self).wf(),
            final(self)@.len() == old(self)@.len(),
            final(self)@ == keep(old(self)@, scope as int),
    {
        self.scopes[scope].kept = true;
        assert(self@ =~= keep(old(self)@, scope as int));
    }

    /// Whether a function keeps `scope`.
    pub fn is_kept(&self, scope: usize) -> (kept: bool)
        requires
            scope < self@.len(),
        ensures
            kept == self@[scope as int].kept,
    {
        self.scopes[scope].kept
    }

    /// Discards the newest scope, which is not the global scope.
    pub fn discard(&mut self)
        requires
            old(self).wf(),
            old(self)@.len() > 1,
        ensures
            final(self).wf(),
            final(self)@ == old(self)@.drop_last(),
    {
        self.scopes.pop();
        assert(self@ =~= old(self)@.drop_last());
    }

    /// Binds `name` to `value` in `scope` itself, whatever the scopes around it
    /// hold and whether or not `scope` bound the name before.
    pub fn define(&mut self, scope: usize, name: String, value: LiteralType)
        requires
            old(self).wf(),
            scope < old(self)@.len(),
        ensures
            final(self).wf(),
            final(self)@.len() == old(self)@.len(),
            final(self)@ == bind(old(self)@, scope as int, name@, value),
    {
        map_insert(&mut self.scopes[scope].values, name, value);
        assert(self@ =~= bind(old(self)@, scope as int, name@, value));
    }

    /// Binds `name` to `value` in the innermost scope, from `scope` outwards,
    /// that binds it already. Where none does, fails and binds nothing.
    pub fn assign(&mut self, scope: usize, name: Token, value: LiteralType) -> (result: Result<
        (),
        RuntimeError,
    >)
        requires
            old(self).wf(),
            scope < old(self)@.len(),
        ensures
            final(self).wf(),
            final(self)@.len() == old(self)@.len(),
            match resolve(old(self)@, scope as int, name.lexeme@) {
                Some(holder) => result is Ok && final(self)@ == bind(
                    old(self)@,
                    holder,
                    name.lexeme@,
                    value,
                ),
                None => result is Err && result->Err_0.token == name
                    && result->Err_0.message@ == "undefined variable"@ && final(self)@ == old(
                    self,
                )@,
            },
    {
        let mut current = scope;
        loop
            invariant
                self.wf(),
                self@ == old(self)@,
                current < self@.len(),
                resolve(self@, current as int, name.lexeme@) == resolve(
                    self@,
                    scope as int,
                    name.lexeme@,
                ),
            decreases current,
        {
            if map_contains(&self.scopes[current].values, &name.lexeme) {
                let ghost key = name.lexeme@;
                map_insert(&mut self.scopes[current].values, name.lexeme, value);
                assert(self@ =~= bind(old(self)@, current as int, key, value));
                return Ok(());
            }
            match self.scopes[current].enclosing {
                Some(outer) => {
                    current = outer;
                },
                None => {
                    return Err(RuntimeError::new(name, owned("undefined variable")));
                },
            }
        }
    }

    /// The value of `name` in the innermost scope, from `scope` outwards, that
    /// binds it. Fails where none does.
    pub fn get(&self, scope: usize, name: &Token) -> (result: Result<LiteralType, RuntimeError>)
        requires
            self.wf(),
            scope < self@.len(),
        ensures
            match lookup(self@, scope as int, name.lexeme@) {
                Some(value) => result == Ok::<LiteralType, RuntimeError>(value),
                None => result is Err && result->Err_0.token == *name
                    && result->Err_0.message@ == "undefined variable"@,
            },
    {
        let mut current = scope;
        loop
            invariant
                self.wf(),
                current < self@.len(),
                resolve(self@, current as int, name.lexeme@) == resolve(
                    self@,
                    scope as int,
                    name.lexeme@,
                ),
            decreases current,
        {
            match map_get(&self.scopes[current].values, &name.lexeme) {
                Some(value) => {
                    return Ok(value.clone());
                },
                None => {},
            }
            match self.scopes[current].enclosing {
                Some(outer) => {
                    current = outer;
                },
                None => {
                    return Err(RuntimeError::new(name.clone(), owned("undefined variable")));
                },
            }
        }
    }
}

/// The scope that binds a name is one of the scopes.
pub proof fn lemma_resolve_in_range(scopes: Seq<ScopeModel>, scope: int, name: Seq<char>)
    ensures
        resolve(scopes, scope, name) matches Some(holder) ==> 0 <= holder <= scope
            && holder < scopes.len() && scopes[holder].bindings.contains_key(name),
    decreases scope,
{
    if 0 <= scope < scopes.len() && !scopes[scope].bindings.contains_key(name) {
        match scopes[scope].enclosing {
            Some(outer) => {
                if outer < scope {
                    lemma_resolve_in_range(scopes, outer as int, name);
                }
            },
            None => {},
        }
    }
}

/// Binding a name in one scope changes the meaning of no other name, in any
/// scope.
pub proof fn lemma_bind_keeps_other_names(
    scopes: Seq<ScopeModel>,
    scope: int,
    name: Seq<char>,
    value: LiteralType,
    from: int,
    other: Seq<char>,
)
    requires
        0 <= scope < scopes.len(),
        other != name,
    ensures
        resolve(bind(scopes, scope, name, value), from, other) == resolve(scopes, from, other),
        lookup(bind(scopes, scope, name, value), from, other) == lookup(scopes, from, other),
    decreases from,
{
    let after = bind(scopes, scope, name, value);
    if 0 <= from < scopes.len() && !scopes[from].bindings.contains_key(other) {
        match scopes[from].enclosing {
            Some(outer) => {
                if outer < from {
                    lemma_bind_keeps_other_names(scopes, scope, name, value, outer as int, other);
                }
            },
            None => {},
        }
    }
}

/// Shadowing: a binding made in a scope is not seen from any scope that was
/// made before it, so the scopes around it keep the meaning of every name.
pub proof fn lemma_define_leaves_outer_scopes(
    scopes: Seq<ScopeModel>,
    scope: int,
    name: Seq<char>,
    value: LiteralType,
    outer: int,
    any: Seq<char>,
)
    requires
        chained(scopes),
        0 <= scope < scopes.len(),
        0 <= outer < scope,
    ensures
        lookup(bind(scopes, scope, name, value), outer, any) == lookup(scopes, outer, any),
        resolve(bind(scopes, scope, name, value), outer, any) == resolve(scopes, outer, any),
    decreases outer,
{
    if !scopes[outer].bindings.contains_key(any) {
        match scopes[outer].enclosing {
            Some(parent) => {
                if parent < outer {
                    lemma_define_leaves_outer_scopes(scopes, scope, name, value, parent as int, any);
                }
            },
            None => {},
        }
    }
}

/// A name bound in a scope has the bound value there.
pub proof fn lemma_define_then_get(
    scopes: Seq<ScopeModel>,
    scope: int,
    name: Seq<char>,
    value: LiteralType,
)
    requires
        0 <= scope < scopes.len(),
    ensures
        lookup(bind(scopes, scope, name, value), scope, name) == Some(value),
{
}

/// Assignment is seen through every scope: once the binding that `name` has in
/// scope `holder` is replaced, every scope in which `name` meant that binding
/// reads the new value, whenever it was made and whoever holds its index.
pub proof fn lemma_assignment_seen_by_every_holder(
    scopes: Seq<ScopeModel>,
    holder: int,
    name: Seq<char>,
    value: LiteralType,
    from: int,
)
    requires
        0 <= holder < scopes.len(),
        resolve(scopes, from, name) == Some(holder),
    ensures
        lookup(bind(scopes, holder, name, value), from, name) == Some(value),
    decreases from,
{
    if from != holder && !scopes[from].bindings.contains_key(name) {
        match scopes[from].enclosing {
            Some(outer) => {
                lemma_assignment_seen_by_every_holder(scopes, holder, name, value, outer as int);
            },
            None => {},
        }
    }
}

/// A scope that did not see the replaced binding keeps its own meaning of the
/// name.
pub proof fn lemma_assignment_unseen_elsewhere(
    scopes: Seq<ScopeModel>,
    holder: int,
    name: Seq<char>,
    value: LiteralType,
    from: int,
)
    requires
        0 <= holder < scopes.len(),
        scopes[holder].bindings.contains_key(name),
        resolve(scopes, from, name) != Some(holder),
    ensures
        lookup(bind(scopes, holder, name, value), from, name) == lookup(scopes, from, name),
    decreases from,
{
    if 0 <= from < scopes.len() && !scopes[from].bindings.contains_key(name) {
        match scopes[from].enclosing {
            Some(outer) => {
                if outer < from {
                    lemma_assignment_unseen_elsewhere(scopes, holder, name, value, outer as int);
                }
            },
            None => {},
        }
    }
}

/// A new scope changes the meaning of no name in the scopes that exist.
pub proof fn lemma_new_scope_keeps_meanings(
    scopes: Seq<ScopeModel>,
    enclosing: usize,
    from: int,
    name: Seq<char>,
)
    requires
        0 <= from < scopes.len(),
    ensures
        resolve(scopes.push(empty_scope(Some(enclosing))), from, name) == resolve(
            scopes,
            from,
            name,
        ),
        lookup(scopes.push(empty_scope(Some(enclosing))), from, name) == lookup(
            scopes,
            from,
            name,
        ),
    decreases from,
{
    if !scopes[from].bindings.contains_key(name) {
        match scopes[from].enclosing {
            Some(outer) => {
                if outer < from {
                    lemma_new_scope_keeps_meanings(scopes, enclosing, outer as int, name);
                }
            },
            None => {},
        }
    }
}

/// A new scope sees every name as the scope around it does.
pub proof fn lemma_new_scope_inherits(
    scopes: Seq<ScopeModel>,
    enclosing: usize,
    name: Seq<char>,
)
    requires
        enclosing < scopes.len(),
    ensures
        lookup(scopes.push(empty_scope(Some(enclosing))), scopes.len() as int, name) == lookup(
            scopes,
            enclosing as int,
            name,
        ),
{
    lemma_new_scope_keeps_meanings(scopes, enclosing, enclosing as int, name);
}

} // verus!
