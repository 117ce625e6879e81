use std::collections::HashMap;
use vstd::prelude::*;

use crate::hir::{DefId, DefSpace};
use crate::symbol::Symbol;

verus! {

broadcast use vstd::std_specs::hash::group_hash_axioms;

/// The index of a scope in a [`ScopeTable`]; `usize::MAX` marks an id that was
/// never assigned.
#[derive(Debug, Clone, Copy, PartialEq, Eq, Hash, Structural)]
pub struct ScopeId(pub usize);

impl ScopeId {
    /// The id that no scope carries.
    #[allow(non_snake_case)]
    pub fn Invalid() -> (res: Self)
        ensures
            res.0 == usize::MAX,
    {
        ScopeId(usize::MAX)
    }

    /// The raw index of a valid id.
    pub fn unwrap(&self) -> (res: usize)
        requires
            self.0 != usize::MAX,
        ensures
            res == self.0,
    {
        self.0
    }
}

/// The definitions of one scope, by namespace and name.
#[derive(Debug)]
pub struct Scope {
    types: HashMap<usize, DefId>,
    values: HashMap<usize, DefId>,
}

impl Scope {
    /// The definitions of namespace `space`, by the index of their name.
    pub closed spec fn spec_defs(&self, space: DefSpace) -> Map<usize, DefId> {
        match space {
            DefSpace::Type => self.types@,
            DefSpace::Value => self.values@,
        }
    }

    /// A scope without definitions.
    pub fn new() -> (res: Self)
        ensures
            res.spec_defs(DefSpace::Type) == Map::<usize, DefId>::empty(),
            res.spec_defs(DefSpace::Value) == Map::<usize, DefId>::empty(),
    {
        Scope { types: HashMap::new(), values: HashMap::new() }
    }

    /// Defines `name` in namespace `space` as `def_id`, replacing an earlier
    /// definition of it there.
    pub fn define(&mut self, space: DefSpace, name: Symbol, def_id: DefId)
        ensures
            final(self).spec_defs(space) == old(self).spec_defs(space).insert(name.0, def_id),
            forall|other: DefSpace|
                other != space ==> #[trigger] final(self).spec_defs(other) == old(self).spec_defs(
                    other,
                ),
    {
        match space {
            DefSpace::Type => {
                self.types.insert(name.0, def_id);
            },
            DefSpace::Value => {
                self.values.insert(name.0, def_id);
            },
        }
    }

    /// The definition of `name` in namespace `space`, if any.
    pub fn get(&self, space: DefSpace, name: Symbol) -> (res: Option<DefId>)
        ensures
            res == if self.spec_defs(space).contains_key(name.0) {
                Some(self.spec_defs(space)[name.0])
            } else {
                None::<DefId>
            },
    {
        let defs = match space {
            DefSpace::Type => &self.types,
            DefSpace::Value => &self.values,
        };
        match defs.get(&name.0) {
            Some(d) => Some(*d),
            None => None,
        }
    }
}

/// What a scope defines can be read back: after `define(space, name, def_id)`
/// (the relation between the definitions before and after that its contract
/// states), `get(space, name)` gives `def_id`, and the other namespace is
/// untouched.
pub proof fn law_define_then_get(before: Scope, after: Scope, space: DefSpace, name: Symbol, def_id: DefId)
    requires
        after.spec_defs(space) == before.spec_defs(space).insert(name.0, def_id),
        forall|other: DefSpace| other != space ==> #[trigger] after.spec_defs(other) == before.spec_defs(other),
    ensures
        after.spec_defs(space).contains_key(name.0),
        after.spec_defs(space)[name.0] == def_id,
        forall|other: DefSpace| other != space ==> #[trigger] after.spec_defs(other) == before.spec_defs(other),
{
}

/// The outermost scope is never left: `pop` on a stack of entered scopes that
/// is not empty leaves it not empty (the relation between the stacks before and
/// after that its contract states).
pub proof fn law_pop_keeps_outermost(before: Seq<ScopeId>, after: Seq<ScopeId>, left: bool)
    requires
        before.len() >= 1,
        left == (before.len() > 1),
        after == if left {
            before.drop_last()
        } else {
            before
        },
    ensures
        after.len() >= 1,
        after[0] == before[0],
{
}

/// All scopes, each at the index that its id names.
#[derive(Debug)]
pub struct ScopeTable {
    data: Vec<Scope>,
}

impl ScopeTable {
    /// The scopes, in insertion order.
    pub closed spec fn spec_scopes(&self) -> Seq<Scope> {
        self.data@
    }

    pub fn new() -> (res: Self)
        ensures
            res.spec_scopes() == Seq::<Scope>::empty(),
    {
        ScopeTable { data: Vec::new() }
    }

    /// Adds `scope` and returns its id, the next index.
    pub fn insert(&mut self, scope: Scope) -> (res: ScopeId)
        requires
            old(self).spec_scopes().len() < usize::MAX,
        ensures
            res == ScopeId(old(self).spec_scopes().len() as usize),
            final(self).spec_scopes() == old(self).spec_scopes().push(scope),
    {
        self.data.push(scope);
        ScopeId(self.data.len() - 1)
    }

    /// The scope with id `id`.
    pub fn get(&self, id: ScopeId) -> (res: &Scope)
        requires
            id.0 != usize::MAX,
            id.0 < self.spec_scopes().len(),
        ensures
            *res == self.spec_scopes()[id.0 as int],
    {
        &self.data[id.unwrap()]
    }

    /// The scope with id `id`, to change in place.
    pub fn get_mut(&mut self, id: ScopeId) -> (res: &mut Scope)
        requires
            id.0 != usize::MAX,
            id.0 < old(self).spec_scopes().len(),
        ensures
            *res == old(self).spec_scopes()[id.0 as int],
            final(self).spec_scopes() == old(self).spec_scopes().update(id.0 as int, *final(res)),
    {
        let i = id.unwrap();
        &mut self.data[i]
    }
}

/// The scopes and the stack of those currently entered; the outermost scope,
/// created with the context, is never left.
#[derive(Debug)]
pub struct ScopeCtx {
    table: ScopeTable,
    stack: Vec<ScopeId>,
    defs: HashMap<usize, ScopeId>,
    generic_depth: u32,
}

impl ScopeCtx {
    /// All scopes, in creation order.
    pub closed spec fn spec_scopes(&self) -> Seq<Scope> {
        self.table.spec_scopes()
    }

    /// The ids of the entered scopes, outermost first.
    pub closed spec fn spec_stack(&self) -> Seq<ScopeId> {
        self.stack@
    }

    /// How many generic scopes enclose the innermost scope.
    pub closed spec fn spec_generic_depth(&self) -> u32 {
        self.generic_depth
    }

    /// How many generic scopes enclose the innermost scope.
    pub fn generic_depth(&self) -> (res: u32)
        ensures
            res == self.spec_generic_depth(),
    {
        self.generic_depth
    }

    /// Sets how many generic scopes enclose the innermost scope.
    pub fn set_generic_depth(&mut self, depth: u32)
        ensures
            final(self).spec_generic_depth() == depth,
            final(self).spec_scopes() == old(self).spec_scopes(),
            final(self).spec_stack() == old(self).spec_stack(),
            final(self).spec_def_scopes() == old(self).spec_def_scopes(),
    {
        self.generic_depth = depth;
    }

    /// The scope attached to each definition (the members of a type, the
    /// items of a petal), by definition index.
    pub closed spec fn spec_def_scopes(&self) -> Map<usize, ScopeId> {
        self.defs@
    }

    /// A context with one empty scope, entered.
    pub fn new() -> (res: Self)
        ensures
            res.spec_scopes().len() == 1,
            res.spec_scopes()[0].spec_defs(DefSpace::Type) == Map::<usize, DefId>::empty(),
            res.spec_scopes()[0].spec_defs(DefSpace::Value) == Map::<usize, DefId>::empty(),
            res.spec_stack() == seq![ScopeId(0)],
            res.spec_def_scopes() == Map::<usize, ScopeId>::empty(),
            res.spec_generic_depth() == 0,
    {
        let mut table = ScopeTable::new();
        let root = table.insert(Scope::new());
        let mut stack = Vec::new();
        stack.push(root);
        ScopeCtx { table, stack, defs: HashMap::new(), generic_depth: 0 }
    }

    /// Adds `scope` and attaches it to definition `def_id`; returns its id.
    pub fn attach_to_def(&mut self, def_id: DefId, scope: Scope) -> (res: ScopeId)
        requires
            old(self).spec_scopes().len() < usize::MAX,
        ensures
            res == ScopeId(old(self).spec_scopes().len() as usize),
            final(self).spec_scopes() == old(self).spec_scopes().push(scope),
            final(self).spec_stack() == old(self).spec_stack(),
            final(self).spec_def_scopes() == old(self).spec_def_scopes().insert(def_id.0, res),
            final(self).spec_generic_depth() == old(self).spec_generic_depth(),
    {
        let id = self.table.insert(scope);
        self.defs.insert(def_id.0, id);
        id
    }

    /// The scope attached to definition `def_id`, if any.
    pub fn get_def_scope(&self, def_id: DefId) -> (res: Option<ScopeId>)
        ensures
            res == if self.spec_def_scopes().contains_key(def_id.0) {
                Some(self.spec_def_scopes()[def_id.0])
            } else {
                None::<ScopeId>
            },
    {
        match self.defs.get(&def_id.0) {
            Some(id) => Some(*id),
            None => None,
        }
    }

    /// Attaches the scope with id `scope_id` to definition `def_id`.
    pub fn attach_id_to_def(&mut self, def_id: DefId, scope_id: ScopeId)
        ensures
            final(self).spec_scopes() == old(self).spec_scopes(),
            final(self).spec_stack() == old(self).spec_stack(),
            final(self).spec_def_scopes() == old(self).spec_def_scopes().insert(def_id.0, scope_id),
            final(self).spec_generic_depth() == old(self).spec_generic_depth(),
    {
        self.defs.insert(def_id.0, scope_id);
    }

    /// Adds `scope` and enters it; returns its id.
    pub fn push(&mut self, scope: Scope) -> (res: ScopeId)
        requires
            old(self).spec_scopes().len() < usize::MAX,
        ensures
            res == ScopeId(old(self).spec_scopes().len() as usize),
            final(self).spec_scopes() == old(self).spec_scopes().push(scope),
            final(self).spec_stack() == old(self).spec_stack().push(res),
            final(self).spec_def_scopes() == old(self).spec_def_scopes(),
            final(self).spec_generic_depth() == old(self).spec_generic_depth(),
    {
        let id = self.table.insert(scope);
        self.stack.push(id);
        id
    }

    /// Enters the scope with id `scope_id` again.
    pub fn push_id(&mut self, scope_id: ScopeId)
        ensures
            final(self).spec_scopes() == old(self).spec_scopes(),
            final(self).spec_stack() == old(self).spec_stack().push(scope_id),
            final(self).spec_def_scopes() == old(self).spec_def_scopes(),
            final(self).spec_generic_depth() == old(self).spec_generic_depth(),
    {
        self.stack.push(scope_id)
    }

    /// Leaves the innermost scope, unless it is the only one entered; tells
    /// whether it left one.
    pub fn pop(&mut self) -> (res: bool)
        ensures
            res == (old(self).spec_stack().len() > 1),
            final(self).spec_scopes() == old(self).spec_scopes(),
            final(self).spec_def_scopes() == old(self).spec_def_scopes(),
            final(self).spec_generic_depth() == old(self).spec_generic_depth(),
            final(self).spec_stack() == if res {
                old(self).spec_stack().drop_last()
            } else {
                old(self).spec_stack()
            },
    {
        if self.stack.len() <= 1 {
            false
        } else {
            self.stack.pop();
            true
        }
    }

    /// The scope with id `id`.
    pub fn get(&self, id: ScopeId) -> (res: &Scope)
        requires
            id.0 != usize::MAX,
            id.0 < self.spec_scopes().len(),
        ensures
            *res == self.spec_scopes()[id.0 as int],
    {
        self.table.get(id)
    }

    /// The innermost entered scope.
    pub fn top(&self) -> (res: &Scope)
        requires
            self.spec_stack().len() > 0,
            self.spec_stack().last().0 != usize::MAX,
            self.spec_stack().last().0 < self.spec_scopes().len(),
        ensures
            *res == self.spec_scopes()[self.spec_stack().last().0 as int],
    {
        let id = self.stack[self.stack.len() - 1];
        self.table.get(id)
    }

    /// The innermost entered scope, to change in place.
    pub fn top_mut(&mut self) -> (res: &mut Scope)
        requires
            old(self).spec_stack().len() > 0,
            old(self).spec_stack().last().0 != usize::MAX,
            old(self).spec_stack().last().0 < old(self).spec_scopes().len(),
        ensures
            *res == old(self).spec_scopes()[old(self).spec_stack().last().0 as int],
            final(self).spec_stack() == old(self).spec_stack(),
            final(self).spec_def_scopes() == old(self).spec_def_scopes(),
            final(self).spec_generic_depth() == old(self).spec_generic_depth(),
            final(self).spec_scopes() == old(self).spec_scopes().update(
                old(self).spec_stack().last().0 as int,
                *final(res),
            ),
    {
        let id = self.stack[self.stack.len() - 1];
        self.table.get_mut(id)
    }
}

} // verus!
