use std::collections::HashMap;
use vstd::prelude::*;

use crate::hir::DefId;
use crate::scope::ScopeId;

verus! {

broadcast use vstd::std_specs::hash::group_hash_axioms;

/// The index of a petal (a module) in its context.
#[derive(Debug, Clone, Copy, PartialEq, Eq, Hash, Structural)]
pub struct PetalId(pub usize);

/// The petals of a compilation: the scope of each, the stack of those being
/// collected (the root petal first), and the petal that each petal definition
/// names.
#[derive(Debug)]
pub struct PetalCtx {
    scopes: Vec<ScopeId>,
    stack: Vec<PetalId>,
    defs: HashMap<usize, PetalId>,
}

impl PetalCtx {
    /// The scope of each petal, by petal index.
    pub closed spec fn spec_scopes(&self) -> Seq<ScopeId> {
        self.scopes@
    }

    /// The petals being collected, the root first.
    pub closed spec fn spec_stack(&self) -> Seq<PetalId> {
        self.stack@
    }

    /// The petal that each petal definition names, by definition index.
    pub closed spec fn spec_defs(&self) -> Map<usize, PetalId> {
        self.defs@
    }

    /// A petal is being collected, and every petal on the stack exists.
    pub open spec fn wf(&self) -> bool {
        &&& self.spec_stack().len() > 0
        &&& forall|i: int|
            0 <= i < self.spec_stack().len() ==> (#[trigger] self.spec_stack()[i].0 as int)
                < self.spec_scopes().len()
    }

    /// A context with the root petal, whose scope is `root_scope`, entered.
    pub fn new(root_scope: ScopeId) -> (res: Self)
        ensures
            res.wf(),
            res.spec_scopes() == seq![root_scope],
            res.spec_stack() == seq![PetalId(0)],
            res.spec_defs() == Map::<usize, PetalId>::empty(),
    {
        let mut scopes = Vec::new();
        scopes.push(root_scope);
        let mut stack = Vec::new();
        stack.push(PetalId(0));
        PetalCtx { scopes, stack, defs: HashMap::new() }
    }

    /// Adds a petal whose scope is `scope` and enters it; returns its id.
    pub fn enter(&mut self, scope: ScopeId) -> (res: PetalId)
        requires
            old(self).wf(),
            old(self).spec_scopes().len() < usize::MAX,
        ensures
            final(self).wf(),
            res == PetalId(old(self).spec_scopes().len() as usize),
            final(self).spec_scopes() == old(self).spec_scopes().push(scope),
            final(self).spec_stack() == old(self).spec_stack().push(res),
            final(self).spec_defs() == old(self).spec_defs(),
    {
        let id = PetalId(self.scopes.len());
        self.scopes.push(scope);
        self.stack.push(id);
        id
    }

    /// Leaves the innermost petal, unless it is the root; tells whether it
    /// left one.
    pub fn leave(&mut self) -> (res: bool)
        requires
            old(self).wf(),
        ensures
            final(self).wf(),
            res == (old(self).spec_stack().len() > 1),
            final(self).spec_scopes() == old(self).spec_scopes(),
            final(self).spec_stack() == if res {
                old(self).spec_stack().drop_last()
            } else {
                old(self).spec_stack()
            },
            final(self).spec_defs() == old(self).spec_defs(),
    {
        if self.stack.len() <= 1 {
            false
        } else {
            self.stack.pop();
            true
        }
    }

    /// The root petal: the first entered.
    pub fn root_petal_id(&self) -> (res: PetalId)
        requires
            self.wf(),
        ensures
            res == self.spec_stack()[0],
    {
        self.stack[0]
    }

    /// The petal being collected.
    pub fn top_id(&self) -> (res: PetalId)
        requires
            self.wf(),
        ensures
            res == self.spec_stack().last(),
    {
        self.stack[self.stack.len() - 1]
    }

    /// The petal `n` below the one being collected, if there is one.
    pub fn from_top_id(&self, n: usize) -> (res: Option<PetalId>)
        ensures
            res == if (n as int) < self.spec_stack().len() {
                Some(self.spec_stack()[self.spec_stack().len() - 1 - n])
            } else {
                None::<PetalId>
            },
    {
        if n < self.stack.len() {
            Some(self.stack[self.stack.len() - 1 - n])
        } else {
            None
        }
    }

    /// The scope of petal `id`.
    pub fn scope_of(&self, id: PetalId) -> (res: ScopeId)
        requires
            (id.0 as int) < self.spec_scopes().len(),
        ensures
            res == self.spec_scopes()[id.0 as int],
    {
        self.scopes[id.0]
    }

    /// Records that definition `def_id` names petal `petal_id`.
    pub fn attach_petal_id(&mut self, def_id: DefId, petal_id: PetalId)
        ensures
            final(self).spec_scopes() == old(self).spec_scopes(),
            final(self).spec_stack() == old(self).spec_stack(),
            final(self).spec_defs() == old(self).spec_defs().insert(def_id.0, petal_id),
    {
        self.defs.insert(def_id.0, petal_id);
    }

    /// The petal that definition `def_id` names, if any.
    pub fn get_def_petal(&self, def_id: DefId) -> (res: Option<PetalId>)
        ensures
            res == if self.spec_defs().contains_key(def_id.0) {
                Some(self.spec_defs()[def_id.0])
            } else {
                None::<PetalId>
            },
    {
        match self.defs.get(&def_id.0) {
            Some(p) => Some(*p),
            None => None,
        }
    }
}

} // verus!
