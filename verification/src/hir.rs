use vstd::prelude::*;

use crate::petal::PetalId;
use crate::span::Span;
use crate::symbol::Symbol;

verus! {

/// The id of a definition.
#[derive(Debug, Clone, Copy, PartialEq, Eq, Hash, Structural)]
pub struct DefId(pub usize);

/// The id of a node of the high-level IR; `usize::MAX` marks an id that was
/// never assigned.
#[derive(Debug, Clone, Copy, PartialEq, Eq, Hash, Structural)]
pub struct HirId(pub usize);

impl HirId {
    /// The id that no node carries.
    #[allow(non_snake_case)]
    pub fn Invalid() -> (res: Self)
        ensures
            res.0 == usize::MAX,
    {
        HirId(usize::MAX)
    }
}

/// The namespace a definition lives in.
#[derive(Debug, Clone, Copy, PartialEq, Eq, Hash, Structural)]
pub enum DefSpace {
    Type,
    Value,
}

impl DefSpace {
    /// The word that names this namespace in messages.
    pub fn text(&self) -> (res: &'static str)
        ensures
            res@ == match self {
                DefSpace::Type => "type"@,
                DefSpace::Value => "value"@,
            },
    {
        match self {
            DefSpace::Type => "type",
            DefSpace::Value => "value",
        }
    }
}

/// What a definition is.
#[derive(Debug, Clone, Copy, PartialEq, Eq, Hash, Structural)]
pub enum DefKind {
    /// A struct.
    Adt,
    /// A type built into the language.
    Builtin,
    Fn,
    FnParam,
    GenericParam,
    /// The name of a petal, such as `spathe` or `super`.
    Petal,
    Var,
}

/// The namespace that a definition of kind `k` lives in: types, generic
/// parameters and petals name types; functions, their parameters and
/// variables name values.
pub open spec fn kind_space(k: DefKind) -> DefSpace {
    match k {
        DefKind::Adt | DefKind::Builtin | DefKind::GenericParam | DefKind::Petal => DefSpace::Type,
        DefKind::Fn | DefKind::FnParam | DefKind::Var => DefSpace::Value,
    }
}

impl DefKind {
    /// The namespace that a definition of this kind lives in.
    pub fn space(&self) -> (res: DefSpace)
        ensures
            res == kind_space(*self),
    {
        match self {
            DefKind::Adt | DefKind::Builtin | DefKind::GenericParam | DefKind::Petal => DefSpace::Type,
            DefKind::Fn | DefKind::FnParam | DefKind::Var => DefSpace::Value,
        }
    }
}

/// The reach of a public definition.
#[derive(Debug, Clone, Copy, PartialEq, Eq, Hash, Structural)]
pub enum DefPubAccessibilityKind {
    This,
}

/// Whether a definition can be reached from outside its petal.
#[derive(Debug, Clone, Copy, PartialEq, Eq, Hash, Structural)]
pub enum DefAccessibility {
    Priv,
    Pub(DefPubAccessibilityKind),
}

/// What a name is bound to: a definition, and how far it can be reached.
#[derive(Debug, Clone, Copy, PartialEq, Eq, Hash, Structural)]
pub struct Binding {
    pub def_id: DefId,
    pub accessibility: DefAccessibility,
}

impl Binding {
    pub fn new(def_id: DefId, accessibility: DefAccessibility) -> (res: Self)
        ensures
            res.def_id == def_id,
            res.accessibility == accessibility,
    {
        Binding { def_id, accessibility }
    }
}

/// The integer types built into the language.
#[derive(Debug, Clone, Copy, PartialEq, Eq, Hash, Structural)]
pub enum BuiltinIntTy {
    /// A fixed width in bits, and whether the type is signed.
    Fixed(u8, bool),
    /// The pointer-sized integer; whether it is signed.
    Size(bool),
}

/// The types built into the language.
#[derive(Debug, Clone, Copy, PartialEq, Eq, Hash, Structural)]
pub enum BuiltinTyKind {
    Unit,
    Int(BuiltinIntTy),
    /// A floating-point type of the given width in bits.
    Float(u8),
    Bool,
    Char,
    String,
    /// The type to be inferred.
    Infer,
}

/// A definition to be added: its name, what it is (which tells the
/// namespace it lives in), the node
/// that defines it (`HirId::Invalid()` for one built into the language),
/// where it is defined, the petal it belongs to (none for the names of
/// petals themselves), and how far it can be reached.
#[derive(Debug, Clone, Copy)]
pub struct Definition {
    pub name: Symbol,
    pub kind: DefKind,
    pub hir_id: HirId,
    pub span: Span,
    pub petal: Option<PetalId>,
    pub accessibility: DefAccessibility,
}

/// The definitions of a compilation: definition `i` has the `i`-th of
/// `names`, `spans`, `kinds`, `hir_ids`, `petals` and `accessibilities`, and
/// its namespace is that of its kind; `builtins` are the definitions
/// of the types built into the language, in the order they were defined.
#[derive(Debug)]
pub struct DefinitionTable {
    pub names: Vec<Symbol>,
    pub spans: Vec<Span>,
    pub kinds: Vec<DefKind>,
    pub hir_ids: Vec<HirId>,
    pub petals: Vec<Option<PetalId>>,
    pub accessibilities: Vec<DefAccessibility>,
    pub builtins: Vec<DefId>,
}

impl DefinitionTable {
    /// Every definition has a name, a span, a namespace and a node.
    pub open spec fn wf(&self) -> bool {
        &&& self.spans@.len() == self.names@.len()
        &&& self.kinds@.len() == self.names@.len()
        &&& self.hir_ids@.len() == self.names@.len()
        &&& self.petals@.len() == self.names@.len()
        &&& self.accessibilities@.len() == self.names@.len()
    }

    /// No definitions.
    pub fn new() -> (res: Self)
        ensures
            res.wf(),
            res.names@.len() == 0,
            res.builtins@.len() == 0,
    {
        DefinitionTable {
            names: Vec::new(),
            spans: Vec::new(),
            kinds: Vec::new(),
            hir_ids: Vec::new(),
            petals: Vec::new(),
            accessibilities: Vec::new(),
            builtins: Vec::new(),
        }
    }

    /// Adds `def` after the definitions already there; its id is its index.
    pub fn define_hir(&mut self, def: Definition) -> (res: DefId)
        requires
            old(self).wf(),
        ensures
            final(self).wf(),
            res.0 == old(self).names@.len(),
            final(self).names@ == old(self).names@.push(def.name),
            final(self).spans@ == old(self).spans@.push(def.span),
            final(self).kinds@ == old(self).kinds@.push(def.kind),
            final(self).hir_ids@ == old(self).hir_ids@.push(def.hir_id),
            final(self).petals@ == old(self).petals@.push(def.petal),
            final(self).accessibilities@ == old(self).accessibilities@.push(def.accessibility),
            final(self).builtins@ == old(self).builtins@,
    {
        let id = DefId(self.names.len());
        self.names.push(def.name);
        self.spans.push(def.span);
        self.kinds.push(def.kind);
        self.hir_ids.push(def.hir_id);
        self.petals.push(def.petal);
        self.accessibilities.push(def.accessibility);
        id
    }

    /// The last definition that node `hir_id` defines, if any.
    pub fn get_def_id(&self, hir_id: HirId) -> (res: Option<DefId>)
        ensures
            match res {
                None => forall|i: int| 0 <= i < self.hir_ids@.len() ==> self.hir_ids@[i] != hir_id,
                Some(d) => {
                    &&& (d.0 as int) < self.hir_ids@.len()
                    &&& self.hir_ids@[d.0 as int] == hir_id
                    &&& forall|i: int| (d.0 as int) < i < self.hir_ids@.len() ==> self.hir_ids@[i] != hir_id
                },
            },
    {
        let mut i: usize = self.hir_ids.len();
        while i > 0
            invariant
                i <= self.hir_ids@.len(),
                forall|j: int| (i as int) <= j < self.hir_ids@.len() ==> self.hir_ids@[j] != hir_id,
            decreases i,
        {
            i = i - 1;
            if self.hir_ids[i] == hir_id {
                return Some(DefId(i));
            }
        }
        None
    }

    /// The name of definition `def_id`.
    pub fn name_of(&self, def_id: DefId) -> (res: Symbol)
        requires
            def_id.0 < self.names@.len(),
        ensures
            res == self.names@[def_id.0 as int],
    {
        self.names[def_id.0]
    }

    /// Where definition `def_id` is defined.
    pub fn span_of(&self, def_id: DefId) -> (res: Span)
        requires
            def_id.0 < self.spans@.len(),
        ensures
            res == self.spans@[def_id.0 as int],
    {
        self.spans[def_id.0]
    }

    /// What definition `def_id` is.
    pub fn kind_of(&self, def_id: DefId) -> (res: DefKind)
        requires
            def_id.0 < self.kinds@.len(),
        ensures
            res == self.kinds@[def_id.0 as int],
    {
        self.kinds[def_id.0]
    }

    /// The namespace of definition `def_id`.
    pub fn space_of(&self, def_id: DefId) -> (res: DefSpace)
        requires
            def_id.0 < self.kinds@.len(),
        ensures
            res == kind_space(self.kinds@[def_id.0 as int]),
    {
        self.kinds[def_id.0].space()
    }

    /// The petal definition `def_id` belongs to, if any.
    pub fn petal_of(&self, def_id: DefId) -> (res: Option<PetalId>)
        requires
            def_id.0 < self.petals@.len(),
        ensures
            res == self.petals@[def_id.0 as int],
    {
        self.petals[def_id.0]
    }

    /// How far definition `def_id` can be reached.
    pub fn accessibility_of(&self, def_id: DefId) -> (res: DefAccessibility)
        requires
            def_id.0 < self.accessibilities@.len(),
        ensures
            res == self.accessibilities@[def_id.0 as int],
    {
        self.accessibilities[def_id.0]
    }

    /// The node that defines definition `def_id`.
    pub fn hir_id_of(&self, def_id: DefId) -> (res: HirId)
        requires
            def_id.0 < self.hir_ids@.len(),
        ensures
            res == self.hir_ids@[def_id.0 as int],
    {
        self.hir_ids[def_id.0]
    }
}

} // verus!
