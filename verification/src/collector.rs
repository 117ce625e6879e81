use vstd::prelude::*;

use crate::builtin::{builtin_tys, named_view, spec_builtin_tys};
use crate::hir::{
    kind_space, BuiltinTyKind, DefAccessibility, DefId, DefKind, DefPubAccessibilityKind, DefSpace, Definition,
    DefinitionTable, HirId,
};
use crate::resolve::CollectorLevel;
use crate::resolve_diag::{ResolverDiag, ResolverDiagErrorKind, ResolverDiagKind};
use crate::petal::{PetalCtx, PetalId};
use crate::scope::{Scope, ScopeCtx, ScopeId};
use crate::source::SourceId;
use crate::span::Span;
use crate::symbol::{interning, Symbol, SymbolInterner};
use crate::ty::{GenericArg, InferKind, ParamTy, Ty, TyId, TyKindView, TyResState, TyVar, TyVarId, TyVarKind};
use std::collections::HashMap;
use crate::ty_ctx::{builtin_kind, TyCtx};
use crate::ty_state::{intern_spec, interned_ok, law_intern_stores_kind, TyState};
use crate::extension::ExtensionTable;
use vstd::pervasive::unreached;

verus! {

/// What the collector holds, as mathematical values: the interned strings,
/// the definitions (name, span, kind, namespace, node, petal, reach), the built-in definitions,
/// the two namespaces of the innermost scope, the number of scopes, the scope
/// attached to each definition, the petals (the stack being collected, the
/// scope of each, the petal each petal definition names), the state of the
/// type context and the types attached to definitions.
#[verifier::ext_equal]
pub struct CollectorView {
    pub strings: Seq<Seq<char>>,
    pub names: Seq<Symbol>,
    pub spans: Seq<Span>,
    pub kinds: Seq<DefKind>,
    pub hir_ids: Seq<HirId>,
    pub petals: Seq<Option<PetalId>>,
    pub accessibilities: Seq<DefAccessibility>,
    pub builtins: Seq<DefId>,
    pub top_types: Map<usize, DefId>,
    pub top_values: Map<usize, DefId>,
    pub scope_count: nat,
    pub def_scopes: Map<usize, ScopeId>,
    pub petal_stack: Seq<PetalId>,
    pub petal_scopes: Seq<ScopeId>,
    pub petal_defs: Map<usize, PetalId>,
    pub ty: TyState,
    pub def_tys: Map<usize, Ty>,
    pub ty_defs: Map<usize, DefId>,
}

impl CollectorView {
    /// The definitions of namespace `space` in the innermost scope.
    pub open spec fn top(self, space: DefSpace) -> Map<usize, DefId> {
        match space {
            DefSpace::Type => self.top_types,
            DefSpace::Value => self.top_values,
        }
    }

    /// The view with namespace `space` of the innermost scope replaced by `m`.
    pub open spec fn with_top(self, space: DefSpace, m: Map<usize, DefId>) -> CollectorView {
        match space {
            DefSpace::Type => CollectorView { top_types: m, ..self },
            DefSpace::Value => CollectorView { top_values: m, ..self },
        }
    }
}

/// Every definition that the innermost scope binds exists.
pub open spec fn top_ok(v: CollectorView) -> bool {
    &&& forall|k: usize| #[trigger] v.top_types.contains_key(k) ==> (v.top_types[k].0 as int) < v.names.len()
    &&& forall|k: usize| #[trigger] v.top_values.contains_key(k) ==> (v.top_values[k].0 as int) < v.names.len()
}

/// Whatever `name` is bound to in namespace `space` of the innermost scope
/// exists.
pub open spec fn bound_ok(v: CollectorView, space: DefSpace, name: Symbol) -> bool {
    v.top(space).contains_key(name.0) ==> (v.top(space)[name.0].0 as int) < v.names.len()
}

/// Defining keeps every binding of the innermost scope to an existing
/// definition.
pub proof fn lemma_define_keeps_top_ok(v: CollectorView, def: Definition)
    requires
        top_ok(v),
    ensures
        top_ok(define_spec(v, def).0),
        define_spec(v, def).0.names.len() >= v.names.len(),
{
}

/// The span that built-in definitions carry: empty, at the start of no source.
pub open spec fn no_span() -> Span {
    Span { offset: 0, len: 0, src_id: SourceId(u16::MAX) }
}

/// What defining `def` does: a name already defined in its namespace of the
/// innermost scope gives that definition back when the same node defines it,
/// and a duplicate error at `def`'s span otherwise, changing nothing; a new
/// name gets the next definition, bound in the innermost scope.
pub open spec fn define_spec(v: CollectorView, def: Definition) -> (CollectorView, Result<DefId, ResolverDiag>) {
    let top = v.top(kind_space(def.kind));
    if top.contains_key(def.name.0) {
        let e = top[def.name.0];
        if v.hir_ids[e.0 as int] == def.hir_id {
            (v, Ok(e))
        } else {
            (
                v,
                Err(
                    ResolverDiag {
                        kind: ResolverDiagKind::Error(
                            ResolverDiagErrorKind::Duplication { ident: def.name, earlier_def: e },
                        ),
                        span: def.span,
                    },
                ),
            )
        }
    } else {
        let id = DefId(v.names.len() as usize);
        (
            CollectorView {
                names: v.names.push(def.name),
                spans: v.spans.push(def.span),
                kinds: v.kinds.push(def.kind),
                hir_ids: v.hir_ids.push(def.hir_id),
                petals: v.petals.push(def.petal),
                accessibilities: v.accessibilities.push(def.accessibility),
                ..v
            }.with_top(kind_space(def.kind), top.insert(def.name.0, id)),
            Ok(id),
        )
    }
}

/// What defining the built-in type named `e.0` of kind `e.1` does: intern the
/// name, make the type (none for `_`), define it in the type namespace without
/// a node, then attach a new empty scope and the type to the definition (none
/// of either for `_`) and record it as built in, or report the duplicate.
pub open spec fn builtin_step(v: CollectorView, e: (Seq<char>, BuiltinTyKind)) -> (
    CollectorView,
    Option<ResolverDiag>,
) {
    let (strings1, i) = interning(v.strings, e.0);
    let (ty1, tid) = if e.1 is Infer {
        (v.ty, TyId(0))
    } else {
        intern_spec(v.ty, builtin_kind(e.1))
    };
    let v1 = CollectorView { strings: strings1, ty: ty1, ..v };
    let def = Definition {
        name: Symbol(i as usize),
        kind: DefKind::Builtin,
        hir_id: HirId(usize::MAX),
        span: no_span(),
        petal: Some(v.petal_stack.last()),
        accessibility: DefAccessibility::Priv,
    };
    let (v2, r) = define_spec(v1, def);
    match r {
        Ok(id) => {
            let v3 = if e.1 is Infer {
                v2
            } else {
                CollectorView {
                    def_scopes: v2.def_scopes.insert(id.0, ScopeId(v2.scope_count as usize)),
                    scope_count: v2.scope_count + 1,
                    def_tys: v2.def_tys.insert(id.0, Ty { id: tid, span: no_span() }),
                    ty_defs: v2.ty_defs.insert(tid.0, id),
                    ..v2
                }
            };
            (CollectorView { builtins: v3.builtins.push(id), ..v3 }, None)
        },
        Err(d) => (v2, Some(d)),
    }
}

/// Defining the built-in types `es` in order: the view after, and the
/// diagnostics reported.
pub open spec fn builtins_spec(v: CollectorView, es: Seq<(Seq<char>, BuiltinTyKind)>) -> (
    CollectorView,
    Seq<ResolverDiag>,
)
    decreases es.len(),
{
    if es.len() == 0 {
        (v, Seq::empty())
    } else {
        let (v1, d1) = builtins_spec(v, es.drop_last());
        let (v2, o) = builtin_step(v1, es.last());
        (
            v2,
            match o {
                Some(d) => d1.push(d),
                None => d1,
            },
        )
    }
}

/// What binding definition `b` again does: its name is bound in its
/// namespace of the innermost scope, unless something is bound there already.
pub open spec fn rebind_step(v: CollectorView, b: DefId) -> CollectorView {
    let space = kind_space(v.kinds[b.0 as int]);
    let name = v.names[b.0 as int];
    if v.top(space).contains_key(name.0) {
        v
    } else {
        v.with_top(space, v.top(space).insert(name.0, b))
    }
}

/// Binding the definitions `bs` again, in order.
pub open spec fn rebind_spec(v: CollectorView, bs: Seq<DefId>) -> CollectorView
    decreases bs.len(),
{
    if bs.len() == 0 {
        v
    } else {
        rebind_step(rebind_spec(v, bs.drop_last()), bs.last())
    }
}

/// What defining the petal definition named `text` for petal `p` does:
/// intern the name, define it in the type namespace without a node, then
/// attach the petal's scope to the definition and record the petal it names.
pub open spec fn petal_def_spec(v: CollectorView, text: Seq<char>, p: PetalId) -> (
    CollectorView,
    Result<DefId, ResolverDiag>,
) {
    let (strings1, i) = interning(v.strings, text);
    let v1 = CollectorView { strings: strings1, ..v };
    let (v2, r) = define_spec(
        v1,
        Definition {
            name: Symbol(i as usize),
            kind: DefKind::Petal,
            hir_id: HirId(usize::MAX),
            span: no_span(),
            petal: None,
            accessibility: DefAccessibility::Pub(DefPubAccessibilityKind::This),
        },
    );
    match r {
        Ok(id) => (
            CollectorView {
                def_scopes: v2.def_scopes.insert(id.0, v2.petal_scopes[p.0 as int]),
                petal_defs: v2.petal_defs.insert(id.0, p),
                ..v2
            },
            r,
        ),
        Err(_) => (v2, r),
    }
}

/// The petal definitions made after the built-ins: `spathe` for the root
/// petal, then `super` for the petal one below the top, when there is one.
/// `None` where one of them cannot be defined (the name is bound to a
/// definition of another node), on which collecting panics.
pub open spec fn petals_spec(v: CollectorView) -> Option<CollectorView> {
    let (v1, r1) = petal_def_spec(v, "spathe"@, v.petal_stack[0]);
    if r1 is Err {
        None
    } else if v1.petal_stack.len() >= 2 {
        let (v2, r2) = petal_def_spec(v1, "super"@, v1.petal_stack[v1.petal_stack.len() - 2]);
        if r2 is Err {
            None
        } else {
            Some(v2)
        }
    } else {
        Some(v1)
    }
}

/// The view after the built-ins are defined (where there are none yet) or
/// bound again (where there are).
pub open spec fn after_builtins(v: CollectorView) -> CollectorView {
    if v.builtins.len() == 0 {
        builtins_spec(v, spec_builtin_tys()).0
    } else {
        rebind_spec(v, v.builtins)
    }
}

/// A variable declaration: its node, its name, its span, the span of its
/// type annotation, if it has one, and how far it can be reached.
#[derive(Debug, Clone, Copy)]
pub struct HirVarDecl {
    pub id: HirId,
    pub name: Symbol,
    pub span: Span,
    pub ty_span: Option<Span>,
    pub accessibility: DefAccessibility,
}

/// What collecting variable declaration `var` does: unless the variable is
/// named `_` (whose name is interned to tell), it is defined in the value
/// namespace of the innermost scope, a duplicate being reported; then a fresh
/// type to be inferred is made and attached to the declaration, at the span
/// of its annotation or else of the declaration. Gives the view after, the
/// diagnostic reported, and the type attached.
pub open spec fn var_decl_spec(v: CollectorView, var: HirVarDecl) -> (CollectorView, Option<ResolverDiag>, Ty) {
    let (strings1, u) = interning(v.strings, "_"@);
    let v1 = CollectorView { strings: strings1, ..v };
    let (v2, o) = if var.name.0 != u as usize {
        let (w, r) = define_spec(
            v1,
            Definition {
                name: var.name,
                kind: DefKind::Var,
                hir_id: var.id,
                span: var.span,
                petal: Some(v.petal_stack.last()),
                accessibility: var.accessibility,
            },
        );
        (
            w,
            match r {
                Ok(_) => None,
                Err(d) => Some(d),
            },
        )
    } else {
        (v1, None)
    };
    let s = v2.ty;
    let tv = TyVarId(s.vars.len() as usize);
    let s1 = TyState {
        vars: s.vars.push(TyVar { span: var.span, kind: TyVarKind::Unbound }),
        heights: s.heights.push(0),
        ..s
    };
    let (s2, t) = intern_spec(s1, TyKindView::Infer(tv, InferKind::Any));
    (
        CollectorView { ty: s2, ..v2 },
        o,
        Ty {
            id: t,
            span: match var.ty_span {
                Some(sp) => sp,
                None => var.span,
            },
        },
    )
}

/// A generic parameter: its node, its name, and where it is declared.
#[derive(Debug, Clone, Copy)]
pub struct HirGenericParam {
    pub id: HirId,
    pub name: Symbol,
    pub span: Span,
}

/// A field of a struct declaration: its name, where it is declared, and the
/// node of its type.
#[derive(Debug, Clone, Copy)]
pub struct HirField {
    pub name: Symbol,
    pub span: Span,
    pub ty: HirId,
}

/// A struct declaration: its node, its name, its span, how far it can be
/// reached, its generic parameters (if it declares a list of them), and its
/// fields.
#[derive(Debug)]
pub struct HirStruct {
    pub id: HirId,
    pub name: Symbol,
    pub span: Span,
    pub accessibility: DefAccessibility,
    pub generic_params: Option<Vec<HirGenericParam>>,
    pub fields: Vec<HirField>,
}

/// A field of a struct definition: its name, where it is declared, and the
/// node of its type.
#[derive(Debug, Clone, Copy)]
pub struct StructFieldDef {
    pub name: Symbol,
    pub span: Span,
    pub ty: HirId,
}

/// What a struct definition holds: the definitions of its generic
/// parameters, and its fields in order.
#[derive(Debug)]
pub struct AdtDef {
    pub generic_params: Vec<DefId>,
    pub fields: Vec<StructFieldDef>,
}

/// The field definitions of the declared fields `fs`.
pub open spec fn field_defs(fs: Seq<HirField>) -> Seq<StructFieldDef> {
    fs.map_values(|f: HirField| StructFieldDef { name: f.name, span: f.span, ty: f.ty })
}

/// No two of the fields `fs` have the same name.
pub open spec fn fields_distinct(fs: Seq<HirField>) -> bool {
    forall|i: int, j: int| 0 <= i < j < fs.len() ==> #[trigger] fs[i].name != #[trigger] fs[j].name
}

/// The state of collecting a struct and its generic parameters: the view
/// (whose innermost scope, while the parameters are collected, is the
/// struct's), the diagnostics, the definitions of the parameters defined,
/// their types as arguments, and the types and resolution states attached to
/// nodes.
pub struct GenericsState {
    pub v: CollectorView,
    pub diags: Seq<ResolverDiag>,
    pub params: Seq<DefId>,
    pub args: Seq<GenericArg>,
    pub hir_tys: Map<usize, Ty>,
    pub res_states: Map<usize, TyResState>,
}

/// What collecting the generic parameter `p`, at position `i` of a list
/// `depth` generic scopes deep, does: define it in the type
/// namespace, then record it and attach to its node the parameter type; or
/// report the duplicate.
pub open spec fn generic_step(st: GenericsState, depth: u32, i: int, p: HirGenericParam) -> GenericsState {
    let (v1, r) = define_spec(
        st.v,
        Definition {
            name: p.name,
            kind: DefKind::GenericParam,
            hir_id: p.id,
            span: p.span,
            petal: Some(st.v.petal_stack.last()),
            accessibility: DefAccessibility::Priv,
        },
    );
    match r {
        Err(d) => GenericsState { v: v1, diags: st.diags.push(d), ..st },
        Ok(b) => {
            let (ty1, t) = intern_spec(v1.ty, TyKindView::Param(ParamTy { def_id: b, depth, idx: i as u32 }));
            GenericsState {
                v: CollectorView { ty: ty1, ..v1 },
                params: st.params.push(b),
                args: st.args.push(GenericArg::Ty(t)),
                hir_tys: st.hir_tys.insert(p.id.0, Ty { id: t, span: p.span }),
                res_states: st.res_states.insert(p.id.0, TyResState::Resolved(t)),
                ..st
            }
        },
    }
}

/// Collecting the generic parameters `ps` in order.
pub open spec fn generics_spec(st: GenericsState, depth: u32, ps: Seq<HirGenericParam>) -> GenericsState
    decreases ps.len(),
{
    if ps.len() == 0 {
        st
    } else {
        generic_step(generics_spec(st, depth, ps.drop_last()), depth, ps.len() - 1, ps.last())
    }
}

/// Some definition comes from node `hir_id`.
pub open spec fn defines_node(v: CollectorView, hir_id: HirId) -> bool {
    exists|i: int| 0 <= i < v.hir_ids.len() && v.hir_ids[i] == hir_id
}

/// The generic parameters that struct `s` declares (none where it declares
/// no list).
pub open spec fn param_list(s: HirStruct) -> Seq<HirGenericParam> {
    match s.generic_params {
        Some(ps) => ps@,
        None => Seq::empty(),
    }
}

/// How many generic scopes enclose the parameters of struct `s` where
/// `depth` enclose the struct.
pub open spec fn inner_depth(depth: u32, s: HirStruct) -> u32 {
    if s.generic_params is Some {
        (depth + 1) as u32
    } else {
        depth
    }
}

/// The definition that struct `s` adds, in petal `p`.
pub open spec fn struct_def(s: HirStruct, p: PetalId) -> Definition {
    Definition {
        name: s.name,
        kind: DefKind::Adt,
        hir_id: s.id,
        span: s.span,
        petal: Some(p),
        accessibility: s.accessibility,
    }
}

/// The state after the generic parameters of struct `s` are collected, where
/// defining it in `st` gave `def_id`: a new empty scope is attached to the
/// definition and entered, and the parameters are defined there.
pub open spec fn struct_generics(st: GenericsState, depth: u32, s: HirStruct, def_id: DefId) -> GenericsState {
    let v1 = define_spec(st.v, struct_def(s, st.v.petal_stack.last())).0;
    let start = GenericsState {
        v: CollectorView {
            top_types: Map::empty(),
            top_values: Map::empty(),
            scope_count: v1.scope_count + 1,
            def_scopes: v1.def_scopes.insert(def_id.0, ScopeId(v1.scope_count as usize)),
            ..v1
        },
        params: Seq::empty(),
        args: Seq::empty(),
        ..st
    };
    generics_spec(start, inner_depth(depth, s), param_list(s))
}

/// What collecting struct `s` does, `depth` generic scopes deep: nothing
/// where a definition of its node exists; the duplicate error where its name
/// is taken; else it defines the struct in the type namespace, collects its
/// generic parameters in a scope of its own, and attaches to its node the
/// type of the struct applied to its parameters. The parameters and their
/// types as arguments are those of the struct.
pub open spec fn struct_spec(st: GenericsState, depth: u32, s: HirStruct) -> (GenericsState, Result<(), ResolverDiag>) {
    if defines_node(st.v, s.id) {
        (st, Ok(()))
    } else {
        let (v1, r) = define_spec(st.v, struct_def(s, st.v.petal_stack.last()));
        match r {
            Err(d) => (st, Err(d)),
            Ok(def_id) => {
                let g = struct_generics(st, depth, s, def_id);
                let (ty1, t) = intern_spec(g.v.ty, TyKindView::Adt(def_id, g.args));
                (
                    GenericsState {
                        v: CollectorView { top_types: v1.top_types, top_values: v1.top_values, ty: ty1, ..g.v },
                        hir_tys: g.hir_tys.insert(s.id.0, Ty { id: t, span: s.span }),
                        res_states: g.res_states.insert(s.id.0, TyResState::Resolved(t)),
                        ..g
                    },
                    Ok(()),
                )
            },
        }
    }
}

/// Collects the definitions of a compilation into scopes, and the types of
/// its built-in definitions.
pub struct Collector {
    pub scope_ctx: ScopeCtx,
    pub petal_ctx: PetalCtx,
    pub tctx: TyCtx,
    pub definitions: DefinitionTable,
    pub interner: SymbolInterner,
    pub level: CollectorLevel,
    /// What each struct definition holds, by definition index.
    pub adts: HashMap<usize, AdtDef>,
}

impl Collector {
    /// The index of the innermost scope.
    pub open spec fn top_index(&self) -> int {
        self.scope_ctx.spec_stack().last().0 as int
    }

    /// The innermost scope.
    pub open spec fn top_scope(&self) -> Scope {
        self.scope_ctx.spec_scopes()[self.top_index()]
    }

    /// What the collector holds, as mathematical values.
    pub open spec fn view(&self) -> CollectorView {
        CollectorView {
            strings: self.interner.spec_strings(),
            names: self.definitions.names@,
            spans: self.definitions.spans@,
            kinds: self.definitions.kinds@,
            hir_ids: self.definitions.hir_ids@,
            petals: self.definitions.petals@,
            accessibilities: self.definitions.accessibilities@,
            builtins: self.definitions.builtins@,
            top_types: self.top_scope().spec_defs(DefSpace::Type),
            top_values: self.top_scope().spec_defs(DefSpace::Value),
            scope_count: self.scope_ctx.spec_scopes().len(),
            def_scopes: self.scope_ctx.spec_def_scopes(),
            petal_stack: self.petal_ctx.spec_stack(),
            petal_scopes: self.petal_ctx.spec_scopes(),
            petal_defs: self.petal_ctx.spec_defs(),
            ty: self.tctx.state(),
            def_tys: self.tctx.spec_def_tys(),
            ty_defs: self.tctx.spec_ty_defs(),
        }
    }

    /// The parts of the collector are well formed, a scope and a petal are
    /// entered, every built-in definition exists, and so does every definition
    /// with a scope attached.
    pub open spec fn wf(&self) -> bool {
        &&& self.tctx.wf()
        &&& self.interner.wf()
        &&& self.definitions.wf()
        &&& self.scope_ctx.spec_stack().len() > 0
        &&& self.scope_ctx.spec_stack().last().0 != usize::MAX
        &&& self.top_index() < self.scope_ctx.spec_scopes().len()
        &&& self.petal_ctx.wf()
        &&& forall|k: usize|
            #[trigger] self.scope_ctx.spec_def_scopes().contains_key(k) ==> (k as int) < self.definitions.names@.len()
        &&& forall|j: int|
            0 <= j < self.definitions.builtins@.len() ==> (#[trigger] self.definitions.builtins@[j].0
                as int) < self.definitions.names@.len()
    }

    /// The scopes other than the innermost, the stack of entered scopes, the
    /// tables of the type context other than those of definitions, the level
    /// and the struct definitions are those of `other`.
    pub open spec fn same_rest(&self, other: &Collector) -> bool {
        &&& self.scope_ctx.spec_stack() == other.scope_ctx.spec_stack()
        &&& self.scope_ctx.spec_scopes().len() == other.scope_ctx.spec_scopes().len()
        &&& forall|i: int|
            0 <= i < self.scope_ctx.spec_scopes().len() && i != other.top_index()
                ==> #[trigger] self.scope_ctx.spec_scopes()[i] == other.scope_ctx.spec_scopes()[i]
        &&& self.tctx.spec_res_states() == other.tctx.spec_res_states()
        &&& self.tctx.spec_hir_tys() == other.tctx.spec_hir_tys()
        &&& self.tctx.spec_ext_table() == other.tctx.spec_ext_table()
        &&& self.level == other.level
        &&& self.adts@ == other.adts@
    }

    /// A collector at the top level, with one empty scope entered.
    pub fn new(petal_ctx: PetalCtx, interner: SymbolInterner, tctx: TyCtx, definitions: DefinitionTable) -> (res: Self)
        requires
            petal_ctx.wf(),
            interner.wf(),
            tctx.wf(),
            definitions.wf(),
            forall|j: int|
                0 <= j < definitions.builtins@.len() ==> (#[trigger] definitions.builtins@[j].0 as int)
                    < definitions.names@.len(),
        ensures
            res.wf(),
            res.level == CollectorLevel::Top,
            res.view().top_types == Map::<usize, DefId>::empty(),
            res.view().top_values == Map::<usize, DefId>::empty(),
            res.view().scope_count == 1,
            res.view().def_scopes == Map::<usize, ScopeId>::empty(),
            res.adts@ == Map::<usize, AdtDef>::empty(),
            res.scope_ctx.spec_generic_depth() == 0,
            res.petal_ctx == petal_ctx,
            res.interner == interner,
            res.tctx == tctx,
            res.definitions == definitions,
    {
        Collector {
            scope_ctx: ScopeCtx::new(),
            petal_ctx,
            tctx,
            definitions,
            interner,
            level: CollectorLevel::Top,
            adts: HashMap::new(),
        }
    }

    /// Defines `def` in the innermost scope: see [`define_spec`].
    pub fn define(&mut self, def: Definition) -> (res: Result<DefId, ResolverDiag>)
        requires
            old(self).wf(),
            bound_ok(old(self).view(), kind_space(def.kind), def.name),
        ensures
            final(self).wf(),
            final(self).same_rest(old(self)),
            (final(self).view(), res) == define_spec(old(self).view(), def),
            final(self).scope_ctx.spec_generic_depth() == old(self).scope_ctx.spec_generic_depth(),
            res is Err ==> final(self).scope_ctx.spec_scopes() == old(self).scope_ctx.spec_scopes(),
    {
        let ghost v0 = self.view();
        let ghost top0 = self.top_scope();
        let space = def.kind.space();
        let existing = self.scope_ctx.top().get(space, def.name);
        match existing {
            Some(e) => {
                if self.definitions.hir_id_of(e) == def.hir_id {
                    Ok(e)
                } else {
                    Err(
                        ResolverDiag::error(
                            def.span,
                            ResolverDiagErrorKind::Duplication { ident: def.name, earlier_def: e },
                        ),
                    )
                }
            },
            None => {
                let id = self.definitions.define_hir(def);
                let ghost scopes0 = self.scope_ctx.spec_scopes();
                self.scope_ctx.top_mut().define(space, def.name, id);
                proof {
                    let t = self.top_index();
                    let scopes = self.scope_ctx.spec_scopes();
                    assert(scopes == scopes0.update(t, scopes[t]));
                    assert forall|j: int| 0 <= j < self.definitions.builtins@.len() implies (
                    #[trigger] self.definitions.builtins@[j].0 as int) < self.definitions.names@.len() by {
                        assert(self.definitions.builtins@[j] == v0.builtins[j]);
                    }
                    let other = match space {
                        DefSpace::Type => DefSpace::Value,
                        DefSpace::Value => DefSpace::Type,
                    };
                    assert(self.top_scope().spec_defs(other) == top0.spec_defs(other));
                    assert(self.view() =~= define_spec(v0, def).0);
                }
                Ok(id)
            },
        }
    }

    /// Binds `name` in namespace `space` of the innermost scope to definition
    /// `def_id`, unless something is bound there already; tells whether the
    /// name is bound to a definition of the same node as `def_id` after.
    pub fn bind(&mut self, space: DefSpace, name: Symbol, def_id: DefId) -> (res: bool)
        requires
            old(self).wf(),
            old(self).view().top(space).contains_key(name.0) ==> {
                &&& (old(self).view().top(space)[name.0].0 as int) < old(self).definitions.names@.len()
                &&& (def_id.0 as int) < old(self).definitions.names@.len()
            },
        ensures
            final(self).wf(),
            final(self).same_rest(old(self)),
            final(self).view() == (if old(self).view().top(space).contains_key(name.0) {
                old(self).view()
            } else {
                old(self).view().with_top(space, old(self).view().top(space).insert(name.0, def_id))
            }),
            res == (!old(self).view().top(space).contains_key(name.0) || old(self).view().hir_ids[old(
                self,
            ).view().top(space)[name.0].0 as int] == old(self).view().hir_ids[def_id.0 as int]),
    {
        let ghost v0 = self.view();
        let ghost top0 = self.top_scope();
        match self.scope_ctx.top().get(space, name) {
            Some(e) => self.definitions.hir_id_of(e) == self.definitions.hir_id_of(def_id),
            None => {
                let ghost scopes0 = self.scope_ctx.spec_scopes();
                self.scope_ctx.top_mut().define(space, name, def_id);
                proof {
                    let t = self.top_index();
                    let scopes = self.scope_ctx.spec_scopes();
                    assert(scopes == scopes0.update(t, scopes[t]));
                    let other = match space {
                        DefSpace::Type => DefSpace::Value,
                        DefSpace::Value => DefSpace::Type,
                    };
                    assert(self.top_scope().spec_defs(other) == top0.spec_defs(other));
                    assert(self.view() =~= v0.with_top(space, v0.top(space).insert(name.0, def_id)));
                }
                true
            },
        }
    }
    /// The stack of entered scopes is that of `other`; the scopes of `other`
    /// other than the innermost are unchanged and those added since are
    /// empty; the tables of the type context other than those of definitions,
    /// the level and the struct definitions are those of `other`.
    pub open spec fn keeps_frame(&self, other: &Collector) -> bool {
        &&& self.scope_ctx.spec_stack() == other.scope_ctx.spec_stack()
        &&& self.scope_ctx.spec_scopes().len() >= other.scope_ctx.spec_scopes().len()
        &&& forall|i: int|
            0 <= i < other.scope_ctx.spec_scopes().len() && i != other.top_index()
                ==> #[trigger] self.scope_ctx.spec_scopes()[i] == other.scope_ctx.spec_scopes()[i]
        &&& forall|i: int|
            other.scope_ctx.spec_scopes().len() <= i < self.scope_ctx.spec_scopes().len() ==> {
                &&& (#[trigger] self.scope_ctx.spec_scopes()[i]).spec_defs(DefSpace::Type)
                    == Map::<usize, DefId>::empty()
                &&& self.scope_ctx.spec_scopes()[i].spec_defs(DefSpace::Value) == Map::<usize, DefId>::empty()
            }
        &&& self.tctx.spec_res_states() == other.tctx.spec_res_states()
        &&& self.tctx.spec_hir_tys() == other.tctx.spec_hir_tys()
        &&& self.tctx.spec_ext_table() == other.tctx.spec_ext_table()
        &&& self.level == other.level
        &&& self.adts@ == other.adts@
    }

    /// Defines the petal definition named `text` for petal `p` in the
    /// innermost scope: see [`petal_def_spec`]; the definition must succeed.
    fn define_petal(&mut self, text: &str, p: PetalId) -> (res: DefId)
        requires
            old(self).wf(),
            top_ok(old(self).view()),
            (p.0 as int) < old(self).petal_ctx.spec_scopes().len(),
            old(self).interner.spec_strings().len() + 1 < usize::MAX,
            petal_def_spec(old(self).view(), text@, p).1 is Ok,
        ensures
            final(self).wf(),
            top_ok(final(self).view()),
            final(self).same_rest(old(self)),
            final(self).view() == petal_def_spec(old(self).view(), text@, p).0,
            final(self).interner.spec_strings().len() <= old(self).interner.spec_strings().len() + 1,
            Ok::<DefId, ResolverDiag>(res) == petal_def_spec(old(self).view(), text@, p).1,
    {
        let ghost v0 = self.view();
        let scope = self.petal_ctx.scope_of(p);
        let name = self.interner.intern(text);
        let ghost v1 = self.view();
        assert(v1 =~= CollectorView { strings: interning(v0.strings, text@).0, ..v0 });
        let def = Definition {
            name,
            kind: DefKind::Petal,
            hir_id: HirId::Invalid(),
            span: Span::default(),
            petal: None,
            accessibility: DefAccessibility::Pub(DefPubAccessibilityKind::This),
        };
        proof {
            lemma_define_keeps_top_ok(v1, def);
        }
        let id = match self.define(def) {
            Ok(id) => id,
            Err(_) => {
                unreached()
            },
        };
        let ghost v2 = self.view();
        self.scope_ctx.attach_id_to_def(id, scope);
        self.petal_ctx.attach_petal_id(id, p);
        proof {
            assert(self.view() =~= CollectorView {
                def_scopes: v2.def_scopes.insert(id.0, v2.petal_scopes[p.0 as int]),
                petal_defs: v2.petal_defs.insert(id.0, p),
                ..v2
            });
        }
        id
    }

    /// Defines the types built into the language, in the order of
    /// [`spec_builtin_tys`], as [`builtins_spec`] states (each with a new empty
    /// scope attached, but `_`), reporting each duplicate into `diags`; where
    /// built-in definitions exist already, binds them again in the innermost
    /// scope, as [`rebind_spec`] states. Then defines `spathe` for the root
    /// petal and, where a petal lies one below the top, `super` for it, as
    /// [`petals_spec`] states; these must succeed.
    pub fn init_builtin(&mut self, diags: &mut Vec<ResolverDiag>)
        requires
            old(self).wf(),
            top_ok(old(self).view()),
            old(self).interner.spec_strings().len() + 20 < usize::MAX,
            old(self).tctx.state().storage.len() + 18 < usize::MAX,
            old(self).scope_ctx.spec_scopes().len() + 18 < usize::MAX,
            petals_spec(after_builtins(old(self).view())) is Some,
        ensures
            final(self).wf(),
            top_ok(final(self).view()),
            final(self).keeps_frame(old(self)),
            final(self).view() == petals_spec(after_builtins(old(self).view())).unwrap(),
            final(diags)@ == if old(self).definitions.builtins@.len() == 0 {
                old(diags)@ + builtins_spec(old(self).view(), spec_builtin_tys()).1
            } else {
                old(diags)@
            },
    {
        let ghost c0 = *self;
        let ghost v0 = self.view();
        let ghost d0 = diags@;
        if self.definitions.builtins.len() == 0 {
            let entries = builtin_tys();
            let ghost es = spec_builtin_tys();
            assert(es.len() == 18);
            assert(entries@.len() == 18) by {
                assert(named_view(entries@).len() == entries@.len());
            }
            assert(es.take(0) =~= Seq::<(Seq<char>, BuiltinTyKind)>::empty());
            let mut i: usize = 0;
            while i < entries.len()
                invariant
                    named_view(entries@) == es,
                    es == spec_builtin_tys(),
                    entries@.len() == 18,
                    i <= 18,
                    self.wf(),
                    top_ok(self.view()),
                    self.keeps_frame(&c0),
                    c0.top_index() == self.top_index(),
                    c0.top_index() < c0.scope_ctx.spec_scopes().len(),
                    v0 == c0.view(),
                    self.view() == builtins_spec(v0, es.take(i as int)).0,
                    diags@ == d0 + builtins_spec(v0, es.take(i as int)).1,
                    self.interner.spec_strings().len() <= v0.strings.len() + i,
                    self.tctx.state().storage.len() <= v0.ty.storage.len() + i,
                    self.scope_ctx.spec_scopes().len() <= v0.scope_count + i,
                    v0.strings.len() + 20 < usize::MAX,
                    v0.ty.storage.len() + 18 < usize::MAX,
                    v0.scope_count + 18 < usize::MAX,
                decreases 18 - i,
            {
                let ghost vi = self.view();
                let ghost ci = *self;
                let ghost e = es[i as int];
                assert(e == (entries@[i as int].0@, entries@[i as int].1));
                let kind = entries[i].1;
                let sym = self.interner.intern(entries[i].0.as_str());
                let is_infer = match kind {
                    BuiltinTyKind::Infer => true,
                    _ => false,
                };
                let tid = if is_infer {
                    TyId(0)
                } else {
                    self.tctx.make_builtin_ty(&kind)
                };
                let def = Definition {
                    name: sym,
                    kind: DefKind::Builtin,
                    hir_id: HirId::Invalid(),
                    span: Span::default(),
                    petal: Some(self.petal_ctx.top_id()),
                    accessibility: DefAccessibility::Priv,
                };
                let ghost v1 = self.view();
                assert(v1 =~= CollectorView {
                    strings: interning(vi.strings, e.0).0,
                    ty: (if e.1 is Infer { (vi.ty, TyId(0)) } else { intern_spec(vi.ty, builtin_kind(e.1)) }).0,
                    ..vi
                });
                proof {
                    lemma_define_keeps_top_ok(v1, def);
                }
                let ghost cd = *self;
                match self.define(def) {
                    Ok(id) => {
                        if !is_infer {
                            let ghost ca = *self;
                            let _ = self.scope_ctx.attach_to_def(id, Scope::new());
                            assert(self.top_index() == ca.top_index());
                            self.tctx.attach_to_def(id, Ty::new(tid, Span::default()));
                        }
                        self.definitions.builtins.push(id);
                        proof {
                            assert forall|j: int| 0 <= j < self.definitions.builtins@.len() implies (
                            #[trigger] self.definitions.builtins@[j].0 as int)
                                < self.definitions.names@.len() by {
                                if j < self.definitions.builtins@.len() - 1 {
                                    assert(self.definitions.builtins@[j] == vi.builtins[j]);
                                }
                            }
                        }
                    },
                    Err(d) => {
                        diags.push(d);
                    },
                }
                proof {
                    assert(es.take(i + 1).drop_last() =~= es.take(i as int));
                    assert(es.take(i + 1).last() == e);
                    assert(self.view() =~= builtin_step(vi, e).0);
                    assert forall|j: int|
                        0 <= j < c0.scope_ctx.spec_scopes().len() && j != c0.top_index()
                            implies #[trigger] self.scope_ctx.spec_scopes()[j] == c0.scope_ctx.spec_scopes()[j] by {
                        assert(self.scope_ctx.spec_scopes()[j] == ci.scope_ctx.spec_scopes()[j]);
                    }
                    assert forall|j: int|
                        c0.scope_ctx.spec_scopes().len() <= j < self.scope_ctx.spec_scopes().len() implies {
                            &&& (#[trigger] self.scope_ctx.spec_scopes()[j]).spec_defs(DefSpace::Type)
                                == Map::<usize, DefId>::empty()
                            &&& self.scope_ctx.spec_scopes()[j].spec_defs(DefSpace::Value)
                                == Map::<usize, DefId>::empty()
                        } by {
                        if j < ci.scope_ctx.spec_scopes().len() {
                            assert(j != ci.top_index());
                            assert(cd.scope_ctx.spec_scopes() == ci.scope_ctx.spec_scopes());
                            assert(self.scope_ctx.spec_scopes()[j] == ci.scope_ctx.spec_scopes()[j]);
                        }
                    }
                }
                i = i + 1;
            }
            assert(es.take(18) =~= es);
        } else {
            let ghost bs = v0.builtins;
            assert(bs.take(0) =~= Seq::<DefId>::empty());
            let mut i: usize = 0;
            while i < self.definitions.builtins.len()
                invariant
                    bs == v0.builtins,
                    self.definitions.builtins@ == bs,
                    i <= bs.len(),
                    self.wf(),
                    top_ok(self.view()),
                    self.same_rest(&c0),
                    c0.top_index() == self.top_index(),
                    v0 == c0.view(),
                    diags@ == d0,
                    self.view() == rebind_spec(v0, bs.take(i as int)),
                    self.view().names == v0.names,
                    self.view().kinds == v0.kinds,
                    self.view().strings == v0.strings,
                    v0.strings.len() + 20 < usize::MAX,
                decreases bs.len() - i,
            {
                let b = self.definitions.builtins[i];
                let space = self.definitions.space_of(b);
                let name = self.definitions.name_of(b);
                let _ = self.bind(space, name, b);
                proof {
                    assert(bs.take(i + 1).drop_last() =~= bs.take(i as int));
                    assert(bs.take(i + 1).last() == b);
                }
                i = i + 1;
            }
            assert(bs.take(bs.len() as int) =~= bs);
        }
        let ghost va = self.view();
        assert(va == after_builtins(v0));
        let ghost cb = *self;
        let root = self.petal_ctx.root_petal_id();
        let _ = self.define_petal("spathe", root);
        let ghost v1 = self.view();
        match self.petal_ctx.from_top_id(1) {
            Some(sup) => {
                let _ = self.define_petal("super", sup);
            },
            None => {},
        }
        proof {
            assert(self.view() == petals_spec(va).unwrap());
        }
    }

    /// Collects struct `s` as [`struct_spec`] states, reporting each duplicate
    /// generic parameter into `diags`; where it defines the struct, the scope
    /// of the struct holds its generic parameters, and `adts` records their
    /// definitions and the struct's fields, in order.
    pub fn collect_struct(&mut self, s: &HirStruct, diags: &mut Vec<ResolverDiag>) -> (res: Result<(), ResolverDiag>)
        requires
            old(self).wf(),
            bound_ok(old(self).view(), DefSpace::Type, s.name),
            old(self).tctx.state().storage.len() + param_list(*s).len() + 1 < usize::MAX,
            old(self).scope_ctx.spec_scopes().len() + 1 < usize::MAX,
            param_list(*s).len() <= u32::MAX,
            s.generic_params is Some ==> old(self).scope_ctx.spec_generic_depth() < u32::MAX,
            !defines_node(old(self).view(), s.id) && define_spec(old(self).view(), struct_def(*s, old(self).view().petal_stack.last())).1 is Ok
                ==> fields_distinct(s.fields@),
        ensures
            final(self).wf(),
            ({
                let st = GenericsState {
                    v: old(self).view(),
                    diags: old(diags)@,
                    params: Seq::empty(),
                    args: Seq::empty(),
                    hir_tys: old(self).tctx.spec_hir_tys(),
                    res_states: old(self).tctx.spec_res_states(),
                };
                let depth = old(self).scope_ctx.spec_generic_depth();
                let (g, r) = struct_spec(st, depth, *s);
                &&& res == r
                &&& final(self).view() == g.v
                &&& final(diags)@ == g.diags
                &&& final(self).tctx.spec_hir_tys() == g.hir_tys
                &&& final(self).tctx.spec_res_states() == g.res_states
                &&& if res is Ok && !defines_node(old(self).view(), s.id) {
                    let d = DefId(old(self).definitions.names@.len() as usize);
                    let gi = struct_generics(st, depth, *s, d);
                    let n = old(self).scope_ctx.spec_scopes().len();
                    &&& final(self).scope_ctx.spec_scopes().len() == n + 1
                    &&& final(self).scope_ctx.spec_scopes()[n as int].spec_defs(DefSpace::Type) == gi.v.top_types
                    &&& final(self).scope_ctx.spec_scopes()[n as int].spec_defs(DefSpace::Value) == gi.v.top_values
                    &&& final(self).adts@.contains_key(d.0)
                    &&& final(self).adts@[d.0].generic_params@ == gi.params
                    &&& final(self).adts@[d.0].fields@ == field_defs(s.fields@)
                    &&& final(self).adts@.remove(d.0) == old(self).adts@.remove(d.0)
                } else {
                    &&& final(self).scope_ctx.spec_scopes() == old(self).scope_ctx.spec_scopes()
                    &&& final(self).adts@ == old(self).adts@
                }
            }),
            final(self).scope_ctx.spec_stack() == old(self).scope_ctx.spec_stack(),
            forall|i: int|
                0 <= i < old(self).scope_ctx.spec_scopes().len() && i != old(self).top_index()
                    ==> #[trigger] final(self).scope_ctx.spec_scopes()[i] == old(self).scope_ctx.spec_scopes()[i],
            final(self).scope_ctx.spec_generic_depth() == old(self).scope_ctx.spec_generic_depth(),
            final(self).tctx.spec_ext_table() == old(self).tctx.spec_ext_table(),
            final(self).level == old(self).level,
    {
        let ghost c0 = *self;
        let ghost v0 = self.view();
        let ghost d0 = diags@;
        let ghost st0 = GenericsState {
            v: v0,
            diags: d0,
            params: Seq::empty(),
            args: Seq::empty(),
            hir_tys: self.tctx.spec_hir_tys(),
            res_states: self.tctx.spec_res_states(),
        };
        match self.definitions.get_def_id(s.id) {
            Some(e) => {
                assert(v0.hir_ids[e.0 as int] == s.id);
                return Ok(());
            },
            None => {},
        }
        let def = Definition {
            name: s.name,
            kind: DefKind::Adt,
            hir_id: s.id,
            span: s.span,
            petal: Some(self.petal_ctx.top_id()),
            accessibility: s.accessibility,
        };
        let def_id = match self.define(def) {
            Ok(d) => d,
            Err(d) => {
                return Err(d);
            },
        };
        proof {
            if v0.top_types.contains_key(s.name.0) {
                let e = v0.top_types[s.name.0];
                assert(v0.hir_ids[e.0 as int] == s.id);
            }
        }
        let ghost v1 = self.view();
        let ghost depth = self.scope_ctx.spec_generic_depth();
        let scope_id = self.scope_ctx.attach_to_def(def_id, Scope::new());
        let prev_level = self.level;
        self.level = CollectorLevel::Top;
        self.scope_ctx.push_id(scope_id);
        let ghost ca = *self;
        let ghost inner = inner_depth(depth, *s);
        let ghost start = GenericsState {
            v: CollectorView {
                top_types: Map::empty(),
                top_values: Map::empty(),
                scope_count: v1.scope_count + 1,
                def_scopes: v1.def_scopes.insert(def_id.0, ScopeId(v1.scope_count as usize)),
                ..v1
            },
            params: Seq::empty(),
            args: Seq::empty(),
            ..st0
        };
        assert(self.view() =~= start.v);
        let ghost ps = param_list(*s);
        let mut params: Vec<DefId> = Vec::new();
        let mut args: Vec<GenericArg> = Vec::new();
        assert(ps.take(0) =~= Seq::<HirGenericParam>::empty());
        match &s.generic_params {
            Some(list) => {
                let d = self.scope_ctx.generic_depth();
                self.scope_ctx.set_generic_depth(d + 1);
                let mut i: usize = 0;
                while i < list.len()
                    invariant
                        list@ == ps,
                        ps.len() <= u32::MAX,
                        i <= ps.len(),
                        inner == d + 1,
                        self.wf(),
                        top_ok(self.view()),
                        self.view() == generics_spec(start, inner, ps.take(i as int)).v,
                        diags@ == generics_spec(start, inner, ps.take(i as int)).diags,
                        params@ == generics_spec(start, inner, ps.take(i as int)).params,
                        args@ == generics_spec(start, inner, ps.take(i as int)).args,
                        self.tctx.spec_hir_tys() == generics_spec(start, inner, ps.take(i as int)).hir_tys,
                        self.tctx.spec_res_states() == generics_spec(start, inner, ps.take(i as int)).res_states,
                        self.tctx.state().storage.len() <= v0.ty.storage.len() + i,
                        v0.ty.storage.len() + ps.len() + 1 < usize::MAX,
                        self.scope_ctx.spec_stack() == ca.scope_ctx.spec_stack(),
                        self.scope_ctx.spec_scopes().len() == ca.scope_ctx.spec_scopes().len(),
                        forall|j: int|
                            0 <= j < ca.scope_ctx.spec_scopes().len() && j != ca.top_index()
                                ==> #[trigger] self.scope_ctx.spec_scopes()[j] == ca.scope_ctx.spec_scopes()[j],
                        self.tctx.spec_ext_table() == ca.tctx.spec_ext_table(),
                        self.level == ca.level,
                        self.adts@ == ca.adts@,
                        self.top_index() == ca.top_index(),
                        self.scope_ctx.spec_generic_depth() == inner,
                    decreases ps.len() - i,
                {
                    let ghost gi = generics_spec(start, inner, ps.take(i as int));
                    let p = list[i];
                    let pdef = Definition {
                        name: p.name,
                        kind: DefKind::GenericParam,
                        hir_id: p.id,
                        span: p.span,
                        petal: Some(self.petal_ctx.top_id()),
                        accessibility: DefAccessibility::Priv,
                    };
                    proof {
                        lemma_define_keeps_top_ok(gi.v, pdef);
                    }
                    match self.define(pdef) {
                        Err(e) => {
                            diags.push(e);
                        },
                        Ok(b) => {
                            params.push(b);
                            let ghost vb = self.view();
                            let t = self.tctx.make_param_ty(b, d + 1, i as u32);
                            args.push(GenericArg::Ty(t));
                            self.tctx.attach_to_hir(p.id, Ty::new(t, p.span));
                            assert(self.view() =~= CollectorView { ty: self.tctx.state(), ..vb });
                        },
                    }
                    proof {
                        assert(ps.take(i + 1).drop_last() =~= ps.take(i as int));
                        assert(ps.take(i + 1).last() == p);
                    }
                    i = i + 1;
                }
                assert(ps.take(ps.len() as int) =~= ps);
                self.scope_ctx.set_generic_depth(d);
            },
            None => {},
        }
        let ghost g = struct_generics(st0, depth, *s, def_id);
        assert(self.view() == g.v);
        self.scope_ctx.pop();
        self.level = prev_level;
        let ghost vp = self.view();
        assert(vp =~= CollectorView { top_types: v1.top_types, top_values: v1.top_values, ..g.v });
        let t = self.tctx.make_adt_ty(def_id, args);
        self.tctx.attach_to_hir(s.id, Ty::new(t, s.span));
        assert(self.view() =~= CollectorView { ty: self.tctx.state(), ..vp });
        let mut fields: Vec<StructFieldDef> = Vec::new();
        let mut k: usize = 0;
        while k < s.fields.len()
            invariant
                k <= s.fields@.len(),
                fields@ == field_defs(s.fields@.take(k as int)),
            decreases s.fields@.len() - k,
        {
            let f = s.fields[k];
            fields.push(StructFieldDef { name: f.name, span: f.span, ty: f.ty });
            assert(field_defs(s.fields@.take(k + 1)) =~= field_defs(s.fields@.take(k as int)).push(
                StructFieldDef { name: f.name, span: f.span, ty: f.ty },
            ));
            k = k + 1;
        }
        assert(s.fields@.take(s.fields@.len() as int) =~= s.fields@);
        self.adts.insert(def_id.0, AdtDef { generic_params: params, fields });
        assert(self.adts@.remove(def_id.0) =~= c0.adts@.remove(def_id.0));
        Ok(())
    }

    /// Collects the variable declaration `var`, as [`var_decl_spec`] states,
    /// reporting a duplicate into `diags`.
    pub fn collect_var_decl(&mut self, var: &HirVarDecl, diags: &mut Vec<ResolverDiag>) -> (res: Result<(), ResolverDiag>)
        requires
            old(self).wf(),
            old(self).interner.spec_strings().len() + 1 < usize::MAX,
            bound_ok(old(self).view(), DefSpace::Value, var.name),
            old(self).tctx.state().vars.len() < usize::MAX,
            old(self).tctx.state().storage.len() < usize::MAX,
        ensures
            res is Ok,
            final(self).wf(),
            final(self).view() == var_decl_spec(old(self).view(), *var).0,
            final(diags)@ == match var_decl_spec(old(self).view(), *var).1 {
                Some(d) => old(diags)@.push(d),
                None => old(diags)@,
            },
            final(self).tctx.spec_hir_tys() == old(self).tctx.spec_hir_tys().insert(
                var.id.0,
                var_decl_spec(old(self).view(), *var).2,
            ),
            final(self).tctx.spec_res_states() == old(self).tctx.spec_res_states().insert(
                var.id.0,
                TyResState::Resolved(var_decl_spec(old(self).view(), *var).2.id),
            ),
            final(self).tctx.spec_ext_table() == old(self).tctx.spec_ext_table(),
            final(self).scope_ctx.spec_stack() == old(self).scope_ctx.spec_stack(),
            final(self).scope_ctx.spec_scopes().len() == old(self).scope_ctx.spec_scopes().len(),
            forall|i: int|
                0 <= i < old(self).scope_ctx.spec_scopes().len() && i != old(self).top_index()
                    ==> #[trigger] final(self).scope_ctx.spec_scopes()[i] == old(self).scope_ctx.spec_scopes()[i],
            final(self).level == old(self).level,
    {
        let ghost v0 = self.view();
        let ghost c0 = *self;
        let underscore = self.interner.intern("_");
        let ghost v1 = self.view();
        assert(v1 =~= CollectorView { strings: interning(v0.strings, "_"@).0, ..v0 });
        if var.name.0 != underscore.0 {
            let def = Definition {
                name: var.name,
                kind: DefKind::Var,
                hir_id: var.id,
                span: var.span,
                petal: Some(self.petal_ctx.top_id()),
                accessibility: var.accessibility,
            };
            match self.define(def) {
                Ok(_) => {},
                Err(d) => {
                    diags.push(d);
                },
            }
        }
        let ghost v2 = self.view();
        let infer = self.tctx.make_inferred_ty(var.span, InferKind::Any);
        let ty_span = match var.ty_span {
            Some(sp) => sp,
            None => var.span,
        };
        self.tctx.attach_to_hir(var.id, Ty::new(infer, ty_span));
        proof {
            assert(self.view() =~= CollectorView { ty: self.tctx.state(), ..v2 });
        }
        Ok(())
    }
}

/// What collecting the first `k` generic parameters `ps`, in a new scope
/// right after definition `n - 1`, gives where their names and nodes are
/// distinct: parameter `i` gets definition `n + i`, bound by its name, and
/// its node gets the parameter type of that definition at depth `d`,
/// position `i`; the stored types before stay, and nothing is reported.
proof fn lemma_generics_fresh(start: GenericsState, d: u32, ps: Seq<HirGenericParam>, k: int)
    requires
        0 <= k <= ps.len(),
        ps.len() <= u32::MAX,
        interned_ok(start.v.ty),
        start.v.ty.storage.len() + ps.len() < usize::MAX,
        start.v.top_types == Map::<usize, DefId>::empty(),
        start.params.len() == 0,
        start.args.len() == 0,
        forall|i: int, j: int| 0 <= i < j < ps.len() ==> #[trigger] ps[i].name != #[trigger] ps[j].name,
        forall|i: int, j: int| 0 <= i < j < ps.len() ==> #[trigger] ps[i].id != #[trigger] ps[j].id,
    ensures
        interned_ok(generics_spec(start, d, ps.take(k)).v.ty),
        generics_spec(start, d, ps.take(k)).v.names.len() == start.v.names.len() + k,
        start.v.ty.storage.len() <= generics_spec(start, d, ps.take(k)).v.ty.storage.len() <= start.v.ty.storage.len() + k,
        forall|i: int|
            0 <= i < start.v.ty.storage.len() ==> #[trigger] generics_spec(start, d, ps.take(k)).v.ty.storage[i]
                == start.v.ty.storage[i],
        forall|key: usize|
            #[trigger] generics_spec(start, d, ps.take(k)).v.top_types.contains_key(key) ==> exists|i: int|
                0 <= i < k && ps[i].name.0 == key,
        generics_spec(start, d, ps.take(k)).diags == start.diags,
        forall|i: int|
            #![trigger ps[i]]
            0 <= i < k ==> {
                let gk = generics_spec(start, d, ps.take(k));
                &&& gk.hir_tys.contains_key(ps[i].id.0)
                &&& (gk.hir_tys[ps[i].id.0].id.0 as int) < gk.v.ty.storage.len()
                &&& gk.v.ty.storage[gk.hir_tys[ps[i].id.0].id.0 as int] == TyKindView::Param(
                    ParamTy { def_id: DefId((start.v.names.len() + i) as usize), depth: d, idx: i as u32 },
                )
                &&& gk.params[i] == DefId((start.v.names.len() + i) as usize)
                &&& gk.args[i] == GenericArg::Ty(gk.hir_tys[ps[i].id.0].id)
            },
        generics_spec(start, d, ps.take(k)).params.len() == k,
        generics_spec(start, d, ps.take(k)).args.len() == k,
    decreases k,
{
    if k == 0 {
        assert(ps.take(0) =~= Seq::<HirGenericParam>::empty());
        let gk = generics_spec(start, d, ps.take(k));
        assert(gk == start);
        assert(gk.params.len() == 0);
        assert(gk.args.len() == 0);
    } else {
        lemma_generics_fresh(start, d, ps, k - 1);
        assert(ps.take(k).drop_last() =~= ps.take(k - 1));
        assert(ps.take(k).last() == ps[k - 1]);
        let g0 = generics_spec(start, d, ps.take(k - 1));
        let p = ps[k - 1];
        if g0.v.top_types.contains_key(p.name.0) {
            let i = choose|i: int| 0 <= i < k - 1 && ps[i].name.0 == p.name.0;
            assert(ps[i].name != ps[k - 1].name);
            assert(false);
        }
        let def = Definition {
            name: p.name,
            kind: DefKind::GenericParam,
            hir_id: p.id,
            span: p.span,
            petal: Some(g0.v.petal_stack.last()),
            accessibility: DefAccessibility::Priv,
        };
        let (v1, r) = define_spec(g0.v, def);
        let b = DefId((start.v.names.len() + k - 1) as usize);
        assert(r == Ok::<DefId, ResolverDiag>(b));
        let kind = TyKindView::Param(ParamTy { def_id: b, depth: d, idx: (k - 1) as u32 });
        law_intern_stores_kind(v1.ty, kind);
        let gk = generics_spec(start, d, ps.take(k));
        assert(gk == generic_step(g0, d, k - 1, p));
        assert(v1.ty == g0.v.ty);
        assert(gk.v.ty == intern_spec(v1.ty, kind).0);
        assert(interned_ok(gk.v.ty));
        assert(gk.v.names.len() == start.v.names.len() + k);
        assert(gk.v.ty.storage.len() <= start.v.ty.storage.len() + k);
        assert forall|i: int| 0 <= i < start.v.ty.storage.len() implies #[trigger] gk.v.ty.storage[i] == start.v.ty.storage[i] by {
            assert(gk.v.ty.storage[i] == g0.v.ty.storage[i]);
        }
        assert(gk.diags == start.diags);
        assert(gk.params.len() == k);
        assert forall|key: usize| #[trigger] gk.v.top_types.contains_key(key) implies exists|i: int|
            0 <= i < k && ps[i].name.0 == key by {
            if key != p.name.0 {
                assert(g0.v.top_types.contains_key(key));
                let i = choose|i: int| 0 <= i < k - 1 && ps[i].name.0 == key;
                assert(0 <= i < k && ps[i].name.0 == key);
            } else {
                assert(0 <= k - 1 < k && ps[k - 1].name.0 == key);
            }
        }
        assert forall|i: int| #![trigger ps[i]] 0 <= i < k implies {
            &&& gk.hir_tys.contains_key(ps[i].id.0)
            &&& (gk.hir_tys[ps[i].id.0].id.0 as int) < gk.v.ty.storage.len()
            &&& gk.v.ty.storage[gk.hir_tys[ps[i].id.0].id.0 as int] == TyKindView::Param(
                ParamTy { def_id: DefId((start.v.names.len() + i) as usize), depth: d, idx: i as u32 },
            )
            &&& gk.params[i] == DefId((start.v.names.len() + i) as usize)
            &&& gk.args[i] == GenericArg::Ty(gk.hir_tys[ps[i].id.0].id)
        } by {
            if i < k - 1 {
                assert(ps[i].id != ps[k - 1].id);
                assert(gk.params[i] == g0.params[i]);
                assert(gk.args[i] == g0.args[i]);
                assert(gk.hir_tys[ps[i].id.0] == g0.hir_tys[ps[i].id.0]);
                let idx = g0.hir_tys[ps[i].id.0].id.0 as int;
                assert(gk.v.ty.storage[idx] == g0.v.ty.storage[idx]);
            }
        }
    }
}

/// Collecting a newly defined struct whose generic parameters have distinct
/// names and nodes (other than the struct's) defines its parameter at
/// position `i` as the `i`-th definition after the struct's, and attaches to
/// the parameter's node the parameter type of that definition at position
/// `i`, one generic scope deeper than the struct; nothing is reported.
pub proof fn law_struct_generic_params(st: GenericsState, depth: u32, s: HirStruct)
    requires
        interned_ok(st.v.ty),
        st.v.ty.storage.len() + param_list(s).len() + 1 < usize::MAX,
        param_list(s).len() <= u32::MAX,
        s.generic_params is Some,
        depth < u32::MAX,
        st.v.hir_ids.len() == st.v.names.len(),
        bound_ok(st.v, DefSpace::Type, s.name),
        !defines_node(st.v, s.id),
        define_spec(st.v, struct_def(s, st.v.petal_stack.last())).1 is Ok,
        forall|i: int, j: int|
            0 <= i < j < param_list(s).len() ==> #[trigger] param_list(s)[i].name != #[trigger] param_list(s)[j].name,
        forall|i: int, j: int|
            0 <= i < j < param_list(s).len() ==> #[trigger] param_list(s)[i].id != #[trigger] param_list(s)[j].id,
        forall|i: int| 0 <= i < param_list(s).len() ==> #[trigger] param_list(s)[i].id != s.id,
    ensures
        ({
            let (g, r) = struct_spec(st, depth, s);
            let ps = param_list(s);
            &&& r is Ok
            &&& g.diags == st.diags
            &&& forall|i: int|
                #![trigger ps[i]]
                0 <= i < ps.len() ==> {
                    &&& g.params[i] == DefId((st.v.names.len() + 1 + i) as usize)
                    &&& g.hir_tys.contains_key(ps[i].id.0)
                    &&& g.v.ty.storage[g.hir_tys[ps[i].id.0].id.0 as int] == TyKindView::Param(
                        ParamTy {
                            def_id: DefId((st.v.names.len() + 1 + i) as usize),
                            depth: (depth + 1) as u32,
                            idx: i as u32,
                        },
                    )
                    &&& g.args[i] == GenericArg::Ty(g.hir_tys[ps[i].id.0].id)
                }
            &&& g.args.len() == ps.len()
            &&& g.hir_tys.contains_key(s.id.0)
            &&& g.hir_tys[s.id.0].span == s.span
            &&& g.v.ty.storage[g.hir_tys[s.id.0].id.0 as int] == TyKindView::Adt(
                DefId(st.v.names.len() as usize),
                g.args,
            )
        }),
{
    let ps = param_list(s);
    let (v1, r1) = define_spec(st.v, struct_def(s, st.v.petal_stack.last()));
    let def_id = r1.unwrap();
    let start = GenericsState {
        v: CollectorView {
            top_types: Map::empty(),
            top_values: Map::empty(),
            scope_count: v1.scope_count + 1,
            def_scopes: v1.def_scopes.insert(def_id.0, ScopeId(v1.scope_count as usize)),
            ..v1
        },
        params: Seq::empty(),
        args: Seq::empty(),
        ..st
    };
    if st.v.top_types.contains_key(s.name.0) {
        let e = st.v.top_types[s.name.0];
        assert(st.v.hir_ids[e.0 as int] == s.id);
    }
    assert(v1.names.len() == st.v.names.len() + 1);
    lemma_generics_fresh(start, inner_depth(depth, s), ps, ps.len() as int);
    assert(ps.take(ps.len() as int) =~= ps);
    let g = struct_generics(st, depth, s, def_id);
    assert(g == generics_spec(start, inner_depth(depth, s), ps));
    let (ty1, t) = intern_spec(g.v.ty, TyKindView::Adt(def_id, g.args));
    law_intern_stores_kind(g.v.ty, TyKindView::Adt(def_id, g.args));
    assert forall|i: int| #![trigger ps[i]] 0 <= i < ps.len() implies (g.hir_tys[ps[i].id.0].id.0 as int)
        < g.v.ty.storage.len() && ty1.storage[g.hir_tys[ps[i].id.0].id.0 as int] == g.v.ty.storage[g.hir_tys[ps[
        i].id.0].id.0 as int] by {}
}

/// The field definitions of declared fields are those fields, in order, each
/// with its name, where it is declared and the node of its type.
pub proof fn law_field_defs(fs: Seq<HirField>)
    ensures
        field_defs(fs).len() == fs.len(),
        forall|i: int|
            0 <= i < fs.len() ==> {
                &&& (#[trigger] field_defs(fs)[i]).name == fs[i].name
                &&& field_defs(fs)[i].span == fs[i].span
                &&& field_defs(fs)[i].ty == fs[i].ty
            },
{
}

} // verus!
