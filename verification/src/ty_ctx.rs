use std::collections::HashMap;
use vstd::prelude::*;
use vstd::std_specs::hash::spec_keys_iter;
use vstd::std_specs::iter::IteratorSpec;

use crate::extension::{ExtNominalTargetKind, ExtTargetKind, ExtensionTable};
use crate::hir::{BuiltinIntTy, BuiltinTyKind, DefId, HirId};
use crate::intf::ExtensionId;
use crate::span::Span;
use vstd::pervasive::unreached;
use crate::ty::{
    FnTy, GenericArg, InferKind, IntTy, ParamTy, RefMutability, Ty, TyId, TyKind, TyKindView,
    TyResState, TyVar, TyVarId, TyVarKind,
};
use crate::ty_state::{
    law_intern_stores_kind,
    any_inferred_spec, instantiate_spec, instantiate_tys_spec, is_inferred_spec, unresolved_spec, unresolved_tys_spec, arg_ids, lemma_link, link_spec, links_to_itself, unify_all_spec, unify_spec, unify_ty_spec, bind_var_spec, compress, intern_opt, intern_spec, resolve_tys_spec, resolve_ty_spec, ty_args, valid_ty, interned_ok, kinds_view, lemma_compress, links_ok, lookup,
    resolve_var_spec, state_ok, with_vars, TyState,
};

verus! {

broadcast use vstd::std_specs::hash::group_hash_axioms;

/// Enough steps for resolving type `t`, where some number is enough.
pub open spec fn resolve_fuel(s: TyState, t: TyId) -> nat {
    choose|fuel: nat| resolve_ty_spec(s, t, fuel) is Some
}

/// The generic arguments of each scope, as sequences.
pub open spec fn args_view(args: Seq<&[GenericArg]>) -> Seq<Seq<GenericArg>> {
    args.map_values(|a: &[GenericArg]| a@)
}

/// Enough steps for instantiating type `t` with `args`, where some number is
/// enough.
pub open spec fn instantiate_fuel_of(s: TyState, t: TyId, args: Seq<Seq<GenericArg>>) -> nat {
    choose|fuel: nat| instantiate_spec(s, t, args, fuel) is Some
}

/// Enough steps for collecting the inference types of `t` after `acc`, where
/// some number is enough.
pub open spec fn unresolved_fuel_of(s: TyState, t: TyId, acc: Seq<TyId>) -> nat {
    choose|fuel: nat| unresolved_spec(s, t, acc, fuel) is Some
}

/// Enough steps for unifying types `a` and `b`, where some number is enough.
pub open spec fn unify_ty_fuel_of(s: TyState, a: TyId, b: TyId) -> nat {
    choose|fuel: nat| unify_ty_spec(s, a, b, fuel) is Some
}

/// Enough steps for unifying type variables `a` and `b`, where some number is
/// enough.
pub open spec fn unify_fuel_of(s: TyState, a: TyVarId, b: TyVarId) -> nat {
    choose|fuel: nat| unify_spec(s, a, b, fuel) is Some
}

/// The types that the generic arguments `args` give.
pub(crate) fn ids_of_args(args: &Vec<GenericArg>) -> (res: Vec<TyId>)
    ensures
        res@ == arg_ids(args@),
{
    let mut out: Vec<TyId> = Vec::new();
    let mut i: usize = 0;
    while i < args.len()
        invariant
            i <= args@.len(),
            out@ == arg_ids(args@.subrange(0, i as int)),
        decreases args@.len() - i,
    {
        match args[i] {
            GenericArg::Ty(t) => out.push(t),
        }
        assert(arg_ids(args@.subrange(0, i + 1)) =~= arg_ids(args@.subrange(0, i as int)).push(
            out@.last(),
        ));
        i = i + 1;
    }
    assert(args@.subrange(0, args@.len() as int) =~= args@);
    out
}

/// The types `ids` as generic arguments.
fn args_of_ids(ids: &Vec<TyId>) -> (res: Vec<GenericArg>)
    ensures
        res@ == ty_args(ids@),
{
    let mut out: Vec<GenericArg> = Vec::new();
    let mut i: usize = 0;
    while i < ids.len()
        invariant
            i <= ids@.len(),
            out@ == ty_args(ids@.subrange(0, i as int)),
        decreases ids@.len() - i,
    {
        out.push(GenericArg::Ty(ids[i]));
        assert(ty_args(ids@.subrange(0, i + 1)) =~= ty_args(ids@.subrange(0, i as int)).push(
            GenericArg::Ty(ids@[i as int]),
        ));
        i = i + 1;
    }
    assert(ids@.subrange(0, ids@.len() as int) =~= ids@);
    out
}

/// The kind of the type built into the language that `kind` names.
pub open spec fn builtin_kind(kind: BuiltinTyKind) -> TyKindView {
    match kind {
        BuiltinTyKind::Unit => TyKindView::Unit,
        BuiltinTyKind::Int(BuiltinIntTy::Fixed(w, s)) => TyKindView::Int(IntTy::Fixed(w, s)),
        BuiltinTyKind::Int(BuiltinIntTy::Size(s)) => TyKindView::Int(IntTy::Size(s)),
        BuiltinTyKind::Float(w) => TyKindView::Float(w),
        BuiltinTyKind::Bool => TyKindView::Bool,
        BuiltinTyKind::Char => TyKindView::Char,
        BuiltinTyKind::String => TyKindView::String,
        BuiltinTyKind::Infer => TyKindView::Unit,
    }
}

/// The value of key `k` in `m`, if any.
pub open spec fn map_get<V>(m: Map<usize, V>, k: usize) -> Option<V> {
    if m.contains_key(k) {
        Some(m[k])
    } else {
        None
    }
}

/// [`HashMap::get_mut`]: a reference to the value of key `k`, through which
/// the value may be changed, or `None` when `k` has no value.
#[verifier::external_body]
pub(crate) fn map_get_mut<V>(m: &mut HashMap<usize, V>, k: usize) -> (res: Option<&mut V>)
    ensures
        match res {
            Some(v) => old(m)@.contains_key(k) && *v == old(m)@[k] && final(m)@ == old(m)@.insert(
                k,
                *final(v),
            ),
            None => !old(m)@.contains_key(k) && final(m)@ == old(m)@,
        },
{
    m.get_mut(&k)
}

// ---------------------------------------------------------------------------
// The type context
// ---------------------------------------------------------------------------

/// The types of a compilation: every type, interned by kind, the type
/// variables of inference, and the types attached to nodes and definitions.
pub struct TyCtx {
    res_state: HashMap<usize, TyResState>,
    hir_ty_map: HashMap<usize, Ty>,
    def_ty_map: HashMap<usize, Ty>,
    ty_def_map: HashMap<usize, DefId>,
    /// The interned kinds with their ids, searched in order. A hash map keyed
    /// by `TyKind` would rest on derived `Eq` and `Hash` impls that Verus does
    /// not read, and its lookups would prove nothing; in this list no kind
    /// occurs twice, which is what such a map guarantees.
    map: Vec<(TyKind, TyId)>,
    storage: Vec<TyKind>,
    vars: Vec<TyVar>,
    heights: Ghost<Seq<nat>>,
    bound: Ghost<nat>,
    /// The extensions of types.
    pub ext_table: ExtensionTable,
}

impl TyCtx {
    /// The types and type variables.
    pub closed spec fn state(&self) -> TyState {
        TyState {
            storage: kinds_view(self.storage@),
            interned: self.map@.map_values(|p: (TyKind, TyId)| (p.0@, p.1)),
            vars: self.vars@,
            heights: self.heights@,
            bound: self.bound@,
        }
    }

    /// The resolution states attached to nodes, by node index.
    pub closed spec fn spec_res_states(&self) -> Map<usize, TyResState> {
        self.res_state@
    }

    /// The types attached to nodes, by node index.
    pub closed spec fn spec_hir_tys(&self) -> Map<usize, Ty> {
        self.hir_ty_map@
    }

    /// The types attached to definitions, by definition index.
    pub closed spec fn spec_def_tys(&self) -> Map<usize, Ty> {
        self.def_ty_map@
    }

    /// The definitions attached to types, by type index.
    pub closed spec fn spec_ty_defs(&self) -> Map<usize, DefId> {
        self.ty_def_map@
    }

    pub open spec fn wf(&self) -> bool {
        state_ok(self.state())
    }

    /// The extensions of types.
    pub closed spec fn spec_ext_table(&self) -> ExtensionTable {
        self.ext_table
    }

    /// Whether the attached nodes, definitions and states are those of `other`.
    pub open spec fn same_tables(&self, other: &TyCtx) -> bool {
        &&& self.spec_res_states() == other.spec_res_states()
        &&& self.spec_hir_tys() == other.spec_hir_tys()
        &&& self.spec_def_tys() == other.spec_def_tys()
        &&& self.spec_ty_defs() == other.spec_ty_defs()
        &&& self.spec_ext_table() == other.spec_ext_table()
    }

    /// The ids of a context fit in a machine word.
    pub proof fn lemma_storage_fits(&self)
        ensures
            self.state().storage.len() <= usize::MAX,
    {
        vstd::std_specs::vec::axiom_spec_len(&self.storage);
        assert(self.state().storage.len() == self.storage@.len());
    }

    /// An empty context.
    pub fn new() -> (res: Self)
        ensures
            res.wf(),
            res.state().storage == Seq::<TyKindView>::empty(),
            res.state().interned == Seq::<(TyKindView, TyId)>::empty(),
            res.state().vars == Seq::<TyVar>::empty(),
            res.spec_res_states() == Map::<usize, TyResState>::empty(),
            res.spec_hir_tys() == Map::<usize, Ty>::empty(),
            res.spec_def_tys() == Map::<usize, Ty>::empty(),
            res.spec_ty_defs() == Map::<usize, DefId>::empty(),
            res.spec_ext_table().wf(),
            res.spec_ext_table().spec_data().len() == 0,
            res.spec_ext_table().spec_native() == Map::<ExtTargetKind, Seq<ExtensionId>>::empty(),
            res.spec_ext_table().spec_hir_exts() == Map::<usize, ExtensionId>::empty(),
    {
        let res = TyCtx {
            res_state: HashMap::new(),
            hir_ty_map: HashMap::new(),
            def_ty_map: HashMap::new(),
            ty_def_map: HashMap::new(),
            map: Vec::new(),
            storage: Vec::new(),
            vars: Vec::new(),
            heights: Ghost(Seq::empty()),
            bound: Ghost(0),
            ext_table: ExtensionTable::new(),
        };
        assert(res.state().storage =~= Seq::<TyKindView>::empty());
        assert(res.state().interned =~= Seq::<(TyKindView, TyId)>::empty());
        res
    }

    /// Interns `ty`: gives the id of the type interned under the same kind, or
    /// stores `ty` as a new type.
    pub fn intern(&mut self, ty: TyKind) -> (res: TyId)
        requires
            old(self).wf(),
            old(self).state().storage.len() < usize::MAX || lookup(old(self).state(), ty@) is Some,
        ensures
            final(self).wf(),
            final(self).same_tables(old(self)),
            (final(self).state(), res) == intern_spec(old(self).state(), ty@),
            res.0 < final(self).state().storage.len(),
            final(self).state().storage[res.0 as int] == ty@,
    {
        let ghost s = self.state();
        proof {
            law_intern_stores_kind(s, ty@);
        }
        let mut i: usize = 0;
        while i < self.map.len()
            invariant
                self.state() == s,
                state_ok(s),
                i <= s.interned.len(),
                s.interned.len() == self.map@.len(),
                forall|j: int| 0 <= j < i ==> s.interned[j].0 != ty@,
            decreases self.map@.len() - i,
        {
            assert(s.interned[i as int] == (self.map@[i as int].0@, self.map@[i as int].1));
            if self.map[i].0.same_as(&ty) {
                let id = self.map[i].1;
                assert(lookup(s, ty@) == Some(id)) by {
                    let k = choose|k: int| 0 <= k < s.interned.len() && s.interned[k].0 == ty@;
                    assert(s.interned[k].0 == s.interned[i as int].0);
                }
                return id;
            }
            i = i + 1;
        }
        assert(lookup(s, ty@) is None);
        let ty_id = TyId(self.storage.len());
        let key = ty.duplicate();
        self.map.push((key, ty_id));
        self.storage.push(ty);
        proof {
            let s2 = intern_spec(s, ty@).0;
            assert(self.state().storage =~= s2.storage);
            assert(self.state().interned =~= s2.interned);
        }
        ty_id
    }

    /// The type with id `ty_id`.
    pub fn get(&self, ty_id: TyId) -> (res: &TyKind)
        requires
            ty_id.0 != usize::MAX,
            ty_id.0 < self.state().storage.len(),
        ensures
            res@ == self.state().storage[ty_id.0 as int],
    {
        &self.storage[ty_id.unwrap()]
    }

    /// The type with id `ty_id`, to change in place; the interned kinds stay.
    pub fn get_mut(&mut self, ty_id: TyId) -> (res: &mut TyKind)
        requires
            ty_id.0 != usize::MAX,
            ty_id.0 < old(self).state().storage.len(),
        ensures
            res@ == old(self).state().storage[ty_id.0 as int],
            final(self).state() == (TyState {
                storage: old(self).state().storage.update(ty_id.0 as int, final(res)@),
                ..old(self).state()
            }),
            final(self).same_tables(old(self)),
    {
        let i = ty_id.unwrap();
        let ghost st = self.storage@;
        assert forall|k: TyKind| #[trigger] kinds_view(st.update(i as int, k)) == kinds_view(
            st,
        ).update(i as int, k@) by {
            assert(kinds_view(st.update(i as int, k)) =~= kinds_view(st).update(i as int, k@));
        }
        &mut self.storage[i]
    }

    /// The type variable with id `var_id`.
    pub fn get_var(&self, var_id: TyVarId) -> (res: &TyVar)
        requires
            var_id.0 != usize::MAX,
            var_id.0 < self.state().vars.len(),
        ensures
            *res == self.state().vars[var_id.0 as int],
    {
        &self.vars[var_id.unwrap()]
    }

    /// A new type variable that stands for nothing yet, which arose at `span`.
    pub fn fresh_var(&mut self, span: Span) -> (res: TyVarId)
        requires
            old(self).wf(),
            old(self).state().vars.len() < usize::MAX,
        ensures
            final(self).wf(),
            final(self).same_tables(old(self)),
            res.0 == old(self).state().vars.len(),
            final(self).state().storage == old(self).state().storage,
            final(self).state().interned == old(self).state().interned,
            final(self).state().vars == old(self).state().vars.push(
                TyVar { span, kind: TyVarKind::Unbound },
            ),
            final(self).state().heights == old(self).state().heights.push(0),
            final(self).state().bound == old(self).state().bound,
    {
        let ghost s = self.state();
        self.vars.push(TyVar::new(span, TyVarKind::Unbound));
        proof {
            self.heights@ = self.heights@.push(0);
            let s2 = self.state();
            assert(s2.vars == s.vars.push(TyVar { span, kind: TyVarKind::Unbound }));
            assert forall|v: int| 0 <= v < s2.vars.len() implies #[trigger] s2.heights[v] <= s2.bound by {
                if v < s.vars.len() {
                    assert(s2.heights[v] == s.heights[v]);
                }
            }
            assert forall|v: int| #![trigger s2.vars[v]] 0 <= v < s2.vars.len() implies match s2.vars[v].kind {
                TyVarKind::Linked(w) => (w.0 as int) < s2.vars.len() && s2.heights[v] < s2.heights[w.0 as int],
                _ => true,
            } by {
                if v < s.vars.len() {
                    assert(s2.vars[v] == s.vars[v]);
                    assert(s2.heights[v] == s.heights[v]);
                    match s.vars[v].kind {
                        TyVarKind::Linked(w) => {
                            assert(s2.heights[w.0 as int] == s.heights[w.0 as int]);
                        },
                        _ => {},
                    }
                }
            }
            assert(s2.storage == s.storage && s2.interned == s.interned);
            assert(links_ok(s2));
            assert(interned_ok(s2));
        }
        TyVarId(self.vars.len() - 1)
    }

    /// The root of variable `var_id`; the links on the way come to lead to it
    /// directly.
    pub fn resolve_var(&mut self, var_id: TyVarId) -> (res: TyVarId)
        requires
            old(self).wf(),
            var_id.0 != usize::MAX,
        ensures
            final(self).wf(),
            final(self).same_tables(old(self)),
            (final(self).state(), res) == resolve_var_spec(old(self).state(), var_id),
        decreases old(self).state().bound - old(self).state().heights[var_id.0 as int],
    {
        let ghost s = self.state();
        let i = var_id.unwrap();
        if i >= self.vars.len() {
            return var_id;
        }
        proof {
            lemma_compress(s, i as int);
        }
        match self.vars[i].kind {
            TyVarKind::Linked(id) => {
                proof {
                    lemma_compress(s, id.0 as int);
                }
                let root = self.resolve_var(id);
                let mut var = self.vars[i];
                var.kind = TyVarKind::Linked(root);
                self.vars.set(i, var);
                assert(self.state().vars =~= compress(s, i as int, root));
                root
            },
            _ => {
                assert(self.state() =~= with_vars(s, compress(s, i as int, var_id)));
                var_id
            },
        }
    }

    /// Binds the root of variable `var_id` to type `ty_id`.
    pub fn bind_var(&mut self, var_id: TyVarId, ty_id: TyId)
        requires
            old(self).wf(),
            var_id.0 < old(self).state().vars.len(),
        ensures
            final(self).wf(),
            final(self).same_tables(old(self)),
            final(self).state() == bind_var_spec(old(self).state(), var_id, ty_id),
    {
        let ghost s = self.state();
        proof {
            lemma_compress(s, var_id.0 as int);
        }
        let root = self.resolve_var(var_id);
        let i = root.unwrap();
        let mut var = self.vars[i];
        var.kind = TyVarKind::Bound(ty_id);
        self.vars.set(i, var);
        assert(self.state().vars =~= bind_var_spec(s, var_id, ty_id).vars);
    }

    /// The nodes that have a type attached.
    pub fn hir_ids(&self) -> (res: Vec<HirId>)
        ensures
            res@.no_duplicates(),
            forall|h: HirId| res@.contains(h) <==> self.spec_hir_tys().contains_key(h.0),
    {
        let mut res: Vec<HirId> = Vec::new();
        let ghost s = spec_keys_iter(&self.hir_ty_map).remaining();
        for k in it: self.hir_ty_map.keys()
            invariant
                it.seq() == s,
                res@.len() == it.index(),
                forall|i: int| 0 <= i < it.index() ==> res@[i] == HirId(*s[i]),
        {
            res.push(HirId(*k));
        }
        proof {
            assert(res@.len() == s.len());
            assert forall|h: HirId| res@.contains(h) <==> self.spec_hir_tys().contains_key(h.0) by {
                if res@.contains(h) {
                    let i = choose|i: int| 0 <= i < res@.len() && res@[i] == h;
                    assert(s.unref()[i] == *s[i]);
                    assert(s.unref().contains(*s[i]));
                    assert(s.unref().to_set().contains(*s[i]));
                } else if self.spec_hir_tys().contains_key(h.0) {
                    assert(s.unref().to_set().contains(h.0));
                    assert(s.unref().contains(h.0));
                    let i = choose|i: int| 0 <= i < s.unref().len() && s.unref()[i] == h.0;
                    assert(res@[i] == h);
                }
            }
            assert forall|i: int, j: int| 0 <= i < res@.len() && 0 <= j < res@.len() && i != j implies res@[i] != res@[j] by {
                assert(s.no_duplicates());
            }
        }
        res
    }

    /// The nodes that have a type attached, with their types.
    pub fn hir_tys(&self) -> (res: Vec<(HirId, &Ty)>)
        ensures
            res@.len() == self.spec_hir_tys().len(),
            forall|i: int|
                #![trigger res@[i]]
                0 <= i < res@.len() ==> self.spec_hir_tys().contains_key(res@[i].0.0)
                    && self.spec_hir_tys()[res@[i].0.0] == *res@[i].1,
            forall|k: usize|
                #[trigger] self.spec_hir_tys().contains_key(k) ==> exists|i: int|
                    0 <= i < res@.len() && res@[i].0 == HirId(k),
    {
        let mut res: Vec<(HirId, &Ty)> = Vec::new();
        let ghost s = vstd::std_specs::hash::spec_hash_map_iter(&self.hir_ty_map).remaining();
        for kv in it: self.hir_ty_map.iter()
            invariant
                it.seq() == s,
                res@.len() == it.index(),
                forall|i: int| 0 <= i < it.index() ==> res@[i] == (HirId(*s[i].0), s[i].1),
        {
            let (k, v) = kv;
            res.push((HirId(*k), v));
        }
        proof {
            assert(res@.len() == s.len());
            assert forall|k: usize| #[trigger] self.spec_hir_tys().contains_key(k) implies exists|i: int|
                0 <= i < res@.len() && res@[i].0 == HirId(k) by {
                assert(s.contains((&k, &self.spec_hir_tys()[k])));
                let i = choose|i: int| 0 <= i < s.len() && s[i] == (&k, &self.spec_hir_tys()[k]);
                assert(res@[i].0 == HirId(k));
            }
            assert forall|i: int| #![trigger res@[i]] 0 <= i < res@.len() implies self.spec_hir_tys().contains_key(res@[i].0.0)
                && self.spec_hir_tys()[res@[i].0.0] == *res@[i].1 by {
                assert(self.hir_ty_map@.contains_key(*s[i].0));
            }
        }
        res
    }

    /// The definitions that have a type attached.
    pub fn def_ids(&self) -> (res: Vec<DefId>)
        ensures
            res@.no_duplicates(),
            forall|d: DefId| res@.contains(d) <==> self.spec_def_tys().contains_key(d.0),
    {
        let mut res: Vec<DefId> = Vec::new();
        let ghost s = spec_keys_iter(&self.def_ty_map).remaining();
        for k in it: self.def_ty_map.keys()
            invariant
                it.seq() == s,
                res@.len() == it.index(),
                forall|i: int| 0 <= i < it.index() ==> res@[i] == DefId(*s[i]),
        {
            res.push(DefId(*k));
        }
        proof {
            assert(res@.len() == s.len());
            assert forall|d: DefId| res@.contains(d) <==> self.spec_def_tys().contains_key(d.0) by {
                if res@.contains(d) {
                    let i = choose|i: int| 0 <= i < res@.len() && res@[i] == d;
                    assert(s.unref()[i] == *s[i]);
                    assert(s.unref().contains(*s[i]));
                    assert(s.unref().to_set().contains(*s[i]));
                } else if self.spec_def_tys().contains_key(d.0) {
                    assert(s.unref().to_set().contains(d.0));
                    assert(s.unref().contains(d.0));
                    let i = choose|i: int| 0 <= i < s.unref().len() && s.unref()[i] == d.0;
                    assert(res@[i] == d);
                }
            }
            assert forall|i: int, j: int| 0 <= i < res@.len() && 0 <= j < res@.len() && i != j implies res@[i] != res@[j] by {
                assert(s.no_duplicates());
            }
        }
        res
    }

    /// Attaches type `ty` to node `hir_id`, which is then resolved to it.
    pub fn attach_to_hir(&mut self, hir_id: HirId, ty: Ty)
        ensures
            final(self).spec_ext_table() == old(self).spec_ext_table(),
            final(self).state() == old(self).state(),
            final(self).spec_hir_tys() == old(self).spec_hir_tys().insert(hir_id.0, ty),
            final(self).spec_res_states() == old(self).spec_res_states().insert(
                hir_id.0,
                TyResState::Resolved(ty.id),
            ),
            final(self).spec_def_tys() == old(self).spec_def_tys(),
            final(self).spec_ty_defs() == old(self).spec_ty_defs(),
    {
        self.res_state.insert(hir_id.0, TyResState::Resolved(ty.id));
        self.hir_ty_map.insert(hir_id.0, ty);
    }

    /// Removes the type attached to node `hir_id`, if any.
    pub fn dettach_hir(&mut self, hir_id: HirId)
        ensures
            final(self).spec_ext_table() == old(self).spec_ext_table(),
            final(self).state() == old(self).state(),
            final(self).spec_hir_tys() == old(self).spec_hir_tys().remove(hir_id.0),
            final(self).spec_res_states() == old(self).spec_res_states(),
            final(self).spec_def_tys() == old(self).spec_def_tys(),
            final(self).spec_ty_defs() == old(self).spec_ty_defs(),
    {
        self.hir_ty_map.remove(&hir_id.0);
    }

    /// Sets the resolution state of node `hir_id`.
    pub fn update_hir_res_state(&mut self, hir_id: HirId, state: TyResState)
        ensures
            final(self).spec_ext_table() == old(self).spec_ext_table(),
            final(self).state() == old(self).state(),
            final(self).spec_res_states() == old(self).spec_res_states().insert(hir_id.0, state),
            final(self).spec_hir_tys() == old(self).spec_hir_tys(),
            final(self).spec_def_tys() == old(self).spec_def_tys(),
            final(self).spec_ty_defs() == old(self).spec_ty_defs(),
    {
        self.res_state.insert(hir_id.0, state);
    }

    /// The resolution state of node `hir_id`, if it has one.
    pub fn get_hir_res_state(&self, hir_id: HirId) -> (res: Option<TyResState>)
        ensures
            res == map_get(self.spec_res_states(), hir_id.0),
    {
        match self.res_state.get(&hir_id.0) {
            Some(s) => Some(*s),
            None => None,
        }
    }

    /// The resolution state of node `hir_id`, which must have one.
    pub fn expect_hir_res_state(&self, hir_id: HirId) -> (res: TyResState)
        requires
            self.spec_res_states().contains_key(hir_id.0),
        ensures
            res == self.spec_res_states()[hir_id.0],
    {
        match self.get_hir_res_state(hir_id) {
            Some(s) => s,
            None => unreached(),
        }
    }

    /// The type attached to node `hir_id`, if any.
    pub fn get_hir_ty(&self, hir_id: HirId) -> (res: Option<&Ty>)
        ensures
            match res {
                Some(t) => self.spec_hir_tys().contains_key(hir_id.0) && *t
                    == self.spec_hir_tys()[hir_id.0],
                None => !self.spec_hir_tys().contains_key(hir_id.0),
            },
    {
        self.hir_ty_map.get(&hir_id.0)
    }

    /// The type attached to node `hir_id`, if any, to change in place.
    pub fn get_hir_mut_ty(&mut self, hir_id: HirId) -> (res: Option<&mut Ty>)
        ensures
            final(self).spec_ext_table() == old(self).spec_ext_table(),
            final(self).state() == old(self).state(),
            final(self).spec_res_states() == old(self).spec_res_states(),
            final(self).spec_def_tys() == old(self).spec_def_tys(),
            final(self).spec_ty_defs() == old(self).spec_ty_defs(),
            match res {
                Some(t) => old(self).spec_hir_tys().contains_key(hir_id.0) && *t == old(self).spec_hir_tys()[hir_id.0] && final(self).spec_hir_tys() == old(self).spec_hir_tys().insert(hir_id.0, *final(t)),
                None => !old(self).spec_hir_tys().contains_key(hir_id.0) && final(self).spec_hir_tys() == old(self).spec_hir_tys(),
            },
    {
        map_get_mut(&mut self.hir_ty_map, hir_id.0)
    }

    /// The id of the type attached to node `hir_id`, if any.
    pub fn get_hir_ty_id(&self, hir_id: HirId) -> (res: Option<TyId>)
        ensures
            res == if self.spec_hir_tys().contains_key(hir_id.0) {
                Some(self.spec_hir_tys()[hir_id.0].id)
            } else {
                None::<TyId>
            },
    {
        match self.get_hir_ty(hir_id) {
            Some(ty) => Some(ty.id),
            None => None,
        }
    }

    /// The type attached to node `hir_id`, which must have one.
    pub fn expect_hir_ty(&self, hir_id: HirId) -> (res: &Ty)
        requires
            self.spec_hir_tys().contains_key(hir_id.0),
        ensures
            *res == self.spec_hir_tys()[hir_id.0],
    {
        match self.get_hir_ty(hir_id) {
            Some(t) => t,
            None => unreached(),
        }
    }

    /// The type attached to node `hir_id`, which must have one, to change in place.
    pub fn expect_hir_mut_ty(&mut self, hir_id: HirId) -> (res: &mut Ty)
        requires
            old(self).spec_hir_tys().contains_key(hir_id.0),
        ensures
            final(self).spec_ext_table() == old(self).spec_ext_table(),
            *res == old(self).spec_hir_tys()[hir_id.0],
            final(self).spec_hir_tys() == old(self).spec_hir_tys().insert(hir_id.0, *final(res)),
            final(self).state() == old(self).state(),
            final(self).spec_res_states() == old(self).spec_res_states(),
            final(self).spec_def_tys() == old(self).spec_def_tys(),
            final(self).spec_ty_defs() == old(self).spec_ty_defs(),
    {
        match self.get_hir_mut_ty(hir_id) {
            Some(t) => t,
            None => unreached(),
        }
    }

    /// The id of the type attached to node `hir_id`, which must have one.
    pub fn expect_hir_ty_id(&self, hir_id: HirId) -> (res: TyId)
        requires
            self.spec_hir_tys().contains_key(hir_id.0),
        ensures
            res == self.spec_hir_tys()[hir_id.0].id,
    {
        self.expect_hir_ty(hir_id).id
    }

    /// Attaches type `ty` to definition `def_id`, and the definition to the type.
    pub fn attach_to_def(&mut self, def_id: DefId, ty: Ty)
        ensures
            final(self).spec_ext_table() == old(self).spec_ext_table(),
            final(self).state() == old(self).state(),
            final(self).spec_def_tys() == old(self).spec_def_tys().insert(def_id.0, ty),
            final(self).spec_ty_defs() == old(self).spec_ty_defs().insert(ty.id.0, def_id),
            final(self).spec_hir_tys() == old(self).spec_hir_tys(),
            final(self).spec_res_states() == old(self).spec_res_states(),
    {
        self.ty_def_map.insert(ty.id.0, def_id);
        self.def_ty_map.insert(def_id.0, ty);
    }

    /// Removes the type attached to definition `def_id`, if any; the
    /// definition stays attached to the type.
    pub fn dettach_def(&mut self, def_id: DefId)
        ensures
            final(self).spec_ext_table() == old(self).spec_ext_table(),
            final(self).state() == old(self).state(),
            final(self).spec_def_tys() == old(self).spec_def_tys().remove(def_id.0),
            final(self).spec_ty_defs() == old(self).spec_ty_defs(),
            final(self).spec_hir_tys() == old(self).spec_hir_tys(),
            final(self).spec_res_states() == old(self).spec_res_states(),
    {
        self.def_ty_map.remove(&def_id.0);
    }

    /// The id of the type attached to definition `def_id`, if any.
    pub fn get_def_ty_id(&self, def_id: DefId) -> (res: Option<TyId>)
        ensures
            res == if self.spec_def_tys().contains_key(def_id.0) {
                Some(self.spec_def_tys()[def_id.0].id)
            } else {
                None::<TyId>
            },
    {
        match self.def_ty_map.get(&def_id.0) {
            Some(ty) => Some(ty.id),
            None => None,
        }
    }

    /// The type attached to definition `def_id`, if any.
    pub fn get_def_ty(&self, def_id: DefId) -> (res: Option<&Ty>)
        ensures
            match res {
                Some(t) => self.spec_def_tys().contains_key(def_id.0) && *t
                    == self.spec_def_tys()[def_id.0],
                None => !self.spec_def_tys().contains_key(def_id.0),
            },
    {
        self.def_ty_map.get(&def_id.0)
    }

    /// The type attached to definition `def_id`, if any, to change in place.
    pub fn get_def_mut_ty(&mut self, def_id: DefId) -> (res: Option<&mut Ty>)
        ensures
            final(self).spec_ext_table() == old(self).spec_ext_table(),
            final(self).state() == old(self).state(),
            final(self).spec_res_states() == old(self).spec_res_states(),
            final(self).spec_hir_tys() == old(self).spec_hir_tys(),
            final(self).spec_ty_defs() == old(self).spec_ty_defs(),
            match res {
                Some(t) => old(self).spec_def_tys().contains_key(def_id.0) && *t == old(self).spec_def_tys()[def_id.0] && final(self).spec_def_tys() == old(self).spec_def_tys().insert(def_id.0, *final(t)),
                None => !old(self).spec_def_tys().contains_key(def_id.0) && final(self).spec_def_tys() == old(self).spec_def_tys(),
            },
    {
        map_get_mut(&mut self.def_ty_map, def_id.0)
    }

    /// The id of the type attached to definition `def_id`, which must have one.
    pub fn expect_def_ty_id(&self, def_id: DefId) -> (res: TyId)
        requires
            self.spec_def_tys().contains_key(def_id.0),
        ensures
            res == self.spec_def_tys()[def_id.0].id,
    {
        match self.get_def_ty_id(def_id) {
            Some(t) => t,
            None => unreached(),
        }
    }

    /// The type attached to definition `def_id`, which must have one.
    pub fn expect_def_ty(&self, def_id: DefId) -> (res: &Ty)
        requires
            self.spec_def_tys().contains_key(def_id.0),
        ensures
            *res == self.spec_def_tys()[def_id.0],
    {
        match self.get_def_ty(def_id) {
            Some(t) => t,
            None => unreached(),
        }
    }

    /// The type attached to definition `def_id`, which must have one, to change
    /// in place.
    pub fn expect_def_mut_ty(&mut self, def_id: DefId) -> (res: &mut Ty)
        requires
            old(self).spec_def_tys().contains_key(def_id.0),
        ensures
            final(self).spec_ext_table() == old(self).spec_ext_table(),
            *res == old(self).spec_def_tys()[def_id.0],
            final(self).spec_def_tys() == old(self).spec_def_tys().insert(def_id.0, *final(res)),
            final(self).state() == old(self).state(),
            final(self).spec_res_states() == old(self).spec_res_states(),
            final(self).spec_hir_tys() == old(self).spec_hir_tys(),
            final(self).spec_ty_defs() == old(self).spec_ty_defs(),
    {
        match self.get_def_mut_ty(def_id) {
            Some(t) => t,
            None => unreached(),
        }
    }

    /// The definition of type `ty_id`: that of a struct type, or the one
    /// attached to a primitive type; other types have none.
    pub fn get_ty_def_id(&self, ty_id: TyId) -> (res: Option<DefId>)
        requires
            ty_id.0 != usize::MAX,
            ty_id.0 < self.state().storage.len(),
        ensures
            res == match self.state().storage[ty_id.0 as int] {
                TyKindView::Adt(d, _) => Some(d),
                TyKindView::Int(_)
                | TyKindView::Float(_)
                | TyKindView::Bool
                | TyKindView::Char
                | TyKindView::String
                | TyKindView::Unit
                | TyKindView::Never => map_get(self.spec_ty_defs(), ty_id.0),
                _ => None,
            },
    {
        match self.get(ty_id) {
            TyKind::Adt(def_id, _) => Some(*def_id),
            TyKind::Int(_)
            | TyKind::Float(_)
            | TyKind::Bool
            | TyKind::Char
            | TyKind::String
            | TyKind::Unit
            | TyKind::Never => match self.ty_def_map.get(&ty_id.0) {
                Some(d) => Some(*d),
                None => None,
            },
            _ => None,
        }
    }

    /// The definition of type `ty_id`, which must have one.
    pub fn expect_ty_def_id(&self, ty_id: TyId) -> (res: DefId)
        requires
            ty_id.0 != usize::MAX,
            ty_id.0 < self.state().storage.len(),
            self.spec_ty_def(ty_id) is Some,
        ensures
            Some(res) == self.spec_ty_def(ty_id),
    {
        match self.get_ty_def_id(ty_id) {
            Some(d) => d,
            None => unreached(),
        }
    }

    /// The target that extensions of type `ty_id` attach to: its definition,
    /// where it has one; else arrays, slices, tuples of its length, references,
    /// or every type for a type still to be inferred. Function types and the
    /// other types without a definition have none.
    pub open spec fn spec_ext_target(&self, ty_id: TyId) -> Option<ExtTargetKind> {
        match self.spec_ty_def(ty_id) {
            Some(d) => Some(ExtTargetKind::Nominal(ExtNominalTargetKind::Def(d))),
            None => match self.state().storage[ty_id.0 as int] {
                TyKindView::Array(_) => Some(ExtTargetKind::Array),
                TyKindView::Slice(_) => Some(ExtTargetKind::Slice),
                TyKindView::Tuple(ts) => Some(ExtTargetKind::Tuple(ts.len() as usize)),
                TyKindView::Ref(..) => Some(ExtTargetKind::Ref),
                TyKindView::Infer(..) => Some(ExtTargetKind::Nominal(ExtNominalTargetKind::Blanket)),
                _ => None,
            },
        }
    }

    /// The target that extensions of type `ty_id` attach to: see
    /// [`TyCtx::spec_ext_target`]; the type must have one.
    pub fn ext_target_kind_of(&self, ty_id: TyId) -> (res: ExtTargetKind)
        requires
            ty_id.0 != usize::MAX,
            ty_id.0 < self.state().storage.len(),
            self.spec_ext_target(ty_id) is Some,
        ensures
            Some(res) == self.spec_ext_target(ty_id),
    {
        match self.get_ty_def_id(ty_id) {
            Some(def_id) => ExtTargetKind::Nominal(ExtNominalTargetKind::Def(def_id)),
            None => match self.get(ty_id) {
                TyKind::Array(..) => ExtTargetKind::Array,
                TyKind::Slice(..) => ExtTargetKind::Slice,
                TyKind::Tuple(tup) => ExtTargetKind::Tuple(tup.len()),
                TyKind::Ref(..) => ExtTargetKind::Ref,
                TyKind::Infer(..) => ExtTargetKind::Nominal(ExtNominalTargetKind::Blanket),
                _ => unreached(),
            },
        }
    }

    /// The definition of type `ty_id`, as [`TyCtx::get_ty_def_id`] gives it.
    pub open spec fn spec_ty_def(&self, ty_id: TyId) -> Option<DefId> {
        match self.state().storage[ty_id.0 as int] {
            TyKindView::Adt(d, _) => Some(d),
            TyKindView::Int(_)
            | TyKindView::Float(_)
            | TyKindView::Bool
            | TyKindView::Char
            | TyKindView::String
            | TyKindView::Unit
            | TyKindView::Never => map_get(self.spec_ty_defs(), ty_id.0),
            _ => None,
        }
    }

    /// The unit type.
    pub fn make_unit_ty(&mut self) -> (res: TyId)
        requires
            old(self).wf(),
            intern_opt(old(self).state(), TyKindView::Unit) is Some,
        ensures
            final(self).wf(),
            final(self).same_tables(old(self)),
            (final(self).state(), res) == intern_spec(old(self).state(), TyKindView::Unit),
    {
        self.intern(TyKind::Unit)
    }

    /// The type of expressions that never produce a value.
    pub fn make_never_ty(&mut self) -> (res: TyId)
        requires
            old(self).wf(),
            intern_opt(old(self).state(), TyKindView::Never) is Some,
        ensures
            final(self).wf(),
            final(self).same_tables(old(self)),
            (final(self).state(), res) == intern_spec(old(self).state(), TyKindView::Never),
    {
        self.intern(TyKind::Never)
    }

    /// The integer type `ty`.
    pub fn make_int_ty(&mut self, ty: IntTy) -> (res: TyId)
        requires
            old(self).wf(),
            intern_opt(old(self).state(), TyKindView::Int(ty)) is Some,
        ensures
            final(self).wf(),
            final(self).same_tables(old(self)),
            (final(self).state(), res) == intern_spec(old(self).state(), TyKindView::Int(ty)),
    {
        self.intern(TyKind::Int(ty))
    }

    /// The floating-point type of `width` bits.
    pub fn make_float_ty(&mut self, width: u8) -> (res: TyId)
        requires
            old(self).wf(),
            intern_opt(old(self).state(), TyKindView::Float(width)) is Some,
        ensures
            final(self).wf(),
            final(self).same_tables(old(self)),
            (final(self).state(), res) == intern_spec(old(self).state(), TyKindView::Float(width)),
    {
        self.intern(TyKind::Float(width))
    }

    /// The boolean type.
    pub fn make_bool_ty(&mut self) -> (res: TyId)
        requires
            old(self).wf(),
            intern_opt(old(self).state(), TyKindView::Bool) is Some,
        ensures
            final(self).wf(),
            final(self).same_tables(old(self)),
            (final(self).state(), res) == intern_spec(old(self).state(), TyKindView::Bool),
    {
        self.intern(TyKind::Bool)
    }

    /// The character type.
    pub fn make_char_ty(&mut self) -> (res: TyId)
        requires
            old(self).wf(),
            intern_opt(old(self).state(), TyKindView::Char) is Some,
        ensures
            final(self).wf(),
            final(self).same_tables(old(self)),
            (final(self).state(), res) == intern_spec(old(self).state(), TyKindView::Char),
    {
        self.intern(TyKind::Char)
    }

    /// The string type.
    pub fn make_string_ty(&mut self) -> (res: TyId)
        requires
            old(self).wf(),
            intern_opt(old(self).state(), TyKindView::String) is Some,
        ensures
            final(self).wf(),
            final(self).same_tables(old(self)),
            (final(self).state(), res) == intern_spec(old(self).state(), TyKindView::String),
    {
        self.intern(TyKind::String)
    }

    /// The array type of `inner_ty`.
    pub fn make_array_ty(&mut self, inner_ty: TyId) -> (res: TyId)
        requires
            old(self).wf(),
            intern_opt(old(self).state(), TyKindView::Array(inner_ty)) is Some,
        ensures
            final(self).wf(),
            final(self).same_tables(old(self)),
            (final(self).state(), res) == intern_spec(old(self).state(), TyKindView::Array(inner_ty)),
    {
        self.intern(TyKind::Array(inner_ty))
    }

    /// The slice type of `inner_ty`.
    pub fn make_slice_ty(&mut self, inner_ty: TyId) -> (res: TyId)
        requires
            old(self).wf(),
            intern_opt(old(self).state(), TyKindView::Slice(inner_ty)) is Some,
        ensures
            final(self).wf(),
            final(self).same_tables(old(self)),
            (final(self).state(), res) == intern_spec(old(self).state(), TyKindView::Slice(inner_ty)),
    {
        self.intern(TyKind::Slice(inner_ty))
    }

    /// The tuple type of `tys`.
    pub fn make_tuple_ty(&mut self, tys: Vec<TyId>) -> (res: TyId)
        requires
            old(self).wf(),
            intern_opt(old(self).state(), TyKindView::Tuple(tys@)) is Some,
        ensures
            final(self).wf(),
            final(self).same_tables(old(self)),
            (final(self).state(), res) == intern_spec(old(self).state(), TyKindView::Tuple(tys@)),
    {
        self.intern(TyKind::Tuple(tys))
    }

    /// The reference type to `inner_ty` with `mutability`.
    pub fn make_ref_ty(&mut self, inner_ty: TyId, mutability: RefMutability) -> (res: TyId)
        requires
            old(self).wf(),
            intern_opt(old(self).state(), TyKindView::Ref(inner_ty, mutability)) is Some,
        ensures
            final(self).wf(),
            final(self).same_tables(old(self)),
            (final(self).state(), res) == intern_spec(
                old(self).state(),
                TyKindView::Ref(inner_ty, mutability),
            ),
    {
        self.intern(TyKind::Ref(inner_ty, mutability))
    }

    /// The function type of function `def_id` (if any) with parameters
    /// `params`, return type `ret_ty`, and generic arguments `arguments`.
    pub fn make_fn_ty(
        &mut self,
        arguments: Vec<GenericArg>,
        def_id: Option<DefId>,
        params: Vec<TyId>,
        ret_ty: TyId,
    ) -> (res: TyId)
        requires
            old(self).wf(),
            intern_opt(
                old(self).state(),
                TyKindView::Fn { def_id, params: params@, ret_ty, args: arguments@ },
            ) is Some,
        ensures
            final(self).wf(),
            final(self).same_tables(old(self)),
            (final(self).state(), res) == intern_spec(
                old(self).state(),
                TyKindView::Fn { def_id, params: params@, ret_ty, args: arguments@ },
            ),
    {
        self.intern(TyKind::Fn(FnTy { def_id, params, ret_ty }, arguments))
    }

    /// The type of struct `def_id` with generic arguments `arguments`.
    pub fn make_adt_ty(&mut self, def_id: DefId, arguments: Vec<GenericArg>) -> (res: TyId)
        requires
            old(self).wf(),
            intern_opt(old(self).state(), TyKindView::Adt(def_id, arguments@)) is Some,
        ensures
            final(self).wf(),
            final(self).same_tables(old(self)),
            (final(self).state(), res) == intern_spec(
                old(self).state(),
                TyKindView::Adt(def_id, arguments@),
            ),
    {
        self.intern(TyKind::Adt(def_id, arguments))
    }

    /// A type to be inferred, of kind `kind`: a fresh variable that arose at
    /// `span`.
    pub fn make_inferred_ty(&mut self, span: Span, kind: InferKind) -> (res: TyId)
        requires
            old(self).wf(),
            old(self).state().vars.len() < usize::MAX,
            old(self).state().storage.len() < usize::MAX,
        ensures
            final(self).wf(),
            final(self).same_tables(old(self)),
            ({
                let v = TyVarId(old(self).state().vars.len() as usize);
                let s1 = TyState {
                    vars: old(self).state().vars.push(TyVar { span, kind: TyVarKind::Unbound }),
                    heights: old(self).state().heights.push(0),
                    ..old(self).state()
                };
                (final(self).state(), res) == intern_spec(s1, TyKindView::Infer(v, kind))
            }),
    {
        let var_id = self.fresh_var(span);
        self.intern(TyKind::Infer(var_id, kind))
    }

    /// The generic parameter at position `idx` of the generic scope `depth`
    /// deep, declared by `def_id`.
    pub fn make_param_ty(&mut self, def_id: DefId, depth: u32, idx: u32) -> (res: TyId)
        requires
            old(self).wf(),
            intern_opt(old(self).state(), TyKindView::Param(ParamTy { def_id, depth, idx })) is Some,
        ensures
            final(self).wf(),
            final(self).same_tables(old(self)),
            (final(self).state(), res) == intern_spec(
                old(self).state(),
                TyKindView::Param(ParamTy { def_id, depth, idx }),
            ),
    {
        self.intern(TyKind::Param(ParamTy::new(def_id, depth, idx)))
    }

    /// The type built into the language that `kind` names; there is none for
    /// `Infer`.
    pub fn make_builtin_ty(&mut self, kind: &BuiltinTyKind) -> (res: TyId)
        requires
            old(self).wf(),
            !(*kind is Infer),
            intern_opt(old(self).state(), builtin_kind(*kind)) is Some,
        ensures
            final(self).wf(),
            final(self).same_tables(old(self)),
            (final(self).state(), res) == intern_spec(old(self).state(), builtin_kind(*kind)),
    {
        match kind {
            BuiltinTyKind::Unit => self.make_unit_ty(),
            BuiltinTyKind::Int(k) => match k {
                BuiltinIntTy::Fixed(width, signed) => self.make_int_ty(IntTy::Fixed(*width, *signed)),
                BuiltinIntTy::Size(signed) => self.make_int_ty(IntTy::Size(*signed)),
            },
            BuiltinTyKind::Float(width) => self.make_float_ty(*width),
            BuiltinTyKind::Bool => self.make_bool_ty(),
            BuiltinTyKind::Char => self.make_char_ty(),
            BuiltinTyKind::String => self.make_string_ty(),
            BuiltinTyKind::Infer => unreached(),
        }
    }

    /// The type that a reference type refers to; any other type is itself.
    pub fn deref(&self, ty_id: TyId) -> (res: TyId)
        requires
            valid_ty(self.state(), ty_id),
        ensures
            res == match self.state().storage[ty_id.0 as int] {
                TyKindView::Ref(inner, _) => inner,
                _ => ty_id,
            },
    {
        match self.get(ty_id) {
            TyKind::Ref(inner, _) => *inner,
            TyKind::Adt(_, _) => ty_id,
            _ => ty_id,
        }
    }

    /// Resolves `ty_id` with at most `fuel` nested steps.
    pub(crate) fn resolve_ty_fuel(&mut self, ty_id: TyId, Ghost(fuel): Ghost<nat>) -> (res: TyId)
        requires
            old(self).wf(),
            resolve_ty_spec(old(self).state(), ty_id, fuel) is Some,
        ensures
            final(self).wf(),
            final(self).same_tables(old(self)),
            (final(self).state(), res) == resolve_ty_spec(old(self).state(), ty_id, fuel).unwrap(),
        decreases fuel, 0nat,
    {
        let ghost s = self.state();
        let ghost f = (fuel - 1) as nat;
        let i = ty_id.unwrap();
        let kind = self.storage[i].duplicate();
        assert(kind@ == s.storage[i as int]);
        match kind {
            TyKind::Array(inner) => {
                let r = self.resolve_ty_fuel(inner, Ghost(f));
                if r == inner {
                    ty_id
                } else {
                    self.intern(TyKind::Array(r))
                }
            },
            TyKind::Slice(inner) => {
                let r = self.resolve_ty_fuel(inner, Ghost(f));
                if r == inner {
                    ty_id
                } else {
                    self.intern(TyKind::Slice(r))
                }
            },
            TyKind::Tuple(tys) => {
                let (rs, updated) = self.resolve_tys(&tys, Ghost(f));
                if updated {
                    self.make_tuple_ty(rs)
                } else {
                    ty_id
                }
            },
            TyKind::Ref(inner, mutability) => {
                let r = self.resolve_ty_fuel(inner, Ghost(f));
                if r == inner {
                    ty_id
                } else {
                    self.intern(TyKind::Ref(r, mutability))
                }
            },
            TyKind::Fn(func, arguments) => {
                let (args, u1) = self.resolve_args(&arguments, Ghost(f));
                let (params, u2) = self.resolve_tys(&func.params, Ghost(f));
                let ret_ty = self.resolve_ty_fuel(func.ret_ty, Ghost(f));
                let updated = u1 || u2 || ret_ty != func.ret_ty;
                if updated {
                    self.make_fn_ty(args, func.def_id, params, ret_ty)
                } else {
                    ty_id
                }
            },
            TyKind::Adt(def_id, arguments) => {
                let (args, updated) = self.resolve_args(&arguments, Ghost(f));
                if updated {
                    self.make_adt_ty(def_id, args)
                } else {
                    ty_id
                }
            },
            TyKind::Infer(var_id, _) => {
                let root = self.resolve_var(var_id);
                match self.vars[root.unwrap()].kind {
                    TyVarKind::Bound(bound) => self.resolve_ty_fuel(bound, Ghost(f)),
                    _ => ty_id,
                }
            },
            _ => ty_id,
        }
    }

    /// Resolves the types `tys` in order with at most `fuel` nested steps each;
    /// tells whether any changed.
    fn resolve_tys(&mut self, tys: &Vec<TyId>, Ghost(fuel): Ghost<nat>) -> (res: (Vec<TyId>, bool))
        requires
            old(self).wf(),
            resolve_tys_spec(old(self).state(), tys@, fuel) is Some,
        ensures
            final(self).wf(),
            final(self).same_tables(old(self)),
            ({
                let r = resolve_tys_spec(old(self).state(), tys@, fuel).unwrap();
                final(self).state() == r.0 && res.0@ == r.1 && res.1 == r.2
            }),
        decreases fuel, 1nat,
    {
        let ghost r0 = resolve_tys_spec(self.state(), tys@, fuel).unwrap();
        let mut out: Vec<TyId> = Vec::new();
        let mut updated = false;
        let mut i: usize = 0;
        assert(tys@.subrange(0, tys@.len() as int) =~= tys@);
        assert(out@ + r0.1 =~= r0.1);
        while i < tys.len()
            invariant
                self.wf(),
                self.same_tables(old(self)),
                r0 == resolve_tys_spec(old(self).state(), tys@, fuel).unwrap(),
                i <= tys@.len(),
                resolve_tys_spec(self.state(), tys@.subrange(i as int, tys@.len() as int), fuel) is Some,
                ({
                    let rc = resolve_tys_spec(
                        self.state(),
                        tys@.subrange(i as int, tys@.len() as int),
                        fuel,
                    ).unwrap();
                    rc.0 == r0.0 && out@ + rc.1 == r0.1 && (updated || rc.2) == r0.2
                }),
            decreases tys@.len() - i,
        {
            let ghost rest = tys@.subrange(i as int, tys@.len() as int);
            let ghost rc = resolve_tys_spec(self.state(), rest, fuel).unwrap();
            assert(rest[0] == tys@[i as int]);
            assert(rest.drop_first() =~= tys@.subrange(i + 1, tys@.len() as int));
            let r = self.resolve_ty_fuel(tys[i], Ghost(fuel));
            let ghost rn = resolve_tys_spec(self.state(), rest.drop_first(), fuel).unwrap();
            if r != tys[i] {
                updated = true;
            }
            out.push(r);
            assert(out@ + rn.1 =~= (out@.drop_last()) + rc.1);
            i = i + 1;
        }
        assert(tys@.subrange(i as int, tys@.len() as int) =~= Seq::<TyId>::empty());
        assert(out@ + Seq::<TyId>::empty() =~= out@);
        (out, updated)
    }

    /// Resolves the types that the generic arguments `args` give, in order;
    /// tells whether any changed.
    fn resolve_args(&mut self, args: &Vec<GenericArg>, Ghost(fuel): Ghost<nat>) -> (res: (
        Vec<GenericArg>,
        bool,
    ))
        requires
            old(self).wf(),
            resolve_tys_spec(old(self).state(), arg_ids(args@), fuel) is Some,
        ensures
            final(self).wf(),
            final(self).same_tables(old(self)),
            ({
                let r = resolve_tys_spec(old(self).state(), arg_ids(args@), fuel).unwrap();
                final(self).state() == r.0 && res.0@ == ty_args(r.1) && res.1 == r.2
            }),
        decreases fuel, 2nat,
    {
        let ids = ids_of_args(args);
        let (rs, updated) = self.resolve_tys(&ids, Ghost(fuel));
        (args_of_ids(&rs), updated)
    }

    /// The resolution of type `ty_id`: see [`resolve_ty_spec`]. Resolving must
    /// end, which it does unless a type variable is bound, directly or not, to a
    /// type that holds it.
    pub fn resolve_ty(&mut self, ty_id: TyId) -> (res: TyId)
        requires
            old(self).wf(),
            exists|fuel: nat| resolve_ty_spec(old(self).state(), ty_id, fuel) is Some,
        ensures
            final(self).wf(),
            final(self).same_tables(old(self)),
            (final(self).state(), res) == resolve_ty_spec(
                old(self).state(),
                ty_id,
                resolve_fuel(old(self).state(), ty_id),
            ).unwrap(),
    {
        self.resolve_ty_fuel(ty_id, Ghost(resolve_fuel(self.state(), ty_id)))
    }

    /// Unifies `a` with `b` with at most `fuel` nested steps.
    fn unify_ty_fuel(&mut self, a: TyId, b: TyId, Ghost(fuel): Ghost<nat>) -> (res: bool)
        requires
            old(self).wf(),
            unify_ty_spec(old(self).state(), a, b, fuel) is Some,
        ensures
            final(self).wf(),
            final(self).same_tables(old(self)),
            (final(self).state(), res) == unify_ty_spec(old(self).state(), a, b, fuel).unwrap(),
        decreases fuel, 0nat,
    {
        let ghost f = (fuel - 1) as nat;
        let res_a = self.resolve_ty_fuel(a, Ghost(f));
        let res_b = self.resolve_ty_fuel(b, Ghost(f));
        if res_a == res_b {
            return true;
        }
        let ka = self.storage[res_a.unwrap()].duplicate();
        let kb = self.storage[res_b.unwrap()].duplicate();
        if let TyKind::Infer(v, kind) = &kb {
            if kind.compatible(&ka) {
                self.bind_var(*v, res_a);
                return true;
            }
        }
        if let TyKind::Infer(v, kind) = &ka {
            if kind.compatible(&kb) {
                self.bind_var(*v, res_b);
                return true;
            }
        }
        match (ka, kb) {
            (TyKind::Array(x), TyKind::Array(y)) => self.unify_ty_fuel(x, y, Ghost(f)),
            (TyKind::Slice(x), TyKind::Slice(y)) => self.unify_ty_fuel(x, y, Ghost(f)),
            (TyKind::Tuple(xs), TyKind::Tuple(ys)) => self.unify_all(&xs, &ys, Ghost(f)),
            (TyKind::Ref(x, xm), TyKind::Ref(y, ym)) => {
                let mut_valid = xm == RefMutability::Immutable || xm == ym;
                mut_valid && self.unify_ty_fuel(x, y, Ghost(f))
            },
            (TyKind::Fn(fa, ga), TyKind::Fn(fb, gb)) => {
                if fa.params.len() != fb.params.len() {
                    return false;
                }
                let ia = ids_of_args(&ga);
                let ib = ids_of_args(&gb);
                if !self.unify_all(&ia, &ib, Ghost(f)) {
                    return false;
                }
                self.unify_all(&fa.params, &fb.params, Ghost(f)) && self.unify_ty_fuel(
                    fa.ret_ty,
                    fb.ret_ty,
                    Ghost(f),
                )
            },
            (TyKind::Never, _) => true,
            (_, TyKind::Never) => true,
            (TyKind::Adt(da, ga), TyKind::Adt(db, gb)) => {
                if da != db || ga.len() != gb.len() {
                    return false;
                }
                let ia = ids_of_args(&ga);
                let ib = ids_of_args(&gb);
                self.unify_all(&ia, &ib, Ghost(f))
            },
            _ => false,
        }
    }

    /// Unifies `xs` with `ys` pair by pair, stopping at the first pair that fails.
    fn unify_all(&mut self, xs: &Vec<TyId>, ys: &Vec<TyId>, Ghost(fuel): Ghost<nat>) -> (res: bool)
        requires
            old(self).wf(),
            unify_all_spec(old(self).state(), xs@, ys@, fuel) is Some,
        ensures
            final(self).wf(),
            final(self).same_tables(old(self)),
            (final(self).state(), res) == unify_all_spec(old(self).state(), xs@, ys@, fuel).unwrap(),
        decreases fuel, 1nat,
    {
        let mut i: usize = 0;
        assert(xs@.subrange(0, xs@.len() as int) =~= xs@);
        assert(ys@.subrange(0, ys@.len() as int) =~= ys@);
        while i < xs.len() && i < ys.len()
            invariant
                self.wf(),
                self.same_tables(old(self)),
                i <= xs@.len(),
                i <= ys@.len(),
                unify_all_spec(
                    self.state(),
                    xs@.subrange(i as int, xs@.len() as int),
                    ys@.subrange(i as int, ys@.len() as int),
                    fuel,
                ) == unify_all_spec(old(self).state(), xs@, ys@, fuel),
                unify_all_spec(old(self).state(), xs@, ys@, fuel) is Some,
            decreases xs@.len() - i,
        {
            let ghost rx = xs@.subrange(i as int, xs@.len() as int);
            let ghost ry = ys@.subrange(i as int, ys@.len() as int);
            assert(rx[0] == xs@[i as int] && ry[0] == ys@[i as int]);
            assert(rx.drop_first() =~= xs@.subrange(i + 1, xs@.len() as int));
            assert(ry.drop_first() =~= ys@.subrange(i + 1, ys@.len() as int));
            if !self.unify_ty_fuel(xs[i], ys[i], Ghost(fuel)) {
                return false;
            }
            i = i + 1;
        }
        true
    }

    /// Whether `a` and `b` unify: see [`unify_ty_spec`]. Unifying must end,
    /// which it does unless a type variable gets bound, directly or not, to a
    /// type that holds it.
    pub fn unify_ty(&mut self, a: TyId, b: TyId) -> (res: bool)
        requires
            old(self).wf(),
            exists|fuel: nat| unify_ty_spec(old(self).state(), a, b, fuel) is Some,
        ensures
            final(self).wf(),
            final(self).same_tables(old(self)),
            (final(self).state(), res) == unify_ty_spec(
                old(self).state(),
                a,
                b,
                unify_ty_fuel_of(old(self).state(), a, b),
            ).unwrap(),
    {
        self.unify_ty_fuel(a, b, Ghost(unify_ty_fuel_of(self.state(), a, b)))
    }

    /// Unifies type variables `a` and `b`: see [`unify_spec`]. The context
    /// stays well formed unless both have the same unbound root, which then
    /// becomes a link to itself.
    pub fn unify(&mut self, a: TyVarId, b: TyVarId)
        requires
            old(self).wf(),
            exists|fuel: nat| unify_spec(old(self).state(), a, b, fuel) is Some,
        ensures
            final(self).wf() || links_to_itself(old(self).state(), a, b),
            final(self).same_tables(old(self)),
            final(self).state() == unify_spec(
                old(self).state(),
                a,
                b,
                unify_fuel_of(old(self).state(), a, b),
            ).unwrap(),
    {
        let ghost fuel = unify_fuel_of(self.state(), a, b);
        let ghost s = self.state();
        let ra = self.resolve_var(a);
        let ghost s1 = self.state();
        let rb = self.resolve_var(b);
        let ghost s2 = self.state();
        let ka = self.vars[ra.unwrap()].kind;
        let kb = self.vars[rb.unwrap()].kind;
        match (ka, kb) {
            (TyVarKind::Bound(at), TyVarKind::Bound(bt)) => {
                self.unify_ty_fuel(at, bt, Ghost(fuel));
            },
            (_, TyVarKind::Bound(v)) => self.bind_var(ra, v),
            (TyVarKind::Bound(v), _) => self.bind_var(rb, v),
            (TyVarKind::Unbound, TyVarKind::Unbound) => {
                let i = ra.unwrap();
                let mut var = self.vars[i];
                var.kind = TyVarKind::Linked(rb);
                self.vars.set(i, var);
                proof {
                    let ls = link_spec(s2, ra, rb);
                    self.heights@ = ls.heights;
                    self.bound@ = ls.bound;
                    assert(self.state().vars =~= ls.vars);
                    if ra != rb {
                        lemma_link(s2, ra, rb);
                    }
                }
            },
            _ => {
                unreached::<()>();
            },
        }
    }

    /// Instantiates `ty_id` with `args` with at most `fuel` nested steps.
    fn instantiate_fuel(&mut self, ty_id: TyId, args: &[&[GenericArg]], Ghost(fuel): Ghost<nat>) -> (res: TyId)
        requires
            old(self).wf(),
            instantiate_spec(old(self).state(), ty_id, args_view(args@), fuel) is Some,
        ensures
            final(self).wf(),
            final(self).same_tables(old(self)),
            (final(self).state(), res) == instantiate_spec(
                old(self).state(),
                ty_id,
                args_view(args@),
                fuel,
            ).unwrap(),
        decreases fuel, 0nat,
    {
        let ghost f = (fuel - 1) as nat;
        let ty_id = self.resolve_ty_fuel(ty_id, Ghost(f));
        let kind = self.storage[ty_id.unwrap()].duplicate();
        match kind {
            TyKind::Array(inner) => {
                let inner = self.instantiate_fuel(inner, args, Ghost(f));
                self.make_array_ty(inner)
            },
            TyKind::Slice(inner) => {
                let inner = self.instantiate_fuel(inner, args, Ghost(f));
                self.make_slice_ty(inner)
            },
            TyKind::Tuple(tys) => {
                let tys = self.instantiate_tys(&tys, args, Ghost(f));
                self.make_tuple_ty(tys)
            },
            TyKind::Ref(inner, mutability) => {
                let inner = self.instantiate_fuel(inner, args, Ghost(f));
                self.make_ref_ty(inner, mutability)
            },
            TyKind::Fn(fn_ty, g_args) => {
                let params = self.instantiate_tys(&fn_ty.params, args, Ghost(f));
                let ret_ty = self.instantiate_fuel(fn_ty.ret_ty, args, Ghost(f));
                let ids = ids_of_args(&g_args);
                let new_ids = self.instantiate_tys(&ids, args, Ghost(f));
                self.make_fn_ty(args_of_ids(&new_ids), fn_ty.def_id, params, ret_ty)
            },
            TyKind::Adt(def_id, g_args) => {
                let ids = ids_of_args(&g_args);
                let new_ids = self.instantiate_tys(&ids, args, Ghost(f));
                self.make_adt_ty(def_id, args_of_ids(&new_ids))
            },
            TyKind::Param(param) => {
                let depth = param.depth();
                let i = if depth >= 1 {
                    (depth - 1) as usize
                } else {
                    0
                };
                if i < args.len() {
                    let row = args[i];
                    let j = param.idx() as usize;
                    if j < row.len() {
                        match row[j] {
                            GenericArg::Ty(id) => {
                                return id;
                            },
                        }
                    }
                }
                ty_id
            },
            _ => ty_id,
        }
    }

    /// Instantiates the types `tys` in order.
    fn instantiate_tys(&mut self, tys: &Vec<TyId>, args: &[&[GenericArg]], Ghost(fuel): Ghost<nat>) -> (res: Vec<TyId>)
        requires
            old(self).wf(),
            instantiate_tys_spec(old(self).state(), tys@, args_view(args@), fuel) is Some,
        ensures
            final(self).wf(),
            final(self).same_tables(old(self)),
            ({
                let r = instantiate_tys_spec(old(self).state(), tys@, args_view(args@), fuel).unwrap();
                final(self).state() == r.0 && res@ == r.1
            }),
        decreases fuel, 1nat,
    {
        let ghost a = args_view(args@);
        let ghost r0 = instantiate_tys_spec(self.state(), tys@, a, fuel).unwrap();
        let mut out: Vec<TyId> = Vec::new();
        let mut i: usize = 0;
        assert(tys@.subrange(0, tys@.len() as int) =~= tys@);
        assert(out@ + r0.1 =~= r0.1);
        while i < tys.len()
            invariant
                self.wf(),
                self.same_tables(old(self)),
                a == args_view(args@),
                r0 == instantiate_tys_spec(old(self).state(), tys@, a, fuel).unwrap(),
                i <= tys@.len(),
                instantiate_tys_spec(self.state(), tys@.subrange(i as int, tys@.len() as int), a, fuel) is Some,
                ({
                    let rc = instantiate_tys_spec(
                        self.state(),
                        tys@.subrange(i as int, tys@.len() as int),
                        a,
                        fuel,
                    ).unwrap();
                    rc.0 == r0.0 && out@ + rc.1 == r0.1
                }),
            decreases tys@.len() - i,
        {
            let ghost rest = tys@.subrange(i as int, tys@.len() as int);
            let ghost rc = instantiate_tys_spec(self.state(), rest, a, fuel).unwrap();
            assert(rest[0] == tys@[i as int]);
            assert(rest.drop_first() =~= tys@.subrange(i + 1, tys@.len() as int));
            let r = self.instantiate_fuel(tys[i], args, Ghost(fuel));
            let ghost rn = instantiate_tys_spec(self.state(), rest.drop_first(), a, fuel).unwrap();
            out.push(r);
            assert(out@ + rn.1 =~= (out@.drop_last()) + rc.1);
            i = i + 1;
        }
        assert(tys@.subrange(i as int, tys@.len() as int) =~= Seq::<TyId>::empty());
        assert(out@ + Seq::<TyId>::empty() =~= out@);
        out
    }

    /// Instantiates type `ty_id` with the generic arguments `args`, one list
    /// per generic scope: see [`instantiate_spec`]. Instantiating must end,
    /// which it does unless resolving does not.
    pub fn instantiate(&mut self, ty_id: TyId, args: &[&[GenericArg]]) -> (res: TyId)
        requires
            old(self).wf(),
            exists|fuel: nat| instantiate_spec(old(self).state(), ty_id, args_view(args@), fuel) is Some,
        ensures
            final(self).wf(),
            final(self).same_tables(old(self)),
            (final(self).state(), res) == instantiate_spec(
                old(self).state(),
                ty_id,
                args_view(args@),
                instantiate_fuel_of(old(self).state(), ty_id, args_view(args@)),
            ).unwrap(),
    {
        self.instantiate_fuel(
            ty_id,
            args,
            Ghost(instantiate_fuel_of(self.state(), ty_id, args_view(args@))),
        )
    }

    /// Collects the inference types left in `ty_id`, with at most `fuel` nested
    /// steps.
    fn unresolved_infer_fuel(&mut self, ty_id: TyId, tys: &mut Vec<TyId>, Ghost(fuel): Ghost<nat>)
        requires
            old(self).wf(),
            unresolved_spec(old(self).state(), ty_id, old(tys)@, fuel) is Some,
        ensures
            final(self).wf(),
            final(self).same_tables(old(self)),
            ({
                let r = unresolved_spec(old(self).state(), ty_id, old(tys)@, fuel).unwrap();
                final(self).state() == r.0 && final(tys)@ == r.1
            }),
        decreases fuel, 0nat,
    {
        let ghost f = (fuel - 1) as nat;
        let ty_id = self.resolve_ty_fuel(ty_id, Ghost(f));
        let kind = self.storage[ty_id.unwrap()].duplicate();
        match kind {
            TyKind::Infer(_, _) => tys.push(ty_id),
            TyKind::Array(inner) => self.unresolved_infer_fuel(inner, tys, Ghost(f)),
            TyKind::Slice(inner) => self.unresolved_infer_fuel(inner, tys, Ghost(f)),
            TyKind::Tuple(inner_tys) => self.unresolved_infer_tys(&inner_tys, tys, Ghost(f)),
            TyKind::Ref(inner, _) => self.unresolved_infer_fuel(inner, tys, Ghost(f)),
            TyKind::Fn(fn_ty, args) => {
                let ids = ids_of_args(&args);
                self.unresolved_infer_tys(&ids, tys, Ghost(f));
                self.unresolved_infer_tys(&fn_ty.params, tys, Ghost(f));
                self.unresolved_infer_fuel(fn_ty.ret_ty, tys, Ghost(f));
            },
            TyKind::Adt(_, args) => {
                let ids = ids_of_args(&args);
                self.unresolved_infer_tys(&ids, tys, Ghost(f));
            },
            _ => {},
        }
    }

    /// Collects the inference types left in the types `ids`, in order.
    fn unresolved_infer_tys(&mut self, ids: &Vec<TyId>, tys: &mut Vec<TyId>, Ghost(fuel): Ghost<nat>)
        requires
            old(self).wf(),
            unresolved_tys_spec(old(self).state(), ids@, old(tys)@, fuel) is Some,
        ensures
            final(self).wf(),
            final(self).same_tables(old(self)),
            ({
                let r = unresolved_tys_spec(old(self).state(), ids@, old(tys)@, fuel).unwrap();
                final(self).state() == r.0 && final(tys)@ == r.1
            }),
        decreases fuel, 1nat,
    {
        let mut i: usize = 0;
        assert(ids@.subrange(0, ids@.len() as int) =~= ids@);
        while i < ids.len()
            invariant
                self.wf(),
                self.same_tables(old(self)),
                i <= ids@.len(),
                unresolved_tys_spec(self.state(), ids@.subrange(i as int, ids@.len() as int), tys@, fuel)
                    == unresolved_tys_spec(old(self).state(), ids@, old(tys)@, fuel),
                unresolved_tys_spec(old(self).state(), ids@, old(tys)@, fuel) is Some,
            decreases ids@.len() - i,
        {
            let ghost rest = ids@.subrange(i as int, ids@.len() as int);
            assert(rest[0] == ids@[i as int]);
            assert(rest.drop_first() =~= ids@.subrange(i + 1, ids@.len() as int));
            self.unresolved_infer_fuel(ids[i], tys, Ghost(fuel));
            i = i + 1;
        }
        assert(ids@.subrange(i as int, ids@.len() as int) =~= Seq::<TyId>::empty());
    }

    /// Appends to `tys` the inference types left in `ty_id` once resolved: see
    /// [`unresolved_spec`]. It must end, which it does unless resolving does not.
    pub fn unresolved_infer(&mut self, ty_id: TyId, tys: &mut Vec<TyId>)
        requires
            old(self).wf(),
            exists|fuel: nat| unresolved_spec(old(self).state(), ty_id, old(tys)@, fuel) is Some,
        ensures
            final(self).wf(),
            final(self).same_tables(old(self)),
            ({
                let r = unresolved_spec(
                    old(self).state(),
                    ty_id,
                    old(tys)@,
                    unresolved_fuel_of(old(self).state(), ty_id, old(tys)@),
                ).unwrap();
                final(self).state() == r.0 && final(tys)@ == r.1
            }),
    {
        let ghost fuel = unresolved_fuel_of(self.state(), ty_id, tys@);
        self.unresolved_infer_fuel(ty_id, tys, Ghost(fuel))
    }

    /// Whether `ty_id` holds a variable that may stand for any type, with at
    /// most `fuel` nested steps.
    fn is_inferred_fuel(&self, ty_id: TyId, Ghost(fuel): Ghost<nat>) -> (res: bool)
        requires
            is_inferred_spec(self.state(), ty_id, fuel) is Some,
        ensures
            res == is_inferred_spec(self.state(), ty_id, fuel).unwrap(),
        decreases fuel, 0nat,
    {
        let ghost f = (fuel - 1) as nat;
        match self.get(ty_id) {
            TyKind::Infer(_, InferKind::Any) => true,
            TyKind::Array(inner) => self.is_inferred_fuel(*inner, Ghost(f)),
            TyKind::Slice(inner) => self.is_inferred_fuel(*inner, Ghost(f)),
            TyKind::Tuple(tys) => self.any_inferred(tys, Ghost(f)),
            TyKind::Ref(inner, _) => self.is_inferred_fuel(*inner, Ghost(f)),
            TyKind::Fn(fn_ty, args) => {
                let ids = ids_of_args(args);
                self.any_inferred(&ids, Ghost(f)) || self.any_inferred(&fn_ty.params, Ghost(f))
                    || self.is_inferred_fuel(fn_ty.ret_ty, Ghost(f))
            },
            TyKind::Adt(_, args) => {
                let ids = ids_of_args(args);
                self.any_inferred(&ids, Ghost(f))
            },
            _ => false,
        }
    }

    /// Whether any of `tys` holds a variable that may stand for any type.
    fn any_inferred(&self, tys: &Vec<TyId>, Ghost(fuel): Ghost<nat>) -> (res: bool)
        requires
            any_inferred_spec(self.state(), tys@, fuel) is Some,
        ensures
            res == any_inferred_spec(self.state(), tys@, fuel).unwrap(),
        decreases fuel, 1nat,
    {
        let mut i: usize = 0;
        assert(tys@.subrange(0, tys@.len() as int) =~= tys@);
        while i < tys.len()
            invariant
                i <= tys@.len(),
                any_inferred_spec(self.state(), tys@.subrange(i as int, tys@.len() as int), fuel)
                    == any_inferred_spec(self.state(), tys@, fuel),
                any_inferred_spec(self.state(), tys@, fuel) is Some,
            decreases tys@.len() - i,
        {
            let ghost rest = tys@.subrange(i as int, tys@.len() as int);
            assert(rest[0] == tys@[i as int]);
            assert(rest.drop_first() =~= tys@.subrange(i + 1, tys@.len() as int));
            if self.is_inferred_fuel(tys[i], Ghost(fuel)) {
                return true;
            }
            i = i + 1;
        }
        assert(tys@.subrange(i as int, tys@.len() as int) =~= Seq::<TyId>::empty());
        false
    }

    /// Whether `ty_id` holds a variable that may stand for any type: see
    /// [`is_inferred_spec`]. Looking must end, which it does unless a type
    /// holds itself.
    pub fn is_inferred(&self, ty_id: TyId) -> (res: bool)
        requires
            exists|fuel: nat| is_inferred_spec(self.state(), ty_id, fuel) is Some,
        ensures
            res == is_inferred_spec(
                self.state(),
                ty_id,
                choose|fuel: nat| is_inferred_spec(self.state(), ty_id, fuel) is Some,
            ).unwrap(),
    {
        self.is_inferred_fuel(
            ty_id,
            Ghost(choose|fuel: nat| is_inferred_spec(self.state(), ty_id, fuel) is Some),
        )
    }
}

} // verus!
