use vstd::prelude::*;

use crate::hir::DefId;
use crate::ty::{GenericArg, ParamTy, RefMutability, TyId, TyKindView, TyVar, TyVarId, TyVarKind};
use crate::ty_state::{
    arg_ids, compress, ty_args, intern_opt, intern_spec, interned_ok, law_intern_stores_kind, lemma_compress, links_ok,
    lookup, resolve_ty_spec, resolve_tys_spec, unify_all_spec, resolve_var_spec, root_of, state_ok, unify_ty_spec, valid_ty,
    with_vars, lemma_resolve_fuel, lemma_resolve_tys_fuel, law_resolve_fuel_independent, instantiate_spec,
    instantiate_tys_spec, law_instantiate_fuel_independent, law_unify_ty_fuel_independent, TyState,
};
use crate::ty_ctx::{instantiate_fuel_of, resolve_fuel, unify_ty_fuel_of, TyCtx};

verus! {

// ---------------------------------------------------------------------------
// Shortening a chain of links keeps every root
// ---------------------------------------------------------------------------

/// Shortening the chain from `v` to its root `r` leaves each variable as it
/// was, or turns a link whose root is `r` into a direct link to `r`.
proof fn lemma_compress_cases(s: TyState, v: int, r: TyVarId)
    requires
        links_ok(s),
        0 <= v < s.vars.len(),
        root_of(s, v) == r.0 as int,
    ensures
        forall|x: int|
            #![trigger compress(s, v, r)[x]]
            0 <= x < s.vars.len() ==> compress(s, v, r)[x] == s.vars[x] || (compress(s, v, r)[x] == TyVar {
                span: s.vars[x].span,
                kind: TyVarKind::Linked(r),
            } && root_of(s, x) == r.0 as int && s.vars[x].kind is Linked),
    decreases s.bound - s.heights[v],
{
    lemma_compress(s, v);
    match s.vars[v].kind {
        TyVarKind::Linked(w) => {
            let wi = w.0 as int;
            lemma_compress(s, wi);
            lemma_compress_cases(s, wi, r);
            let c0 = compress(s, wi, r);
            let c = compress(s, v, r);
            assert forall|x: int| #![trigger c[x]] 0 <= x < s.vars.len() && x != v implies c[x] == c0[x] by {}
        },
        _ => {},
    }
}

/// Shortening the chain of links from `v` keeps the root of every variable.
pub proof fn lemma_compress_keeps_roots(s: TyState, v: int, x: int)
    requires
        links_ok(s),
        0 <= v < s.vars.len(),
        0 <= x < s.vars.len(),
    ensures
        root_of(with_vars(s, compress(s, v, TyVarId(root_of(s, v) as usize))), x) == root_of(s, x),
    decreases s.bound - s.heights[x],
{
    lemma_compress(s, v);
    let r = TyVarId(root_of(s, v) as usize);
    lemma_compress_cases(s, v, r);
    let s2 = with_vars(s, compress(s, v, r));
    let c = s2.vars;
    assert(c[x] == compress(s, v, r)[x]);
    if c[x] == s.vars[x] {
        match s.vars[x].kind {
            TyVarKind::Linked(w) => {
                lemma_compress_keeps_roots(s, v, w.0 as int);
                assert(s2.vars.len() == s.vars.len());
                assert(root_of(s2, x) == root_of(s2, w.0 as int));
            },
            _ => {
                assert(root_of(s2, x) == x);
            },
        }
    } else {
        assert(c[r.0 as int] == compress(s, v, r)[r.0 as int]);
        assert(c[r.0 as int] == s.vars[r.0 as int]);
        assert(s2.heights[x] < s2.heights[r.0 as int]);
        assert(root_of(s2, r.0 as int) == r.0 as int);
        assert(root_of(s2, x) == root_of(s2, r.0 as int));
    }
}

// ---------------------------------------------------------------------------
// States that extend one another
// ---------------------------------------------------------------------------

/// `s` is well formed and its ids fit in a machine word.
pub open spec fn fits(s: TyState) -> bool {
    state_ok(s) && s.storage.len() <= usize::MAX
}

/// `s2` extends `s`: it is well formed, keeps every stored and interned type
/// of `s` (and may add more), has the same variables with the same roots, and
/// leaves every variable of `s` that is no link as it was; so no variable is
/// bound or joined in `s2` that is not in `s`.
pub open spec fn extends(s: TyState, s2: TyState) -> bool {
    &&& fits(s2)
    &&& s.storage.len() <= s2.storage.len()
    &&& forall|i: int| 0 <= i < s.storage.len() ==> #[trigger] s2.storage[i] == s.storage[i]
    &&& s.interned.len() <= s2.interned.len()
    &&& forall|i: int| 0 <= i < s.interned.len() ==> #[trigger] s2.interned[i] == s.interned[i]
    &&& s2.vars.len() == s.vars.len()
    &&& s2.heights == s.heights
    &&& s2.bound == s.bound
    &&& forall|x: int| 0 <= x < s.vars.len() ==> #[trigger] root_of(s2, x) == root_of(s, x)
    &&& forall|x: int|
        0 <= x < s.vars.len() && !(s.vars[x].kind is Linked) ==> #[trigger] s2.vars[x] == s.vars[x]
}

/// A well-formed state extends itself.
pub proof fn lemma_extends_refl(s: TyState)
    requires
        fits(s),
    ensures
        extends(s, s),
{
}

/// Extending is transitive.
pub proof fn lemma_extends_trans(s1: TyState, s2: TyState, s3: TyState)
    requires
        extends(s1, s2),
        extends(s2, s3),
    ensures
        extends(s1, s3),
{
    assert forall|x: int| 0 <= x < s1.vars.len() && !(s1.vars[x].kind is Linked) implies #[trigger] s3.vars[x]
        == s1.vars[x] by {
        assert(s2.vars[x] == s1.vars[x]);
    }
    assert forall|x: int| 0 <= x < s1.vars.len() implies #[trigger] root_of(s3, x) == root_of(s1, x) by {
        assert(root_of(s2, x) == root_of(s1, x));
    }
}

/// Resolving a variable of a well-formed state gives a state that extends it.
pub proof fn lemma_resolve_var_extends(s: TyState, v: TyVarId)
    requires
        fits(s),
        (v.0 as int) < s.vars.len(),
    ensures
        extends(s, resolve_var_spec(s, v).0),
        (resolve_var_spec(s, v).1.0 as int) == root_of(s, v.0 as int),
        0 <= root_of(s, v.0 as int) < s.vars.len(),
        !(s.vars[root_of(s, v.0 as int)].kind is Linked),
{
    lemma_compress(s, v.0 as int);
    let s2 = resolve_var_spec(s, v).0;
    assert forall|x: int| 0 <= x < s.vars.len() implies #[trigger] root_of(s2, x) == root_of(s, x) by {
        lemma_compress_keeps_roots(s, v.0 as int, x);
    }
    let c = compress(s, v.0 as int, TyVarId(root_of(s, v.0 as int) as usize));
    assert forall|x: int| 0 <= x < s.vars.len() && !(s.vars[x].kind is Linked) implies #[trigger] s2.vars[x]
        == s.vars[x] by {
        assert(c[x] == s.vars[x]);
    }
}

/// The root of a variable depends on the variables, their heights and the
/// bound alone.
pub proof fn lemma_root_of_vars(s: TyState, s2: TyState, x: int)
    requires
        s2.vars == s.vars,
        s2.heights == s.heights,
        s2.bound == s.bound,
    ensures
        root_of(s2, x) == root_of(s, x),
    decreases s.bound - s.heights[x],
{
    if 0 <= x < s.vars.len() {
        match s.vars[x].kind {
            TyVarKind::Linked(w) => {
                if (w.0 as int) < s.vars.len() && s.heights[x] < s.heights[w.0 as int] <= s.bound {
                    lemma_root_of_vars(s, s2, w.0 as int);
                }
            },
            _ => {},
        }
    }
}

/// Interning, where it succeeds, gives a state that extends the one before.
pub proof fn lemma_intern_extends(s: TyState, k: TyKindView)
    requires
        fits(s),
        intern_opt(s, k) is Some,
    ensures
        extends(s, intern_opt(s, k).unwrap().0),
        lookup(intern_opt(s, k).unwrap().0, k) == Some(intern_opt(s, k).unwrap().1),
{
    law_intern_stores_kind(s, k);
    let s2 = intern_spec(s, k).0;
    assert forall|x: int| 0 <= x < s.vars.len() implies #[trigger] root_of(s2, x) == root_of(s, x) by {
        lemma_root_of_vars(s, s2, x);
    }
}

/// A kind interned in a state keeps its id in every state that extends it.
pub proof fn lemma_lookup_extends(s: TyState, s2: TyState, k: TyKindView)
    requires
        interned_ok(s),
        extends(s, s2),
        lookup(s, k) is Some,
    ensures
        lookup(s2, k) == lookup(s, k),
{
    let j = choose|i: int| 0 <= i < s.interned.len() && s.interned[i].0 == k;
    assert(s2.interned[j] == s.interned[j]);
    let j2 = choose|i: int| 0 <= i < s2.interned.len() && s2.interned[i].0 == k;
    if j2 != j {
        assert(s2.interned[j2].0 == s2.interned[j].0);
        assert(false);
    }
}

// ---------------------------------------------------------------------------
// Resolving extends the state
// ---------------------------------------------------------------------------

/// Resolving a type, where it ends, gives a state that extends the one
/// before.
pub proof fn lemma_resolve_extends(s: TyState, t: TyId, f: nat)
    requires
        fits(s),
        resolve_ty_spec(s, t, f) is Some,
    ensures
        extends(s, resolve_ty_spec(s, t, f).unwrap().0),
    decreases f, 0nat,
{
    let g = (f - 1) as nat;
    match s.storage[t.0 as int] {
        TyKindView::Array(x) => {
            lemma_resolve_extends(s, x, g);
            let r = resolve_ty_spec(s, x, g).unwrap();
            if r.1 != x {
                lemma_intern_extends(r.0, TyKindView::Array(r.1));
                lemma_extends_trans(s, r.0, intern_opt(r.0, TyKindView::Array(r.1)).unwrap().0);
            }
        },
        TyKindView::Slice(x) => {
            lemma_resolve_extends(s, x, g);
            let r = resolve_ty_spec(s, x, g).unwrap();
            if r.1 != x {
                lemma_intern_extends(r.0, TyKindView::Slice(r.1));
                lemma_extends_trans(s, r.0, intern_opt(r.0, TyKindView::Slice(r.1)).unwrap().0);
            }
        },
        TyKindView::Ref(x, m) => {
            lemma_resolve_extends(s, x, g);
            let r = resolve_ty_spec(s, x, g).unwrap();
            if r.1 != x {
                lemma_intern_extends(r.0, TyKindView::Ref(r.1, m));
                lemma_extends_trans(s, r.0, intern_opt(r.0, TyKindView::Ref(r.1, m)).unwrap().0);
            }
        },
        TyKindView::Tuple(xs) => {
            lemma_resolve_tys_extends(s, xs, g);
            let r = resolve_tys_spec(s, xs, g).unwrap();
            if r.2 {
                lemma_intern_extends(r.0, TyKindView::Tuple(r.1));
                lemma_extends_trans(s, r.0, intern_opt(r.0, TyKindView::Tuple(r.1)).unwrap().0);
            }
        },
        TyKindView::Adt(d, args) => {
            lemma_resolve_tys_extends(s, arg_ids(args), g);
            let r = resolve_tys_spec(s, arg_ids(args), g).unwrap();
            if r.2 {
                let k = TyKindView::Adt(d, ty_args(r.1));
                lemma_intern_extends(r.0, k);
                lemma_extends_trans(s, r.0, intern_opt(r.0, k).unwrap().0);
            }
        },
        TyKindView::Fn { def_id, params, ret_ty, args } => {
            lemma_resolve_tys_extends(s, arg_ids(args), g);
            let ra = resolve_tys_spec(s, arg_ids(args), g).unwrap();
            lemma_resolve_tys_extends(ra.0, params, g);
            let rp = resolve_tys_spec(ra.0, params, g).unwrap();
            lemma_resolve_extends(rp.0, ret_ty, g);
            let rr = resolve_ty_spec(rp.0, ret_ty, g).unwrap();
            lemma_extends_trans(s, ra.0, rp.0);
            lemma_extends_trans(s, rp.0, rr.0);
            if ra.2 || rp.2 || rr.1 != ret_ty {
                let k = TyKindView::Fn { def_id, params: rp.1, ret_ty: rr.1, args: ty_args(ra.1) };
                lemma_intern_extends(rr.0, k);
                lemma_extends_trans(s, rr.0, intern_opt(rr.0, k).unwrap().0);
            }
        },
        TyKindView::Infer(v, _) => {
            if (v.0 as int) < s.vars.len() {
                lemma_resolve_var_extends(s, v);
                let (s1, root) = resolve_var_spec(s, v);
                match s1.vars[root.0 as int].kind {
                    TyVarKind::Bound(b) => {
                        lemma_resolve_extends(s1, b, g);
                        lemma_extends_trans(s, s1, resolve_ty_spec(s1, b, g).unwrap().0);
                    },
                    _ => {},
                }
            } else {
                assert(root_of(s, v.0 as int) == v.0 as int);
            }
        },
        _ => {},
    }
}

/// Resolving types in order, where it ends, gives a state that extends the
/// one before.
pub proof fn lemma_resolve_tys_extends(s: TyState, ts: Seq<TyId>, f: nat)
    requires
        fits(s),
        resolve_tys_spec(s, ts, f) is Some,
    ensures
        extends(s, resolve_tys_spec(s, ts, f).unwrap().0),
    decreases f, ts.len() + 1,
{
    if ts.len() > 0 {
        lemma_resolve_extends(s, ts[0], f);
        let r = resolve_ty_spec(s, ts[0], f).unwrap();
        lemma_resolve_tys_extends(r.0, ts.drop_first(), f);
        lemma_extends_trans(s, r.0, resolve_tys_spec(r.0, ts.drop_first(), f).unwrap().0);
    }
}

// ---------------------------------------------------------------------------
// Resolving again gives the same type
// ---------------------------------------------------------------------------

/// Resolving a type again, in any state that extends the state its first
/// resolution ended in, gives the same type and a state that extends that
/// state.
pub proof fn lemma_resolve_again(s: TyState, t: TyId, f: nat, s2: TyState)
    requires
        fits(s),
        resolve_ty_spec(s, t, f) is Some,
        extends(resolve_ty_spec(s, t, f).unwrap().0, s2),
    ensures
        resolve_ty_spec(s2, t, f) is Some,
        resolve_ty_spec(s2, t, f).unwrap().1 == resolve_ty_spec(s, t, f).unwrap().1,
        extends(s2, resolve_ty_spec(s2, t, f).unwrap().0),
    decreases f, 0nat,
{
    let g = (f - 1) as nat;
    lemma_resolve_extends(s, t, f);
    let s1 = resolve_ty_spec(s, t, f).unwrap().0;
    lemma_extends_trans(s, s1, s2);
    assert(s2.storage[t.0 as int] == s.storage[t.0 as int]);
    match s.storage[t.0 as int] {
        TyKindView::Array(x) => {
            let r = resolve_ty_spec(s, x, g).unwrap();
            lemma_resolve_extends(s, x, g);
            if r.1 != x {
                lemma_intern_extends(r.0, TyKindView::Array(r.1));
            }
            lemma_extends_trans(r.0, s1, s2);
            lemma_resolve_again(s, x, g, s2);
            let r2 = resolve_ty_spec(s2, x, g).unwrap();
            if r.1 != x {
                lemma_extends_trans(s1, s2, r2.0);
                lemma_lookup_extends(s1, r2.0, TyKindView::Array(r.1));
            }
        },
        TyKindView::Slice(x) => {
            let r = resolve_ty_spec(s, x, g).unwrap();
            lemma_resolve_extends(s, x, g);
            if r.1 != x {
                lemma_intern_extends(r.0, TyKindView::Slice(r.1));
            }
            lemma_extends_trans(r.0, s1, s2);
            lemma_resolve_again(s, x, g, s2);
            let r2 = resolve_ty_spec(s2, x, g).unwrap();
            if r.1 != x {
                lemma_extends_trans(s1, s2, r2.0);
                lemma_lookup_extends(s1, r2.0, TyKindView::Slice(r.1));
            }
        },
        TyKindView::Ref(x, m) => {
            let r = resolve_ty_spec(s, x, g).unwrap();
            lemma_resolve_extends(s, x, g);
            if r.1 != x {
                lemma_intern_extends(r.0, TyKindView::Ref(r.1, m));
            }
            lemma_extends_trans(r.0, s1, s2);
            lemma_resolve_again(s, x, g, s2);
            let r2 = resolve_ty_spec(s2, x, g).unwrap();
            if r.1 != x {
                lemma_extends_trans(s1, s2, r2.0);
                lemma_lookup_extends(s1, r2.0, TyKindView::Ref(r.1, m));
            }
        },
        TyKindView::Tuple(xs) => {
            let r = resolve_tys_spec(s, xs, g).unwrap();
            lemma_resolve_tys_extends(s, xs, g);
            if r.2 {
                lemma_intern_extends(r.0, TyKindView::Tuple(r.1));
            }
            lemma_extends_trans(r.0, s1, s2);
            lemma_resolve_tys_again(s, xs, g, s2);
            let r2 = resolve_tys_spec(s2, xs, g).unwrap();
            if r.2 {
                lemma_extends_trans(s1, s2, r2.0);
                lemma_lookup_extends(s1, r2.0, TyKindView::Tuple(r.1));
            }
        },
        TyKindView::Adt(d, args) => {
            let r = resolve_tys_spec(s, arg_ids(args), g).unwrap();
            let k = TyKindView::Adt(d, ty_args(r.1));
            lemma_resolve_tys_extends(s, arg_ids(args), g);
            if r.2 {
                lemma_intern_extends(r.0, k);
            }
            lemma_extends_trans(r.0, s1, s2);
            lemma_resolve_tys_again(s, arg_ids(args), g, s2);
            let r2 = resolve_tys_spec(s2, arg_ids(args), g).unwrap();
            if r.2 {
                lemma_extends_trans(s1, s2, r2.0);
                lemma_lookup_extends(s1, r2.0, k);
            }
        },
        TyKindView::Fn { def_id, params, ret_ty, args } => {
            lemma_resolve_tys_extends(s, arg_ids(args), g);
            let ra = resolve_tys_spec(s, arg_ids(args), g).unwrap();
            lemma_resolve_tys_extends(ra.0, params, g);
            let rp = resolve_tys_spec(ra.0, params, g).unwrap();
            lemma_resolve_extends(rp.0, ret_ty, g);
            let rr = resolve_ty_spec(rp.0, ret_ty, g).unwrap();
            let k = TyKindView::Fn { def_id, params: rp.1, ret_ty: rr.1, args: ty_args(ra.1) };
            let changed = ra.2 || rp.2 || rr.1 != ret_ty;
            if changed {
                lemma_intern_extends(rr.0, k);
            }
            lemma_extends_trans(rr.0, s1, s2);
            lemma_extends_trans(rp.0, rr.0, s2);
            lemma_extends_trans(ra.0, rp.0, s2);
            lemma_resolve_tys_again(s, arg_ids(args), g, s2);
            let ra2 = resolve_tys_spec(s2, arg_ids(args), g).unwrap();
            lemma_extends_trans(rp.0, s2, ra2.0);
            lemma_resolve_tys_again(ra.0, params, g, ra2.0);
            let rp2 = resolve_tys_spec(ra2.0, params, g).unwrap();
            lemma_extends_trans(rr.0, s2, ra2.0);
            lemma_extends_trans(rr.0, ra2.0, rp2.0);
            lemma_resolve_again(rp.0, ret_ty, g, rp2.0);
            let rr2 = resolve_ty_spec(rp2.0, ret_ty, g).unwrap();
            lemma_extends_trans(s2, ra2.0, rp2.0);
            lemma_extends_trans(s2, rp2.0, rr2.0);
            if changed {
                lemma_extends_trans(s1, s2, rr2.0);
                lemma_lookup_extends(s1, rr2.0, k);
            }
        },
        TyKindView::Infer(v, _) => {
            if (v.0 as int) < s.vars.len() {
                lemma_resolve_var_extends(s, v);
                lemma_resolve_var_extends(s2, v);
                let (sv, root) = resolve_var_spec(s, v);
                let (s2v, root2) = resolve_var_spec(s2, v);
                assert(root2 == root);
                assert(s2v.vars[root.0 as int] == sv.vars[root.0 as int]);
                match sv.vars[root.0 as int].kind {
                    TyVarKind::Bound(b) => {
                        lemma_extends_trans(s1, s2, s2v);
                        lemma_resolve_again(sv, b, g, s2v);
                        lemma_extends_trans(s2, s2v, resolve_ty_spec(s2v, b, g).unwrap().0);
                    },
                    _ => {},
                }
            } else {
                assert(root_of(s, v.0 as int) == v.0 as int);
            }
        },
        _ => {},
    }
}

/// Resolving types again, in any state that extends the state their first
/// resolution ended in, gives the same types and a state that extends that
/// state.
pub proof fn lemma_resolve_tys_again(s: TyState, ts: Seq<TyId>, f: nat, s2: TyState)
    requires
        fits(s),
        resolve_tys_spec(s, ts, f) is Some,
        extends(resolve_tys_spec(s, ts, f).unwrap().0, s2),
    ensures
        resolve_tys_spec(s2, ts, f) is Some,
        resolve_tys_spec(s2, ts, f).unwrap().1 == resolve_tys_spec(s, ts, f).unwrap().1,
        resolve_tys_spec(s2, ts, f).unwrap().2 == resolve_tys_spec(s, ts, f).unwrap().2,
        extends(s2, resolve_tys_spec(s2, ts, f).unwrap().0),
    decreases f, ts.len() + 1,
{
    if ts.len() > 0 {
        let rest = ts.drop_first();
        lemma_resolve_extends(s, ts[0], f);
        let r = resolve_ty_spec(s, ts[0], f).unwrap();
        lemma_resolve_tys_extends(r.0, rest, f);
        let rs = resolve_tys_spec(r.0, rest, f).unwrap();
        lemma_extends_trans(r.0, rs.0, s2);
        lemma_resolve_again(s, ts[0], f, s2);
        let r2 = resolve_ty_spec(s2, ts[0], f).unwrap();
        lemma_extends_trans(rs.0, s2, r2.0);
        lemma_resolve_tys_again(r.0, rest, f, r2.0);
        let rs2 = resolve_tys_spec(r2.0, rest, f).unwrap();
        lemma_extends_trans(s2, r2.0, rs2.0);
    }
}

// ---------------------------------------------------------------------------
// Resolving a resolution gives it back
// ---------------------------------------------------------------------------

/// The types of types taken as generic arguments are those types.
pub proof fn lemma_arg_ids_of_ty_args(ids: Seq<TyId>)
    ensures
        arg_ids(ty_args(ids)) == ids,
{
    assert(arg_ids(ty_args(ids)) =~= ids);
}

/// Resolving the resolution of a type, in any state that extends the state
/// its resolution ended in, gives the resolution back.
pub proof fn lemma_resolve_resolution(s: TyState, t: TyId, f: nat, s2: TyState)
    requires
        fits(s),
        resolve_ty_spec(s, t, f) is Some,
        extends(resolve_ty_spec(s, t, f).unwrap().0, s2),
    ensures
        resolve_ty_spec(s2, resolve_ty_spec(s, t, f).unwrap().1, f) is Some,
        resolve_ty_spec(s2, resolve_ty_spec(s, t, f).unwrap().1, f).unwrap().1 == resolve_ty_spec(s, t, f).unwrap().1,
        extends(s2, resolve_ty_spec(s2, resolve_ty_spec(s, t, f).unwrap().1, f).unwrap().0),
    decreases f, 0nat,
{
    let g = (f - 1) as nat;
    lemma_resolve_extends(s, t, f);
    let (s1, r) = resolve_ty_spec(s, t, f).unwrap();
    lemma_extends_trans(s, s1, s2);
    if r == t {
        lemma_resolve_again(s, t, f, s2);
    } else {
        match s.storage[t.0 as int] {
            TyKindView::Array(x) => {
                let rx = resolve_ty_spec(s, x, g).unwrap();
                lemma_resolve_extends(s, x, g);
                lemma_intern_extends(rx.0, TyKindView::Array(rx.1));
                law_intern_stores_kind(rx.0, TyKindView::Array(rx.1));
                lemma_extends_trans(rx.0, s1, s2);
                lemma_resolve_resolution(s, x, g, s2);
            },
            TyKindView::Slice(x) => {
                let rx = resolve_ty_spec(s, x, g).unwrap();
                lemma_resolve_extends(s, x, g);
                lemma_intern_extends(rx.0, TyKindView::Slice(rx.1));
                law_intern_stores_kind(rx.0, TyKindView::Slice(rx.1));
                lemma_extends_trans(rx.0, s1, s2);
                lemma_resolve_resolution(s, x, g, s2);
            },
            TyKindView::Ref(x, m) => {
                let rx = resolve_ty_spec(s, x, g).unwrap();
                lemma_resolve_extends(s, x, g);
                lemma_intern_extends(rx.0, TyKindView::Ref(rx.1, m));
                law_intern_stores_kind(rx.0, TyKindView::Ref(rx.1, m));
                lemma_extends_trans(rx.0, s1, s2);
                lemma_resolve_resolution(s, x, g, s2);
            },
            TyKindView::Tuple(xs) => {
                let rx = resolve_tys_spec(s, xs, g).unwrap();
                lemma_resolve_tys_extends(s, xs, g);
                lemma_intern_extends(rx.0, TyKindView::Tuple(rx.1));
                law_intern_stores_kind(rx.0, TyKindView::Tuple(rx.1));
                lemma_extends_trans(rx.0, s1, s2);
                lemma_resolve_tys_resolutions(s, xs, g, s2);
            },
            TyKindView::Adt(d, args) => {
                let rx = resolve_tys_spec(s, arg_ids(args), g).unwrap();
                let k = TyKindView::Adt(d, ty_args(rx.1));
                lemma_resolve_tys_extends(s, arg_ids(args), g);
                lemma_intern_extends(rx.0, k);
                law_intern_stores_kind(rx.0, k);
                lemma_extends_trans(rx.0, s1, s2);
                lemma_arg_ids_of_ty_args(rx.1);
                lemma_resolve_tys_resolutions(s, arg_ids(args), g, s2);
            },
            TyKindView::Fn { def_id, params, ret_ty, args } => {
                lemma_resolve_tys_extends(s, arg_ids(args), g);
                let ra = resolve_tys_spec(s, arg_ids(args), g).unwrap();
                lemma_resolve_tys_extends(ra.0, params, g);
                let rp = resolve_tys_spec(ra.0, params, g).unwrap();
                lemma_resolve_extends(rp.0, ret_ty, g);
                let rr = resolve_ty_spec(rp.0, ret_ty, g).unwrap();
                let k = TyKindView::Fn { def_id, params: rp.1, ret_ty: rr.1, args: ty_args(ra.1) };
                lemma_intern_extends(rr.0, k);
                law_intern_stores_kind(rr.0, k);
                lemma_arg_ids_of_ty_args(ra.1);
                lemma_extends_trans(rr.0, s1, s2);
                lemma_extends_trans(rp.0, rr.0, s2);
                lemma_extends_trans(ra.0, rp.0, s2);
                lemma_resolve_tys_resolutions(s, arg_ids(args), g, s2);
                let q1 = resolve_tys_spec(s2, ra.1, g).unwrap();
                lemma_extends_trans(rp.0, s2, q1.0);
                lemma_resolve_tys_resolutions(ra.0, params, g, q1.0);
                let q2 = resolve_tys_spec(q1.0, rp.1, g).unwrap();
                lemma_extends_trans(rr.0, s2, q1.0);
                lemma_extends_trans(rr.0, q1.0, q2.0);
                lemma_resolve_resolution(rp.0, ret_ty, g, q2.0);
                let q3 = resolve_ty_spec(q2.0, rr.1, g).unwrap();
                lemma_extends_trans(s2, q1.0, q2.0);
                lemma_extends_trans(s2, q2.0, q3.0);
            },
            TyKindView::Infer(v, _) => {
                if (v.0 as int) < s.vars.len() {
                    lemma_resolve_var_extends(s, v);
                    let (sv, root) = resolve_var_spec(s, v);
                    match sv.vars[root.0 as int].kind {
                        TyVarKind::Bound(b) => {
                            lemma_resolve_resolution(sv, b, g, s2);
                            lemma_resolve_fuel(s2, r, g, f);
                        },
                        _ => {},
                    }
                } else {
                    assert(root_of(s, v.0 as int) == v.0 as int);
                }
            },
            _ => {},
        }
    }
}

/// Resolving the resolutions of types, in any state that extends the state
/// their resolution ended in, gives them back, unchanged.
pub proof fn lemma_resolve_tys_resolutions(s: TyState, ts: Seq<TyId>, f: nat, s2: TyState)
    requires
        fits(s),
        resolve_tys_spec(s, ts, f) is Some,
        extends(resolve_tys_spec(s, ts, f).unwrap().0, s2),
    ensures
        resolve_tys_spec(s2, resolve_tys_spec(s, ts, f).unwrap().1, f) is Some,
        resolve_tys_spec(s2, resolve_tys_spec(s, ts, f).unwrap().1, f).unwrap().1 == resolve_tys_spec(s, ts, f).unwrap().1,
        !resolve_tys_spec(s2, resolve_tys_spec(s, ts, f).unwrap().1, f).unwrap().2,
        extends(s2, resolve_tys_spec(s2, resolve_tys_spec(s, ts, f).unwrap().1, f).unwrap().0),
    decreases f, ts.len() + 1,
{
    if ts.len() == 0 {
        lemma_extends_refl(s2);
    } else {
        let rest = ts.drop_first();
        lemma_resolve_extends(s, ts[0], f);
        let r = resolve_ty_spec(s, ts[0], f).unwrap();
        lemma_resolve_tys_extends(r.0, rest, f);
        let rs = resolve_tys_spec(r.0, rest, f).unwrap();
        let ys = resolve_tys_spec(s, ts, f).unwrap().1;
        assert(ys[0] == r.1);
        assert(ys.drop_first() =~= rs.1);
        lemma_extends_trans(r.0, rs.0, s2);
        lemma_resolve_resolution(s, ts[0], f, s2);
        let q = resolve_ty_spec(s2, r.1, f).unwrap();
        lemma_extends_trans(rs.0, s2, q.0);
        lemma_resolve_tys_resolutions(r.0, rest, f, q.0);
        let qs = resolve_tys_spec(q.0, rs.1, f).unwrap();
        lemma_extends_trans(s2, q.0, qs.0);
        assert(seq![r.1] + rs.1 =~= ys);
    }
}

// ---------------------------------------------------------------------------
// Laws
// ---------------------------------------------------------------------------

/// Resolving is idempotent: where resolving a type ends, resolving its
/// resolution in the state it left gives the resolution back, and neither
/// step binds or joins a variable.
pub proof fn law_resolve_idempotent(s: TyState, t: TyId, f: nat)
    requires
        fits(s),
        resolve_ty_spec(s, t, f) is Some,
    ensures
        ({
            let (s1, r) = resolve_ty_spec(s, t, f).unwrap();
            &&& resolve_ty_spec(s1, r, f) is Some
            &&& resolve_ty_spec(s1, r, f).unwrap().1 == r
            &&& extends(s, s1)
            &&& extends(s1, resolve_ty_spec(s1, r, f).unwrap().0)
        }),
{
    lemma_resolve_extends(s, t, f);
    let s1 = resolve_ty_spec(s, t, f).unwrap().0;
    lemma_extends_refl(s1);
    lemma_resolve_resolution(s, t, f, s1);
}

/// A type unifies with itself without binding or joining any variable:
/// where resolving it ends, unifying it with itself succeeds, in a state
/// that extends the one before.
pub proof fn law_unify_self(s: TyState, a: TyId, f: nat)
    requires
        fits(s),
        resolve_ty_spec(s, a, f) is Some,
    ensures
        unify_ty_spec(s, a, a, f + 1) is Some,
        unify_ty_spec(s, a, a, f + 1).unwrap().1,
        extends(s, unify_ty_spec(s, a, a, f + 1).unwrap().0),
{
    lemma_resolve_extends(s, a, f);
    let ra = resolve_ty_spec(s, a, f).unwrap();
    lemma_extends_refl(ra.0);
    lemma_resolve_again(s, a, f, ra.0);
    let rb = resolve_ty_spec(ra.0, a, f).unwrap();
    lemma_extends_trans(s, ra.0, rb.0);
}

/// Resolving a type twice with [`TyCtx::resolve_ty`] gives the first
/// resolution back: where the first call is allowed, so is the second on its
/// result, which returns that result.
pub proof fn law_resolve_ty_twice(c: TyCtx, t: TyId)
    requires
        c.wf(),
        exists|fuel: nat| resolve_ty_spec(c.state(), t, fuel) is Some,
    ensures
        ({
            let (s1, r) = resolve_ty_spec(c.state(), t, resolve_fuel(c.state(), t)).unwrap();
            &&& exists|fuel: nat| resolve_ty_spec(s1, r, fuel) is Some
            &&& resolve_ty_spec(s1, r, resolve_fuel(s1, r)).unwrap().1 == r
        }),
{
    let s = c.state();
    c.lemma_storage_fits();
    let f = resolve_fuel(s, t);
    law_resolve_idempotent(s, t, f);
    let (s1, r) = resolve_ty_spec(s, t, f).unwrap();
    assert(resolve_ty_spec(s1, r, f) is Some);
    law_resolve_fuel_independent(s1, r, f, resolve_fuel(s1, r));
}

/// Unifying a type with itself with [`TyCtx::unify_ty`] is allowed wherever
/// resolving it is, succeeds, and binds or joins no variable.
pub proof fn law_unify_ty_self(c: TyCtx, a: TyId)
    requires
        c.wf(),
        exists|fuel: nat| resolve_ty_spec(c.state(), a, fuel) is Some,
    ensures
        exists|fuel: nat| unify_ty_spec(c.state(), a, a, fuel) is Some,
        ({
            let r = unify_ty_spec(c.state(), a, a, unify_ty_fuel_of(c.state(), a, a)).unwrap();
            r.1 && extends(c.state(), r.0)
        }),
{
    let s = c.state();
    c.lemma_storage_fits();
    let f = resolve_fuel(s, a);
    law_unify_self(s, a, f);
    assert(unify_ty_spec(s, a, a, f + 1) is Some);
    law_unify_ty_fuel_independent(s, a, a, f + 1, unify_ty_fuel_of(s, a, a));
}

// ---------------------------------------------------------------------------
// Ranked states: resolving ends
// ---------------------------------------------------------------------------

/// `c` is one of the types that `d` ranks, and ranks below type `t`.
pub open spec fn below(d: Seq<nat>, c: TyId, t: int) -> bool {
    (c.0 as int) < d.len() && d[c.0 as int] < d[t]
}

/// Each of the types `cs` ranks below type `t`.
pub open spec fn all_below(d: Seq<nat>, cs: Seq<TyId>, t: int) -> bool {
    forall|i: int| 0 <= i < cs.len() ==> #[trigger] below(d, cs[i], t)
}

/// Every part of stored type `t`, and the type that the root of its variable
/// is bound to, ranks below it.
pub open spec fn ranked_at(s: TyState, d: Seq<nat>, t: int) -> bool {
    match s.storage[t] {
        TyKindView::Array(x) => below(d, x, t),
        TyKindView::Slice(x) => below(d, x, t),
        TyKindView::Ref(x, _) => below(d, x, t),
        TyKindView::Tuple(xs) => all_below(d, xs, t),
        TyKindView::Fn { params, ret_ty, args, .. } => all_below(d, arg_ids(args), t) && all_below(
            d,
            params,
            t,
        ) && below(d, ret_ty, t),
        TyKindView::Adt(_, args) => all_below(d, arg_ids(args), t),
        TyKindView::Infer(v, _) => (v.0 as int) < s.vars.len() ==> match s.vars[root_of(
            s,
            v.0 as int,
        )].kind {
            TyVarKind::Bound(b) => below(d, b, t),
            _ => true,
        },
        _ => true,
    }
}

/// `d` ranks the first `d.len()` stored types: following parts and bindings
/// from one of them only meets lower ones, so it never comes back.
pub open spec fn ranked(s: TyState, d: Seq<nat>) -> bool {
    &&& d.len() <= s.storage.len()
    &&& forall|t: int| 0 <= t < d.len() ==> #[trigger] ranked_at(s, d, t)
}

/// A ranking stays one in every state that extends the state.
pub proof fn lemma_ranked_extends(s: TyState, s2: TyState, d: Seq<nat>)
    requires
        fits(s),
        ranked(s, d),
        extends(s, s2),
    ensures
        ranked(s2, d),
{
    assert forall|t: int| 0 <= t < d.len() implies #[trigger] ranked_at(s2, d, t) by {
        assert(ranked_at(s, d, t));
        assert(s2.storage[t] == s.storage[t]);
        match s.storage[t] {
            TyKindView::Infer(v, _) => {
                if (v.0 as int) < s.vars.len() {
                    lemma_compress(s, v.0 as int);
                    let r = root_of(s, v.0 as int);
                    assert(root_of(s2, v.0 as int) == r);
                    assert(s2.vars[r] == s.vars[r]);
                }
            },
            _ => {},
        }
    }
}

/// Where the types are ranked, resolving type `t` takes no more steps than
/// one more than its rank: any two numbers of steps above its rank give the
/// same result.
pub proof fn lemma_ranked_fuel(s: TyState, d: Seq<nat>, t: TyId, f1: nat, f2: nat)
    requires
        fits(s),
        ranked(s, d),
        (t.0 as int) < d.len(),
        d[t.0 as int] < f1,
        d[t.0 as int] < f2,
    ensures
        resolve_ty_spec(s, t, f1) == resolve_ty_spec(s, t, f2),
    decreases d[t.0 as int] + 1, 0nat,
{
    let ti = t.0 as int;
    let g1 = (f1 - 1) as nat;
    let g2 = (f2 - 1) as nat;
    assert(ranked_at(s, d, ti));
    if valid_ty(s, t) {
        match s.storage[ti] {
            TyKindView::Array(x) => lemma_ranked_fuel(s, d, x, g1, g2),
            TyKindView::Slice(x) => lemma_ranked_fuel(s, d, x, g1, g2),
            TyKindView::Ref(x, _) => lemma_ranked_fuel(s, d, x, g1, g2),
            TyKindView::Tuple(xs) => lemma_ranked_tys_fuel(s, d, xs, ti, g1, g2),
            TyKindView::Adt(_, args) => lemma_ranked_tys_fuel(s, d, arg_ids(args), ti, g1, g2),
            TyKindView::Fn { params, ret_ty, args, .. } => {
                lemma_ranked_tys_fuel(s, d, arg_ids(args), ti, g1, g2);
                match resolve_tys_spec(s, arg_ids(args), g1) {
                    Some(ra) => {
                        lemma_resolve_tys_extends(s, arg_ids(args), g1);
                        lemma_ranked_extends(s, ra.0, d);
                        lemma_ranked_tys_fuel(ra.0, d, params, ti, g1, g2);
                        match resolve_tys_spec(ra.0, params, g1) {
                            Some(rp) => {
                                lemma_resolve_tys_extends(ra.0, params, g1);
                                lemma_ranked_extends(ra.0, rp.0, d);
                                lemma_ranked_fuel(rp.0, d, ret_ty, g1, g2);
                            },
                            None => {},
                        }
                    },
                    None => {},
                }
            },
            TyKindView::Infer(v, _) => {
                if (v.0 as int) < s.vars.len() {
                    lemma_resolve_var_extends(s, v);
                    let (sv, root) = resolve_var_spec(s, v);
                    lemma_ranked_extends(s, sv, d);
                    match sv.vars[root.0 as int].kind {
                        TyVarKind::Bound(b) => {
                            assert(sv.vars[root.0 as int] == s.vars[root.0 as int]);
                            lemma_ranked_fuel(sv, d, b, g1, g2);
                        },
                        _ => {},
                    }
                }
            },
            _ => {},
        }
    }
}

/// Where the types are ranked, resolving types that rank below type `t` takes
/// no more steps than its rank each.
pub proof fn lemma_ranked_tys_fuel(s: TyState, d: Seq<nat>, ts: Seq<TyId>, t: int, f1: nat, f2: nat)
    requires
        fits(s),
        ranked(s, d),
        0 <= t < d.len(),
        all_below(d, ts, t),
        d[t] <= f1,
        d[t] <= f2,
    ensures
        resolve_tys_spec(s, ts, f1) == resolve_tys_spec(s, ts, f2),
    decreases d[t], ts.len() + 1,
{
    if ts.len() > 0 {
        assert(below(d, ts[0], t));
        lemma_ranked_fuel(s, d, ts[0], f1, f2);
        match resolve_ty_spec(s, ts[0], f1) {
            Some(r) => {
                lemma_resolve_extends(s, ts[0], f1);
                lemma_ranked_extends(s, r.0, d);
                let rest = ts.drop_first();
                assert forall|i: int| 0 <= i < rest.len() implies #[trigger] below(d, rest[i], t) by {
                    assert(rest[i] == ts[i + 1]);
                    assert(below(d, ts[i + 1], t));
                }
                lemma_ranked_tys_fuel(r.0, d, rest, t, f1, f2);
            },
            None => {},
        }
    }
}

/// Where the types are ranked, so that no chain of parts and bindings loops,
/// resolving a ranked type ends: with more steps than its rank, the result is
/// the same whatever the number of steps.
pub proof fn law_ranked_resolution_ends(s: TyState, d: Seq<nat>, t: TyId, f: nat)
    requires
        fits(s),
        ranked(s, d),
        (t.0 as int) < d.len(),
        d[t.0 as int] < f,
    ensures
        resolve_ty_spec(s, t, f) == resolve_ty_spec(s, t, d[t.0 as int] + 1),
{
    lemma_ranked_fuel(s, d, t, f, d[t.0 as int] + 1);
}

// ---------------------------------------------------------------------------
// Instantiating with no arguments resolves
// ---------------------------------------------------------------------------

/// Every stored type is interned, under its own id, in storage order.
pub open spec fn all_interned(s: TyState) -> bool {
    &&& s.interned.len() == s.storage.len()
    &&& forall|i: int| 0 <= i < s.interned.len() ==> #[trigger] s.interned[i] == (s.storage[i], TyId(i as usize))
}

/// Where every stored type is interned, looking a stored type's kind up gives
/// its id.
pub proof fn lemma_si_lookup(s: TyState, i: int)
    requires
        interned_ok(s),
        all_interned(s),
        0 <= i < s.storage.len(),
    ensures
        lookup(s, s.storage[i]) == Some(TyId(i as usize)),
{
    assert(s.interned[i] == (s.storage[i], TyId(i as usize)));
    let j = choose|j: int| 0 <= j < s.interned.len() && s.interned[j].0 == s.storage[i];
    if j != i {
        assert(s.interned[j].0 == s.interned[i].0);
    }
}

/// Interning keeps every stored type interned.
pub proof fn lemma_intern_keeps_interned(s: TyState, k: TyKindView)
    requires
        fits(s),
        all_interned(s),
        intern_opt(s, k) is Some,
    ensures
        all_interned(intern_opt(s, k).unwrap().0),
{
    let s2 = intern_opt(s, k).unwrap().0;
    if lookup(s, k) is None {
        assert forall|i: int| 0 <= i < s2.interned.len() implies #[trigger] s2.interned[i] == (s2.storage[i], TyId(
            i as usize,
        )) by {
            if i < s.interned.len() {
                assert(s2.interned[i] == s.interned[i]);
            }
        }
    }
}

/// Resolving keeps every stored type interned.
pub proof fn lemma_resolve_keeps_interned(s: TyState, t: TyId, f: nat)
    requires
        fits(s),
        resolve_ty_spec(s, t, f) is Some,
        all_interned(s),
    ensures
        all_interned(resolve_ty_spec(s, t, f).unwrap().0),
    decreases f, 0nat,
{
    let g = (f - 1) as nat;
    match s.storage[t.0 as int] {
        TyKindView::Array(x) => {
            lemma_resolve_extends(s, x, g);
            lemma_resolve_keeps_interned(s, x, g);
            let r = resolve_ty_spec(s, x, g).unwrap();
            if r.1 != x {
                lemma_intern_keeps_interned(r.0, TyKindView::Array(r.1));
            }
        },
        TyKindView::Slice(x) => {
            lemma_resolve_extends(s, x, g);
            lemma_resolve_keeps_interned(s, x, g);
            let r = resolve_ty_spec(s, x, g).unwrap();
            if r.1 != x {
                lemma_intern_keeps_interned(r.0, TyKindView::Slice(r.1));
            }
        },
        TyKindView::Ref(x, m) => {
            lemma_resolve_extends(s, x, g);
            lemma_resolve_keeps_interned(s, x, g);
            let r = resolve_ty_spec(s, x, g).unwrap();
            if r.1 != x {
                lemma_intern_keeps_interned(r.0, TyKindView::Ref(r.1, m));
            }
        },
        TyKindView::Tuple(xs) => {
            lemma_resolve_tys_extends(s, xs, g);
            lemma_resolve_tys_keep_interned(s, xs, g);
            let r = resolve_tys_spec(s, xs, g).unwrap();
            if r.2 {
                lemma_intern_keeps_interned(r.0, TyKindView::Tuple(r.1));
            }
        },
        TyKindView::Adt(d, args) => {
            lemma_resolve_tys_extends(s, arg_ids(args), g);
            lemma_resolve_tys_keep_interned(s, arg_ids(args), g);
            let r = resolve_tys_spec(s, arg_ids(args), g).unwrap();
            if r.2 {
                lemma_intern_keeps_interned(r.0, TyKindView::Adt(d, ty_args(r.1)));
            }
        },
        TyKindView::Fn { def_id, params, ret_ty, args } => {
            lemma_resolve_tys_extends(s, arg_ids(args), g);
            lemma_resolve_tys_keep_interned(s, arg_ids(args), g);
            let ra = resolve_tys_spec(s, arg_ids(args), g).unwrap();
            lemma_resolve_tys_extends(ra.0, params, g);
            lemma_resolve_tys_keep_interned(ra.0, params, g);
            let rp = resolve_tys_spec(ra.0, params, g).unwrap();
            lemma_resolve_extends(rp.0, ret_ty, g);
            lemma_resolve_keeps_interned(rp.0, ret_ty, g);
            let rr = resolve_ty_spec(rp.0, ret_ty, g).unwrap();
            if ra.2 || rp.2 || rr.1 != ret_ty {
                lemma_intern_keeps_interned(
                    rr.0,
                    TyKindView::Fn { def_id, params: rp.1, ret_ty: rr.1, args: ty_args(ra.1) },
                );
            }
        },
        TyKindView::Infer(v, _) => {
            if (v.0 as int) < s.vars.len() {
                lemma_resolve_var_extends(s, v);
                let (s1, root) = resolve_var_spec(s, v);
                match s1.vars[root.0 as int].kind {
                    TyVarKind::Bound(b) => lemma_resolve_keeps_interned(s1, b, g),
                    _ => {},
                }
            } else {
                assert(root_of(s, v.0 as int) == v.0 as int);
            }
        },
        _ => {},
    }
}

/// Resolving types in order keeps every stored type interned.
pub proof fn lemma_resolve_tys_keep_interned(s: TyState, ts: Seq<TyId>, f: nat)
    requires
        fits(s),
        resolve_tys_spec(s, ts, f) is Some,
        all_interned(s),
    ensures
        all_interned(resolve_tys_spec(s, ts, f).unwrap().0),
    decreases f, ts.len() + 1,
{
    if ts.len() > 0 {
        lemma_resolve_extends(s, ts[0], f);
        lemma_resolve_keeps_interned(s, ts[0], f);
        let r = resolve_ty_spec(s, ts[0], f).unwrap();
        lemma_resolve_tys_keep_interned(r.0, ts.drop_first(), f);
    }
}

/// Types resolved without change are given back as they were.
pub proof fn lemma_tys_unchanged(s: TyState, ts: Seq<TyId>, f: nat)
    requires
        resolve_tys_spec(s, ts, f) is Some,
        !resolve_tys_spec(s, ts, f).unwrap().2,
    ensures
        resolve_tys_spec(s, ts, f).unwrap().1 == ts,
    decreases ts.len(),
{
    if ts.len() > 0 {
        let r = resolve_ty_spec(s, ts[0], f).unwrap();
        lemma_tys_unchanged(r.0, ts.drop_first(), f);
        assert(seq![ts[0]] + ts.drop_first() =~= ts);
    }
}

/// Generic arguments made of their own types are those arguments.
pub proof fn lemma_ty_args_of_arg_ids(g: Seq<GenericArg>)
    ensures
        ty_args(arg_ids(g)) == g,
{
    assert forall|i: int| 0 <= i < g.len() implies ty_args(arg_ids(g))[i] == g[i] by {
        match g[i] {
            GenericArg::Ty(_) => {},
        }
    }
    assert(ty_args(arg_ids(g)) =~= g);
}

/// The resolution of a type, resolved again in a state that extends the
/// state its resolution ended in, with at least as many steps, gives it back
/// in a state that extends that state and keeps every stored type interned.
pub proof fn lemma_component_again(s: TyState, u: TyId, h: nat, s3: TyState, hh: nat)
    requires
        fits(s),
        resolve_ty_spec(s, u, h) is Some,
        extends(resolve_ty_spec(s, u, h).unwrap().0, s3),
        all_interned(s3),
        h <= hh,
    ensures
        resolve_ty_spec(s3, resolve_ty_spec(s, u, h).unwrap().1, hh) is Some,
        resolve_ty_spec(s3, resolve_ty_spec(s, u, h).unwrap().1, hh).unwrap().1 == resolve_ty_spec(s, u, h).unwrap().1,
        extends(s3, resolve_ty_spec(s3, resolve_ty_spec(s, u, h).unwrap().1, hh).unwrap().0),
        all_interned(resolve_ty_spec(s3, resolve_ty_spec(s, u, h).unwrap().1, hh).unwrap().0),
{
    let r = resolve_ty_spec(s, u, h).unwrap().1;
    lemma_resolve_resolution(s, u, h, s3);
    lemma_resolve_fuel(s3, r, h, hh);
    lemma_resolve_keeps_interned(s3, r, hh);
}

/// Instantiating with no arguments a type `tp` whose resolution, in a state
/// that extends the state resolving `u` ended in, is the resolution `r` of
/// `u`, gives `r`, in a state that extends it and keeps every stored type
/// interned.
#[verifier::rlimit(60)]
pub proof fn lemma_instantiate_resolution(s: TyState, u: TyId, h: nat, s3p: TyState, tp: TyId, hh: nat)
    requires
        fits(s),
        fits(s3p),
        resolve_ty_spec(s, u, h) is Some,
        resolve_ty_spec(s3p, tp, hh) is Some,
        resolve_ty_spec(s3p, tp, hh).unwrap().1 == resolve_ty_spec(s, u, h).unwrap().1,
        extends(resolve_ty_spec(s, u, h).unwrap().0, resolve_ty_spec(s3p, tp, hh).unwrap().0),
        all_interned(resolve_ty_spec(s3p, tp, hh).unwrap().0),
        h <= hh,
    ensures
        instantiate_spec(s3p, tp, Seq::empty(), hh + 1) is Some,
        instantiate_spec(s3p, tp, Seq::empty(), hh + 1).unwrap().1 == resolve_ty_spec(s, u, h).unwrap().1,
        extends(resolve_ty_spec(s3p, tp, hh).unwrap().0, instantiate_spec(s3p, tp, Seq::empty(), hh + 1).unwrap().0),
        all_interned(instantiate_spec(s3p, tp, Seq::empty(), hh + 1).unwrap().0),
    decreases h, 0nat,
{
    let g = (h - 1) as nat;
    lemma_resolve_extends(s, u, h);
    let (s1, r) = resolve_ty_spec(s, u, h).unwrap();
    let s3 = resolve_ty_spec(s3p, tp, hh).unwrap().0;
    lemma_extends_trans(s, s1, s3);
    assert(s3.storage[u.0 as int] == s.storage[u.0 as int]);
    match s.storage[u.0 as int] {
            TyKindView::Array(x) => {
                let rx = resolve_ty_spec(s, x, g).unwrap();
                lemma_resolve_extends(s, x, g);
                let k = TyKindView::Array(rx.1);
                if rx.1 != x {
                    lemma_intern_extends(rx.0, k);
                    law_intern_stores_kind(rx.0, k);
                }
                lemma_extends_trans(rx.0, s1, s3);
                lemma_component_again(s, x, g, s3, (hh - 1) as nat);
                let c = resolve_ty_spec(s3, rx.1, (hh - 1) as nat).unwrap();
                lemma_extends_trans(rx.0, s3, c.0);
                lemma_instantiate_resolution(s, x, g, s3, rx.1, (hh - 1) as nat);
                let q = instantiate_spec(s3, rx.1, Seq::empty(), hh).unwrap();
                lemma_extends_trans(s1, s3, q.0);
                lemma_si_lookup(q.0, r.0 as int);
            },
            TyKindView::Slice(x) => {
                let rx = resolve_ty_spec(s, x, g).unwrap();
                lemma_resolve_extends(s, x, g);
                let k = TyKindView::Slice(rx.1);
                if rx.1 != x {
                    lemma_intern_extends(rx.0, k);
                    law_intern_stores_kind(rx.0, k);
                }
                lemma_extends_trans(rx.0, s1, s3);
                lemma_component_again(s, x, g, s3, (hh - 1) as nat);
                let c = resolve_ty_spec(s3, rx.1, (hh - 1) as nat).unwrap();
                lemma_extends_trans(rx.0, s3, c.0);
                lemma_instantiate_resolution(s, x, g, s3, rx.1, (hh - 1) as nat);
                let q = instantiate_spec(s3, rx.1, Seq::empty(), hh).unwrap();
                lemma_extends_trans(s1, s3, q.0);
                lemma_si_lookup(q.0, r.0 as int);
            },
            TyKindView::Ref(x, m) => {
                let rx = resolve_ty_spec(s, x, g).unwrap();
                lemma_resolve_extends(s, x, g);
                let k = TyKindView::Ref(rx.1, m);
                if rx.1 != x {
                    lemma_intern_extends(rx.0, k);
                    law_intern_stores_kind(rx.0, k);
                }
                lemma_extends_trans(rx.0, s1, s3);
                lemma_component_again(s, x, g, s3, (hh - 1) as nat);
                let c = resolve_ty_spec(s3, rx.1, (hh - 1) as nat).unwrap();
                lemma_extends_trans(rx.0, s3, c.0);
                lemma_instantiate_resolution(s, x, g, s3, rx.1, (hh - 1) as nat);
                let q = instantiate_spec(s3, rx.1, Seq::empty(), hh).unwrap();
                lemma_extends_trans(s1, s3, q.0);
                lemma_si_lookup(q.0, r.0 as int);
            },
            TyKindView::Tuple(xs) => {
                let rx = resolve_tys_spec(s, xs, g).unwrap();
                lemma_resolve_tys_extends(s, xs, g);
                let k = TyKindView::Tuple(rx.1);
                if rx.2 {
                    lemma_intern_extends(rx.0, k);
                    law_intern_stores_kind(rx.0, k);
                } else {
                    lemma_tys_unchanged(s, xs, g);
                }
                lemma_extends_trans(rx.0, s1, s3);
                lemma_instantiate_tys_resolutions(s, xs, g, s3, (hh - 1) as nat);
                let q = instantiate_tys_spec(s3, rx.1, Seq::empty(), hh).unwrap();
                lemma_extends_trans(s1, s3, q.0);
                lemma_si_lookup(q.0, r.0 as int);
            },
            TyKindView::Adt(d, args) => {
                let rx = resolve_tys_spec(s, arg_ids(args), g).unwrap();
                lemma_resolve_tys_extends(s, arg_ids(args), g);
                let k = TyKindView::Adt(d, ty_args(rx.1));
                lemma_arg_ids_of_ty_args(rx.1);
                if rx.2 {
                    lemma_intern_extends(rx.0, k);
                    law_intern_stores_kind(rx.0, k);
                } else {
                    lemma_tys_unchanged(s, arg_ids(args), g);
                    lemma_ty_args_of_arg_ids(args);
                }
                lemma_extends_trans(rx.0, s1, s3);
                lemma_instantiate_tys_resolutions(s, arg_ids(args), g, s3, (hh - 1) as nat);
                let q = instantiate_tys_spec(s3, rx.1, Seq::empty(), hh).unwrap();
                lemma_extends_trans(s1, s3, q.0);
                lemma_si_lookup(q.0, r.0 as int);
            },
            TyKindView::Fn { def_id, params, ret_ty, args } => {
                lemma_resolve_tys_extends(s, arg_ids(args), g);
                let ra = resolve_tys_spec(s, arg_ids(args), g).unwrap();
                lemma_resolve_tys_extends(ra.0, params, g);
                let rp = resolve_tys_spec(ra.0, params, g).unwrap();
                lemma_resolve_extends(rp.0, ret_ty, g);
                let rr = resolve_ty_spec(rp.0, ret_ty, g).unwrap();
                let k = TyKindView::Fn { def_id, params: rp.1, ret_ty: rr.1, args: ty_args(ra.1) };
                lemma_arg_ids_of_ty_args(ra.1);
                if ra.2 || rp.2 || rr.1 != ret_ty {
                    lemma_intern_extends(rr.0, k);
                    law_intern_stores_kind(rr.0, k);
                } else {
                    lemma_tys_unchanged(s, arg_ids(args), g);
                    lemma_tys_unchanged(ra.0, params, g);
                    lemma_ty_args_of_arg_ids(args);
                }
                lemma_extends_trans(rr.0, s1, s3);
                lemma_extends_trans(rp.0, rr.0, s3);
                lemma_extends_trans(ra.0, rp.0, s3);
                let hm = (hh - 1) as nat;
                lemma_instantiate_tys_resolutions(ra.0, params, g, s3, hm);
                let q1 = instantiate_tys_spec(s3, rp.1, Seq::empty(), hh).unwrap();
                lemma_extends_trans(rr.0, s3, q1.0);
                lemma_component_again(rp.0, ret_ty, g, q1.0, hm);
                let c = resolve_ty_spec(q1.0, rr.1, hm).unwrap();
                lemma_extends_trans(rr.0, q1.0, c.0);
                lemma_instantiate_resolution(rp.0, ret_ty, g, q1.0, rr.1, hm);
                let q2 = instantiate_spec(q1.0, rr.1, Seq::empty(), hh).unwrap();
                lemma_extends_trans(q1.0, c.0, q2.0);
                lemma_extends_trans(ra.0, s3, q1.0);
                lemma_extends_trans(ra.0, q1.0, q2.0);
                lemma_instantiate_tys_resolutions(s, arg_ids(args), g, q2.0, hm);
                let q3 = instantiate_tys_spec(q2.0, ra.1, Seq::empty(), hh).unwrap();
                lemma_extends_trans(s3, q1.0, q2.0);
                lemma_extends_trans(s3, q2.0, q3.0);
                lemma_extends_trans(s1, s3, q3.0);
                lemma_si_lookup(q3.0, r.0 as int);
            },
            TyKindView::Infer(v, _) => {
                if (v.0 as int) < s.vars.len() {
                    lemma_resolve_var_extends(s, v);
                    let (sv, root) = resolve_var_spec(s, v);
                    match sv.vars[root.0 as int].kind {
                        TyVarKind::Bound(b) => {
                            lemma_instantiate_resolution(sv, b, g, s3p, tp, hh);
                        },
                        _ => {
                            lemma_extends_refl(s3);
                        },
                    }
                } else {
                    assert(root_of(s, v.0 as int) == v.0 as int);
                }
            },
            _ => {
                lemma_extends_refl(s3);
            },
    }
}

/// Instantiating with no arguments the resolutions of types, in a state that
/// extends the state their resolution ended in and keeps every stored type
/// interned, gives them back.
pub proof fn lemma_instantiate_tys_resolutions(s: TyState, us: Seq<TyId>, h: nat, s3: TyState, hh: nat)
    requires
        fits(s),
        resolve_tys_spec(s, us, h) is Some,
        extends(resolve_tys_spec(s, us, h).unwrap().0, s3),
        all_interned(s3),
        h <= hh,
    ensures
        instantiate_tys_spec(s3, resolve_tys_spec(s, us, h).unwrap().1, Seq::empty(), hh + 1) is Some,
        instantiate_tys_spec(s3, resolve_tys_spec(s, us, h).unwrap().1, Seq::empty(), hh + 1).unwrap().1
            == resolve_tys_spec(s, us, h).unwrap().1,
        extends(s3, instantiate_tys_spec(s3, resolve_tys_spec(s, us, h).unwrap().1, Seq::empty(), hh + 1).unwrap().0),
        all_interned(instantiate_tys_spec(s3, resolve_tys_spec(s, us, h).unwrap().1, Seq::empty(), hh + 1).unwrap().0),
    decreases h, us.len() + 1,
{
    if us.len() == 0 {
        lemma_extends_refl(s3);
    } else {
        let rest = us.drop_first();
        lemma_resolve_extends(s, us[0], h);
        let r = resolve_ty_spec(s, us[0], h).unwrap();
        lemma_resolve_tys_extends(r.0, rest, h);
        let rs = resolve_tys_spec(r.0, rest, h).unwrap();
        let ys = resolve_tys_spec(s, us, h).unwrap().1;
        assert(ys[0] == r.1);
        assert(ys.drop_first() =~= rs.1);
        lemma_extends_trans(r.0, rs.0, s3);
        lemma_component_again(s, us[0], h, s3, hh);
        let c = resolve_ty_spec(s3, r.1, hh).unwrap();
        lemma_extends_trans(r.0, s3, c.0);
        lemma_instantiate_resolution(s, us[0], h, s3, r.1, hh);
        let q = instantiate_spec(s3, r.1, Seq::empty(), hh + 1).unwrap();
        lemma_extends_trans(s3, c.0, q.0);
        lemma_extends_trans(rs.0, s3, q.0);
        lemma_instantiate_tys_resolutions(r.0, rest, h, q.0, hh);
        let qs = instantiate_tys_spec(q.0, rs.1, Seq::empty(), hh + 1).unwrap();
        lemma_extends_trans(s3, q.0, qs.0);
        assert(seq![r.1] + rs.1 =~= ys);
    }
}

/// Instantiating a type with no generic arguments gives its resolution,
/// wherever every stored type is interned (interning alone keeps that;
/// changing a stored kind in place can break it): with two more steps than
/// resolving takes, instantiating ends and gives the same type.
pub proof fn law_instantiate_no_args(s: TyState, t: TyId, f: nat)
    requires
        fits(s),
        all_interned(s),
        resolve_ty_spec(s, t, f) is Some,
    ensures
        instantiate_spec(s, t, Seq::empty(), f + 2) is Some,
        instantiate_spec(s, t, Seq::empty(), f + 2).unwrap().1 == resolve_ty_spec(s, t, f).unwrap().1,
{
    lemma_resolve_fuel(s, t, f, f + 1);
    lemma_resolve_extends(s, t, f);
    lemma_resolve_keeps_interned(s, t, f);
    lemma_extends_refl(resolve_ty_spec(s, t, f).unwrap().0);
    lemma_instantiate_resolution(s, t, f, s, t, f + 1);
}

/// [`TyCtx::instantiate`] with no generic arguments is allowed wherever
/// [`TyCtx::resolve_ty`] is, and gives the same type, where every stored type
/// is interned.
pub proof fn law_instantiate_ty_no_args(c: TyCtx, t: TyId)
    requires
        c.wf(),
        all_interned(c.state()),
        exists|fuel: nat| resolve_ty_spec(c.state(), t, fuel) is Some,
    ensures
        exists|fuel: nat| instantiate_spec(c.state(), t, Seq::empty(), fuel) is Some,
        instantiate_spec(c.state(), t, Seq::empty(), instantiate_fuel_of(c.state(), t, Seq::empty())).unwrap().1
            == resolve_ty_spec(c.state(), t, resolve_fuel(c.state(), t)).unwrap().1,
{
    let s = c.state();
    c.lemma_storage_fits();
    let f = resolve_fuel(s, t);
    law_instantiate_no_args(s, t, f);
    assert(instantiate_spec(s, t, Seq::empty(), f + 2) is Some);
    law_instantiate_fuel_independent(s, t, Seq::empty(), f + 2, instantiate_fuel_of(s, t, Seq::empty()));
}

/// No bound variable is left at the top of a resolution: resolving a type,
/// where it ends, gives a stored type, and where that is an inference type,
/// the root of its variable is not bound.
pub proof fn law_resolution_root_unbound(s: TyState, t: TyId, f: nat)
    requires
        fits(s),
        resolve_ty_spec(s, t, f) is Some,
    ensures
        ({
            let (s1, r) = resolve_ty_spec(s, t, f).unwrap();
            &&& valid_ty(s1, r)
            &&& match s1.storage[r.0 as int] {
                TyKindView::Infer(w, _) => (w.0 as int) < s1.vars.len() && !(s1.vars[root_of(
                    s1,
                    w.0 as int,
                )].kind is Bound),
                _ => true,
            }
        }),
    decreases f,
{
    let g = (f - 1) as nat;
    lemma_resolve_extends(s, t, f);
    let s1 = resolve_ty_spec(s, t, f).unwrap().0;
    assert(s1.storage[t.0 as int] == s.storage[t.0 as int]);
    match s.storage[t.0 as int] {
        TyKindView::Array(x) => {
            lemma_resolve_extends(s, x, g);
            let rx = resolve_ty_spec(s, x, g).unwrap();
            if rx.1 != x {
                law_intern_stores_kind(rx.0, TyKindView::Array(rx.1));
            }
        },
        TyKindView::Slice(x) => {
            lemma_resolve_extends(s, x, g);
            let rx = resolve_ty_spec(s, x, g).unwrap();
            if rx.1 != x {
                law_intern_stores_kind(rx.0, TyKindView::Slice(rx.1));
            }
        },
        TyKindView::Ref(x, m) => {
            lemma_resolve_extends(s, x, g);
            let rx = resolve_ty_spec(s, x, g).unwrap();
            if rx.1 != x {
                law_intern_stores_kind(rx.0, TyKindView::Ref(rx.1, m));
            }
        },
        TyKindView::Tuple(xs) => {
            lemma_resolve_tys_extends(s, xs, g);
            let rx = resolve_tys_spec(s, xs, g).unwrap();
            if rx.2 {
                law_intern_stores_kind(rx.0, TyKindView::Tuple(rx.1));
            }
        },
        TyKindView::Adt(d, args) => {
            lemma_resolve_tys_extends(s, arg_ids(args), g);
            let rx = resolve_tys_spec(s, arg_ids(args), g).unwrap();
            if rx.2 {
                law_intern_stores_kind(rx.0, TyKindView::Adt(d, ty_args(rx.1)));
            }
        },
        TyKindView::Fn { def_id, params, ret_ty, args } => {
            lemma_resolve_tys_extends(s, arg_ids(args), g);
            let ra = resolve_tys_spec(s, arg_ids(args), g).unwrap();
            lemma_resolve_tys_extends(ra.0, params, g);
            let rp = resolve_tys_spec(ra.0, params, g).unwrap();
            lemma_resolve_extends(rp.0, ret_ty, g);
            let rr = resolve_ty_spec(rp.0, ret_ty, g).unwrap();
            if ra.2 || rp.2 || rr.1 != ret_ty {
                law_intern_stores_kind(rr.0, TyKindView::Fn { def_id, params: rp.1, ret_ty: rr.1, args: ty_args(ra.1) });
            }
        },
        TyKindView::Infer(v, _) => {
            if (v.0 as int) < s.vars.len() {
                lemma_resolve_var_extends(s, v);
                let (sv, root) = resolve_var_spec(s, v);
                match sv.vars[root.0 as int].kind {
                    TyVarKind::Bound(b) => law_resolution_root_unbound(sv, b, g),
                    _ => {
                        assert(sv.vars[root.0 as int] == s.vars[root.0 as int]);
                    },
                }
            } else {
                assert(root_of(s, v.0 as int) == v.0 as int);
            }
        },
        _ => {},
    }
}

// ---------------------------------------------------------------------------
// Unifying types built from plain types
// ---------------------------------------------------------------------------

/// A type with no parts and no variables: `()`, an integer, a float, `bool`,
/// `char` or `str`.
pub open spec fn is_plain_kind(k: TyKindView) -> bool {
    k is Unit || k is Int || k is Float || k is Bool || k is Char || k is String
}

/// A plain type resolves to itself and changes nothing.
pub proof fn lemma_plain_resolves(s: TyState, x: TyId, f: nat)
    requires
        valid_ty(s, x),
        is_plain_kind(s.storage[x.0 as int]),
        f >= 1,
    ensures
        resolve_ty_spec(s, x, f) == Some((s, x)),
{
}

/// Two plain types unify exactly when they are the same type; unifying them
/// changes nothing.
pub proof fn law_unify_plain(s: TyState, x: TyId, y: TyId, f: nat)
    requires
        valid_ty(s, x),
        valid_ty(s, y),
        is_plain_kind(s.storage[x.0 as int]),
        is_plain_kind(s.storage[y.0 as int]),
        f >= 2,
    ensures
        unify_ty_spec(s, x, y, f) == Some((s, x == y)),
{
    lemma_plain_resolves(s, x, (f - 1) as nat);
    lemma_plain_resolves(s, y, (f - 1) as nat);
}

/// Two slice types of plain elements unify exactly when their element types
/// are the same type, and unifying them changes nothing: slices unify element
/// by element.
pub proof fn law_unify_slices(s: TyState, a: TyId, b: TyId, x: TyId, y: TyId, f: nat)
    requires
        valid_ty(s, a),
        valid_ty(s, b),
        valid_ty(s, x),
        valid_ty(s, y),
        s.storage[a.0 as int] == TyKindView::Slice(x),
        s.storage[b.0 as int] == TyKindView::Slice(y),
        is_plain_kind(s.storage[x.0 as int]),
        is_plain_kind(s.storage[y.0 as int]),
        f >= 3,
    ensures
        unify_ty_spec(s, a, b, f) == Some((s, x == y)),
{
    let g = (f - 1) as nat;
    lemma_plain_resolves(s, x, (g - 1) as nat);
    lemma_plain_resolves(s, y, (g - 1) as nat);
    assert(resolve_ty_spec(s, a, g) == Some((s, a)));
    assert(resolve_ty_spec(s, b, g) == Some((s, b)));
    law_unify_plain(s, x, y, g);
}

/// Two array types of plain elements unify exactly when their element types
/// are the same type, and unifying them changes nothing.
pub proof fn law_unify_arrays(s: TyState, a: TyId, b: TyId, x: TyId, y: TyId, f: nat)
    requires
        valid_ty(s, a),
        valid_ty(s, b),
        valid_ty(s, x),
        valid_ty(s, y),
        s.storage[a.0 as int] == TyKindView::Array(x),
        s.storage[b.0 as int] == TyKindView::Array(y),
        is_plain_kind(s.storage[x.0 as int]),
        is_plain_kind(s.storage[y.0 as int]),
        f >= 3,
    ensures
        unify_ty_spec(s, a, b, f) == Some((s, x == y)),
{
    let g = (f - 1) as nat;
    lemma_plain_resolves(s, x, (g - 1) as nat);
    lemma_plain_resolves(s, y, (g - 1) as nat);
    assert(resolve_ty_spec(s, a, g) == Some((s, a)));
    assert(resolve_ty_spec(s, b, g) == Some((s, b)));
    law_unify_plain(s, x, y, g);
}

/// A reference to a plain type unifies with another exactly when the first
/// is immutable or both have the same mutability, and they refer to the same
/// type; unifying them changes nothing.
pub proof fn law_unify_refs(
    s: TyState,
    a: TyId,
    b: TyId,
    x: TyId,
    y: TyId,
    ma: RefMutability,
    mb: RefMutability,
    f: nat,
)
    requires
        valid_ty(s, a),
        valid_ty(s, b),
        valid_ty(s, x),
        valid_ty(s, y),
        s.storage[a.0 as int] == TyKindView::Ref(x, ma),
        s.storage[b.0 as int] == TyKindView::Ref(y, mb),
        is_plain_kind(s.storage[x.0 as int]),
        is_plain_kind(s.storage[y.0 as int]),
        f >= 3,
    ensures
        unify_ty_spec(s, a, b, f) == Some((s, (a == b) || ((ma == RefMutability::Immutable || ma == mb) && x == y))),
{
    let g = (f - 1) as nat;
    lemma_plain_resolves(s, x, (g - 1) as nat);
    lemma_plain_resolves(s, y, (g - 1) as nat);
    assert(resolve_ty_spec(s, a, g) == Some((s, a)));
    assert(resolve_ty_spec(s, b, g) == Some((s, b)));
    law_unify_plain(s, x, y, g);
}

// ---------------------------------------------------------------------------
// Instantiating a generic parameter
// ---------------------------------------------------------------------------

/// A generic parameter of depth `d >= 1` and position `i` is instantiated
/// with the argument at position `i` of the `d`-th list of arguments (one list
/// per generic scope, outermost first); a parameter of depth 0 takes its
/// argument from the first list; with no such argument the parameter stays
/// itself. Nothing else changes.
pub proof fn law_instantiate_param(s: TyState, t: TyId, p: ParamTy, args: Seq<Seq<GenericArg>>, f: nat)
    requires
        valid_ty(s, t),
        s.storage[t.0 as int] == TyKindView::Param(p),
        f >= 2,
    ensures
        p.depth >= 1 && p.depth - 1 < args.len() && (p.idx as int) < args[p.depth - 1].len()
            ==> instantiate_spec(s, t, args, f) == Some((s, arg_ids(args[p.depth - 1])[p.idx as int])),
        p.depth >= 1 && (p.depth - 1 >= args.len() || (p.idx as int) >= args[p.depth - 1].len())
            ==> instantiate_spec(s, t, args, f) == Some((s, t)),
        p.depth == 0 && 0 < args.len() && (p.idx as int) < args[0].len() ==> instantiate_spec(s, t, args, f)
            == Some((s, arg_ids(args[0])[p.idx as int])),
        p.depth == 0 && (args.len() == 0 || (p.idx as int) >= args[0].len()) ==> instantiate_spec(s, t, args, f)
            == Some((s, t)),
{
    assert(resolve_ty_spec(s, t, (f - 1) as nat) == Some((s, t)));
}

/// All the types `xs` are plain types of the state.
pub open spec fn all_plain(s: TyState, xs: Seq<TyId>) -> bool {
    forall|i: int| 0 <= i < xs.len() ==> valid_ty(s, #[trigger] xs[i]) && is_plain_kind(s.storage[xs[i].0 as int])
}

/// Plain types resolve to themselves, unchanged.
pub proof fn lemma_plain_tys_resolve(s: TyState, xs: Seq<TyId>, f: nat)
    requires
        all_plain(s, xs),
        f >= 1,
    ensures
        resolve_tys_spec(s, xs, f) == Some((s, xs, false)),
    decreases xs.len(),
{
    if xs.len() > 0 {
        assert(valid_ty(s, xs[0]));
        lemma_plain_resolves(s, xs[0], f);
        let rest = xs.drop_first();
        assert forall|i: int| 0 <= i < rest.len() implies valid_ty(s, #[trigger] rest[i]) && is_plain_kind(
            s.storage[rest[i].0 as int],
        ) by {
            assert(rest[i] == xs[i + 1]);
        }
        lemma_plain_tys_resolve(s, rest, f);
        assert(seq![xs[0]] + rest =~= xs);
    }
}

/// Unifying plain types pair by pair, as far as the shorter list goes,
/// succeeds exactly when each pair is one type, and changes nothing.
pub proof fn law_unify_all_plain(s: TyState, xs: Seq<TyId>, ys: Seq<TyId>, f: nat)
    requires
        all_plain(s, xs),
        all_plain(s, ys),
        f >= 2,
    ensures
        unify_all_spec(s, xs, ys, f) == Some(
            (s, forall|i: int| 0 <= i < xs.len() && i < ys.len() ==> #[trigger] xs[i] == ys[i]),
        ),
    decreases xs.len(),
{
    if xs.len() > 0 && ys.len() > 0 {
        assert(valid_ty(s, xs[0]) && valid_ty(s, ys[0]));
        law_unify_plain(s, xs[0], ys[0], f);
        let (xr, yr) = (xs.drop_first(), ys.drop_first());
        assert forall|i: int| 0 <= i < xr.len() implies valid_ty(s, #[trigger] xr[i]) && is_plain_kind(
            s.storage[xr[i].0 as int],
        ) by {
            assert(xr[i] == xs[i + 1]);
        }
        assert forall|i: int| 0 <= i < yr.len() implies valid_ty(s, #[trigger] yr[i]) && is_plain_kind(
            s.storage[yr[i].0 as int],
        ) by {
            assert(yr[i] == ys[i + 1]);
        }
        law_unify_all_plain(s, xr, yr, f);
        if xs[0] == ys[0] {
            assert((forall|i: int| 0 <= i < xs.len() && i < ys.len() ==> #[trigger] xs[i] == ys[i]) == (forall|
                i: int,
            | 0 <= i < xr.len() && i < yr.len() ==> #[trigger] xr[i] == yr[i])) by {
                if forall|i: int| 0 <= i < xr.len() && i < yr.len() ==> #[trigger] xr[i] == yr[i] {
                    assert forall|i: int| 0 <= i < xs.len() && i < ys.len() implies #[trigger] xs[i] == ys[i] by {
                        if i > 0 {
                            assert(xr[i - 1] == yr[i - 1]);
                        }
                    }
                }
                if forall|i: int| 0 <= i < xs.len() && i < ys.len() ==> #[trigger] xs[i] == ys[i] {
                    assert forall|i: int| 0 <= i < xr.len() && i < yr.len() implies #[trigger] xr[i] == yr[i] by {
                        assert(xs[i + 1] == ys[i + 1]);
                    }
                }
            }
        } else {
            assert(!(xs[0] == ys[0]));
        }
    }
}

/// Two tuple types of plain element types unify exactly when they are one
/// type or their elements are the same types pair by pair (as far as the
/// shorter goes); unifying them changes nothing.
pub proof fn law_unify_tuples(s: TyState, a: TyId, b: TyId, xs: Seq<TyId>, ys: Seq<TyId>, f: nat)
    requires
        valid_ty(s, a),
        valid_ty(s, b),
        s.storage[a.0 as int] == TyKindView::Tuple(xs),
        s.storage[b.0 as int] == TyKindView::Tuple(ys),
        all_plain(s, xs),
        all_plain(s, ys),
        f >= 3,
    ensures
        unify_ty_spec(s, a, b, f) == Some(
            (s, a == b || forall|i: int| 0 <= i < xs.len() && i < ys.len() ==> #[trigger] xs[i] == ys[i]),
        ),
{
    let g = (f - 1) as nat;
    lemma_plain_tys_resolve(s, xs, (g - 1) as nat);
    lemma_plain_tys_resolve(s, ys, (g - 1) as nat);
    assert(resolve_ty_spec(s, a, g) == Some((s, a)));
    assert(resolve_ty_spec(s, b, g) == Some((s, b)));
    law_unify_all_plain(s, xs, ys, g);
}

/// Two struct types with plain type arguments unify exactly when they are
/// one type, or they are of the same struct with as many arguments, each the
/// same type; unifying them changes nothing.
pub proof fn law_unify_adts(
    s: TyState,
    a: TyId,
    b: TyId,
    da: DefId,
    db: DefId,
    ga: Seq<GenericArg>,
    gb: Seq<GenericArg>,
    f: nat,
)
    requires
        valid_ty(s, a),
        valid_ty(s, b),
        s.storage[a.0 as int] == TyKindView::Adt(da, ga),
        s.storage[b.0 as int] == TyKindView::Adt(db, gb),
        all_plain(s, arg_ids(ga)),
        all_plain(s, arg_ids(gb)),
        f >= 3,
    ensures
        unify_ty_spec(s, a, b, f) == Some(
            (
                s,
                a == b || (da == db && ga.len() == gb.len() && forall|i: int|
                    0 <= i < ga.len() ==> #[trigger] arg_ids(ga)[i] == arg_ids(gb)[i]),
            ),
        ),
{
    let g = (f - 1) as nat;
    lemma_plain_tys_resolve(s, arg_ids(ga), (g - 1) as nat);
    lemma_plain_tys_resolve(s, arg_ids(gb), (g - 1) as nat);
    assert(resolve_ty_spec(s, a, g) == Some((s, a)));
    assert(resolve_ty_spec(s, b, g) == Some((s, b)));
    law_unify_all_plain(s, arg_ids(ga), arg_ids(gb), g);
}

// ---------------------------------------------------------------------------
// Instantiating keeps the state well formed
// ---------------------------------------------------------------------------

/// Interning where it succeeds keeps the state well formed.
proof fn lemma_intern_fits(s: TyState, k: TyKindView)
    requires
        fits(s),
        intern_opt(s, k) is Some,
    ensures
        fits(intern_opt(s, k).unwrap().0),
{
    lemma_intern_extends(s, k);
}

/// Instantiating a type, where it ends, keeps the state well formed.
pub proof fn lemma_instantiate_fits(s: TyState, t: TyId, args: Seq<Seq<GenericArg>>, f: nat)
    requires
        fits(s),
        instantiate_spec(s, t, args, f) is Some,
    ensures
        fits(instantiate_spec(s, t, args, f).unwrap().0),
    decreases f, 0nat,
{
    let g = (f - 1) as nat;
    lemma_resolve_extends(s, t, g);
    let (s1, t1) = resolve_ty_spec(s, t, g).unwrap();
    match s1.storage[t1.0 as int] {
        TyKindView::Array(x) => {
            lemma_instantiate_fits(s1, x, args, g);
            let q = instantiate_spec(s1, x, args, g).unwrap();
            lemma_intern_fits(q.0, TyKindView::Array(q.1));
        },
        TyKindView::Slice(x) => {
            lemma_instantiate_fits(s1, x, args, g);
            let q = instantiate_spec(s1, x, args, g).unwrap();
            lemma_intern_fits(q.0, TyKindView::Slice(q.1));
        },
        TyKindView::Ref(x, m) => {
            lemma_instantiate_fits(s1, x, args, g);
            let q = instantiate_spec(s1, x, args, g).unwrap();
            lemma_intern_fits(q.0, TyKindView::Ref(q.1, m));
        },
        TyKindView::Tuple(xs) => {
            lemma_instantiate_tys_fits(s1, xs, args, g);
            let q = instantiate_tys_spec(s1, xs, args, g).unwrap();
            lemma_intern_fits(q.0, TyKindView::Tuple(q.1));
        },
        TyKindView::Fn { def_id, params, ret_ty, args: ga } => {
            lemma_instantiate_tys_fits(s1, params, args, g);
            let q1 = instantiate_tys_spec(s1, params, args, g).unwrap();
            lemma_instantiate_fits(q1.0, ret_ty, args, g);
            let q2 = instantiate_spec(q1.0, ret_ty, args, g).unwrap();
            lemma_instantiate_tys_fits(q2.0, arg_ids(ga), args, g);
            let q3 = instantiate_tys_spec(q2.0, arg_ids(ga), args, g).unwrap();
            lemma_intern_fits(q3.0, TyKindView::Fn { def_id, params: q1.1, ret_ty: q2.1, args: ty_args(q3.1) });
        },
        TyKindView::Adt(d, ga) => {
            lemma_instantiate_tys_fits(s1, arg_ids(ga), args, g);
            let q = instantiate_tys_spec(s1, arg_ids(ga), args, g).unwrap();
            lemma_intern_fits(q.0, TyKindView::Adt(d, ty_args(q.1)));
        },
        _ => {},
    }
}

/// Instantiating types in order, where it ends, keeps the state well formed.
pub proof fn lemma_instantiate_tys_fits(s: TyState, ts: Seq<TyId>, args: Seq<Seq<GenericArg>>, f: nat)
    requires
        fits(s),
        instantiate_tys_spec(s, ts, args, f) is Some,
    ensures
        fits(instantiate_tys_spec(s, ts, args, f).unwrap().0),
    decreases f, ts.len() + 1,
{
    if ts.len() > 0 {
        lemma_instantiate_fits(s, ts[0], args, f);
        let r = instantiate_spec(s, ts[0], args, f).unwrap();
        lemma_instantiate_tys_fits(r.0, ts.drop_first(), args, f);
    }
}

/// Instantiating an array type gives the array type of its instantiated
/// element type.
pub proof fn law_instantiate_array(s: TyState, t: TyId, args: Seq<Seq<GenericArg>>, f: nat)
    requires
        fits(s),
        valid_ty(s, t),
        s.storage[t.0 as int] is Array,
        instantiate_spec(s, t, args, f) is Some,
    ensures
        ({
            let g = (f - 1) as nat;
            let (s1, t1) = resolve_ty_spec(s, t, g).unwrap();
            let x = s.storage[t.0 as int]->Array_0;
            let x1 = resolve_ty_spec(s, x, (g - 1) as nat).unwrap().1;
            let e = instantiate_spec(s1, x1, args, g).unwrap().1;
            let (q, r) = instantiate_spec(s, t, args, f).unwrap();
            &&& (r.0 as int) < q.storage.len()
            &&& q.storage[r.0 as int] == TyKindView::Array(e)
        }),
{
    let g = (f - 1) as nat;
    let h = (g - 1) as nat;
    let x = s.storage[t.0 as int]->Array_0;
    let rx = resolve_ty_spec(s, x, h).unwrap();
    lemma_resolve_extends(s, x, h);
    if rx.1 != x {
        law_intern_stores_kind(rx.0, TyKindView::Array(rx.1));
    } else {
        assert(rx.0.storage[t.0 as int] == s.storage[t.0 as int]);
    }
    let (s1, t1) = resolve_ty_spec(s, t, g).unwrap();
    lemma_resolve_extends(s, t, g);
    let q = instantiate_spec(s1, rx.1, args, g).unwrap();
    lemma_instantiate_fits(s1, rx.1, args, g);
    law_intern_stores_kind(q.0, TyKindView::Array(q.1));
}

/// Instantiating a slice type gives the slice type of its instantiated
/// element type.
pub proof fn law_instantiate_slice(s: TyState, t: TyId, args: Seq<Seq<GenericArg>>, f: nat)
    requires
        fits(s),
        valid_ty(s, t),
        s.storage[t.0 as int] is Slice,
        instantiate_spec(s, t, args, f) is Some,
    ensures
        ({
            let g = (f - 1) as nat;
            let (s1, t1) = resolve_ty_spec(s, t, g).unwrap();
            let x = s.storage[t.0 as int]->Slice_0;
            let x1 = resolve_ty_spec(s, x, (g - 1) as nat).unwrap().1;
            let e = instantiate_spec(s1, x1, args, g).unwrap().1;
            let (q, r) = instantiate_spec(s, t, args, f).unwrap();
            &&& (r.0 as int) < q.storage.len()
            &&& q.storage[r.0 as int] == TyKindView::Slice(e)
        }),
{
    let g = (f - 1) as nat;
    let h = (g - 1) as nat;
    let x = s.storage[t.0 as int]->Slice_0;
    let rx = resolve_ty_spec(s, x, h).unwrap();
    lemma_resolve_extends(s, x, h);
    if rx.1 != x {
        law_intern_stores_kind(rx.0, TyKindView::Slice(rx.1));
    } else {
        assert(rx.0.storage[t.0 as int] == s.storage[t.0 as int]);
    }
    let (s1, t1) = resolve_ty_spec(s, t, g).unwrap();
    lemma_resolve_extends(s, t, g);
    let q = instantiate_spec(s1, rx.1, args, g).unwrap();
    lemma_instantiate_fits(s1, rx.1, args, g);
    law_intern_stores_kind(q.0, TyKindView::Slice(q.1));
}

} // verus!
