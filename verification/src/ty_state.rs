use vstd::prelude::*;

use crate::ty::{
    spec_compatible, GenericArg, InferKind, RefMutability, TyId, TyKind, TyKindView, TyVar, TyVarId,
    TyVarKind,
};

verus! {

// ---------------------------------------------------------------------------
// The state of the types and type variables
// ---------------------------------------------------------------------------

/// The types and type variables of a type context as mathematical values. The
/// heights order the variables: a variable linked to another is lower than it,
/// and no height exceeds `bound`; they make chasing links terminate.
pub struct TyState {
    pub storage: Seq<TyKindView>,
    pub interned: Seq<(TyKindView, TyId)>,
    pub vars: Seq<TyVar>,
    pub heights: Seq<nat>,
    pub bound: nat,
}

/// The interned kinds are distinct and so are their ids; each id names a
/// stored type, of the kind it was interned for.
pub open spec fn interned_ok(s: TyState) -> bool {
    &&& forall|i: int, j: int|
        0 <= i < s.interned.len() && 0 <= j < s.interned.len() && i != j ==> #[trigger] s.interned[i].0
            != #[trigger] s.interned[j].0
    &&& forall|i: int, j: int|
        0 <= i < s.interned.len() && 0 <= j < s.interned.len() && i != j ==> #[trigger] s.interned[i].1
            != #[trigger] s.interned[j].1
    &&& forall|i: int|
        0 <= i < s.interned.len() ==> (#[trigger] s.interned[i]).1.0 < s.storage.len()
            && s.storage[s.interned[i].1.0 as int] == s.interned[i].0
}

/// Every link leads to a variable of the context that is higher.
pub open spec fn links_ok(s: TyState) -> bool {
    &&& s.vars.len() <= usize::MAX
    &&& s.heights.len() == s.vars.len()
    &&& forall|v: int| 0 <= v < s.vars.len() ==> #[trigger] s.heights[v] <= s.bound
    &&& forall|v: int|
        #![trigger s.vars[v]]
        0 <= v < s.vars.len() ==> match s.vars[v].kind {
            TyVarKind::Linked(w) => (w.0 as int) < s.vars.len() && s.heights[v] < s.heights[w.0 as int],
            _ => true,
        }
}

pub open spec fn state_ok(s: TyState) -> bool {
    interned_ok(s) && links_ok(s)
}

/// The variable that `v` stands for in the end: following links until a
/// variable that is no link, or an index past the variables.
pub open spec fn root_of(s: TyState, v: int) -> int
    decreases s.bound - s.heights[v],
{
    if 0 <= v < s.vars.len() {
        match s.vars[v].kind {
            TyVarKind::Linked(w) => if (w.0 as int) < s.vars.len() && s.heights[v] < s.heights[w.0 as int]
                <= s.bound {
                root_of(s, w.0 as int)
            } else {
                w.0 as int
            },
            _ => v,
        }
    } else {
        v
    }
}

/// The variables after the chain of links from `v` has been shortened: every
/// link on it leads to `root` directly.
pub open spec fn compress(s: TyState, v: int, root: TyVarId) -> Seq<TyVar>
    decreases s.bound - s.heights[v],
{
    if 0 <= v < s.vars.len() {
        match s.vars[v].kind {
            TyVarKind::Linked(w) => if (w.0 as int) < s.vars.len() && s.heights[v] < s.heights[w.0 as int]
                <= s.bound {
                compress(s, w.0 as int, root).update(
                    v,
                    TyVar { span: s.vars[v].span, kind: TyVarKind::Linked(root) },
                )
            } else {
                s.vars.update(v, TyVar { span: s.vars[v].span, kind: TyVarKind::Linked(root) })
            },
            _ => s.vars,
        }
    } else {
        s.vars
    }
}

/// The kinds of a sequence of types.
pub open spec fn kinds_view(s: Seq<TyKind>) -> Seq<TyKindView> {
    s.map_values(|k: TyKind| k@)
}

/// The state with other variables.
pub open spec fn with_vars(s: TyState, vars: Seq<TyVar>) -> TyState {
    TyState { storage: s.storage, interned: s.interned, vars, heights: s.heights, bound: s.bound }
}

/// Resolving variable `v`: its root, with the links on the way shortened.
pub open spec fn resolve_var_spec(s: TyState, v: TyVarId) -> (TyState, TyVarId) {
    let r = TyVarId(root_of(s, v.0 as int) as usize);
    (with_vars(s, compress(s, v.0 as int, r)), r)
}

/// Binding variable `v` to type `t`: its root becomes bound to `t`.
pub open spec fn bind_var_spec(s: TyState, v: TyVarId, t: TyId) -> TyState {
    let (s1, r) = resolve_var_spec(s, v);
    with_vars(
        s1,
        s1.vars.update(r.0 as int, TyVar { span: s1.vars[r.0 as int].span, kind: TyVarKind::Bound(t) }),
    )
}

/// The id under which kind `k` was interned, if it was.
pub open spec fn lookup(s: TyState, k: TyKindView) -> Option<TyId> {
    if exists|i: int| 0 <= i < s.interned.len() && s.interned[i].0 == k {
        let i = choose|i: int| 0 <= i < s.interned.len() && s.interned[i].0 == k;
        Some(s.interned[i].1)
    } else {
        None
    }
}

/// Interning kind `k`: the id it was interned under, or a new type at the next
/// index, interned under `k`.
pub open spec fn intern_spec(s: TyState, k: TyKindView) -> (TyState, TyId) {
    match lookup(s, k) {
        Some(id) => (s, id),
        None => {
            let id = TyId(s.storage.len() as usize);
            (
                TyState {
                    storage: s.storage.push(k),
                    interned: s.interned.push((k, id)),
                    vars: s.vars,
                    heights: s.heights,
                    bound: s.bound,
                },
                id,
            )
        },
    }
}

// ---------------------------------------------------------------------------
// Facts about the chains of links
// ---------------------------------------------------------------------------

/// Following the links from a variable of the context ends at one of its
/// variables that is no link, at least as high; shortening the chain keeps every
/// variable that is no link, keeps which variables are links and where they
/// arose, and keeps the links in order.
pub proof fn lemma_compress(s: TyState, v: int)
    requires
        links_ok(s),
        0 <= v < s.vars.len(),
    ensures
        ({
            let r = root_of(s, v);
            let c = compress(s, v, TyVarId(r as usize));
            &&& 0 <= r < s.vars.len()
            &&& !(s.vars[r].kind is Linked)
            &&& s.heights[v] <= s.heights[r]
            &&& (s.vars[v].kind is Linked ==> s.heights[v] < s.heights[r])
            &&& c.len() == s.vars.len()
            &&& forall|x: int| #![trigger c[x]] 0 <= x < c.len() ==> c[x].span == s.vars[x].span
            &&& forall|x: int|
                #![trigger c[x]]
                0 <= x < c.len() ==> (c[x].kind is Linked <==> s.vars[x].kind is Linked)
            &&& forall|x: int|
                #![trigger c[x]]
                0 <= x < c.len() && !(s.vars[x].kind is Linked) ==> c[x] == s.vars[x]
            &&& links_ok(with_vars(s, c))
        }),
    decreases s.bound - s.heights[v],
{
    let r = root_of(s, v);
    match s.vars[v].kind {
        TyVarKind::Linked(w) => {
            let wi = w.0 as int;
            lemma_compress(s, wi);
            let c0 = compress(s, wi, TyVarId(r as usize));
            let c = compress(s, v, TyVarId(r as usize));
            assert(c == c0.update(v, TyVar { span: s.vars[v].span, kind: TyVarKind::Linked(TyVarId(r as usize)) }));
            assert(links_ok(with_vars(s, c))) by {
                assert forall|x: int| #![trigger c[x]] 0 <= x < c.len() implies match c[x].kind {
                    TyVarKind::Linked(y) => (y.0 as int) < c.len() && s.heights[x] < s.heights[y.0 as int],
                    _ => true,
                } by {
                    if x != v {
                        assert(c[x] == c0[x]);
                        assert(with_vars(s, c0).vars[x] == c0[x]);
                    } else {
                        assert(c[x].kind == TyVarKind::Linked(TyVarId(r as usize)));
                        assert((r as usize) as int == r);
                    }
                }
            }
        },
        _ => {},
    }
}

// ---------------------------------------------------------------------------
// Resolving, unifying and instantiating types
// ---------------------------------------------------------------------------

/// Whether `t` names a stored type.
pub open spec fn valid_ty(s: TyState, t: TyId) -> bool {
    t.0 != usize::MAX && (t.0 as int) < s.storage.len()
}

/// Interning kind `k`, or `None` when `k` is new and no further type fits.
pub open spec fn intern_opt(s: TyState, k: TyKindView) -> Option<(TyState, TyId)> {
    if lookup(s, k) is None && s.storage.len() >= usize::MAX {
        None
    } else {
        Some(intern_spec(s, k))
    }
}

/// The types that generic arguments give.
pub open spec fn arg_ids(args: Seq<GenericArg>) -> Seq<TyId> {
    args.map_values(|a: GenericArg| match a {
        GenericArg::Ty(t) => t,
    })
}

/// Types as generic arguments.
pub open spec fn ty_args(ids: Seq<TyId>) -> Seq<GenericArg> {
    ids.map_values(|t: TyId| GenericArg::Ty(t))
}

/// Linking root `a` to root `b`: `a` becomes a link to `b`, which is raised
/// above `a` if it is not above it already.
pub open spec fn link_spec(s: TyState, a: TyVarId, b: TyVarId) -> TyState {
    let hb = if s.heights[b.0 as int] > s.heights[a.0 as int] {
        s.heights[b.0 as int]
    } else {
        s.heights[a.0 as int] + 1
    };
    TyState {
        storage: s.storage,
        interned: s.interned,
        vars: s.vars.update(a.0 as int, TyVar { span: s.vars[a.0 as int].span, kind: TyVarKind::Linked(b) }),
        heights: s.heights.update(b.0 as int, hb),
        bound: if hb > s.bound {
            hb
        } else {
            s.bound
        },
    }
}

/// Resolving type `t` with at most `fuel` nested steps: a type built from
/// other types is rebuilt (and interned) from their resolutions if any of them
/// changed; a type variable bound to a type resolves to that type's
/// resolution. `None` when the steps run out, or where resolving panics (an
/// id that names no type or variable, or a full context).
pub open spec fn resolve_ty_spec(s: TyState, t: TyId, fuel: nat) -> Option<(TyState, TyId)>
    decreases fuel, 0nat,
{
    if fuel == 0 || !valid_ty(s, t) {
        None
    } else {
        let f = (fuel - 1) as nat;
        match s.storage[t.0 as int] {
            TyKindView::Array(x) => match resolve_ty_spec(s, x, f) {
                None => None,
                Some(r) => if r.1 == x {
                    Some((r.0, t))
                } else {
                    intern_opt(r.0, TyKindView::Array(r.1))
                },
            },
            TyKindView::Slice(x) => match resolve_ty_spec(s, x, f) {
                None => None,
                Some(r) => if r.1 == x {
                    Some((r.0, t))
                } else {
                    intern_opt(r.0, TyKindView::Slice(r.1))
                },
            },
            TyKindView::Tuple(xs) => match resolve_tys_spec(s, xs, f) {
                None => None,
                Some(r) => if r.2 {
                    intern_opt(r.0, TyKindView::Tuple(r.1))
                } else {
                    Some((r.0, t))
                },
            },
            TyKindView::Ref(x, m) => match resolve_ty_spec(s, x, f) {
                None => None,
                Some(r) => if r.1 == x {
                    Some((r.0, t))
                } else {
                    intern_opt(r.0, TyKindView::Ref(r.1, m))
                },
            },
            TyKindView::Fn { def_id, params, ret_ty, args } => match resolve_tys_spec(
                s,
                arg_ids(args),
                f,
            ) {
                None => None,
                Some(ra) => match resolve_tys_spec(ra.0, params, f) {
                    None => None,
                    Some(rp) => match resolve_ty_spec(rp.0, ret_ty, f) {
                        None => None,
                        Some(rr) => if ra.2 || rp.2 || rr.1 != ret_ty {
                            intern_opt(
                                rr.0,
                                TyKindView::Fn {
                                    def_id,
                                    params: rp.1,
                                    ret_ty: rr.1,
                                    args: ty_args(ra.1),
                                },
                            )
                        } else {
                            Some((rr.0, t))
                        },
                    },
                },
            },
            TyKindView::Adt(d, args) => match resolve_tys_spec(s, arg_ids(args), f) {
                None => None,
                Some(r) => if r.2 {
                    intern_opt(r.0, TyKindView::Adt(d, ty_args(r.1)))
                } else {
                    Some((r.0, t))
                },
            },
            TyKindView::Infer(v, _) => if v.0 == usize::MAX {
                None
            } else {
                let (s1, root) = resolve_var_spec(s, v);
                if (root.0 as int) >= s1.vars.len() {
                    None
                } else {
                    match s1.vars[root.0 as int].kind {
                        TyVarKind::Bound(b) => resolve_ty_spec(s1, b, f),
                        _ => Some((s1, t)),
                    }
                }
            },
            _ => Some((s, t)),
        }
    }
}

/// Resolving the types `ts` in order: their resolutions, and whether any of
/// them changed.
pub open spec fn resolve_tys_spec(s: TyState, ts: Seq<TyId>, fuel: nat) -> Option<
    (TyState, Seq<TyId>, bool),
>
    decreases fuel, ts.len() + 1,
{
    if ts.len() == 0 {
        Some((s, Seq::empty(), false))
    } else {
        match resolve_ty_spec(s, ts[0], fuel) {
            None => None,
            Some(r) => match resolve_tys_spec(r.0, ts.drop_first(), fuel) {
                None => None,
                Some(rs) => Some((rs.0, seq![r.1] + rs.1, r.1 != ts[0] || rs.2)),
            },
        }
    }
}

/// More steps give the same resolution: where resolving with `f1` steps
/// ends, resolving with `f2 >= f1` steps gives the same result.
pub proof fn lemma_resolve_fuel(s: TyState, t: TyId, f1: nat, f2: nat)
    requires
        f1 <= f2,
        resolve_ty_spec(s, t, f1) is Some,
    ensures
        resolve_ty_spec(s, t, f2) == resolve_ty_spec(s, t, f1),
    decreases f1, 0nat,
{
    let g1 = (f1 - 1) as nat;
    let g2 = (f2 - 1) as nat;
    match s.storage[t.0 as int] {
        TyKindView::Array(x) => lemma_resolve_fuel(s, x, g1, g2),
        TyKindView::Slice(x) => lemma_resolve_fuel(s, x, g1, g2),
        TyKindView::Ref(x, _) => lemma_resolve_fuel(s, x, g1, g2),
        TyKindView::Tuple(xs) => lemma_resolve_tys_fuel(s, xs, g1, g2),
        TyKindView::Adt(_, args) => lemma_resolve_tys_fuel(s, arg_ids(args), g1, g2),
        TyKindView::Fn { params, ret_ty, args, .. } => {
            lemma_resolve_tys_fuel(s, arg_ids(args), g1, g2);
            let ra = resolve_tys_spec(s, arg_ids(args), g1).unwrap();
            lemma_resolve_tys_fuel(ra.0, params, g1, g2);
            let rp = resolve_tys_spec(ra.0, params, g1).unwrap();
            lemma_resolve_fuel(rp.0, ret_ty, g1, g2);
        },
        TyKindView::Infer(v, _) => {
            if v.0 != usize::MAX {
                let (s1, root) = resolve_var_spec(s, v);
                if (root.0 as int) < s1.vars.len() {
                    match s1.vars[root.0 as int].kind {
                        TyVarKind::Bound(b) => lemma_resolve_fuel(s1, b, g1, g2),
                        _ => {},
                    }
                }
            }
        },
        _ => {},
    }
}

/// More steps give the same resolutions of a sequence of types.
pub proof fn lemma_resolve_tys_fuel(s: TyState, ts: Seq<TyId>, f1: nat, f2: nat)
    requires
        f1 <= f2,
        resolve_tys_spec(s, ts, f1) is Some,
    ensures
        resolve_tys_spec(s, ts, f2) == resolve_tys_spec(s, ts, f1),
    decreases f1, ts.len() + 1,
{
    if ts.len() > 0 {
        lemma_resolve_fuel(s, ts[0], f1, f2);
        let r = resolve_ty_spec(s, ts[0], f1).unwrap();
        lemma_resolve_tys_fuel(r.0, ts.drop_first(), f1, f2);
    }
}

/// Resolving does not depend on the number of steps, once it is enough: any
/// two numbers of steps with which resolving ends give the same result.
pub proof fn law_resolve_fuel_independent(s: TyState, t: TyId, f1: nat, f2: nat)
    requires
        resolve_ty_spec(s, t, f1) is Some,
        resolve_ty_spec(s, t, f2) is Some,
    ensures
        resolve_ty_spec(s, t, f1) == resolve_ty_spec(s, t, f2),
{
    if f1 <= f2 {
        lemma_resolve_fuel(s, t, f1, f2);
    } else {
        lemma_resolve_fuel(s, t, f2, f1);
    }
}

/// The variable and kind of an inference type.
pub open spec fn infer_of(k: TyKindView) -> Option<(TyVarId, InferKind)> {
    match k {
        TyKindView::Infer(v, kind) => Some((v, kind)),
        _ => None,
    }
}

/// Binding variable `v` to type `t` where `v` must be a variable of the
/// context: the unification succeeds.
pub open spec fn bind_step(s: TyState, v: TyVarId, t: TyId) -> Option<(TyState, bool)> {
    if (v.0 as int) < s.vars.len() {
        Some((bind_var_spec(s, v, t), true))
    } else {
        None
    }
}

/// Unifying types `a` and `b` with at most `fuel` nested steps, after
/// resolving both: the same type unifies; a variable compatible with the other
/// type is bound to it; types of the same shape unify part by part; `Never`
/// unifies with everything; anything else fails. `None` when the steps run
/// out or where unifying panics.
pub open spec fn unify_ty_spec(s: TyState, a: TyId, b: TyId, fuel: nat) -> Option<(TyState, bool)>
    decreases fuel, 0nat,
{
    if fuel == 0 {
        None
    } else {
        let f = (fuel - 1) as nat;
        match resolve_ty_spec(s, a, f) {
            None => None,
            Some(ra) => match resolve_ty_spec(ra.0, b, f) {
                None => None,
                Some(rb) => {
                    let s2 = rb.0;
                    let x = ra.1;
                    let y = rb.1;
                    if x == y {
                        Some((s2, true))
                    } else if !valid_ty(s2, x) || !valid_ty(s2, y) {
                        None
                    } else {
                        let kx = s2.storage[x.0 as int];
                        let ky = s2.storage[y.0 as int];
                        if infer_of(ky) is Some && spec_compatible(infer_of(ky).unwrap().1, kx) {
                            bind_step(s2, infer_of(ky).unwrap().0, x)
                        } else if infer_of(kx) is Some && spec_compatible(infer_of(kx).unwrap().1, ky) {
                            bind_step(s2, infer_of(kx).unwrap().0, y)
                        } else {
                            match (kx, ky) {
                                (TyKindView::Array(p), TyKindView::Array(q)) => unify_ty_spec(s2, p, q, f),
                                (TyKindView::Slice(p), TyKindView::Slice(q)) => unify_ty_spec(s2, p, q, f),
                                (TyKindView::Tuple(ps), TyKindView::Tuple(qs)) => unify_all_spec(
                                    s2,
                                    ps,
                                    qs,
                                    f,
                                ),
                                (TyKindView::Ref(p, pm), TyKindView::Ref(q, qm)) => if pm
                                    == RefMutability::Immutable || pm == qm {
                                    unify_ty_spec(s2, p, q, f)
                                } else {
                                    Some((s2, false))
                                },
                                (
                                    TyKindView::Fn { params: pa, ret_ty: ra_, args: ga, .. },
                                    TyKindView::Fn { params: pb, ret_ty: rb_, args: gb, .. },
                                ) => if pa.len() != pb.len() {
                                    Some((s2, false))
                                } else {
                                    match unify_all_spec(s2, arg_ids(ga), arg_ids(gb), f) {
                                        None => None,
                                        Some(r1) => if !r1.1 {
                                            Some((r1.0, false))
                                        } else {
                                            match unify_all_spec(r1.0, pa, pb, f) {
                                                None => None,
                                                Some(r2) => if !r2.1 {
                                                    Some((r2.0, false))
                                                } else {
                                                    unify_ty_spec(r2.0, ra_, rb_, f)
                                                },
                                            }
                                        },
                                    }
                                },
                                (TyKindView::Never, _) => Some((s2, true)),
                                (_, TyKindView::Never) => Some((s2, true)),
                                (TyKindView::Adt(da, ga), TyKindView::Adt(db, gb)) => if da != db
                                    || ga.len() != gb.len() {
                                    Some((s2, false))
                                } else {
                                    unify_all_spec(s2, arg_ids(ga), arg_ids(gb), f)
                                },
                                _ => Some((s2, false)),
                            }
                        }
                    }
                },
            },
        }
    }
}

/// Unifying the types `xs` with the types `ys` pair by pair, as far as the
/// shorter goes, stopping at the first pair that fails.
pub open spec fn unify_all_spec(s: TyState, xs: Seq<TyId>, ys: Seq<TyId>, fuel: nat) -> Option<
    (TyState, bool),
>
    decreases fuel, xs.len() + 1,
{
    if xs.len() == 0 || ys.len() == 0 {
        Some((s, true))
    } else {
        match unify_ty_spec(s, xs[0], ys[0], fuel) {
            None => None,
            Some(r) => if !r.1 {
                Some((r.0, false))
            } else {
                unify_all_spec(r.0, xs.drop_first(), ys.drop_first(), fuel)
            },
        }
    }
}

/// Unifying type variables `a` and `b` after resolving both: two bound
/// variables have their types unified; a variable bound to a type binds the
/// other to it; of two unbound variables, the root of `a` becomes a link to
/// that of `b`. `None` where it panics.
pub open spec fn unify_spec(s: TyState, a: TyVarId, b: TyVarId, fuel: nat) -> Option<TyState> {
    if a.0 == usize::MAX || b.0 == usize::MAX {
        None
    } else {
        let (s1, ra) = resolve_var_spec(s, a);
        let (s2, rb) = resolve_var_spec(s1, b);
        if (ra.0 as int) >= s2.vars.len() || (rb.0 as int) >= s2.vars.len() {
            None
        } else {
            match (s2.vars[ra.0 as int].kind, s2.vars[rb.0 as int].kind) {
                (TyVarKind::Bound(at), TyVarKind::Bound(bt)) => match unify_ty_spec(s2, at, bt, fuel) {
                    None => None,
                    Some(r) => Some(r.0),
                },
                (_, TyVarKind::Bound(v)) => Some(bind_var_spec(s2, ra, v)),
                (TyVarKind::Bound(v), _) => Some(bind_var_spec(s2, rb, v)),
                (TyVarKind::Unbound, TyVarKind::Unbound) => Some(link_spec(s2, ra, rb)),
                _ => None,
            }
        }
    }
}

/// Instantiating type `t` with the generic arguments `args` (one list per
/// generic scope, outermost first), with at most `fuel` nested steps: the
/// resolved type is rebuilt (and interned) from its instantiated parts; a
/// generic parameter becomes the argument at its depth and position, if there
/// is one.
pub open spec fn instantiate_spec(s: TyState, t: TyId, args: Seq<Seq<GenericArg>>, fuel: nat) -> Option<
    (TyState, TyId),
>
    decreases fuel, 0nat,
{
    if fuel == 0 {
        None
    } else {
        let f = (fuel - 1) as nat;
        match resolve_ty_spec(s, t, f) {
            None => None,
            Some(r) => {
                let s1 = r.0;
                let t1 = r.1;
                if !valid_ty(s1, t1) {
                    None
                } else {
                    match s1.storage[t1.0 as int] {
                        TyKindView::Array(x) => match instantiate_spec(s1, x, args, f) {
                            None => None,
                            Some(q) => intern_opt(q.0, TyKindView::Array(q.1)),
                        },
                        TyKindView::Slice(x) => match instantiate_spec(s1, x, args, f) {
                            None => None,
                            Some(q) => intern_opt(q.0, TyKindView::Slice(q.1)),
                        },
                        TyKindView::Tuple(xs) => match instantiate_tys_spec(s1, xs, args, f) {
                            None => None,
                            Some(q) => intern_opt(q.0, TyKindView::Tuple(q.1)),
                        },
                        TyKindView::Ref(x, m) => match instantiate_spec(s1, x, args, f) {
                            None => None,
                            Some(q) => intern_opt(q.0, TyKindView::Ref(q.1, m)),
                        },
                        TyKindView::Fn { def_id, params, ret_ty, args: g } => match instantiate_tys_spec(
                            s1,
                            params,
                            args,
                            f,
                        ) {
                            None => None,
                            Some(q1) => match instantiate_spec(q1.0, ret_ty, args, f) {
                                None => None,
                                Some(q2) => match instantiate_tys_spec(q2.0, arg_ids(g), args, f) {
                                    None => None,
                                    Some(q3) => intern_opt(
                                        q3.0,
                                        TyKindView::Fn {
                                            def_id,
                                            params: q1.1,
                                            ret_ty: q2.1,
                                            args: ty_args(q3.1),
                                        },
                                    ),
                                },
                            },
                        },
                        TyKindView::Adt(d, g) => match instantiate_tys_spec(s1, arg_ids(g), args, f) {
                            None => None,
                            Some(q) => intern_opt(q.0, TyKindView::Adt(d, ty_args(q.1))),
                        },
                        TyKindView::Param(p) => {
                            let i: int = if p.depth >= 1 {
                                p.depth - 1
                            } else {
                                0
                            };
                            if i < args.len() && (p.idx as int) < args[i].len() {
                                match args[i][p.idx as int] {
                                    GenericArg::Ty(id) => Some((s1, id)),
                                }
                            } else {
                                Some((s1, t1))
                            }
                        },
                        _ => Some((s1, t1)),
                    }
                }
            },
        }
    }
}

/// Instantiating the types `ts` in order.
pub open spec fn instantiate_tys_spec(
    s: TyState,
    ts: Seq<TyId>,
    args: Seq<Seq<GenericArg>>,
    fuel: nat,
) -> Option<(TyState, Seq<TyId>)>
    decreases fuel, ts.len() + 1,
{
    if ts.len() == 0 {
        Some((s, Seq::empty()))
    } else {
        match instantiate_spec(s, ts[0], args, fuel) {
            None => None,
            Some(r) => match instantiate_tys_spec(r.0, ts.drop_first(), args, fuel) {
                None => None,
                Some(rs) => Some((rs.0, seq![r.1] + rs.1)),
            },
        }
    }
}

/// `Never` unifies with every type, in both orders: where unifying ends and,
/// once both sides are resolved, either is `Never` (or both resolve to the
/// same type), the unification succeeds.
pub proof fn law_never_unifies(s: TyState, a: TyId, b: TyId, fuel: nat)
    requires
        fuel > 0,
        unify_ty_spec(s, a, b, fuel) is Some,
        ({
            let f = (fuel - 1) as nat;
            let ra = resolve_ty_spec(s, a, f).unwrap();
            let rb = resolve_ty_spec(ra.0, b, f).unwrap();
            ||| ra.1 == rb.1
            ||| valid_ty(rb.0, ra.1) && rb.0.storage[ra.1.0 as int] is Never
            ||| valid_ty(rb.0, rb.1) && rb.0.storage[rb.1.0 as int] is Never
        }),
    ensures
        unify_ty_spec(s, a, b, fuel).unwrap().1,
{
    let f = (fuel - 1) as nat;
    let ra = resolve_ty_spec(s, a, f).unwrap();
    let rb = resolve_ty_spec(ra.0, b, f).unwrap();
    let s2 = rb.0;
    if ra.1 != rb.1 && valid_ty(s2, ra.1) && valid_ty(s2, rb.1) {
        let kx = s2.storage[ra.1.0 as int];
        let ky = s2.storage[rb.1.0 as int];
        if infer_of(ky) is Some && spec_compatible(infer_of(ky).unwrap().1, kx) {
        } else if infer_of(kx) is Some && spec_compatible(infer_of(kx).unwrap().1, ky) {
        } else {
            assert(kx is Never || ky is Never);
        }
    }
}

/// More steps give the same unification: where unifying with `f1` steps
/// ends, unifying with `f2 >= f1` steps gives the same result.
pub proof fn lemma_unify_ty_fuel(s: TyState, a: TyId, b: TyId, f1: nat, f2: nat)
    requires
        f1 <= f2,
        unify_ty_spec(s, a, b, f1) is Some,
    ensures
        unify_ty_spec(s, a, b, f2) == unify_ty_spec(s, a, b, f1),
    decreases f1, 0nat,
{
    let g1 = (f1 - 1) as nat;
    let g2 = (f2 - 1) as nat;
    lemma_resolve_fuel(s, a, g1, g2);
    let ra = resolve_ty_spec(s, a, g1).unwrap();
    lemma_resolve_fuel(ra.0, b, g1, g2);
    let rb = resolve_ty_spec(ra.0, b, g1).unwrap();
    let s2 = rb.0;
    let x = ra.1;
    let y = rb.1;
    if x != y && valid_ty(s2, x) && valid_ty(s2, y) {
        let kx = s2.storage[x.0 as int];
        let ky = s2.storage[y.0 as int];
        if infer_of(ky) is Some && spec_compatible(infer_of(ky).unwrap().1, kx) {
        } else if infer_of(kx) is Some && spec_compatible(infer_of(kx).unwrap().1, ky) {
        } else {
            match (kx, ky) {
                (TyKindView::Array(p), TyKindView::Array(q)) => lemma_unify_ty_fuel(s2, p, q, g1, g2),
                (TyKindView::Slice(p), TyKindView::Slice(q)) => lemma_unify_ty_fuel(s2, p, q, g1, g2),
                (TyKindView::Tuple(ps), TyKindView::Tuple(qs)) => lemma_unify_all_fuel(s2, ps, qs, g1, g2),
                (TyKindView::Ref(p, pm), TyKindView::Ref(q, qm)) => if pm == RefMutability::Immutable
                    || pm == qm {
                    lemma_unify_ty_fuel(s2, p, q, g1, g2);
                },
                (
                    TyKindView::Fn { params: pa, ret_ty: ra_, args: ga, .. },
                    TyKindView::Fn { params: pb, ret_ty: rb_, args: gb, .. },
                ) => if pa.len() == pb.len() {
                    lemma_unify_all_fuel(s2, arg_ids(ga), arg_ids(gb), g1, g2);
                    let r1 = unify_all_spec(s2, arg_ids(ga), arg_ids(gb), g1).unwrap();
                    if r1.1 {
                        lemma_unify_all_fuel(r1.0, pa, pb, g1, g2);
                        let r2 = unify_all_spec(r1.0, pa, pb, g1).unwrap();
                        if r2.1 {
                            lemma_unify_ty_fuel(r2.0, ra_, rb_, g1, g2);
                        }
                    }
                },
                (TyKindView::Never, _) => {},
                (_, TyKindView::Never) => {},
                (TyKindView::Adt(da, ga), TyKindView::Adt(db, gb)) => if da == db && ga.len()
                    == gb.len() {
                    lemma_unify_all_fuel(s2, arg_ids(ga), arg_ids(gb), g1, g2);
                },
                _ => {},
            }
        }
    }
}

/// More steps give the same unification of two sequences of types.
pub proof fn lemma_unify_all_fuel(s: TyState, xs: Seq<TyId>, ys: Seq<TyId>, f1: nat, f2: nat)
    requires
        f1 <= f2,
        unify_all_spec(s, xs, ys, f1) is Some,
    ensures
        unify_all_spec(s, xs, ys, f2) == unify_all_spec(s, xs, ys, f1),
    decreases f1, xs.len() + 1,
{
    if xs.len() > 0 && ys.len() > 0 {
        lemma_unify_ty_fuel(s, xs[0], ys[0], f1, f2);
        let r = unify_ty_spec(s, xs[0], ys[0], f1).unwrap();
        if r.1 {
            lemma_unify_all_fuel(r.0, xs.drop_first(), ys.drop_first(), f1, f2);
        }
    }
}

/// Unifying does not depend on the number of steps, once it is enough.
pub proof fn law_unify_ty_fuel_independent(s: TyState, a: TyId, b: TyId, f1: nat, f2: nat)
    requires
        unify_ty_spec(s, a, b, f1) is Some,
        unify_ty_spec(s, a, b, f2) is Some,
    ensures
        unify_ty_spec(s, a, b, f1) == unify_ty_spec(s, a, b, f2),
{
    if f1 <= f2 {
        lemma_unify_ty_fuel(s, a, b, f1, f2);
    } else {
        lemma_unify_ty_fuel(s, a, b, f2, f1);
    }
}

/// More steps give the same instantiation: where instantiating with `f1`
/// steps ends, instantiating with `f2 >= f1` steps gives the same result.
pub proof fn lemma_instantiate_fuel(s: TyState, t: TyId, args: Seq<Seq<GenericArg>>, f1: nat, f2: nat)
    requires
        f1 <= f2,
        instantiate_spec(s, t, args, f1) is Some,
    ensures
        instantiate_spec(s, t, args, f2) == instantiate_spec(s, t, args, f1),
    decreases f1, 0nat,
{
    let g1 = (f1 - 1) as nat;
    let g2 = (f2 - 1) as nat;
    lemma_resolve_fuel(s, t, g1, g2);
    let r = resolve_ty_spec(s, t, g1).unwrap();
    let s1 = r.0;
    let t1 = r.1;
    if valid_ty(s1, t1) {
        match s1.storage[t1.0 as int] {
            TyKindView::Array(x) => lemma_instantiate_fuel(s1, x, args, g1, g2),
            TyKindView::Slice(x) => lemma_instantiate_fuel(s1, x, args, g1, g2),
            TyKindView::Ref(x, _) => lemma_instantiate_fuel(s1, x, args, g1, g2),
            TyKindView::Tuple(xs) => lemma_instantiate_tys_fuel(s1, xs, args, g1, g2),
            TyKindView::Adt(_, g) => lemma_instantiate_tys_fuel(s1, arg_ids(g), args, g1, g2),
            TyKindView::Fn { params, ret_ty, args: g, .. } => {
                lemma_instantiate_tys_fuel(s1, params, args, g1, g2);
                let q1 = instantiate_tys_spec(s1, params, args, g1).unwrap();
                lemma_instantiate_fuel(q1.0, ret_ty, args, g1, g2);
                let q2 = instantiate_spec(q1.0, ret_ty, args, g1).unwrap();
                lemma_instantiate_tys_fuel(q2.0, arg_ids(g), args, g1, g2);
            },
            _ => {},
        }
    }
}

/// More steps give the same instantiations of a sequence of types.
pub proof fn lemma_instantiate_tys_fuel(
    s: TyState,
    ts: Seq<TyId>,
    args: Seq<Seq<GenericArg>>,
    f1: nat,
    f2: nat,
)
    requires
        f1 <= f2,
        instantiate_tys_spec(s, ts, args, f1) is Some,
    ensures
        instantiate_tys_spec(s, ts, args, f2) == instantiate_tys_spec(s, ts, args, f1),
    decreases f1, ts.len() + 1,
{
    if ts.len() > 0 {
        lemma_instantiate_fuel(s, ts[0], args, f1, f2);
        let r = instantiate_spec(s, ts[0], args, f1).unwrap();
        lemma_instantiate_tys_fuel(r.0, ts.drop_first(), args, f1, f2);
    }
}

/// Instantiating does not depend on the number of steps, once it is enough.
pub proof fn law_instantiate_fuel_independent(
    s: TyState,
    t: TyId,
    args: Seq<Seq<GenericArg>>,
    f1: nat,
    f2: nat,
)
    requires
        instantiate_spec(s, t, args, f1) is Some,
        instantiate_spec(s, t, args, f2) is Some,
    ensures
        instantiate_spec(s, t, args, f1) == instantiate_spec(s, t, args, f2),
{
    if f1 <= f2 {
        lemma_instantiate_fuel(s, t, args, f1, f2);
    } else {
        lemma_instantiate_fuel(s, t, args, f2, f1);
    }
}

/// Collecting, after `acc`, the inference types left in type `t` once it is
/// resolved, with at most `fuel` nested steps.
pub open spec fn unresolved_spec(s: TyState, t: TyId, acc: Seq<TyId>, fuel: nat) -> Option<
    (TyState, Seq<TyId>),
>
    decreases fuel, 0nat,
{
    if fuel == 0 {
        None
    } else {
        let f = (fuel - 1) as nat;
        match resolve_ty_spec(s, t, f) {
            None => None,
            Some(r) => {
                let s1 = r.0;
                let t1 = r.1;
                if !valid_ty(s1, t1) {
                    None
                } else {
                    match s1.storage[t1.0 as int] {
                        TyKindView::Infer(_, _) => Some((s1, acc.push(t1))),
                        TyKindView::Array(x) => unresolved_spec(s1, x, acc, f),
                        TyKindView::Slice(x) => unresolved_spec(s1, x, acc, f),
                        TyKindView::Tuple(xs) => unresolved_tys_spec(s1, xs, acc, f),
                        TyKindView::Ref(x, _) => unresolved_spec(s1, x, acc, f),
                        TyKindView::Fn { params, ret_ty, args, .. } => match unresolved_tys_spec(
                            s1,
                            arg_ids(args),
                            acc,
                            f,
                        ) {
                            None => None,
                            Some(q1) => match unresolved_tys_spec(q1.0, params, q1.1, f) {
                                None => None,
                                Some(q2) => unresolved_spec(q2.0, ret_ty, q2.1, f),
                            },
                        },
                        TyKindView::Adt(_, args) => unresolved_tys_spec(s1, arg_ids(args), acc, f),
                        _ => Some((s1, acc)),
                    }
                }
            },
        }
    }
}

/// Collecting the inference types left in the types `ts`, in order.
pub open spec fn unresolved_tys_spec(s: TyState, ts: Seq<TyId>, acc: Seq<TyId>, fuel: nat) -> Option<
    (TyState, Seq<TyId>),
>
    decreases fuel, ts.len() + 1,
{
    if ts.len() == 0 {
        Some((s, acc))
    } else {
        match unresolved_spec(s, ts[0], acc, fuel) {
            None => None,
            Some(r) => unresolved_tys_spec(r.0, ts.drop_first(), r.1, fuel),
        }
    }
}

/// Whether type `t` holds a variable that may stand for any type, looking
/// through at most `fuel` nested steps (without resolving).
pub open spec fn is_inferred_spec(s: TyState, t: TyId, fuel: nat) -> Option<bool>
    decreases fuel, 0nat,
{
    if fuel == 0 || !valid_ty(s, t) {
        None
    } else {
        let f = (fuel - 1) as nat;
        match s.storage[t.0 as int] {
            TyKindView::Infer(_, InferKind::Any) => Some(true),
            TyKindView::Array(x) => is_inferred_spec(s, x, f),
            TyKindView::Slice(x) => is_inferred_spec(s, x, f),
            TyKindView::Tuple(xs) => any_inferred_spec(s, xs, f),
            TyKindView::Ref(x, _) => is_inferred_spec(s, x, f),
            TyKindView::Fn { params, ret_ty, args, .. } => match any_inferred_spec(s, arg_ids(args), f) {
                None => None,
                Some(true) => Some(true),
                Some(false) => match any_inferred_spec(s, params, f) {
                    None => None,
                    Some(true) => Some(true),
                    Some(false) => is_inferred_spec(s, ret_ty, f),
                },
            },
            TyKindView::Adt(_, args) => any_inferred_spec(s, arg_ids(args), f),
            _ => Some(false),
        }
    }
}

/// Whether any of the types `ts` holds a variable that may stand for any type,
/// looking at them in order and stopping at the first that does.
pub open spec fn any_inferred_spec(s: TyState, ts: Seq<TyId>, fuel: nat) -> Option<bool>
    decreases fuel, ts.len() + 1,
{
    if ts.len() == 0 {
        Some(false)
    } else {
        match is_inferred_spec(s, ts[0], fuel) {
            None => None,
            Some(true) => Some(true),
            Some(false) => any_inferred_spec(s, ts.drop_first(), fuel),
        }
    }
}

/// Whether unifying unbound variables `a` and `b` would link their common root
/// to itself.
pub open spec fn links_to_itself(s: TyState, a: TyVarId, b: TyVarId) -> bool {
    let (s1, ra) = resolve_var_spec(s, a);
    let (s2, rb) = resolve_var_spec(s1, b);
    ra == rb && s2.vars[ra.0 as int].kind is Unbound
}

/// Linking one root of the context to another, different one keeps the links
/// in order.
pub proof fn lemma_link(s: TyState, a: TyVarId, b: TyVarId)
    requires
        links_ok(s),
        (a.0 as int) < s.vars.len(),
        (b.0 as int) < s.vars.len(),
        a != b,
        !(s.vars[a.0 as int].kind is Linked),
        !(s.vars[b.0 as int].kind is Linked),
    ensures
        links_ok(link_spec(s, a, b)),
{
    let t = link_spec(s, a, b);
    assert forall|v: int| 0 <= v < t.vars.len() implies #[trigger] t.heights[v] <= t.bound by {}
    assert forall|v: int| #![trigger t.vars[v]] 0 <= v < t.vars.len() implies match t.vars[v].kind {
        TyVarKind::Linked(w) => (w.0 as int) < t.vars.len() && t.heights[v] < t.heights[w.0 as int],
        _ => true,
    } by {
        if v != a.0 as int {
            assert(t.vars[v] == s.vars[v]);
            match s.vars[v].kind {
                TyVarKind::Linked(w) => {
                    assert(w != b || s.heights[w.0 as int] <= t.heights[w.0 as int]);
                },
                _ => {},
            }
        }
    }
}

// ---------------------------------------------------------------------------
// Laws
// ---------------------------------------------------------------------------

/// Interning a kind a second time gives the same id and changes nothing.
pub proof fn law_intern_idempotent(s: TyState, k: TyKindView)
    requires
        interned_ok(s),
    ensures
        intern_spec(intern_spec(s, k).0, k) == intern_spec(s, k),
{
    let (t, id) = intern_spec(s, k);
    if lookup(s, k) is None {
        let n = s.interned.len();
        assert(t.interned[n as int] == (k, id));
        assert(exists|i: int| 0 <= i < t.interned.len() && t.interned[i].0 == k);
        let j = choose|i: int| 0 <= i < t.interned.len() && t.interned[i].0 == k;
        if j != n as int {
            assert(t.interned[j] == s.interned[j]);
            assert(false);
        }
        assert(lookup(t, k) == Some(id));
    }
}

/// A kind interned for the first time is stored at the id it is given, and
/// looking it up gives that id.
pub proof fn law_intern_fresh_stored(s: TyState, k: TyKindView)
    requires
        interned_ok(s),
        lookup(s, k) is None,
        s.storage.len() < usize::MAX,
    ensures
        intern_spec(s, k).0.storage[intern_spec(s, k).1.0 as int] == k,
        lookup(intern_spec(s, k).0, k) == Some(intern_spec(s, k).1),
{
    law_intern_idempotent(s, k);
}

/// Interning keeps the interned kinds well formed; the id interning gives
/// names a stored type of the interned kind.
pub proof fn law_intern_stores_kind(s: TyState, k: TyKindView)
    requires
        interned_ok(s),
        lookup(s, k) is Some || s.storage.len() < usize::MAX,
    ensures
        interned_ok(intern_spec(s, k).0),
        (intern_spec(s, k).1.0 as int) < intern_spec(s, k).0.storage.len(),
        intern_spec(s, k).0.storage[intern_spec(s, k).1.0 as int] == k,
        lookup(intern_spec(s, k).0, k) == Some(intern_spec(s, k).1),
{
    law_intern_idempotent(s, k);
    let (t, id) = intern_spec(s, k);
    if lookup(s, k) is Some {
        let i = choose|i: int| 0 <= i < s.interned.len() && s.interned[i].0 == k;
        assert(s.interned[i].1 == id);
    } else {
        let n = s.interned.len() as int;
        assert forall|i: int, j: int|
            0 <= i < t.interned.len() && 0 <= j < t.interned.len() && i != j implies #[trigger] t.interned[i].1
                != #[trigger] t.interned[j].1 by {
            if i == n {
                assert(t.interned[j] == s.interned[j]);
            } else if j == n {
                assert(t.interned[i] == s.interned[i]);
            } else {
                assert(t.interned[i] == s.interned[i]);
                assert(t.interned[j] == s.interned[j]);
            }
        }
        assert forall|i: int, j: int|
            0 <= i < t.interned.len() && 0 <= j < t.interned.len() && i != j implies #[trigger] t.interned[i].0
                != #[trigger] t.interned[j].0 by {
            if i == n {
                assert(t.interned[j] == s.interned[j]);
                assert(s.interned[j].0 != k);
            } else if j == n {
                assert(t.interned[i] == s.interned[i]);
                assert(s.interned[i].0 != k);
            } else {
                assert(t.interned[i] == s.interned[i]);
                assert(t.interned[j] == s.interned[j]);
            }
        }
        assert forall|i: int| 0 <= i < t.interned.len() implies (#[trigger] t.interned[i]).1.0 < t.storage.len()
            && t.storage[t.interned[i].1.0 as int] == t.interned[i].0 by {
            if i < n {
                assert(t.interned[i] == s.interned[i]);
            }
        }
    }
}

/// Interning two kinds, one after the other, gives the same id exactly when
/// the kinds are equal, and each id names a stored type of its kind.
pub proof fn law_intern_injective(s: TyState, k1: TyKindView, k2: TyKindView)
    requires
        interned_ok(s),
        s.storage.len() + 2 <= usize::MAX,
    ensures
        ({
            let (s1, i1) = intern_spec(s, k1);
            let (s2, i2) = intern_spec(s1, k2);
            &&& (i1 == i2) <==> (k1 == k2)
            &&& s2.storage[i1.0 as int] == k1
            &&& s2.storage[i2.0 as int] == k2
            &&& interned_ok(s2)
        }),
{
    law_intern_stores_kind(s, k1);
    let (s1, i1) = intern_spec(s, k1);
    law_intern_stores_kind(s1, k2);
    let (s2, i2) = intern_spec(s1, k2);
    assert(s2.storage.len() >= s1.storage.len());
    assert(forall|j: int| 0 <= j < s1.storage.len() ==> s2.storage[j] == s1.storage[j]);
    assert(s2.storage[i1.0 as int] == k1);
    if k1 == k2 {
        assert(lookup(s1, k2) == Some(i1));
    }
}

/// Resolving a variable a second time gives the same root and changes nothing.
pub proof fn law_resolve_var_idempotent(s: TyState, v: TyVarId)
    requires
        links_ok(s),
        (v.0 as int) < s.vars.len(),
    ensures
        resolve_var_spec(resolve_var_spec(s, v).0, v) == resolve_var_spec(s, v),
{
    lemma_compress(s, v.0 as int);
    let (t, r) = resolve_var_spec(s, v);
    let vi = v.0 as int;
    let ri = r.0 as int;
    assert(t.vars[ri] == s.vars[ri]);
    if s.vars[vi].kind is Linked {
        assert(t.vars[vi] == (TyVar { span: s.vars[vi].span, kind: TyVarKind::Linked(r) })) by {
            lemma_compress_sets(s, vi, r);
        }
        assert(root_of(t, ri) == ri);
        assert(root_of(t, vi) == ri);
        assert(compress(t, ri, r) == t.vars);
        assert(compress(t, vi, r) =~= t.vars);
    } else {
        assert(t.vars == s.vars);
    }
}

/// Binding a variable and then resolving it gives a root bound to the type.
pub proof fn law_bind_then_resolve(s: TyState, v: TyVarId, t: TyId)
    requires
        links_ok(s),
        (v.0 as int) < s.vars.len(),
    ensures
        ({
            let (s2, r) = resolve_var_spec(bind_var_spec(s, v, t), v);
            s2.vars[r.0 as int].kind == TyVarKind::Bound(t)
        }),
{
    lemma_compress(s, v.0 as int);
    let (s1, r) = resolve_var_spec(s, v);
    let b = bind_var_spec(s, v, t);
    let vi = v.0 as int;
    let ri = r.0 as int;
    assert(b.vars[ri].kind == TyVarKind::Bound(t));
    assert(links_ok(b)) by {
        assert forall|x: int| #![trigger b.vars[x]] 0 <= x < b.vars.len() implies match b.vars[x].kind {
            TyVarKind::Linked(w) => (w.0 as int) < b.vars.len() && b.heights[x] < b.heights[w.0 as int],
            _ => true,
        } by {
            if x != ri {
                assert(b.vars[x] == s1.vars[x]);
            }
        }
    }
    if s.vars[vi].kind is Linked {
        lemma_compress_sets(s, vi, r);
        assert(b.vars[vi] == s1.vars[vi]);
        assert(root_of(b, ri) == ri);
        assert(root_of(b, vi) == ri);
    } else {
        assert(ri == vi);
    }
    lemma_compress(b, vi);
    assert(!(b.vars[ri].kind is Linked));
}

/// Unifying two unbound variables with different roots makes the root of the
/// first lead to the root of the second, which stays a root: both resolve to
/// the same variable.
pub proof fn law_unify_joins_roots(s: TyState, a: TyVarId, b: TyVarId, fuel: nat)
    requires
        links_ok(s),
        (a.0 as int) < s.vars.len(),
        (b.0 as int) < s.vars.len(),
        ({
            let (s1, ra) = resolve_var_spec(s, a);
            let (s2, rb) = resolve_var_spec(s1, b);
            &&& ra != rb
            &&& s2.vars[ra.0 as int].kind is Unbound
            &&& s2.vars[rb.0 as int].kind is Unbound
        }),
    ensures
        ({
            let (s1, ra) = resolve_var_spec(s, a);
            let (s2, rb) = resolve_var_spec(s1, b);
            let t = unify_spec(s, a, b, fuel).unwrap();
            &&& unify_spec(s, a, b, fuel) is Some
            &&& root_of(t, ra.0 as int) == rb.0
            &&& root_of(t, rb.0 as int) == rb.0
        }),
{
    lemma_compress(s, a.0 as int);
    let (s1, ra) = resolve_var_spec(s, a);
    lemma_compress(s1, b.0 as int);
    let (s2, rb) = resolve_var_spec(s1, b);
    let t = link_spec(s2, ra, rb);
    assert(s2.vars.len() == s.vars.len());
    assert(unify_spec(s, a, b, fuel) == Some(t));
    assert(t.vars[ra.0 as int].kind == TyVarKind::Linked(rb));
    assert(t.vars[rb.0 as int] == s2.vars[rb.0 as int]);
    assert(root_of(t, rb.0 as int) == rb.0);
    assert(root_of(t, ra.0 as int) == rb.0);
}

/// Shortening the chain from a linked variable makes it a link to the root.
pub proof fn lemma_compress_sets(s: TyState, v: int, r: TyVarId)
    requires
        links_ok(s),
        0 <= v < s.vars.len(),
        s.vars[v].kind is Linked,
    ensures
        compress(s, v, r)[v] == (TyVar { span: s.vars[v].span, kind: TyVarKind::Linked(r) }),
{
    let w = s.vars[v].kind->Linked_0;
    assert(compress(s, v, r) == compress(s, w.0 as int, r).update(
        v,
        TyVar { span: s.vars[v].span, kind: TyVarKind::Linked(r) },
    ));
    lemma_compress_len(s, w.0 as int, r);
}

/// Shortening a chain keeps the number of variables.
pub proof fn lemma_compress_len(s: TyState, v: int, r: TyVarId)
    requires
        links_ok(s),
    ensures
        compress(s, v, r).len() == s.vars.len(),
    decreases s.bound - s.heights[v],
{
    if 0 <= v < s.vars.len() {
        match s.vars[v].kind {
            TyVarKind::Linked(w) => {
                if (w.0 as int) < s.vars.len() && s.heights[v] < s.heights[w.0 as int] <= s.bound {
                    lemma_compress_len(s, w.0 as int, r);
                }
            },
            _ => {},
        }
    }
}

} // verus!
