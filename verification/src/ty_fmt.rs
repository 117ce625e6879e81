use vstd::prelude::*;
use vstd::string::StringExecFns;

use crate::hir::DefinitionTable;
use crate::symbol::{Symbol, SymbolInterner};
use crate::ty::{InferKind, IntTy, RefMutability, TyId, TyKind, TyKindView};
use crate::ty_ctx::{ids_of_args, TyCtx};
use crate::ty_stable::{fits, lemma_resolve_extends};
use crate::ty_state::{
    arg_ids, intern_opt, law_intern_stores_kind, lemma_resolve_fuel, resolve_ty_spec, valid_ty, TyState,
};
use crate::util::{push_decimal, spec_decimal};

verus! {

/// The parts joined with `sep` between them.
pub open spec fn join(parts: Seq<Seq<char>>, sep: Seq<char>) -> Seq<char>
    decreases parts.len(),
{
    if parts.len() == 0 {
        Seq::empty()
    } else if parts.len() == 1 {
        parts[0]
    } else {
        join(parts.drop_last(), sep) + sep + parts.last()
    }
}

/// The name of definition `d`, as text.
pub open spec fn def_name(names: Seq<Symbol>, strings: Seq<Seq<char>>, d: int) -> Seq<char> {
    strings[names[d].0 as int]
}

/// Whether definition `d` has a name that the interner holds.
pub open spec fn named(names: Seq<Symbol>, strings: Seq<Seq<char>>, d: int) -> bool {
    0 <= d < names.len() && names[d].0 != usize::MAX && (names[d].0 as int) < strings.len()
}

/// `i` for a signed integer type, `u` for an unsigned one.
pub open spec fn sign_prefix(signed: bool) -> Seq<char> {
    if signed {
        "i"@
    } else {
        "u"@
    }
}

/// The text of type `t`, resolved first, with at most `fuel` nested steps:
/// `()`, `~`, `i32`, `usize`, `f64`, `bool`, `char`, `str`, `[<size>]T`,
/// `[]T`, `(A, B)`, `&T` or `&mut T`, `fn(A, B) -> R` (no arrow for a unit
/// return type), a struct's or a parameter's name with its arguments in `<>`,
/// and `{unknown}`, `{int}` or `{float}` for variables. `None` when the steps
/// run out or where formatting panics.
pub open spec fn fmt_spec(
    s: TyState,
    t: TyId,
    names: Seq<Symbol>,
    strings: Seq<Seq<char>>,
    fuel: nat,
) -> Option<(TyState, Seq<char>)>
    decreases fuel, 0nat,
{
    if fuel == 0 {
        None
    } else {
        let f = (fuel - 1) as nat;
        match resolve_ty_spec(s, t, f) {
            None => None,
            Some(r) => {
                let s1 = r.0;
                let t1 = r.1;
                if !valid_ty(s1, t1) {
                    None
                } else {
                    match s1.storage[t1.0 as int] {
                        TyKindView::Unit => Some((s1, "()"@)),
                        TyKindView::Never => Some((s1, "~"@)),
                        TyKindView::Int(IntTy::Fixed(width, signed)) => Some(
                            (s1, sign_prefix(signed) + spec_decimal(width as nat)),
                        ),
                        TyKindView::Int(IntTy::Size(signed)) => Some(
                            (s1, sign_prefix(signed) + "size"@),
                        ),
                        TyKindView::Float(width) => Some((s1, "f"@ + spec_decimal(width as nat))),
                        TyKindView::Bool => Some((s1, "bool"@)),
                        TyKindView::Char => Some((s1, "char"@)),
                        TyKindView::String => Some((s1, "str"@)),
                        TyKindView::Array(x) => match fmt_spec(s1, x, names, strings, f) {
                            None => None,
                            Some(q) => Some((q.0, "[<size>]"@ + q.1)),
                        },
                        TyKindView::Slice(x) => match fmt_spec(s1, x, names, strings, f) {
                            None => None,
                            Some(q) => Some((q.0, "[]"@ + q.1)),
                        },
                        TyKindView::Tuple(xs) => match fmt_list_spec(s1, xs, names, strings, f) {
                            None => None,
                            Some(q) => Some((q.0, "("@ + join(q.1, ", "@) + ")"@)),
                        },
                        TyKindView::Ref(x, m) => match fmt_spec(s1, x, names, strings, f) {
                            None => None,
                            Some(q) => Some(
                                (
                                    q.0,
                                    "&"@ + (if m == RefMutability::Mutable {
                                        "mut "@
                                    } else {
                                        Seq::<char>::empty()
                                    }) + q.1,
                                ),
                            ),
                        },
                        TyKindView::Fn { params, ret_ty, .. } => if !valid_ty(s1, ret_ty) {
                            None
                        } else {
                            let is_unit = s1.storage[ret_ty.0 as int] is Unit;
                            match fmt_list_spec(s1, params, names, strings, f) {
                                None => None,
                                Some(q) => if is_unit {
                                    Some((q.0, "fn("@ + join(q.1, ", "@) + ")"@))
                                } else {
                                    match fmt_spec(q.0, ret_ty, names, strings, f) {
                                        None => None,
                                        Some(q2) => Some(
                                            (
                                                q2.0,
                                                "fn("@ + join(q.1, ", "@) + ")"@ + " -> "@
                                                    + q2.1,
                                            ),
                                        ),
                                    }
                                },
                            }
                        },
                        TyKindView::Adt(d, args) => if !named(names, strings, d.0 as int) {
                            None
                        } else if args.len() == 0 {
                            Some((s1, def_name(names, strings, d.0 as int)))
                        } else {
                            match fmt_list_spec(s1, arg_ids(args), names, strings, f) {
                                None => None,
                                Some(q) => Some(
                                    (
                                        q.0,
                                        def_name(names, strings, d.0 as int) + "<"@ + join(
                                            q.1,
                                            ", "@,
                                        ) + ">"@,
                                    ),
                                ),
                            }
                        },
                        TyKindView::Infer(_, InferKind::Any) => Some((s1, "{unknown}"@)),
                        TyKindView::Infer(_, InferKind::Int) => Some((s1, "{int}"@)),
                        TyKindView::Infer(_, InferKind::Float) => Some((s1, "{float}"@)),
                        TyKindView::Param(p) => if !named(names, strings, p.def_id.0 as int) {
                            None
                        } else {
                            Some((s1, def_name(names, strings, p.def_id.0 as int)))
                        },
                    }
                }
            },
        }
    }
}

/// The texts of the types `ts`, formatted in order.
pub open spec fn fmt_list_spec(
    s: TyState,
    ts: Seq<TyId>,
    names: Seq<Symbol>,
    strings: Seq<Seq<char>>,
    fuel: nat,
) -> Option<(TyState, Seq<Seq<char>>)>
    decreases fuel, ts.len() + 1,
{
    if ts.len() == 0 {
        Some((s, Seq::empty()))
    } else {
        match fmt_spec(s, ts[0], names, strings, fuel) {
            None => None,
            Some(r) => match fmt_list_spec(r.0, ts.drop_first(), names, strings, fuel) {
                None => None,
                Some(rs) => Some((rs.0, seq![r.1] + rs.1)),
            },
        }
    }
}

/// More steps give the same text: where formatting with `f1` steps ends,
/// formatting with `f2 >= f1` steps gives the same result.
pub proof fn lemma_fmt_fuel(s: TyState, t: TyId, names: Seq<Symbol>, strings: Seq<Seq<char>>, f1: nat, f2: nat)
    requires
        f1 <= f2,
        fmt_spec(s, t, names, strings, f1) is Some,
    ensures
        fmt_spec(s, t, names, strings, f2) == fmt_spec(s, t, names, strings, f1),
    decreases f1, 0nat,
{
    let g1 = (f1 - 1) as nat;
    let g2 = (f2 - 1) as nat;
    lemma_resolve_fuel(s, t, g1, g2);
    let r = resolve_ty_spec(s, t, g1).unwrap();
    let s1 = r.0;
    let t1 = r.1;
    if valid_ty(s1, t1) {
        match s1.storage[t1.0 as int] {
            TyKindView::Array(x) => lemma_fmt_fuel(s1, x, names, strings, g1, g2),
            TyKindView::Slice(x) => lemma_fmt_fuel(s1, x, names, strings, g1, g2),
            TyKindView::Ref(x, _) => lemma_fmt_fuel(s1, x, names, strings, g1, g2),
            TyKindView::Tuple(xs) => lemma_fmt_list_fuel(s1, xs, names, strings, g1, g2),
            TyKindView::Adt(d, args) => if named(names, strings, d.0 as int) && args.len() > 0 {
                lemma_fmt_list_fuel(s1, arg_ids(args), names, strings, g1, g2);
            },
            TyKindView::Fn { params, ret_ty, .. } => if valid_ty(s1, ret_ty) {
                lemma_fmt_list_fuel(s1, params, names, strings, g1, g2);
                if !(s1.storage[ret_ty.0 as int] is Unit) {
                    let q = fmt_list_spec(s1, params, names, strings, g1).unwrap();
                    lemma_fmt_fuel(q.0, ret_ty, names, strings, g1, g2);
                }
            },
            _ => {},
        }
    }
}

/// More steps give the same texts of a sequence of types.
pub proof fn lemma_fmt_list_fuel(
    s: TyState,
    ts: Seq<TyId>,
    names: Seq<Symbol>,
    strings: Seq<Seq<char>>,
    f1: nat,
    f2: nat,
)
    requires
        f1 <= f2,
        fmt_list_spec(s, ts, names, strings, f1) is Some,
    ensures
        fmt_list_spec(s, ts, names, strings, f2) == fmt_list_spec(s, ts, names, strings, f1),
    decreases f1, ts.len() + 1,
{
    if ts.len() > 0 {
        lemma_fmt_fuel(s, ts[0], names, strings, f1, f2);
        let r = fmt_spec(s, ts[0], names, strings, f1).unwrap();
        lemma_fmt_list_fuel(r.0, ts.drop_first(), names, strings, f1, f2);
    }
}

/// Formatting does not depend on the number of steps, once it is enough: any
/// two numbers of steps with which formatting ends give the same text, so
/// the text that [`TyFormatter::fmt_id`] gives is the one of any such number.
pub proof fn law_fmt_fuel_independent(
    s: TyState,
    t: TyId,
    names: Seq<Symbol>,
    strings: Seq<Seq<char>>,
    f1: nat,
    f2: nat,
)
    requires
        fmt_spec(s, t, names, strings, f1) is Some,
        fmt_spec(s, t, names, strings, f2) is Some,
    ensures
        fmt_spec(s, t, names, strings, f1) == fmt_spec(s, t, names, strings, f2),
{
    if f1 <= f2 {
        lemma_fmt_fuel(s, t, names, strings, f1, f2);
    } else {
        lemma_fmt_fuel(s, t, names, strings, f2, f1);
    }
}

/// The texts of some strings.
pub open spec fn texts(s: Seq<String>) -> Seq<Seq<char>> {
    s.map_values(|t: String| t@)
}

/// Appends the texts of `parts` to `out`, with `sep` between them.
pub(crate) fn join_into(out: &mut String, parts: &Vec<String>, sep: &str)
    ensures
        final(out)@ == old(out)@ + join(texts(parts@), sep@),
{
    let ghost start = out@;
    let mut i: usize = 0;
    while i < parts.len()
        invariant
            i <= parts@.len(),
            out@ == start + join(texts(parts@.subrange(0, i as int)), sep@),
        decreases parts@.len() - i,
    {
        if i > 0 {
            out.append(sep);
        }
        out.append(parts[i].as_str());
        let ghost sub = texts(parts@.subrange(0, i + 1));
        assert(sub.drop_last() =~= texts(parts@.subrange(0, i as int)));
        assert(sub.last() == parts@[i as int]@);
        if i == 0 {
            assert(sub.len() == 1);
        }
        assert(out@ =~= start + join(sub, sep@));
        i = i + 1;
    }
    assert(parts@.subrange(0, parts@.len() as int) =~= parts@);
}

/// Formats types for messages, naming structs and parameters through the
/// definitions and the interner.
pub struct TyFormatter<'f> {
    pub tctx: &'f mut TyCtx,
    pub definitions: &'f DefinitionTable,
    pub interner: &'f SymbolInterner,
}

impl<'f> TyFormatter<'f> {
    pub fn new(
        tctx: &'f mut TyCtx,
        definitions: &'f DefinitionTable,
        interner: &'f SymbolInterner,
    ) -> (res: Self)
        ensures
            *res.tctx == *old(tctx),
            *final(res.tctx) == *final(tctx),
            res.definitions == definitions,
            res.interner == interner,
    {
        TyFormatter { tctx, definitions, interner }
    }

    /// The names of the definitions, and the strings of the interner.
    pub open spec fn spec_names(&self) -> Seq<Symbol> {
        self.definitions.names@
    }

    pub open spec fn spec_strings(&self) -> Seq<Seq<char>> {
        self.interner.spec_strings()
    }

    /// Formats `id` with at most `fuel` nested steps.
    fn fmt_fuel(&mut self, id: TyId, Ghost(fuel): Ghost<nat>) -> (res: String)
        requires
            old(self).tctx.wf(),
            fmt_spec(old(self).tctx.state(), id, old(self).spec_names(), old(self).spec_strings(), fuel) is Some,
        ensures
            final(self).tctx.wf(),
            final(self).tctx.same_tables(old(self).tctx),
            final(self).definitions == old(self).definitions,
            final(self).interner == old(self).interner,
            (final(self).tctx.state(), res@) == fmt_spec(
                old(self).tctx.state(),
                id,
                old(self).spec_names(),
                old(self).spec_strings(),
                fuel,
            ).unwrap(),
        decreases fuel, 0nat,
    {
        let ghost f = (fuel - 1) as nat;
        let ty_id = self.tctx.resolve_ty_fuel(id, Ghost(f));
        let kind = self.tctx.get(ty_id).duplicate();
        let mut out = String::new();
        match kind {
            TyKind::Unit => out.append("()"),
            TyKind::Never => out.append("~"),
            TyKind::Int(IntTy::Fixed(width, signed)) => {
                out.append(if signed {
                    "i"
                } else {
                    "u"
                });
                push_decimal(&mut out, width as u64);
            },
            TyKind::Int(IntTy::Size(signed)) => {
                out.append(if signed {
                    "i"
                } else {
                    "u"
                });
                out.append("size");
            },
            TyKind::Float(width) => {
                out.append("f");
                push_decimal(&mut out, width as u64);
            },
            TyKind::Bool => out.append("bool"),
            TyKind::Char => out.append("char"),
            TyKind::String => out.append("str"),
            TyKind::Array(inner) => {
                let text = self.fmt_fuel(inner, Ghost(f));
                out.append("[<size>]");
                out.append(text.as_str());
            },
            TyKind::Slice(inner) => {
                let text = self.fmt_fuel(inner, Ghost(f));
                out.append("[]");
                out.append(text.as_str());
            },
            TyKind::Tuple(tys) => {
                let parts = self.fmt_list(&tys, Ghost(f));
                out.append("(");
                join_into(&mut out, &parts, ", ");
                out.append(")");
            },
            TyKind::Ref(inner, mutability) => {
                let text = self.fmt_fuel(inner, Ghost(f));
                out.append("&");
                if mutability == RefMutability::Mutable {
                    out.append("mut ");
                }
                out.append(text.as_str());
            },
            TyKind::Fn(fn_ty, _) => {
                let ret_ty = fn_ty.ret_ty;
                let is_unit = matches!(self.tctx.get(ret_ty), TyKind::Unit);
                let parts = self.fmt_list(&fn_ty.params, Ghost(f));
                out.append("fn(");
                join_into(&mut out, &parts, ", ");
                out.append(")");
                if !is_unit {
                    let text = self.fmt_fuel(ret_ty, Ghost(f));
                    out.append(" -> ");
                    out.append(text.as_str());
                }
            },
            TyKind::Adt(def_id, generic_args) => {
                let name = self.interner.get(self.definitions.name_of(def_id));
                out.append(name);
                if generic_args.len() != 0 {
                    let ids = ids_of_args(&generic_args);
                    let parts = self.fmt_list(&ids, Ghost(f));
                    out.append("<");
                    join_into(&mut out, &parts, ", ");
                    out.append(">");
                }
            },
            TyKind::Infer(_, kind) => match kind {
                InferKind::Any => out.append("{unknown}"),
                InferKind::Int => out.append("{int}"),
                InferKind::Float => out.append("{float}"),
            },
            TyKind::Param(param) => {
                let name = self.interner.get(self.definitions.name_of(param.def_id));
                out.append(name);
            },
        }
        out
    }

    /// Formats the types `tys` in order.
    fn fmt_list(&mut self, tys: &Vec<TyId>, Ghost(fuel): Ghost<nat>) -> (res: Vec<String>)
        requires
            old(self).tctx.wf(),
            fmt_list_spec(old(self).tctx.state(), tys@, old(self).spec_names(), old(self).spec_strings(), fuel) is Some,
        ensures
            final(self).tctx.wf(),
            final(self).tctx.same_tables(old(self).tctx),
            final(self).definitions == old(self).definitions,
            final(self).interner == old(self).interner,
            ({
                let r = fmt_list_spec(
                    old(self).tctx.state(),
                    tys@,
                    old(self).spec_names(),
                    old(self).spec_strings(),
                    fuel,
                ).unwrap();
                final(self).tctx.state() == r.0 && texts(res@) == r.1
            }),
        decreases fuel, 1nat,
    {
        let ghost names = self.spec_names();
        let ghost strings = self.spec_strings();
        let ghost r0 = fmt_list_spec(self.tctx.state(), tys@, names, strings, fuel).unwrap();
        let mut out: Vec<String> = Vec::new();
        let mut i: usize = 0;
        assert(tys@.subrange(0, tys@.len() as int) =~= tys@);
        assert(texts(out@) + r0.1 =~= r0.1);
        while i < tys.len()
            invariant
                self.tctx.wf(),
                self.tctx.same_tables(old(self).tctx),
                self.definitions == old(self).definitions,
                self.interner == old(self).interner,
                names == self.spec_names(),
                strings == self.spec_strings(),
                r0 == fmt_list_spec(old(self).tctx.state(), tys@, names, strings, fuel).unwrap(),
                i <= tys@.len(),
                fmt_list_spec(self.tctx.state(), tys@.subrange(i as int, tys@.len() as int), names, strings, fuel) is Some,
                ({
                    let rc = fmt_list_spec(
                        self.tctx.state(),
                        tys@.subrange(i as int, tys@.len() as int),
                        names,
                        strings,
                        fuel,
                    ).unwrap();
                    rc.0 == r0.0 && texts(out@) + rc.1 == r0.1
                }),
            decreases tys@.len() - i,
        {
            let ghost rest = tys@.subrange(i as int, tys@.len() as int);
            let ghost rc = fmt_list_spec(self.tctx.state(), rest, names, strings, fuel).unwrap();
            assert(rest[0] == tys@[i as int]);
            assert(rest.drop_first() =~= tys@.subrange(i + 1, tys@.len() as int));
            let text = self.fmt_fuel(tys[i], Ghost(fuel));
            let ghost rn = fmt_list_spec(self.tctx.state(), rest.drop_first(), names, strings, fuel).unwrap();
            let ghost before = out@;
            out.push(text);
            assert(texts(out@) =~= texts(before).push(out@.last()@));
            assert(texts(out@) + rn.1 =~= texts(before) + rc.1);
            i = i + 1;
        }
        assert(tys@.subrange(i as int, tys@.len() as int) =~= Seq::<TyId>::empty());
        assert(texts(out@) + Seq::<Seq<char>>::empty() =~= texts(out@));
        out
    }

    /// The text of type `id`: see [`fmt_spec`]. Formatting must end, which it
    /// does unless resolving does not or a type holds itself.
    pub fn fmt_id(&mut self, id: TyId) -> (res: String)
        requires
            old(self).tctx.wf(),
            exists|fuel: nat|
                fmt_spec(old(self).tctx.state(), id, old(self).spec_names(), old(self).spec_strings(), fuel) is Some,
        ensures
            final(self).tctx.wf(),
            final(self).tctx.same_tables(old(self).tctx),
            final(self).definitions == old(self).definitions,
            final(self).interner == old(self).interner,
            (final(self).tctx.state(), res@) == fmt_spec(
                old(self).tctx.state(),
                id,
                old(self).spec_names(),
                old(self).spec_strings(),
                choose|fuel: nat|
                    fmt_spec(old(self).tctx.state(), id, old(self).spec_names(), old(self).spec_strings(), fuel) is Some,
            ).unwrap(),
    {
        let ghost fuel = choose|fuel: nat|
            fmt_spec(self.tctx.state(), id, self.spec_names(), self.spec_strings(), fuel) is Some;
        self.fmt_fuel(id, Ghost(fuel))
    }
}

/// The text of a reference type is `&`, then `mut ` for a mutable reference
/// only, then the text of the type it refers to, once resolved.
pub proof fn law_fmt_ref(
    s: TyState,
    r: TyId,
    x: TyId,
    m: RefMutability,
    names: Seq<Symbol>,
    strings: Seq<Seq<char>>,
    f: nat,
)
    requires
        fits(s),
        valid_ty(s, r),
        s.storage[r.0 as int] == TyKindView::Ref(x, m),
        fmt_spec(s, r, names, strings, f) is Some,
    ensures
        ({
            let g = (f - 1) as nat;
            let s1 = resolve_ty_spec(s, r, g).unwrap().0;
            let x1 = resolve_ty_spec(s, x, (g - 1) as nat).unwrap().1;
            let inner = fmt_spec(s1, x1, names, strings, g).unwrap().1;
            let text = fmt_spec(s, r, names, strings, f).unwrap().1;
            &&& m == RefMutability::Immutable ==> text == "&"@ + inner
            &&& m == RefMutability::Mutable ==> text == "&mut "@ + inner
        }),
{
    let g = (f - 1) as nat;
    let h = (g - 1) as nat;
    let rx = resolve_ty_spec(s, x, h).unwrap();
    lemma_resolve_extends(s, x, h);
    if rx.1 != x {
        law_intern_stores_kind(rx.0, TyKindView::Ref(rx.1, m));
    } else {
        assert(rx.0.storage[r.0 as int] == s.storage[r.0 as int]);
    }
    let (s1, r1) = resolve_ty_spec(s, r, g).unwrap();
    assert(s1.storage[r1.0 as int] == TyKindView::Ref(rx.1, m));
    let inner = fmt_spec(s1, rx.1, names, strings, g).unwrap().1;
    if m == RefMutability::Immutable {
        assert("&"@ + Seq::<char>::empty() + inner =~= "&"@ + inner);
    } else {
        reveal_strlit("&");
        reveal_strlit("mut ");
        reveal_strlit("&mut ");
        assert("&"@ + "mut "@ =~= "&mut "@);
        assert("&"@ + "mut "@ + inner =~= "&mut "@ + inner);
    }
}

/// The text of a slice type is `[]` then the text of its element type, once
/// resolved.
pub proof fn law_fmt_slice(
    s: TyState,
    t: TyId,
    x: TyId,
    names: Seq<Symbol>,
    strings: Seq<Seq<char>>,
    f: nat,
)
    requires
        fits(s),
        valid_ty(s, t),
        s.storage[t.0 as int] == TyKindView::Slice(x),
        fmt_spec(s, t, names, strings, f) is Some,
    ensures
        ({
            let g = (f - 1) as nat;
            let s1 = resolve_ty_spec(s, t, g).unwrap().0;
            let x1 = resolve_ty_spec(s, x, (g - 1) as nat).unwrap().1;
            fmt_spec(s, t, names, strings, f).unwrap().1 == "[]"@ + fmt_spec(s1, x1, names, strings, g).unwrap().1
        }),
{
    let g = (f - 1) as nat;
    let h = (g - 1) as nat;
    let rx = resolve_ty_spec(s, x, h).unwrap();
    lemma_resolve_extends(s, x, h);
    if rx.1 != x {
        law_intern_stores_kind(rx.0, TyKindView::Slice(rx.1));
    } else {
        assert(rx.0.storage[t.0 as int] == s.storage[t.0 as int]);
    }
    let (s1, t1) = resolve_ty_spec(s, t, g).unwrap();
    assert(s1.storage[t1.0 as int] == TyKindView::Slice(rx.1));
}

/// The text of an array type is `[<size>]` then the text of its element
/// type, once resolved.
pub proof fn law_fmt_array(
    s: TyState,
    t: TyId,
    x: TyId,
    names: Seq<Symbol>,
    strings: Seq<Seq<char>>,
    f: nat,
)
    requires
        fits(s),
        valid_ty(s, t),
        s.storage[t.0 as int] == TyKindView::Array(x),
        fmt_spec(s, t, names, strings, f) is Some,
    ensures
        ({
            let g = (f - 1) as nat;
            let s1 = resolve_ty_spec(s, t, g).unwrap().0;
            let x1 = resolve_ty_spec(s, x, (g - 1) as nat).unwrap().1;
            fmt_spec(s, t, names, strings, f).unwrap().1 == "[<size>]"@ + fmt_spec(s1, x1, names, strings, g).unwrap().1
        }),
{
    let g = (f - 1) as nat;
    let h = (g - 1) as nat;
    let rx = resolve_ty_spec(s, x, h).unwrap();
    lemma_resolve_extends(s, x, h);
    if rx.1 != x {
        law_intern_stores_kind(rx.0, TyKindView::Array(rx.1));
    } else {
        assert(rx.0.storage[t.0 as int] == s.storage[t.0 as int]);
    }
    let (s1, t1) = resolve_ty_spec(s, t, g).unwrap();
    assert(s1.storage[t1.0 as int] == TyKindView::Array(rx.1));
}

/// The texts of the types with no parts: `()`, `~`, `bool`, `char`, `str`,
/// `i` or `u` then the width in decimal for a fixed-width integer, `isize` or
/// `usize`, and `f` then the width for a float. Formatting them changes
/// nothing.
pub proof fn law_fmt_plain(s: TyState, t: TyId, names: Seq<Symbol>, strings: Seq<Seq<char>>, f: nat)
    requires
        valid_ty(s, t),
        f >= 2,
    ensures
        ({
            let r = fmt_spec(s, t, names, strings, f);
            match s.storage[t.0 as int] {
                TyKindView::Unit => r == Some((s, "()"@)),
                TyKindView::Never => r == Some((s, "~"@)),
                TyKindView::Bool => r == Some((s, "bool"@)),
                TyKindView::Char => r == Some((s, "char"@)),
                TyKindView::String => r == Some((s, "str"@)),
                TyKindView::Int(IntTy::Fixed(w, true)) => r == Some((s, "i"@ + spec_decimal(w as nat))),
                TyKindView::Int(IntTy::Fixed(w, false)) => r == Some((s, "u"@ + spec_decimal(w as nat))),
                TyKindView::Int(IntTy::Size(true)) => r == Some((s, "i"@ + "size"@)),
                TyKindView::Int(IntTy::Size(false)) => r == Some((s, "u"@ + "size"@)),
                TyKindView::Float(w) => r == Some((s, "f"@ + spec_decimal(w as nat))),
                _ => true,
            }
        }),
{
    let k = s.storage[t.0 as int];
    if k is Unit || k is Never || k is Bool || k is Char || k is String || k is Int || k is Float {
        assert(resolve_ty_spec(s, t, (f - 1) as nat) == Some((s, t)));
    }
}

} // verus!
