use vstd::prelude::*;

use crate::hir::DefId;
use crate::span::Span;

verus! {

/// The index of a type in a type context; `usize::MAX` marks an id that was
/// never assigned.
#[derive(Debug, Clone, Copy, PartialEq, Eq, Hash, Structural)]
pub struct TyId(pub usize);

impl TyId {
    /// The id that no type carries.
    #[allow(non_snake_case)]
    pub fn Invalid() -> (res: Self)
        ensures
            res.0 == usize::MAX,
    {
        TyId(usize::MAX)
    }

    /// The raw index of a valid id.
    pub fn unwrap(&self) -> (res: usize)
        requires
            self.0 != usize::MAX,
        ensures
            res == self.0,
    {
        self.0
    }
}

/// The index of a type variable in a type context; `usize::MAX` marks an id
/// that was never assigned.
#[derive(Debug, Clone, Copy, PartialEq, Eq, Hash, Structural)]
pub struct TyVarId(pub usize);

impl TyVarId {
    /// The id that no type variable carries.
    #[allow(non_snake_case)]
    pub fn Invalid() -> (res: Self)
        ensures
            res.0 == usize::MAX,
    {
        TyVarId(usize::MAX)
    }

    /// The raw index of a valid id.
    pub fn unwrap(&self) -> (res: usize)
        requires
            self.0 != usize::MAX,
        ensures
            res == self.0,
    {
        self.0
    }
}

/// How far the type of a node of the high-level IR has been worked out.
#[derive(Debug, Clone, Copy, PartialEq, Eq, Structural)]
pub enum TyResState {
    Inferred(TyId),
    Resolved(TyId),
    Unresolved,
    Resolving,
}

/// Whether a reference allows changing what it refers to.
#[derive(Debug, Clone, Copy, PartialEq, Eq, Hash, Structural)]
pub enum RefMutability {
    Mutable,
    Immutable,
}

/// An integer type.
#[derive(Debug, Clone, Copy, PartialEq, Eq, Hash, Structural)]
pub enum IntTy {
    /// A fixed width in bits, and whether the type is signed.
    Fixed(u8, bool),
    /// The pointer-sized integer; whether it is signed.
    Size(bool),
}

/// What a type variable may stand for.
#[derive(Debug, Clone, Copy, PartialEq, Eq, Hash, Structural)]
pub enum InferKind {
    Any,
    Int,
    Float,
}

/// An argument given for a generic parameter.
#[derive(Debug, Clone, Copy, PartialEq, Eq, Hash, Structural)]
pub enum GenericArg {
    Ty(TyId),
}

/// A generic parameter: the definition that declares it, how many generic
/// scopes deep it is declared (from 1), and its position there.
#[derive(Debug, Clone, Copy, PartialEq, Eq, Hash, Structural)]
pub struct ParamTy {
    pub def_id: DefId,
    pub depth: u32,
    pub idx: u32,
}

impl ParamTy {
    pub fn new(def_id: DefId, depth: u32, idx: u32) -> (res: Self)
        ensures
            res == (ParamTy { def_id, depth, idx }),
    {
        ParamTy { def_id, depth, idx }
    }

    pub fn depth(&self) -> (res: u32)
        ensures
            res == self.depth,
    {
        self.depth
    }

    pub fn idx(&self) -> (res: u32)
        ensures
            res == self.idx,
    {
        self.idx
    }
}

/// A function type: the function it belongs to, if any, its parameter types
/// and its return type.
#[derive(Debug)]
pub struct FnTy {
    pub def_id: Option<DefId>,
    pub params: Vec<TyId>,
    pub ret_ty: TyId,
}

/// The kind of a type; types that contain types refer to them by id.
#[derive(Debug)]
pub enum TyKind {
    Unit,
    Never,
    Int(IntTy),
    /// A floating-point type of the given width in bits.
    Float(u8),
    Bool,
    Char,
    String,
    Array(TyId),
    Slice(TyId),
    Tuple(Vec<TyId>),
    Ref(TyId, RefMutability),
    /// A function type with the arguments for its generic parameters.
    Fn(FnTy, Vec<GenericArg>),
    /// A struct with the arguments for its generic parameters.
    Adt(DefId, Vec<GenericArg>),
    Infer(TyVarId, InferKind),
    Param(ParamTy),
}

/// The kind of a type as a mathematical value.
pub enum TyKindView {
    Unit,
    Never,
    Int(IntTy),
    Float(u8),
    Bool,
    Char,
    String,
    Array(TyId),
    Slice(TyId),
    Tuple(Seq<TyId>),
    Ref(TyId, RefMutability),
    Fn { def_id: Option<DefId>, params: Seq<TyId>, ret_ty: TyId, args: Seq<GenericArg> },
    Adt(DefId, Seq<GenericArg>),
    Infer(TyVarId, InferKind),
    Param(ParamTy),
}

impl View for TyKind {
    type V = TyKindView;

    open spec fn view(&self) -> TyKindView {
        match self {
            TyKind::Unit => TyKindView::Unit,
            TyKind::Never => TyKindView::Never,
            TyKind::Int(i) => TyKindView::Int(*i),
            TyKind::Float(w) => TyKindView::Float(*w),
            TyKind::Bool => TyKindView::Bool,
            TyKind::Char => TyKindView::Char,
            TyKind::String => TyKindView::String,
            TyKind::Array(t) => TyKindView::Array(*t),
            TyKind::Slice(t) => TyKindView::Slice(*t),
            TyKind::Tuple(ts) => TyKindView::Tuple(ts@),
            TyKind::Ref(t, m) => TyKindView::Ref(*t, *m),
            TyKind::Fn(f, args) => TyKindView::Fn {
                def_id: f.def_id,
                params: f.params@,
                ret_ty: f.ret_ty,
                args: args@,
            },
            TyKind::Adt(d, args) => TyKindView::Adt(*d, args@),
            TyKind::Infer(v, k) => TyKindView::Infer(*v, *k),
            TyKind::Param(p) => TyKindView::Param(*p),
        }
    }
}

/// Whether a type variable of kind `kind` may stand for a type of kind `ty`:
/// anything for `Any`; an integer type or integer variable for `Int`; a
/// floating-point type or variable for `Float`.
pub open spec fn spec_compatible(kind: InferKind, ty: TyKindView) -> bool {
    match kind {
        InferKind::Any => true,
        InferKind::Int => ty is Int || (ty matches TyKindView::Infer(_, k) && k == InferKind::Int),
        InferKind::Float => ty is Float || (ty matches TyKindView::Infer(_, k) && k
            == InferKind::Float),
    }
}

impl InferKind {
    /// Whether a variable of this kind may stand for a type of kind `ty`.
    pub fn compatible(&self, ty: &TyKind) -> (res: bool)
        ensures
            res == spec_compatible(*self, ty@),
    {
        match self {
            InferKind::Any => true,
            InferKind::Int => matches!(ty, TyKind::Int(_) | TyKind::Infer(_, InferKind::Int)),
            InferKind::Float => matches!(ty, TyKind::Float(_) | TyKind::Infer(_, InferKind::Float)),
        }
    }
}

fn ids_eq(a: &Vec<TyId>, b: &Vec<TyId>) -> (res: bool)
    ensures
        res == (a@ == b@),
{
    if a.len() != b.len() {
        return false;
    }
    let mut i: usize = 0;
    while i < a.len()
        invariant
            a@.len() == b@.len(),
            i <= a@.len(),
            forall|k: int| 0 <= k < i ==> a@[k] == b@[k],
        decreases a@.len() - i,
    {
        if a[i] != b[i] {
            return false;
        }
        i = i + 1;
    }
    assert(a@ =~= b@);
    true
}

fn args_eq(a: &Vec<GenericArg>, b: &Vec<GenericArg>) -> (res: bool)
    ensures
        res == (a@ == b@),
{
    if a.len() != b.len() {
        return false;
    }
    let mut i: usize = 0;
    while i < a.len()
        invariant
            a@.len() == b@.len(),
            i <= a@.len(),
            forall|k: int| 0 <= k < i ==> a@[k] == b@[k],
        decreases a@.len() - i,
    {
        if a[i] != b[i] {
            return false;
        }
        i = i + 1;
    }
    assert(a@ =~= b@);
    true
}

fn copy_ids(v: &Vec<TyId>) -> (res: Vec<TyId>)
    ensures
        res@ == v@,
{
    let mut out: Vec<TyId> = Vec::new();
    let mut i: usize = 0;
    while i < v.len()
        invariant
            i <= v@.len(),
            out@ == v@.subrange(0, i as int),
        decreases v@.len() - i,
    {
        out.push(v[i]);
        i = i + 1;
    }
    assert(v@.subrange(0, v@.len() as int) =~= v@);
    out
}

fn copy_args(v: &Vec<GenericArg>) -> (res: Vec<GenericArg>)
    ensures
        res@ == v@,
{
    let mut out: Vec<GenericArg> = Vec::new();
    let mut i: usize = 0;
    while i < v.len()
        invariant
            i <= v@.len(),
            out@ == v@.subrange(0, i as int),
        decreases v@.len() - i,
    {
        out.push(v[i]);
        i = i + 1;
    }
    assert(v@.subrange(0, v@.len() as int) =~= v@);
    out
}

impl TyKind {
    /// Whether two kinds are the same type.
    pub fn same_as(&self, other: &TyKind) -> (res: bool)
        ensures
            res == (self@ == other@),
    {
        match (self, other) {
            (TyKind::Unit, TyKind::Unit) => true,
            (TyKind::Never, TyKind::Never) => true,
            (TyKind::Int(a), TyKind::Int(b)) => *a == *b,
            (TyKind::Float(a), TyKind::Float(b)) => *a == *b,
            (TyKind::Bool, TyKind::Bool) => true,
            (TyKind::Char, TyKind::Char) => true,
            (TyKind::String, TyKind::String) => true,
            (TyKind::Array(a), TyKind::Array(b)) => *a == *b,
            (TyKind::Slice(a), TyKind::Slice(b)) => *a == *b,
            (TyKind::Tuple(a), TyKind::Tuple(b)) => ids_eq(a, b),
            (TyKind::Ref(a, am), TyKind::Ref(b, bm)) => *a == *b && *am == *bm,
            (TyKind::Fn(af, aa), TyKind::Fn(bf, ba)) => {
                af.def_id == bf.def_id && ids_eq(&af.params, &bf.params) && af.ret_ty == bf.ret_ty
                    && args_eq(aa, ba)
            },
            (TyKind::Adt(ad, aa), TyKind::Adt(bd, ba)) => *ad == *bd && args_eq(aa, ba),
            (TyKind::Infer(av, ak), TyKind::Infer(bv, bk)) => *av == *bv && *ak == *bk,
            (TyKind::Param(a), TyKind::Param(b)) => *a == *b,
            _ => false,
        }
    }

    /// A copy of this kind.
    pub fn duplicate(&self) -> (res: TyKind)
        ensures
            res@ == self@,
    {
        match self {
            TyKind::Unit => TyKind::Unit,
            TyKind::Never => TyKind::Never,
            TyKind::Int(i) => TyKind::Int(*i),
            TyKind::Float(w) => TyKind::Float(*w),
            TyKind::Bool => TyKind::Bool,
            TyKind::Char => TyKind::Char,
            TyKind::String => TyKind::String,
            TyKind::Array(t) => TyKind::Array(*t),
            TyKind::Slice(t) => TyKind::Slice(*t),
            TyKind::Tuple(ts) => TyKind::Tuple(copy_ids(ts)),
            TyKind::Ref(t, m) => TyKind::Ref(*t, *m),
            TyKind::Fn(f, args) => TyKind::Fn(
                FnTy { def_id: f.def_id, params: copy_ids(&f.params), ret_ty: f.ret_ty },
                copy_args(args),
            ),
            TyKind::Adt(d, args) => TyKind::Adt(*d, copy_args(args)),
            TyKind::Infer(v, k) => TyKind::Infer(*v, *k),
            TyKind::Param(p) => TyKind::Param(*p),
        }
    }
}

/// A type as written somewhere: its id, and where.
#[derive(Debug, Clone, Copy)]
pub struct Ty {
    pub id: TyId,
    pub span: Span,
}

impl Ty {
    pub fn new(id: TyId, span: Span) -> (res: Self)
        ensures
            res.id == id,
            res.span == span,
    {
        Ty { id, span }
    }
}

/// What a type variable stands for: nothing yet, a type, or another variable.
#[derive(Debug, Clone, Copy, PartialEq, Eq, Structural)]
pub enum TyVarKind {
    Unbound,
    Bound(TyId),
    Linked(TyVarId),
}

/// A type variable: where it arose, and what it stands for.
#[derive(Debug, Clone, Copy)]
pub struct TyVar {
    pub span: Span,
    pub kind: TyVarKind,
}

impl TyVar {
    pub fn new(span: Span, kind: TyVarKind) -> (res: Self)
        ensures
            res.span == span,
            res.kind == kind,
    {
        TyVar { span, kind }
    }
}

} // verus!
