use lib::collector::{Collector, HirField, HirGenericParam, HirStruct, HirVarDecl};
use lib::hir::{
    BuiltinIntTy, BuiltinTyKind, DefAccessibility, DefId, DefKind, DefPubAccessibilityKind, DefSpace, Definition, DefinitionTable,
    HirId,
};
use lib::resolve_diag::{ResolverDiagErrorKind, ResolverDiagKind};
use lib::petal::{PetalCtx, PetalId};
use lib::scope::ScopeId;
use lib::source::SourceId;
use lib::span::Span;
use lib::symbol::SymbolInterner;
use lib::ty::TyKind;
use lib::ty_ctx::TyCtx;

fn fresh() -> Collector {
    Collector::new(PetalCtx::new(ScopeId(0)), SymbolInterner::new(), TyCtx::new(), DefinitionTable::new())
}

#[test]
fn builtins_are_defined_in_order_with_their_types() {
    let mut c = fresh();
    let mut diags = Vec::new();
    c.init_builtin(&mut diags);
    assert!(diags.is_empty());
    assert_eq!(c.definitions.builtins.len(), 18);
    assert_eq!(c.definitions.builtins[0], DefId(0));
    assert_eq!(c.definitions.builtins[17], DefId(17));
    let i32_sym = c.interner.intern("i32");
    let d = c.scope_ctx.top().get(DefSpace::Type, i32_sym).unwrap();
    assert_eq!(d, DefId(2));
    assert_eq!(c.definitions.hir_ids[2], HirId::Invalid());
    let ty = c.tctx.get_def_ty_id(d).unwrap();
    assert!(matches!(c.tctx.get(ty), TyKind::Int(lib::ty::IntTy::Fixed(32, true))));
    assert_eq!(c.tctx.get_ty_def_id(ty), Some(d));
    let infer = c.interner.intern("_");
    let d_infer = c.scope_ctx.top().get(DefSpace::Type, infer).unwrap();
    assert!(c.tctx.get_def_ty_id(d_infer).is_none());
    let _ = BuiltinTyKind::Int(BuiltinIntTy::Size(true));
    assert_eq!(c.scope_ctx.get_def_scope(d), Some(ScopeId(3)));
    assert_eq!(c.scope_ctx.get_def_scope(d_infer), None);
    let spathe = c.interner.intern("spathe");
    let s = c.scope_ctx.top().get(DefSpace::Type, spathe).unwrap();
    assert_eq!(s, DefId(18));
    assert_eq!(c.scope_ctx.get_def_scope(s), Some(ScopeId(0)));
    assert_eq!(c.petal_ctx.get_def_petal(s), Some(PetalId(0)));
    let sup = c.interner.intern("super");
    assert_eq!(c.scope_ctx.top().get(DefSpace::Type, sup), None);
}

#[test]
fn super_is_defined_inside_a_nested_petal() {
    let mut petals = PetalCtx::new(ScopeId(0));
    let inner = petals.enter(ScopeId(7));
    assert_eq!(inner, PetalId(1));
    assert_eq!(petals.from_top_id(1), Some(PetalId(0)));
    assert_eq!(petals.top_id(), PetalId(1));
    let mut c = Collector::new(petals, SymbolInterner::new(), TyCtx::new(), DefinitionTable::new());
    let mut diags = Vec::new();
    c.init_builtin(&mut diags);
    let sup = c.interner.intern("super");
    let d = c.scope_ctx.top().get(DefSpace::Type, sup).unwrap();
    assert_eq!(d, DefId(19));
    assert_eq!(c.petal_ctx.get_def_petal(d), Some(PetalId(0)));
    assert_eq!(c.scope_ctx.get_def_scope(d), Some(ScopeId(0)));
    assert!(c.petal_ctx.leave());
    assert!(!c.petal_ctx.leave());
}

#[test]
fn define_reports_duplicates_of_other_nodes() {
    let mut c = fresh();
    let mut diags = Vec::new();
    c.init_builtin(&mut diags);
    let name = c.interner.intern("i32");
    let span = Span::new(3, 2, SourceId(0));
    let other = Definition {
        name,
        kind: DefKind::Adt,
        hir_id: HirId(5),
        span,
        petal: Some(PetalId(0)),
        accessibility: DefAccessibility::Priv,
    };
    match c.define(other) {
        Err(d) => match d.kind {
            ResolverDiagKind::Error(ResolverDiagErrorKind::Duplication { ident, earlier_def }) => {
                assert_eq!(ident, name);
                assert_eq!(earlier_def, DefId(2));
                assert_eq!(d.span.offset, 3);
            }
            _ => panic!("expected a duplicate"),
        },
        Ok(_) => panic!("expected a duplicate"),
    }
    let same = Definition {
        name,
        kind: DefKind::Builtin,
        hir_id: HirId::Invalid(),
        span,
        petal: Some(PetalId(0)),
        accessibility: DefAccessibility::Priv,
    };
    assert_eq!(c.define(same).ok(), Some(DefId(2)));
    let value = Definition {
        name,
        kind: DefKind::Var,
        hir_id: HirId(5),
        span,
        petal: Some(PetalId(0)),
        accessibility: DefAccessibility::Pub(DefPubAccessibilityKind::This),
    };
    assert_eq!(c.define(value).ok(), Some(DefId(19)));
    assert_eq!(c.definitions.names.len(), 20);
    assert_eq!(c.definitions.accessibility_of(DefId(19)), DefAccessibility::Pub(DefPubAccessibilityKind::This));
    assert_eq!(c.definitions.petal_of(DefId(19)), Some(PetalId(0)));
    assert_eq!(c.definitions.petal_of(DefId(18)), None);
    assert_eq!(c.definitions.accessibility_of(DefId(2)), DefAccessibility::Priv);
    assert_eq!(c.definitions.kind_of(DefId(2)), DefKind::Builtin);
    assert_eq!(c.definitions.kind_of(DefId(18)), DefKind::Petal);
    assert_eq!(c.definitions.kind_of(DefId(19)), DefKind::Var);
    assert_eq!(c.definitions.space_of(DefId(19)), DefSpace::Value);
    assert!(c.bind(DefSpace::Type, name, DefId(19)) == false);
    let fresh_name = c.interner.intern("fresh");
    assert!(c.bind(DefSpace::Type, fresh_name, DefId(19)));
    assert_eq!(c.scope_ctx.top().get(DefSpace::Type, fresh_name), Some(DefId(19)));
}

#[test]
fn existing_builtins_are_bound_again() {
    let mut first = fresh();
    let mut diags = Vec::new();
    first.init_builtin(&mut diags);
    let Collector { interner, tctx, definitions, petal_ctx, .. } = first;
    let mut second = Collector::new(petal_ctx, interner, tctx, definitions);
    second.init_builtin(&mut diags);
    assert!(diags.is_empty());
    assert_eq!(second.definitions.builtins.len(), 18);
    assert_eq!(second.definitions.names.len(), 20);
    let spathe = second.interner.intern("spathe");
    assert_eq!(second.scope_ctx.top().get(DefSpace::Type, spathe), Some(DefId(19)));
    let str_sym = second.interner.intern("str");
    assert_eq!(second.scope_ctx.top().get(DefSpace::Type, str_sym), Some(DefId(16)));
}

#[test]
fn variable_declarations_are_defined_and_typed() {
    let mut c = fresh();
    let mut diags = Vec::new();
    let x = c.interner.intern("x");
    let decl = HirVarDecl { id: HirId(3), name: x, span: Span::new(0, 5, SourceId(0)), ty_span: None, accessibility: DefAccessibility::Priv };
    assert!(c.collect_var_decl(&decl, &mut diags).is_ok());
    assert!(diags.is_empty());
    assert_eq!(c.scope_ctx.top().get(DefSpace::Value, x), Some(DefId(0)));
    let t = c.tctx.get_hir_ty_id(HirId(3)).unwrap();
    assert!(matches!(c.tctx.get(t), TyKind::Infer(..)));
    let again = HirVarDecl { id: HirId(4), name: x, span: Span::new(9, 1, SourceId(0)), ty_span: Some(Span::new(12, 3, SourceId(0))), accessibility: DefAccessibility::Priv };
    assert!(c.collect_var_decl(&again, &mut diags).is_ok());
    assert_eq!(diags.len(), 1);
    assert!(matches!(diags[0].kind, ResolverDiagKind::Error(ResolverDiagErrorKind::Duplication { .. })));
    assert!(c.tctx.get_hir_ty_id(HirId(4)).is_some());
    let blank = c.interner.intern("_");
    let unnamed = HirVarDecl { id: HirId(5), name: blank, span: Span::new(20, 1, SourceId(0)), ty_span: None, accessibility: DefAccessibility::Priv };
    assert!(c.collect_var_decl(&unnamed, &mut diags).is_ok());
    assert_eq!(diags.len(), 1);
    assert_eq!(c.scope_ctx.top().get(DefSpace::Value, blank), None);
    assert_eq!(c.definitions.names.len(), 1);
}

#[test]
fn structs_are_defined_with_their_generic_parameters_and_fields() {
    let mut c = fresh();
    let mut diags = Vec::new();
    let src = SourceId(0);
    let point = c.interner.intern("Point");
    let t = c.interner.intern("T");
    let x = c.interner.intern("x");
    let y = c.interner.intern("y");
    let s = HirStruct {
        id: HirId(10),
        name: point,
        span: Span::new(0, 20, src),
        accessibility: DefAccessibility::Pub(DefPubAccessibilityKind::This),
        generic_params: Some(vec![
            HirGenericParam { id: HirId(11), name: t, span: Span::new(13, 1, src) },
            HirGenericParam { id: HirId(12), name: t, span: Span::new(16, 1, src) },
        ]),
        fields: vec![
            HirField { name: x, span: Span::new(20, 4, src), ty: HirId(13) },
            HirField { name: y, span: Span::new(26, 4, src), ty: HirId(14) },
        ],
    };
    assert!(c.collect_struct(&s, &mut diags).is_ok());
    let d = c.scope_ctx.top().get(DefSpace::Type, point).unwrap();
    assert_eq!(d, DefId(0));
    assert_eq!(c.scope_ctx.get_def_scope(d), Some(ScopeId(1)));
    let inner = c.scope_ctx.get_def_scope(d).unwrap();
    assert_eq!(c.scope_ctx.get(inner).get(DefSpace::Type, t), Some(DefId(1)));
    assert_eq!(c.scope_ctx.top().get(DefSpace::Type, t), None);
    assert_eq!(diags.len(), 1);
    assert!(matches!(
        diags[0].kind,
        ResolverDiagKind::Error(ResolverDiagErrorKind::Duplication { earlier_def: DefId(1), .. })
    ));
    let param = c.tctx.get_hir_ty_id(HirId(11)).unwrap();
    assert!(matches!(c.tctx.get(param), TyKind::Param(p) if p.def_id == DefId(1) && p.depth == 1 && p.idx == 0));
    assert!(c.tctx.get_hir_ty_id(HirId(12)).is_none());
    let adt = c.tctx.get_hir_ty_id(HirId(10)).unwrap();
    match c.tctx.get(adt) {
        TyKind::Adt(def, args) => {
            assert_eq!(*def, DefId(0));
            assert_eq!(args.len(), 1);
        },
        _ => panic!("expected a struct type"),
    }
    let def = c.adts.get(&0).unwrap();
    assert_eq!(def.generic_params, vec![DefId(1)]);
    assert_eq!(def.fields.len(), 2);
    assert_eq!(def.fields[1].name, y);
    assert_eq!(def.fields[1].ty, HirId(14));
    assert_eq!(c.scope_ctx.generic_depth(), 0);
    assert_eq!(c.definitions.accessibility_of(DefId(0)), DefAccessibility::Pub(DefPubAccessibilityKind::This));
    assert_eq!(c.definitions.accessibility_of(DefId(1)), DefAccessibility::Priv);
    assert_eq!(c.definitions.petal_of(DefId(1)), Some(PetalId(0)));
    assert_eq!(c.definitions.kind_of(DefId(0)), DefKind::Adt);
    assert_eq!(c.definitions.kind_of(DefId(1)), DefKind::GenericParam);

    let before = diags.len();
    assert!(c.collect_struct(&s, &mut diags).is_ok());
    assert_eq!(diags.len(), before);
    assert_eq!(c.definitions.names.len(), 2);

    let other = HirStruct {
        id: HirId(20),
        name: point,
        span: Span::new(40, 9, src),
        accessibility: DefAccessibility::Priv,
        generic_params: None,
        fields: vec![],
    };
    let r = c.collect_struct(&other, &mut diags);
    assert!(matches!(
        r.unwrap_err().kind,
        ResolverDiagKind::Error(ResolverDiagErrorKind::Duplication { earlier_def: DefId(0), .. })
    ));
}
