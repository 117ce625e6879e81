use lib::hir::{BuiltinIntTy, BuiltinTyKind, DefAccessibility, DefId, DefKind, DefSpace, DefinitionTable, HirId};
use lib::intf::{ExtensionId, IntfId, IntfItemKind};
use lib::parser::{expr_infix_binding_power_of, ExprInfixBindingPower, ParserDiagDataCtx};
use lib::resolve::SymbolKind;
use lib::scope::{Scope, ScopeCtx, ScopeId};
use lib::source::{Source, SourceId, SourceRegistry};
use lib::span::Span;
use lib::symbol::{Symbol, SymbolInterner};
use lib::text::Style;
use lib::token::{TokenIdentKind, TokenKind};
use lib::ty::{
    GenericArg, InferKind, IntTy, RefMutability, Ty, TyId, TyKind, TyVarId, TyVarKind,
};
use lib::ty_ctx::TyCtx;
use lib::ty_fmt::TyFormatter;
use lib::unit::CompilationUnitId;

fn sp() -> Span {
    Span::new(0, 1, SourceId(0))
}

#[test]
fn interning_a_kind_twice_gives_one_id() {
    let mut ctx = TyCtx::new();
    let a = ctx.make_int_ty(IntTy::Fixed(32, true));
    let b = ctx.intern(TyKind::Int(IntTy::Fixed(32, true)));
    let c = ctx.make_bool_ty();
    assert_eq!(a, TyId(0));
    assert_eq!(a, b);
    assert_eq!(c, TyId(1));
    let t1 = ctx.make_tuple_ty(vec![a, c]);
    let t2 = ctx.make_tuple_ty(vec![a, c]);
    let t3 = ctx.make_tuple_ty(vec![c, a]);
    assert_eq!(t1, t2);
    assert_ne!(t1, t3);
    assert!(matches!(ctx.get(a), TyKind::Int(IntTy::Fixed(32, true))));
}

#[test]
fn builtin_types() {
    let mut ctx = TyCtx::new();
    let i = ctx.make_builtin_ty(&BuiltinTyKind::Int(BuiltinIntTy::Size(false)));
    let j = ctx.make_int_ty(IntTy::Size(false));
    assert_eq!(i, j);
    let u = ctx.make_builtin_ty(&BuiltinTyKind::Unit);
    assert_eq!(u, ctx.make_unit_ty());
    let f = ctx.make_builtin_ty(&BuiltinTyKind::Float(64));
    assert!(matches!(ctx.get(f), TyKind::Float(64)));
    let s = ctx.make_builtin_ty(&BuiltinTyKind::String);
    assert!(matches!(ctx.get(s), TyKind::String));
    let c = ctx.make_builtin_ty(&BuiltinTyKind::Char);
    assert!(matches!(ctx.get(c), TyKind::Char));
    let n = ctx.make_never_ty();
    assert!(matches!(ctx.get(n), TyKind::Never));
}

#[test]
fn resolving_follows_bound_variables() {
    let mut ctx = TyCtx::new();
    let int = ctx.make_int_ty(IntTy::Fixed(8, false));
    let v = ctx.make_inferred_ty(sp(), InferKind::Any);
    let arr = ctx.make_array_ty(v);
    let var = match ctx.get(v) {
        TyKind::Infer(var, _) => *var,
        _ => panic!("expected an inference type"),
    };
    assert_eq!(ctx.resolve_ty(v), v);
    ctx.bind_var(var, int);
    assert_eq!(ctx.resolve_ty(v), int);
    let arr_int = ctx.make_array_ty(int);
    assert_eq!(ctx.resolve_ty(arr), arr_int);
    assert!(matches!(ctx.get_var(var).kind, TyVarKind::Bound(t) if t == int));
}

#[test]
fn resolve_var_compresses_links_and_is_idempotent() {
    let mut ctx = TyCtx::new();
    let a = ctx.fresh_var(sp());
    let b = ctx.fresh_var(sp());
    let c = ctx.fresh_var(sp());
    ctx.unify(a, b);
    ctx.unify(b, c);
    assert_eq!(ctx.resolve_var(a), c);
    assert!(matches!(ctx.get_var(a).kind, TyVarKind::Linked(r) if r == c));
    assert_eq!(ctx.resolve_var(a), c);
    assert_eq!(ctx.resolve_var(b), c);
    assert_eq!(ctx.resolve_var(c), c);
    assert_eq!(ctx.resolve_var(TyVarId(99)), TyVarId(99));
}

#[test]
fn bind_then_resolve_gives_bound_root() {
    let mut ctx = TyCtx::new();
    let t = ctx.make_char_ty();
    let a = ctx.fresh_var(sp());
    let b = ctx.fresh_var(sp());
    ctx.unify(a, b);
    ctx.bind_var(a, t);
    let root = ctx.resolve_var(a);
    assert_eq!(root, b);
    assert!(matches!(ctx.get_var(root).kind, TyVarKind::Bound(x) if x == t));
}

#[test]
fn unify_variables_with_bound_types() {
    let mut ctx = TyCtx::new();
    let int = ctx.make_int_ty(IntTy::Fixed(32, true));
    let a = ctx.fresh_var(sp());
    let b = ctx.fresh_var(sp());
    ctx.bind_var(b, int);
    ctx.unify(a, b);
    assert!(matches!(ctx.get_var(a).kind, TyVarKind::Bound(x) if x == int));
}

#[test]
fn unify_types() {
    let mut ctx = TyCtx::new();
    let int = ctx.make_int_ty(IntTy::Fixed(32, true));
    let boolean = ctx.make_bool_ty();
    let iv = ctx.make_inferred_ty(sp(), InferKind::Int);
    let fv = ctx.make_inferred_ty(sp(), InferKind::Float);
    assert!(ctx.unify_ty(int, int));
    assert!(!ctx.unify_ty(int, boolean));
    assert!(!ctx.unify_ty(fv, int));
    assert!(ctx.unify_ty(int, iv));
    assert_eq!(ctx.resolve_ty(iv), int);
    let arr_i = ctx.make_array_ty(int);
    let arr_b = ctx.make_array_ty(boolean);
    assert!(!ctx.unify_ty(arr_i, arr_b));
    let never = ctx.make_never_ty();
    assert!(ctx.unify_ty(never, arr_b));
    let r_mut = ctx.make_ref_ty(int, RefMutability::Mutable);
    let r_imm = ctx.make_ref_ty(int, RefMutability::Immutable);
    assert!(ctx.unify_ty(r_imm, r_mut));
    assert!(!ctx.unify_ty(r_mut, r_imm));
    let any = ctx.make_inferred_ty(sp(), InferKind::Any);
    let t1 = ctx.make_tuple_ty(vec![int, any]);
    let t2 = ctx.make_tuple_ty(vec![int, boolean]);
    assert!(ctx.unify_ty(t1, t2));
    assert_eq!(ctx.resolve_ty(any), boolean);
    assert_eq!(ctx.resolve_ty(t1), t2);
}

#[test]
fn unify_fn_and_adt_types() {
    let mut ctx = TyCtx::new();
    let int = ctx.make_int_ty(IntTy::Fixed(32, true));
    let boolean = ctx.make_bool_ty();
    let f1 = ctx.make_fn_ty(vec![], None, vec![int], boolean);
    let f2 = ctx.make_fn_ty(vec![], Some(DefId(3)), vec![int], boolean);
    let f3 = ctx.make_fn_ty(vec![], None, vec![int, int], boolean);
    assert!(ctx.unify_ty(f1, f2));
    assert!(!ctx.unify_ty(f1, f3));
    let s1 = ctx.make_adt_ty(DefId(1), vec![GenericArg::Ty(int)]);
    let s2 = ctx.make_adt_ty(DefId(2), vec![GenericArg::Ty(int)]);
    let s3 = ctx.make_adt_ty(DefId(1), vec![GenericArg::Ty(boolean)]);
    assert!(ctx.unify_ty(s1, s1));
    assert!(!ctx.unify_ty(s1, s2));
    assert!(!ctx.unify_ty(s1, s3));
    assert_eq!(ctx.get_ty_def_id(s2), Some(DefId(2)));
    assert_eq!(ctx.expect_ty_def_id(s1), DefId(1));
    assert_eq!(ctx.get_ty_def_id(f1), None);
}

#[test]
fn instantiate_replaces_parameters() {
    let mut ctx = TyCtx::new();
    let int = ctx.make_int_ty(IntTy::Fixed(64, true));
    let p = ctx.make_param_ty(DefId(7), 1, 0);
    let q = ctx.make_param_ty(DefId(7), 1, 5);
    let arr = ctx.make_array_ty(p);
    let args: [GenericArg; 1] = [GenericArg::Ty(int)];
    let scopes: [&[GenericArg]; 1] = [&args];
    assert_eq!(ctx.instantiate(p, &scopes), int);
    assert_eq!(ctx.instantiate(q, &scopes), q);
    let inst = ctx.instantiate(arr, &scopes);
    assert_eq!(inst, ctx.make_array_ty(int));
    let none: [&[GenericArg]; 0] = [];
    assert_eq!(ctx.instantiate(p, &none), p);
}

#[test]
fn inference_queries() {
    let mut ctx = TyCtx::new();
    let int = ctx.make_int_ty(IntTy::Fixed(32, true));
    let any = ctx.make_inferred_ty(sp(), InferKind::Any);
    let iv = ctx.make_inferred_ty(sp(), InferKind::Int);
    let arr = ctx.make_array_ty(any);
    let tup = ctx.make_tuple_ty(vec![int, arr, iv]);
    assert!(ctx.is_inferred(any));
    assert!(!ctx.is_inferred(iv));
    assert!(ctx.is_inferred(arr));
    assert!(ctx.is_inferred(tup));
    assert!(!ctx.is_inferred(int));
    let mut left = Vec::new();
    ctx.unresolved_infer(tup, &mut left);
    assert_eq!(left, vec![any, iv]);
    let r = ctx.make_ref_ty(int, RefMutability::Immutable);
    assert_eq!(ctx.deref(r), int);
    assert_eq!(ctx.deref(int), int);
}

#[test]
fn attached_types() {
    let mut ctx = TyCtx::new();
    let int = ctx.make_int_ty(IntTy::Fixed(32, true));
    let ty = Ty::new(int, sp());
    ctx.attach_to_hir(HirId(4), ty);
    assert_eq!(ctx.get_hir_ty_id(HirId(4)), Some(int));
    assert_eq!(ctx.expect_hir_ty_id(HirId(4)), int);
    assert!(ctx.get_hir_ty(HirId(5)).is_none());
    assert_eq!(ctx.get_hir_res_state(HirId(4)), Some(lib::ty::TyResState::Resolved(int)));
    ctx.update_hir_res_state(HirId(4), lib::ty::TyResState::Resolving);
    assert_eq!(ctx.expect_hir_res_state(HirId(4)), lib::ty::TyResState::Resolving);
    assert_eq!(ctx.hir_ids(), vec![HirId(4)]);
    assert_eq!(ctx.hir_tys().len(), 1);
    ctx.get_hir_mut_ty(HirId(4)).unwrap().span = Span::new(9, 2, SourceId(0));
    assert_eq!(ctx.expect_hir_ty(HirId(4)).span.offset, 9);
    ctx.expect_hir_mut_ty(HirId(4)).span.len = 3;
    assert_eq!(ctx.get_hir_ty(HirId(4)).unwrap().span.len, 3);
    ctx.dettach_hir(HirId(4));
    assert!(ctx.get_hir_ty_id(HirId(4)).is_none());
    let unit = ctx.make_unit_ty();
    ctx.attach_to_def(DefId(8), Ty::new(unit, sp()));
    assert_eq!(ctx.get_def_ty_id(DefId(8)), Some(unit));
    assert_eq!(ctx.expect_def_ty_id(DefId(8)), unit);
    assert_eq!(ctx.get_ty_def_id(unit), Some(DefId(8)));
    assert_eq!(ctx.def_ids(), vec![DefId(8)]);
    ctx.get_def_mut_ty(DefId(8)).unwrap().span = Span::new(1, 1, SourceId(1));
    assert_eq!(ctx.expect_def_ty(DefId(8)).span.src_id, SourceId(1));
    ctx.expect_def_mut_ty(DefId(8)).span.offset = 5;
    assert_eq!(ctx.get_def_ty(DefId(8)).unwrap().span.offset, 5);
    ctx.dettach_def(DefId(8));
    assert!(ctx.get_def_ty_id(DefId(8)).is_none());
    assert_eq!(ctx.get_ty_def_id(unit), Some(DefId(8)));
}

#[test]
fn get_mut_changes_the_stored_kind() {
    let mut ctx = TyCtx::new();
    let b = ctx.make_bool_ty();
    *ctx.get_mut(b) = TyKind::Char;
    assert!(matches!(ctx.get(b), TyKind::Char));
    assert_eq!(ctx.make_bool_ty(), b);
}

#[test]
fn compatible_infer_kinds() {
    assert!(InferKind::Any.compatible(&TyKind::Bool));
    assert!(InferKind::Int.compatible(&TyKind::Int(IntTy::Size(true))));
    assert!(InferKind::Int.compatible(&TyKind::Infer(TyVarId(0), InferKind::Int)));
    assert!(!InferKind::Int.compatible(&TyKind::Infer(TyVarId(0), InferKind::Any)));
    assert!(InferKind::Float.compatible(&TyKind::Float(32)));
    assert!(!InferKind::Float.compatible(&TyKind::Int(IntTy::Size(true))));
}

#[test]
fn ids_and_small_enums() {
    assert_eq!(TyId(3).unwrap(), 3);
    assert_eq!(TyId::Invalid(), TyId(usize::MAX));
    assert_eq!(TyVarId(2).unwrap(), 2);
    assert_eq!(TyVarId::Invalid(), TyVarId(usize::MAX));
    assert_eq!(ScopeId(1).unwrap(), 1);
    assert_eq!(ScopeId::Invalid(), ScopeId(usize::MAX));
    assert_eq!(CompilationUnitId(4).unwrap(), 4);
    assert_eq!(CompilationUnitId::Invalid(), CompilationUnitId(usize::MAX));
    assert_eq!(IntfId(5).unwrap(), 5);
    assert_eq!(IntfId::Invalid(), IntfId(usize::MAX));
    assert_eq!(ExtensionId(6).unwrap(), 6);
    assert_eq!(ExtensionId::Invalid(), ExtensionId(usize::MAX));
    assert_eq!(HirId::Invalid(), HirId(usize::MAX));
    assert!(IntfItemKind::from(true).is_req());
    assert!(IntfItemKind::from(false).is_opt());
    assert!(!IntfItemKind::Req.is_opt());
    assert_eq!(SymbolKind::AssocItem.text(), "associated item");
    assert_eq!(SymbolKind::Field.text(), "field");
    assert_eq!(SymbolKind::Item.text(), "item");
}

#[test]
fn scopes_define_and_nest() {
    let mut scope = Scope::new();
    scope.define(DefSpace::Type, Symbol(1), DefId(10));
    scope.define(DefSpace::Value, Symbol(1), DefId(11));
    assert_eq!(scope.get(DefSpace::Type, Symbol(1)), Some(DefId(10)));
    assert_eq!(scope.get(DefSpace::Value, Symbol(1)), Some(DefId(11)));
    scope.define(DefSpace::Type, Symbol(1), DefId(12));
    assert_eq!(scope.get(DefSpace::Type, Symbol(1)), Some(DefId(12)));
    assert_eq!(scope.get(DefSpace::Value, Symbol(2)), None);

    let mut ctx = ScopeCtx::new();
    assert!(!ctx.pop());
    ctx.top_mut().define(DefSpace::Value, Symbol(0), DefId(1));
    let inner = ctx.push(Scope::new());
    assert_eq!(inner, ScopeId(1));
    assert_eq!(ctx.top().get(DefSpace::Value, Symbol(0)), None);
    assert!(ctx.pop());
    assert_eq!(ctx.top().get(DefSpace::Value, Symbol(0)), Some(DefId(1)));
    ctx.push_id(inner);
    assert_eq!(ctx.top().get(DefSpace::Value, Symbol(0)), None);
    assert!(ctx.pop());
    assert!(!ctx.pop());
}

#[test]
fn infix_binding_powers() {
    assert_eq!(expr_infix_binding_power_of(TokenKind::Plus), Some((6, 6)));
    assert_eq!(expr_infix_binding_power_of(TokenKind::Star), Some((7, 7)));
    assert_eq!(expr_infix_binding_power_of(TokenKind::LeftParen), Some((11, 0)));
    assert_eq!(expr_infix_binding_power_of(TokenKind::LeftBrace), Some((0, 0)));
    assert_eq!(expr_infix_binding_power_of(TokenKind::PlusEq), Some((1, 1)));
    assert_eq!(expr_infix_binding_power_of(TokenKind::Ident(TokenIdentKind::As)), Some((9, 9)));
    assert_eq!(expr_infix_binding_power_of(TokenKind::Ident(TokenIdentKind::Normal)), Some((13, 13)));
    assert_eq!(expr_infix_binding_power_of(TokenKind::Dot), Some((12, 12)));
    assert_eq!(expr_infix_binding_power_of(TokenKind::SemiColon), None);
    assert_eq!(ExprInfixBindingPower::Primary.power(), 13);
    let registry = SourceRegistry::new(Source {
        identifier: (SourceId(0), "m".to_string()),
        data: String::new(),
    });
    assert_eq!(ParserDiagDataCtx::new(&registry).registry.sources().len(), 1);
}

#[test]
fn terminal_styles() {
    assert_eq!("x".red(), "\x1b[31mx");
    assert_eq!("x".to_string().bold(), "\x1b[1mx");
    assert_eq!("ab".style("<"), "<ab");
    assert_eq!("y".bg_bright_white(), "\x1b[107my");
}

#[test]
fn types_format_as_text() {
    let mut interner = SymbolInterner::new();
    let vec_name = interner.intern("Vec");
    let t_name = interner.intern("T");
    let definitions = DefinitionTable {
        names: vec![vec_name, t_name],
        spans: vec![Span::default(), Span::default()],
        kinds: vec![DefKind::Adt, DefKind::GenericParam],
        hir_ids: vec![HirId(0), HirId(1)],
        petals: vec![None; 2],
        accessibilities: vec![DefAccessibility::Priv; 2],
        builtins: vec![],
    };
    let mut ctx = TyCtx::new();
    let i32_ty = ctx.make_int_ty(IntTy::Fixed(32, true));
    let usize_ty = ctx.make_int_ty(IntTy::Size(false));
    let f64_ty = ctx.make_float_ty(64);
    let unit = ctx.make_unit_ty();
    let arr = ctx.make_array_ty(i32_ty);
    let slice = ctx.make_slice_ty(usize_ty);
    let tup = ctx.make_tuple_ty(vec![i32_ty, f64_ty]);
    let r = ctx.make_ref_ty(slice, RefMutability::Mutable);
    let f_unit = ctx.make_fn_ty(vec![], None, vec![i32_ty, usize_ty], unit);
    let f_ret = ctx.make_fn_ty(vec![], None, vec![], i32_ty);
    let param = ctx.make_param_ty(DefId(1), 1, 0);
    let adt = ctx.make_adt_ty(DefId(0), vec![GenericArg::Ty(param)]);
    let plain = ctx.make_adt_ty(DefId(0), vec![]);
    let any = ctx.make_inferred_ty(sp(), InferKind::Any);
    let int_var = ctx.make_inferred_ty(sp(), InferKind::Int);
    let never = ctx.make_never_ty();
    let mut fmt = TyFormatter::new(&mut ctx, &definitions, &interner);
    assert_eq!(fmt.fmt_id(i32_ty), "i32");
    assert_eq!(fmt.fmt_id(usize_ty), "usize");
    assert_eq!(fmt.fmt_id(f64_ty), "f64");
    assert_eq!(fmt.fmt_id(unit), "()");
    assert_eq!(fmt.fmt_id(never), "~");
    assert_eq!(fmt.fmt_id(arr), "[<size>]i32");
    assert_eq!(fmt.fmt_id(tup), "(i32, f64)");
    assert_eq!(fmt.fmt_id(r), "&mut []usize");
    assert_eq!(fmt.fmt_id(f_unit), "fn(i32, usize)");
    assert_eq!(fmt.fmt_id(f_ret), "fn() -> i32");
    assert_eq!(fmt.fmt_id(adt), "Vec<T>");
    assert_eq!(fmt.fmt_id(plain), "Vec");
    assert_eq!(fmt.fmt_id(any), "{unknown}");
    assert_eq!(fmt.fmt_id(int_var), "{int}");
}

#[test]
fn builtin_types_in_definition_order() {
    let tys = lib::builtin::builtin_tys();
    let names: Vec<&str> = tys.iter().map(|(n, _)| n.as_str()).collect();
    assert_eq!(
        names,
        vec![
            "i8", "i16", "i32", "i64", "isize", "u8", "u16", "u32", "u64", "usize", "f8", "f16",
            "f32", "f64", "bool", "char", "str", "_",
        ]
    );
    assert_eq!(tys[2].1, BuiltinTyKind::Int(BuiltinIntTy::Fixed(32, true)));
    assert_eq!(tys[9].1, BuiltinTyKind::Int(BuiltinIntTy::Size(false)));
    assert_eq!(tys[13].1, BuiltinTyKind::Float(64));
    assert_eq!(tys[16].1, BuiltinTyKind::String);
    assert_eq!(tys[17].1, BuiltinTyKind::Infer);
}

#[test]
fn resolving_a_resolution_gives_it_back() {
    let mut ctx = TyCtx::new();
    let int = ctx.make_int_ty(IntTy::Fixed(16, true));
    let v = ctx.make_inferred_ty(sp(), InferKind::Any);
    let w = ctx.make_inferred_ty(sp(), InferKind::Any);
    let tuple = ctx.make_tuple_ty(vec![v, w]);
    let var = match ctx.get(v) {
        TyKind::Infer(var, _) => *var,
        _ => panic!("expected an inference type"),
    };
    ctx.bind_var(var, int);
    let r = ctx.resolve_ty(tuple);
    assert_ne!(r, tuple);
    assert_eq!(ctx.resolve_ty(r), r);
    let expected = ctx.make_tuple_ty(vec![int, w]);
    assert_eq!(r, expected);
}

#[test]
fn a_type_unifies_with_itself_without_binding() {
    let mut ctx = TyCtx::new();
    let v = ctx.make_inferred_ty(sp(), InferKind::Any);
    let arr = ctx.make_array_ty(v);
    let var = match ctx.get(v) {
        TyKind::Infer(var, _) => *var,
        _ => panic!("expected an inference type"),
    };
    assert!(ctx.unify_ty(arr, arr));
    assert!(ctx.unify_ty(v, v));
    assert!(matches!(ctx.get_var(var).kind, TyVarKind::Unbound));
    assert_eq!(ctx.resolve_ty(arr), arr);
}

#[test]
fn instantiating_with_no_arguments_resolves() {
    let mut ctx = TyCtx::new();
    let int = ctx.make_int_ty(IntTy::Fixed(32, false));
    let v = ctx.make_inferred_ty(sp(), InferKind::Any);
    let p = ctx.make_param_ty(DefId(3), 1, 0);
    let tuple = ctx.make_tuple_ty(vec![v, p]);
    let arr = ctx.make_array_ty(tuple);
    let var = match ctx.get(v) {
        TyKind::Infer(var, _) => *var,
        _ => panic!("expected an inference type"),
    };
    ctx.bind_var(var, int);
    let none: [&[GenericArg]; 0] = [];
    let inst = ctx.instantiate(arr, &none);
    let resolved = ctx.resolve_ty(arr);
    assert_eq!(inst, resolved);
    let expected_tuple = ctx.make_tuple_ty(vec![int, p]);
    assert_eq!(resolved, ctx.make_array_ty(expected_tuple));
}
