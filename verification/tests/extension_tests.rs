use std::collections::HashMap;

use lib::extension::{ExtNominalTargetKind, ExtTargetKind, Extension, ExtensionTable};
use lib::hir::{Binding, DefAccessibility, DefId, DefPubAccessibilityKind, DefSpace, HirId};
use lib::intf::{ExtensionId, Intf, IntfId, IntfItem, IntfItemKind, IntfTable};
use lib::span::Span;
use lib::symbol::Symbol;
use lib::ty::{InferKind, RefMutability, TyId};
use lib::ty_ctx::TyCtx;

fn priv_binding(d: usize) -> Binding {
    Binding::new(DefId(d), DefAccessibility::Priv)
}

fn ext(hir: usize, types: &[(usize, usize)], values: &[(usize, usize)]) -> Extension {
    let mut t = HashMap::new();
    for (name, def) in types {
        t.insert(*name, priv_binding(*def));
    }
    let mut v = HashMap::new();
    for (name, def) in values {
        v.insert(*name, priv_binding(*def));
    }
    Extension::new(HirId(hir), 0, None, t, v)
}

const DEF0: ExtTargetKind = ExtTargetKind::Nominal(ExtNominalTargetKind::Def(DefId(0)));
const BLANKET: ExtTargetKind = ExtTargetKind::Nominal(ExtNominalTargetKind::Blanket);

#[test]
fn new_table_is_empty() {
    let table = ExtensionTable::new();
    assert!(!table.native_exts_resolved());
    assert!(table.hir_ids().is_empty());
    assert!(table.hir_mapping().is_empty());
    assert!(table.native_exts().is_empty());
    assert!(table.get_native_exts(DEF0).is_none());
}

#[test]
fn attach_keeps_the_order_per_target() {
    let mut table = ExtensionTable::new();
    let a = table.attach(DEF0, ext(1, &[(10, 100)], &[]));
    let b = table.attach(BLANKET, ext(2, &[], &[(11, 101)]));
    let c = table.attach(DEF0, ext(3, &[(12, 102)], &[]));
    assert_eq!((a, b, c), (ExtensionId(0), ExtensionId(1), ExtensionId(2)));
    assert!(table.native_exts_resolved());
    assert_eq!(table.get_native_exts(DEF0), Some(&[ExtensionId(0), ExtensionId(2)][..]));
    assert_eq!(table.get_native_exts(BLANKET), Some(&[ExtensionId(1)][..]));
    assert!(table.get_native_exts(ExtTargetKind::Slice).is_none());
    assert_eq!(table.get_all_native_exts().len(), 2);
    table.attach_id(ExtTargetKind::Tuple(2), a);
    assert_eq!(table.get_native_exts(ExtTargetKind::Tuple(2)), Some(&[ExtensionId(0)][..]));
    assert_eq!(table.get(c).hir_id, HirId(3));
}

#[test]
fn assoc_items_prefer_the_target_then_blanket() {
    let mut table = ExtensionTable::new();
    table.attach(DEF0, ext(1, &[(10, 100)], &[(20, 200)]));
    table.attach(BLANKET, ext(2, &[(10, 900)], &[(21, 201)]));
    table.attach(DEF0, ext(3, &[(10, 300), (12, 102)], &[]));
    assert_eq!(
        table.get_assoc_item(DEF0, DefSpace::Type, Symbol(10)),
        Some((ExtensionId(0), priv_binding(100)))
    );
    assert_eq!(
        table.get_assoc_item(DEF0, DefSpace::Type, Symbol(12)),
        Some((ExtensionId(2), priv_binding(102)))
    );
    assert_eq!(
        table.get_assoc_item(DEF0, DefSpace::Value, Symbol(21)),
        Some((ExtensionId(1), priv_binding(201)))
    );
    assert_eq!(table.get_assoc_item(DEF0, DefSpace::Value, Symbol(10)), None);
    assert_eq!(
        table.get_assoc_item(ExtTargetKind::Ref, DefSpace::Type, Symbol(10)),
        Some((ExtensionId(1), priv_binding(900)))
    );
    assert_eq!(table.get_assoc_item(ExtTargetKind::Ref, DefSpace::Type, Symbol(12)), None);
}

#[test]
fn extensions_attached_to_nodes() {
    let mut table = ExtensionTable::new();
    let id = table.attach_hir_ext(HirId(7), ext(7, &[], &[]));
    assert_eq!(table.get_hir_ext_id(HirId(7)), Some(id));
    assert_eq!(table.get_hir_ext_id(HirId(8)), None);
    assert_eq!(table.expect_hir_ext_id(HirId(7)), id);
    assert_eq!(table.expect_hir_ext(HirId(7)).hir_id, HirId(7));
    assert!(table.get_hir_ext(HirId(8)).is_none());
    assert_eq!(table.hir_ids(), vec![HirId(7)]);
    assert_eq!(table.hir_mapping(), vec![(HirId(7), id)]);
    table.expect_hir_mut_ext(HirId(7)).attach_target(TyId(4));
    assert_eq!(table.get_hir_ext(HirId(7)).unwrap().get_target(), Some(TyId(4)));
    table.get_hir_mut_ext(HirId(7)).unwrap().generic_param_count = 2;
    assert_eq!(table.get_mut(id).generic_param_count, 2);
    let other = table.insert(ext(9, &[], &[]));
    table.attach_hir_ext_id(HirId(7), other);
    assert_eq!(table.get_hir_ext_id(HirId(7)), Some(ExtensionId(1)));
}

#[test]
fn extension_items_and_targets() {
    let mut e = ext(1, &[(10, 100)], &[(10, 110)]);
    assert_eq!(e.get(DefSpace::Type, Symbol(10)), Some(&priv_binding(100)));
    assert_eq!(e.get(DefSpace::Value, Symbol(10)), Some(&priv_binding(110)));
    assert_eq!(e.get(DefSpace::Value, Symbol(11)), None);
    assert_eq!(e.get_target(), None);
    e.attach_target(TyId(3));
    assert_eq!(e.expect_target(), TyId(3));
    let public = Binding::new(DefId(5), DefAccessibility::Pub(DefPubAccessibilityKind::This));
    *e.get_mut(DefSpace::Type, Symbol(10)).unwrap() = public;
    assert_eq!(e.get(DefSpace::Type, Symbol(10)), Some(&public));
    assert!(e.get_mut(DefSpace::Type, Symbol(99)).is_none());
}

#[test]
fn collisions_are_the_shared_names() {
    let a = ext(1, &[(10, 100), (11, 101)], &[(10, 110)]);
    let b = ext(2, &[(11, 201), (12, 202)], &[(10, 210), (13, 213)]);
    let mut found = a.collisions(&b);
    found.sort_by_key(|c| ((c.0).1 .0, matches!((c.0).0, DefSpace::Value)));
    assert_eq!(found.len(), 2);
    assert_eq!(found[0], ((DefSpace::Value, Symbol(10)), priv_binding(110), priv_binding(210)));
    assert_eq!(found[1], ((DefSpace::Type, Symbol(11)), priv_binding(101), priv_binding(201)));
    assert!(a.collisions(&ext(3, &[], &[])).is_empty());
}

#[test]
fn extension_targets_of_types() {
    let mut ctx = TyCtx::new();
    let i32_ty = ctx.make_int_ty(lib::ty::IntTy::Fixed(32, true));
    let arr = ctx.make_array_ty(i32_ty);
    let slice = ctx.make_slice_ty(i32_ty);
    let tup = ctx.make_tuple_ty(vec![i32_ty, i32_ty]);
    let r = ctx.make_ref_ty(i32_ty, RefMutability::Immutable);
    let var = ctx.make_inferred_ty(Span::default(), InferKind::Any);
    let adt = ctx.make_adt_ty(DefId(4), vec![]);
    assert_eq!(ctx.ext_target_kind_of(arr), ExtTargetKind::Array);
    assert_eq!(ctx.ext_target_kind_of(slice), ExtTargetKind::Slice);
    assert_eq!(ctx.ext_target_kind_of(tup), ExtTargetKind::Tuple(2));
    assert_eq!(ctx.ext_target_kind_of(r), ExtTargetKind::Ref);
    assert_eq!(ctx.ext_target_kind_of(var), BLANKET);
    assert_eq!(ctx.ext_target_kind_of(adt), ExtTargetKind::Nominal(ExtNominalTargetKind::Def(DefId(4))));
    ctx.attach_to_def(DefId(9), lib::ty::Ty::new(i32_ty, Span::default()));
    assert_eq!(ctx.ext_target_kind_of(i32_ty), ExtTargetKind::Nominal(ExtNominalTargetKind::Def(DefId(9))));
    let id = ctx.ext_table.attach(ExtTargetKind::Array, ext(1, &[], &[]));
    assert_eq!(ctx.ext_table.get_native_exts(ExtTargetKind::Array), Some(&[id][..]));
}

fn intf(hir: usize, name: usize) -> Intf {
    let mut types = HashMap::new();
    types.insert(1, IntfItem::req(priv_binding(10)));
    let mut values = HashMap::new();
    values.insert(2, IntfItem::opt(priv_binding(20)));
    Intf::new(HirId(hir), Symbol(name), 1, types, values)
}

#[test]
fn interface_items() {
    let mut i = intf(1, 5);
    assert_eq!(i.name, Symbol(5));
    assert!(i.get(DefSpace::Type, Symbol(1)).unwrap().is_req());
    assert!(i.get(DefSpace::Value, Symbol(2)).unwrap().is_opt());
    assert!(i.get(DefSpace::Value, Symbol(1)).is_none());
    i.get_mut(DefSpace::Value, Symbol(2)).unwrap().kind = IntfItemKind::Req;
    assert_eq!(i.get(DefSpace::Value, Symbol(2)).unwrap().kind, IntfItemKind::Req);
    assert!(i.get_mut(DefSpace::Type, Symbol(3)).is_none());
    assert_eq!(IntfItem::req(priv_binding(1)).binding, priv_binding(1));
}

#[test]
fn interface_table_reads_back_what_is_attached() {
    let mut table = IntfTable::new();
    let a = table.attach_hir_intf(HirId(4), intf(4, 1));
    let b = table.attach_ty_intf(TyId(6), intf(5, 2));
    assert_eq!((a, b), (IntfId(0), IntfId(1)));
    assert_eq!(table.get_hir_intf_id(HirId(4)), Some(a));
    assert_eq!(table.expect_hir_intf_id(HirId(4)), a);
    assert_eq!(table.expect_hir_intf(HirId(4)).name, Symbol(1));
    assert!(table.get_hir_intf(HirId(5)).is_none());
    assert_eq!(table.get_ty_intf_id(TyId(6)), Some(b));
    assert_eq!(table.expect_ty_intf_id(TyId(6)), b);
    assert_eq!(table.get_ty_intf_id(TyId(7)), None);
    table.get_mut(b).generic_param_count = 3;
    assert_eq!(table.get(b).generic_param_count, 3);
    let c = table.insert(intf(9, 3));
    table.attach_hir_intf_id(HirId(4), c);
    table.attach_ty_intf_id(TyId(6), c);
    assert_eq!(table.get_hir_intf(HirId(4)).unwrap().name, Symbol(3));
    assert_eq!(table.get_ty_intf_id(TyId(6)), Some(IntfId(2)));
}
