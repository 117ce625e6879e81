use std::collections::HashMap;
use vstd::prelude::*;

use crate::hir::{Binding, DefSpace, HirId};
use crate::symbol::Symbol;
use crate::ty::TyId;
use crate::ty_ctx::{map_get, map_get_mut};

verus! {

broadcast use vstd::std_specs::hash::group_hash_axioms;

/// Whether an item of an interface must be provided or may be left out.
#[derive(Debug, Clone, Copy, PartialEq, Eq, Hash, Structural)]
pub enum IntfItemKind {
    Req,
    Opt,
}

impl IntfItemKind {
    /// Whether the item must be provided.
    pub fn is_req(&self) -> (res: bool)
        ensures
            res == (*self is Req),
    {
        matches!(self, IntfItemKind::Req)
    }

    /// Whether the item may be left out.
    pub fn is_opt(&self) -> (res: bool)
        ensures
            res == (*self is Opt),
    {
        matches!(self, IntfItemKind::Opt)
    }
}

impl From<bool> for IntfItemKind {
    /// `true` gives a required item, `false` an optional one.
    fn from(value: bool) -> (res: Self) {
        if value {
            IntfItemKind::Req
        } else {
            IntfItemKind::Opt
        }
    }
}

impl vstd::std_specs::convert::FromSpecImpl<bool> for IntfItemKind {
    open spec fn obeys_from_spec() -> bool {
        true
    }

    open spec fn from_spec(value: bool) -> Self {
        if value {
            IntfItemKind::Req
        } else {
            IntfItemKind::Opt
        }
    }
}

/// An item of an interface: what its name is bound to, and whether it must
/// be provided.
#[derive(Debug, Clone, Copy, PartialEq, Eq, Structural)]
pub struct IntfItem {
    pub binding: Binding,
    pub kind: IntfItemKind,
}

impl IntfItem {
    /// A required item.
    pub fn req(binding: Binding) -> (res: Self)
        ensures
            res.binding == binding,
            res.kind == IntfItemKind::Req,
    {
        IntfItem { binding, kind: IntfItemKind::Req }
    }

    /// An optional item.
    pub fn opt(binding: Binding) -> (res: Self)
        ensures
            res.binding == binding,
            res.kind == IntfItemKind::Opt,
    {
        IntfItem { binding, kind: IntfItemKind::Opt }
    }

    /// Whether the item must be provided.
    pub fn is_req(&self) -> (res: bool)
        ensures
            res == (self.kind is Req),
    {
        self.kind.is_req()
    }

    /// Whether the item may be left out.
    pub fn is_opt(&self) -> (res: bool)
        ensures
            res == (self.kind is Opt),
    {
        self.kind.is_opt()
    }
}

/// An interface: its items by name, in the type namespace (`types`) and in
/// the value namespace (`values`); its node; its name; and how many generic
/// parameters it has.
#[derive(Debug)]
pub struct Intf {
    pub types: HashMap<usize, IntfItem>,
    pub values: HashMap<usize, IntfItem>,
    pub hir_id: HirId,
    pub name: Symbol,
    pub generic_param_count: usize,
}

/// The item named `name` in namespace `space` of interface `i`, if any.
pub open spec fn intf_item(i: Intf, space: DefSpace, name: Symbol) -> Option<IntfItem> {
    match space {
        DefSpace::Type => map_get(i.types@, name.0),
        DefSpace::Value => map_get(i.values@, name.0),
    }
}

impl Intf {
    pub fn new(
        hir_id: HirId,
        name: Symbol,
        generic_param_count: usize,
        types: HashMap<usize, IntfItem>,
        values: HashMap<usize, IntfItem>,
    ) -> (res: Self)
        ensures
            res.hir_id == hir_id,
            res.name == name,
            res.generic_param_count == generic_param_count,
            res.types@ == types@,
            res.values@ == values@,
    {
        Intf { types, values, hir_id, name, generic_param_count }
    }

    /// The item named `name` in namespace `space`, if any.
    pub fn get(&self, space: DefSpace, name: Symbol) -> (res: Option<&IntfItem>)
        ensures
            match res {
                Some(item) => intf_item(*self, space, name) == Some(*item),
                None => intf_item(*self, space, name) is None,
            },
    {
        match space {
            DefSpace::Type => self.types.get(&name.0),
            DefSpace::Value => self.values.get(&name.0),
        }
    }

    /// The item named `name` in namespace `space`, to change in place.
    pub fn get_mut(&mut self, space: DefSpace, name: Symbol) -> (res: Option<&mut IntfItem>)
        ensures
            final(self).hir_id == old(self).hir_id,
            final(self).name == old(self).name,
            final(self).generic_param_count == old(self).generic_param_count,
            match res {
                Some(item) => {
                    &&& intf_item(*old(self), space, name) == Some(*item)
                    &&& match space {
                        DefSpace::Type => final(self).types@ == old(self).types@.insert(
                            name.0,
                            *final(item),
                        ) && final(self).values@ == old(self).values@,
                        DefSpace::Value => final(self).values@ == old(self).values@.insert(
                            name.0,
                            *final(item),
                        ) && final(self).types@ == old(self).types@,
                    }
                },
                None => {
                    &&& intf_item(*old(self), space, name) is None
                    &&& final(self).types@ == old(self).types@
                    &&& final(self).values@ == old(self).values@
                },
            },
    {
        match space {
            DefSpace::Type => map_get_mut(&mut self.types, name.0),
            DefSpace::Value => map_get_mut(&mut self.values, name.0),
        }
    }
}

/// The interfaces of a compilation, each at the index its id names, and the
/// interface attached to nodes and to types.
#[derive(Debug)]
pub struct IntfTable {
    data: Vec<Intf>,
    hir_map: HashMap<usize, IntfId>,
    ty_map: HashMap<usize, IntfId>,
}

impl IntfTable {
    /// The interfaces, by index.
    pub closed spec fn spec_data(&self) -> Seq<Intf> {
        self.data@
    }

    /// The interface attached to each node, by node index.
    pub closed spec fn spec_hir_intfs(&self) -> Map<usize, IntfId> {
        self.hir_map@
    }

    /// The interface attached to each type, by type index.
    pub closed spec fn spec_ty_intfs(&self) -> Map<usize, IntfId> {
        self.ty_map@
    }

    pub fn new() -> (res: Self)
        ensures
            res.spec_data().len() == 0,
            res.spec_hir_intfs() == Map::<usize, IntfId>::empty(),
            res.spec_ty_intfs() == Map::<usize, IntfId>::empty(),
    {
        IntfTable { data: Vec::new(), hir_map: HashMap::new(), ty_map: HashMap::new() }
    }

    /// Adds `intf` after the interfaces already there; its id is its index.
    pub fn insert(&mut self, intf: Intf) -> (res: IntfId)
        requires
            old(self).spec_data().len() < usize::MAX,
        ensures
            res.0 == old(self).spec_data().len(),
            final(self).spec_data() == old(self).spec_data().push(intf),
            final(self).spec_hir_intfs() == old(self).spec_hir_intfs(),
            final(self).spec_ty_intfs() == old(self).spec_ty_intfs(),
    {
        self.data.push(intf);
        IntfId(self.data.len() - 1)
    }

    /// The interface with id `intf_id`.
    pub fn get(&self, intf_id: IntfId) -> (res: &Intf)
        requires
            intf_id.0 != usize::MAX,
            (intf_id.0 as int) < self.spec_data().len(),
        ensures
            *res == self.spec_data()[intf_id.0 as int],
    {
        &self.data[intf_id.unwrap()]
    }

    /// The interface with id `intf_id`, to change in place.
    pub fn get_mut(&mut self, intf_id: IntfId) -> (res: &mut Intf)
        requires
            intf_id.0 != usize::MAX,
            (intf_id.0 as int) < old(self).spec_data().len(),
        ensures
            *res == old(self).spec_data()[intf_id.0 as int],
            final(self).spec_data() == old(self).spec_data().update(intf_id.0 as int, *final(res)),
            final(self).spec_hir_intfs() == old(self).spec_hir_intfs(),
            final(self).spec_ty_intfs() == old(self).spec_ty_intfs(),
    {
        &mut self.data[intf_id.unwrap()]
    }

    /// Adds `intf` and attaches it to node `hir_id`.
    pub fn attach_hir_intf(&mut self, hir_id: HirId, intf: Intf) -> (res: IntfId)
        requires
            old(self).spec_data().len() < usize::MAX,
        ensures
            res.0 == old(self).spec_data().len(),
            final(self).spec_data() == old(self).spec_data().push(intf),
            final(self).spec_hir_intfs() == old(self).spec_hir_intfs().insert(hir_id.0, res),
            final(self).spec_ty_intfs() == old(self).spec_ty_intfs(),
    {
        let intf_id = self.insert(intf);
        self.attach_hir_intf_id(hir_id, intf_id);
        intf_id
    }

    /// Attaches interface `intf_id` to node `hir_id`, in place of any before.
    pub fn attach_hir_intf_id(&mut self, hir_id: HirId, intf_id: IntfId)
        ensures
            final(self).spec_data() == old(self).spec_data(),
            final(self).spec_hir_intfs() == old(self).spec_hir_intfs().insert(hir_id.0, intf_id),
            final(self).spec_ty_intfs() == old(self).spec_ty_intfs(),
    {
        self.hir_map.insert(hir_id.0, intf_id);
    }

    /// Adds `intf` and attaches it to type `ty_id`.
    pub fn attach_ty_intf(&mut self, ty_id: TyId, intf: Intf) -> (res: IntfId)
        requires
            old(self).spec_data().len() < usize::MAX,
        ensures
            res.0 == old(self).spec_data().len(),
            final(self).spec_data() == old(self).spec_data().push(intf),
            final(self).spec_hir_intfs() == old(self).spec_hir_intfs(),
            final(self).spec_ty_intfs() == old(self).spec_ty_intfs().insert(ty_id.0, res),
    {
        let intf_id = self.insert(intf);
        self.attach_ty_intf_id(ty_id, intf_id);
        intf_id
    }

    /// Attaches interface `intf_id` to type `ty_id`, in place of any before.
    pub fn attach_ty_intf_id(&mut self, ty_id: TyId, intf_id: IntfId)
        ensures
            final(self).spec_data() == old(self).spec_data(),
            final(self).spec_hir_intfs() == old(self).spec_hir_intfs(),
            final(self).spec_ty_intfs() == old(self).spec_ty_intfs().insert(ty_id.0, intf_id),
    {
        self.ty_map.insert(ty_id.0, intf_id);
    }

    /// The interface attached to node `hir_id`, if any.
    pub fn get_hir_intf_id(&self, hir_id: HirId) -> (res: Option<IntfId>)
        ensures
            res == map_get(self.spec_hir_intfs(), hir_id.0),
    {
        match self.hir_map.get(&hir_id.0) {
            Some(id) => Some(*id),
            None => None,
        }
    }

    /// The interface attached to node `hir_id`, if any; the id attached must
    /// name an interface.
    pub fn get_hir_intf(&self, hir_id: HirId) -> (res: Option<&Intf>)
        requires
            self.spec_hir_intfs().contains_key(hir_id.0) ==> {
                let id = self.spec_hir_intfs()[hir_id.0];
                id.0 != usize::MAX && (id.0 as int) < self.spec_data().len()
            },
        ensures
            match res {
                Some(i) => self.spec_hir_intfs().contains_key(hir_id.0) && *i
                    == self.spec_data()[self.spec_hir_intfs()[hir_id.0].0 as int],
                None => !self.spec_hir_intfs().contains_key(hir_id.0),
            },
    {
        match self.get_hir_intf_id(hir_id) {
            Some(id) => Some(self.get(id)),
            None => None,
        }
    }

    /// The interface attached to node `hir_id`, which must have one.
    pub fn expect_hir_intf_id(&self, hir_id: HirId) -> (res: IntfId)
        requires
            self.spec_hir_intfs().contains_key(hir_id.0),
        ensures
            res == self.spec_hir_intfs()[hir_id.0],
    {
        self.get_hir_intf_id(hir_id).unwrap()
    }

    /// The interface attached to node `hir_id`, which must have one that
    /// names an interface.
    pub fn expect_hir_intf(&self, hir_id: HirId) -> (res: &Intf)
        requires
            self.spec_hir_intfs().contains_key(hir_id.0),
            self.spec_hir_intfs()[hir_id.0].0 != usize::MAX,
            (self.spec_hir_intfs()[hir_id.0].0 as int) < self.spec_data().len(),
        ensures
            *res == self.spec_data()[self.spec_hir_intfs()[hir_id.0].0 as int],
    {
        self.get(self.expect_hir_intf_id(hir_id))
    }

    /// The interface attached to type `ty_id`, if any.
    pub fn get_ty_intf_id(&self, ty_id: TyId) -> (res: Option<IntfId>)
        ensures
            res == map_get(self.spec_ty_intfs(), ty_id.0),
    {
        match self.ty_map.get(&ty_id.0) {
            Some(id) => Some(*id),
            None => None,
        }
    }

    /// The interface attached to type `ty_id`, which must have one.
    pub fn expect_ty_intf_id(&self, ty_id: TyId) -> (res: IntfId)
        requires
            self.spec_ty_intfs().contains_key(ty_id.0),
        ensures
            res == self.spec_ty_intfs()[ty_id.0],
    {
        self.get_ty_intf_id(ty_id).unwrap()
    }
}

/// What is attached can be read back: after `attach_hir_intf(hir_id, intf)`
/// (the relation between the tables before and after that its contract
/// states), node `hir_id` has the returned id, that id names `intf`, and every
/// other node keeps its interface.
pub proof fn law_attach_hir_intf_then_get(
    before: IntfTable,
    after: IntfTable,
    hir_id: HirId,
    intf: Intf,
    id: IntfId,
)
    requires
        before.spec_data().len() < usize::MAX,
        id.0 == before.spec_data().len(),
        after.spec_data() == before.spec_data().push(intf),
        after.spec_hir_intfs() == before.spec_hir_intfs().insert(hir_id.0, id),
    ensures
        map_get(after.spec_hir_intfs(), hir_id.0) == Some(id),
        id.0 != usize::MAX,
        (id.0 as int) < after.spec_data().len(),
        after.spec_data()[id.0 as int] == intf,
        forall|h: usize|
            h != hir_id.0 ==> #[trigger] map_get(after.spec_hir_intfs(), h) == map_get(
                before.spec_hir_intfs(),
                h,
            ),
{
}

/// The same for types: after `attach_ty_intf(ty_id, intf)`, type `ty_id` has
/// the returned id, that id names `intf`, and every other type keeps its
/// interface.
pub proof fn law_attach_ty_intf_then_get(
    before: IntfTable,
    after: IntfTable,
    ty_id: TyId,
    intf: Intf,
    id: IntfId,
)
    requires
        before.spec_data().len() < usize::MAX,
        id.0 == before.spec_data().len(),
        after.spec_data() == before.spec_data().push(intf),
        after.spec_ty_intfs() == before.spec_ty_intfs().insert(ty_id.0, id),
    ensures
        map_get(after.spec_ty_intfs(), ty_id.0) == Some(id),
        id.0 != usize::MAX,
        (id.0 as int) < after.spec_data().len(),
        after.spec_data()[id.0 as int] == intf,
        forall|t: usize|
            t != ty_id.0 ==> #[trigger] map_get(after.spec_ty_intfs(), t) == map_get(
                before.spec_ty_intfs(),
                t,
            ),
{
}

/// The index of an interface in its table; `usize::MAX` marks an id that was
/// never assigned.
#[derive(Debug, Clone, Copy, PartialEq, Eq, Hash, Structural)]
pub struct IntfId(pub usize);

impl IntfId {
    /// The id that no interface carries.
    #[allow(non_snake_case)]
    pub fn Invalid() -> (res: Self)
        ensures
            res.0 == usize::MAX,
    {
        IntfId(usize::MAX)
    }

    /// The raw index of a valid id.
    pub fn unwrap(&self) -> (res: usize)
        requires
            self.0 != usize::MAX,
        ensures
            res == self.0,
    {
        self.0
    }
}

/// The index of an extension in its table; `usize::MAX` marks an id that was
/// never assigned.
#[derive(Debug, Clone, Copy, PartialEq, Eq, Hash, Structural)]
pub struct ExtensionId(pub usize);

impl ExtensionId {
    /// The id that no extension carries.
    #[allow(non_snake_case)]
    pub fn Invalid() -> (res: Self)
        ensures
            res.0 == usize::MAX,
    {
        ExtensionId(usize::MAX)
    }

    /// The raw index of a valid id.
    pub fn unwrap(&self) -> (res: usize)
        requires
            self.0 != usize::MAX,
        ensures
            res == self.0,
    {
        self.0
    }
}

} // verus!
