use std::collections::HashMap;
use vstd::prelude::*;
use vstd::std_specs::iter::IteratorSpec;

use crate::hir::{Binding, DefId, DefSpace, HirId};
use crate::intf::ExtensionId;
use crate::symbol::Symbol;
use crate::ty::TyId;
use crate::ty_ctx::{map_get, map_get_mut};

verus! {

broadcast use vstd::std_specs::hash::group_hash_axioms;

/// A named type that extensions attach to: one definition, or every type.
#[derive(Debug, Clone, Copy, PartialEq, Eq, Hash, Structural)]
pub enum ExtNominalTargetKind {
    Def(DefId),
    Blanket,
}

/// What an extension attaches to: a named type, tuples of one length,
/// slices, arrays or references.
#[derive(Debug, Clone, Copy, PartialEq, Eq, Hash, Structural)]
pub enum ExtTargetKind {
    Nominal(ExtNominalTargetKind),
    Tuple(usize),
    Slice,
    Array,
    Ref,
}

/// An extension: the items it adds, by name, in the type namespace
/// (`types`) and in the value namespace (`values`); the type it extends, once
/// known; its node; and how many generic parameters it has.
#[derive(Debug)]
pub struct Extension {
    pub types: HashMap<usize, Binding>,
    pub values: HashMap<usize, Binding>,
    pub target: Option<TyId>,
    pub hir_id: HirId,
    pub generic_param_count: u8,
}

/// The item named `name` in namespace `space` of extension `e`, if any.
pub open spec fn ext_item(e: Extension, space: DefSpace, name: Symbol) -> Option<Binding> {
    match space {
        DefSpace::Type => map_get(e.types@, name.0),
        DefSpace::Value => map_get(e.values@, name.0),
    }
}

/// A name that two extensions both define: the namespace and the name, and
/// the binding in each.
pub type Collision = ((DefSpace, Symbol), Binding, Binding);

/// Appends, for each name that `mine` and `theirs` both bind, the name in
/// `space` with both bindings.
fn collide_into(
    mine: &HashMap<usize, Binding>,
    theirs: &HashMap<usize, Binding>,
    space: DefSpace,
    out: &mut Vec<Collision>,
)
    ensures
        final(out)@.len() >= old(out)@.len(),
        forall|i: int| 0 <= i < old(out)@.len() ==> #[trigger] final(out)@[i] == old(out)@[i],
        forall|i: int|
            old(out)@.len() <= i < final(out)@.len() ==> {
                let c = #[trigger] final(out)@[i];
                &&& c.0.0 == space
                &&& map_get(mine@, c.0.1.0) == Some(c.1)
                &&& map_get(theirs@, c.0.1.0) == Some(c.2)
            },
        forall|k: usize|
            mine@.contains_key(k) && #[trigger] theirs@.contains_key(k) ==> exists|i: int|
                old(out)@.len() <= i < final(out)@.len() && final(out)@[i].0.1 == Symbol(k),
        forall|i: int, j: int|
            old(out)@.len() <= i < j < final(out)@.len() ==> #[trigger] final(out)@[i].0.1
                != #[trigger] final(out)@[j].0.1,
{
    let ghost start = out@.len();
    let ghost s = vstd::std_specs::hash::spec_hash_map_iter(mine).remaining();
    let ghost picked: Seq<int> = Seq::empty();
    for kv in it: mine.iter()
        invariant
            it.seq() == s,
            s.no_duplicates(),
            out@.len() >= start,
            start == old(out)@.len(),
            forall|i: int| 0 <= i < start ==> #[trigger] out@[i] == old(out)@[i],
            picked.len() == out@.len() - start,
            forall|i: int|
                0 <= i < picked.len() ==> 0 <= #[trigger] picked[i] < it.index() && out@[start
                    + i] == ((space, Symbol(*s[picked[i]].0)), *s[picked[i]].1, theirs@[*s[picked[i]].0])
                    && theirs@.contains_key(*s[picked[i]].0),
            forall|i: int, j: int| 0 <= i < j < picked.len() ==> #[trigger] picked[i] < #[trigger] picked[j],
            forall|j: int|
                0 <= j < it.index() && theirs@.contains_key(*s[j].0) ==> exists|i: int|
                    0 <= i < picked.len() && #[trigger] picked[i] == j,
    {
        let (k, v) = kv;
        let ghost before = picked;
        match theirs.get(k) {
            Some(b) => {
                proof {
                    picked = picked.push(it.index() as int);
                    assert(picked[picked.len() - 1] == it.index());
                }
                out.push(((space, Symbol(*k)), *v, *b));
            },
            None => {},
        }
        proof {
            assert forall|j: int|
                0 <= j < it.index() && theirs@.contains_key(*s[j].0) implies exists|i: int|
                    0 <= i < picked.len() && #[trigger] picked[i] == j by {
                let i = choose|i: int| 0 <= i < before.len() && #[trigger] before[i] == j;
                assert(picked[i] == before[i]);
            }
        }
    }
    proof {
        assert forall|i: int|
            start <= i < out@.len() implies {
            let c = #[trigger] out@[i];
            &&& c.0.0 == space
            &&& map_get(mine@, c.0.1.0) == Some(c.1)
            &&& map_get(theirs@, c.0.1.0) == Some(c.2)
        } by {
            let p = picked[i - start];
            assert(mine@.contains_key(*s[p].0));
        }
        assert forall|k: usize| mine@.contains_key(k) && #[trigger] theirs@.contains_key(k) implies exists|i: int|
            start <= i < out@.len() && out@[i].0.1 == Symbol(k) by {
            assert(s.contains((&k, &mine@[k])));
            let j = choose|j: int| 0 <= j < s.len() && s[j] == (&k, &mine@[k]);
            let i = choose|i: int| 0 <= i < picked.len() && picked[i] == j;
            assert(out@[start + i].0.1 == Symbol(k));
        }
        assert forall|i: int, j: int| start <= i < j < out@.len() implies #[trigger] out@[i].0.1
            != #[trigger] out@[j].0.1 by {
            let p = picked[i - start];
            let q = picked[j - start];
            assert(p < q);
            if *s[p].0 == *s[q].0 {
                assert(mine@[*s[p].0] == *s[p].1);
                assert(mine@[*s[q].0] == *s[q].1);
                assert(s[p] == s[q]);
            }
        }
    }
}

impl Extension {
    pub fn new(
        hir_id: HirId,
        generic_param_count: u8,
        target: Option<TyId>,
        types: HashMap<usize, Binding>,
        values: HashMap<usize, Binding>,
    ) -> (res: Self)
        ensures
            res.hir_id == hir_id,
            res.generic_param_count == generic_param_count,
            res.target == target,
            res.types@ == types@,
            res.values@ == values@,
    {
        Extension { types, values, target, hir_id, generic_param_count }
    }

    /// The type extended, once known.
    pub fn get_target(&self) -> (res: Option<TyId>)
        ensures
            res == self.target,
    {
        self.target
    }

    /// The type extended, which must be known.
    pub fn expect_target(&self) -> (res: TyId)
        requires
            self.target is Some,
        ensures
            Some(res) == self.target,
    {
        self.target.unwrap()
    }

    /// Records the type extended.
    pub fn attach_target(&mut self, target: TyId)
        ensures
            final(self).target == Some(target),
            final(self).types@ == old(self).types@,
            final(self).values@ == old(self).values@,
            final(self).hir_id == old(self).hir_id,
            final(self).generic_param_count == old(self).generic_param_count,
    {
        self.target = Some(target);
    }

    /// The item named `name` in namespace `space`, if any.
    pub fn get(&self, space: DefSpace, name: Symbol) -> (res: Option<&Binding>)
        ensures
            match res {
                Some(b) => ext_item(*self, space, name) == Some(*b),
                None => ext_item(*self, space, name) is None,
            },
    {
        match space {
            DefSpace::Type => self.types.get(&name.0),
            DefSpace::Value => self.values.get(&name.0),
        }
    }

    /// The item named `name` in namespace `space`, to change in place.
    pub fn get_mut(&mut self, space: DefSpace, name: Symbol) -> (res: Option<&mut Binding>)
        ensures
            final(self).target == old(self).target,
            final(self).hir_id == old(self).hir_id,
            final(self).generic_param_count == old(self).generic_param_count,
            match res {
                Some(b) => {
                    &&& ext_item(*old(self), space, name) == Some(*b)
                    &&& match space {
                        DefSpace::Type => final(self).types@ == old(self).types@.insert(
                            name.0,
                            *final(b),
                        ) && final(self).values@ == old(self).values@,
                        DefSpace::Value => final(self).values@ == old(self).values@.insert(
                            name.0,
                            *final(b),
                        ) && final(self).types@ == old(self).types@,
                    }
                },
                None => {
                    &&& ext_item(*old(self), space, name) is None
                    &&& final(self).types@ == old(self).types@
                    &&& final(self).values@ == old(self).values@
                },
            },
    {
        match space {
            DefSpace::Type => map_get_mut(&mut self.types, name.0),
            DefSpace::Value => map_get_mut(&mut self.values, name.0),
        }
    }

    /// The names that this extension and `ext` both define, each once, with
    /// the binding of each; the order is that of the hash maps.
    pub fn collisions(&self, ext: &Extension) -> (res: Vec<Collision>)
        ensures
            forall|i: int|
                0 <= i < res@.len() ==> {
                    let c = #[trigger] res@[i];
                    &&& ext_item(*self, c.0.0, c.0.1) == Some(c.1)
                    &&& ext_item(*ext, c.0.0, c.0.1) == Some(c.2)
                },
            forall|space: DefSpace, name: Symbol|
                ext_item(*self, space, name) is Some && #[trigger] ext_item(*ext, space, name) is Some
                    ==> exists|i: int| 0 <= i < res@.len() && res@[i].0 == (space, name),
            forall|i: int, j: int|
                0 <= i < j < res@.len() ==> #[trigger] res@[i].0 != #[trigger] res@[j].0,
    {
        let mut out: Vec<Collision> = Vec::new();
        collide_into(&self.types, &ext.types, DefSpace::Type, &mut out);
        let ghost mid = out@;
        collide_into(&self.values, &ext.values, DefSpace::Value, &mut out);
        proof {
            assert forall|space: DefSpace, name: Symbol|
                ext_item(*self, space, name) is Some && #[trigger] ext_item(*ext, space, name) is Some
                    implies exists|i: int| 0 <= i < out@.len() && out@[i].0 == (space, name) by {
                match space {
                    DefSpace::Type => {
                        assert(self.types@.contains_key(name.0) && ext.types@.contains_key(name.0));
                        let i = choose|i: int| 0 <= i < mid.len() && mid[i].0.1 == Symbol(name.0);
                        assert(out@[i] == mid[i]);
                        assert(mid[i].0.0 == DefSpace::Type);
                    },
                    DefSpace::Value => {
                        assert(self.values@.contains_key(name.0) && ext.values@.contains_key(name.0));
                        let i = choose|i: int|
                            mid.len() <= i < out@.len() && out@[i].0.1 == Symbol(name.0);
                        assert(out@[i].0.0 == DefSpace::Value);
                    },
                }
            }
            assert forall|i: int| 0 <= i < out@.len() implies {
                let c = #[trigger] out@[i];
                &&& ext_item(*self, c.0.0, c.0.1) == Some(c.1)
                &&& ext_item(*ext, c.0.0, c.0.1) == Some(c.2)
            } by {
                if i < mid.len() {
                    assert(out@[i] == mid[i]);
                }
            }
            assert forall|i: int, j: int| 0 <= i < j < out@.len() implies #[trigger] out@[i].0
                != #[trigger] out@[j].0 by {
                if i < mid.len() {
                    assert(out@[i] == mid[i]);
                    if j < mid.len() {
                        assert(out@[j] == mid[j]);
                        assert(mid[i].0.1 != mid[j].0.1);
                    } else {
                        assert(out@[i].0.0 == DefSpace::Type);
                        assert(out@[j].0.0 == DefSpace::Value);
                    }
                }
            }
        }
        out
    }
}

/// The map that a list of targets with their extensions stands for.
pub open spec fn assoc_map(l: Seq<(ExtTargetKind, Seq<ExtensionId>)>) -> Map<
    ExtTargetKind,
    Seq<ExtensionId>,
> {
    Map::new(
        |t: ExtTargetKind| exists|i: int| 0 <= i < l.len() && l[i].0 == t,
        |t: ExtTargetKind| l[choose|i: int| 0 <= i < l.len() && l[i].0 == t].1,
    )
}

/// No target stands twice in the list.
pub open spec fn targets_distinct(l: Seq<(ExtTargetKind, Seq<ExtensionId>)>) -> bool {
    forall|i: int, j: int| 0 <= i < j < l.len() ==> #[trigger] l[i].0 != #[trigger] l[j].0
}

/// The list of targets with their extensions, as sequences.
pub open spec fn native_view(l: Seq<(ExtTargetKind, Vec<ExtensionId>)>) -> Seq<
    (ExtTargetKind, Seq<ExtensionId>),
> {
    l.map_values(|p: (ExtTargetKind, Vec<ExtensionId>)| (p.0, p.1@))
}

/// The first extension among `ids`, in order, that has an item named `name`
/// in namespace `space`, with that item.
pub open spec fn search(ids: Seq<ExtensionId>, data: Seq<Extension>, space: DefSpace, name: Symbol) -> Option<
    (ExtensionId, Binding),
>
    decreases ids.len(),
{
    if ids.len() == 0 {
        None
    } else {
        match ext_item(data[ids[0].0 as int], space, name) {
            Some(b) => Some((ids[0], b)),
            None => search(ids.drop_first(), data, space, name),
        }
    }
}

/// Searching `ids` in order reads only extensions that exist: every id up to
/// the first extension with the item names an extension of `data`.
pub open spec fn searchable(ids: Seq<ExtensionId>, data: Seq<Extension>, space: DefSpace, name: Symbol) -> bool
    decreases ids.len(),
{
    if ids.len() == 0 {
        true
    } else {
        &&& ids[0].0 != usize::MAX
        &&& (ids[0].0 as int) < data.len()
        &&& (ext_item(data[ids[0].0 as int], space, name) is None ==> searchable(
            ids.drop_first(),
            data,
            space,
            name,
        ))
    }
}

/// A search finds an extension among those searched that has the item, and
/// gives its item; a search that finds nothing passed over only extensions
/// without it.
pub proof fn law_search_finds_attached_item(
    ids: Seq<ExtensionId>,
    data: Seq<Extension>,
    space: DefSpace,
    name: Symbol,
)
    requires
        searchable(ids, data, space, name),
    ensures
        match search(ids, data, space, name) {
            Some((e, b)) => ids.contains(e) && ext_item(data[e.0 as int], space, name) == Some(b),
            None => forall|i: int|
                0 <= i < ids.len() ==> ext_item(data[#[trigger] ids[i].0 as int], space, name) is None,
        },
    decreases ids.len(),
{
    if ids.len() > 0 {
        match ext_item(data[ids[0].0 as int], space, name) {
            Some(b) => {
                assert(ids[0] == ids[0]);
                assert(ids.contains(ids[0]));
            },
            None => {
                law_search_finds_attached_item(ids.drop_first(), data, space, name);
                match search(ids.drop_first(), data, space, name) {
                    Some((e, b)) => {
                        let k = choose|k: int| 0 <= k < ids.drop_first().len() && ids.drop_first()[k] == e;
                        assert(ids[k + 1] == e);
                    },
                    None => {
                        assert forall|i: int| 0 <= i < ids.len() implies ext_item(
                            data[#[trigger] ids[i].0 as int],
                            space,
                            name,
                        ) is None by {
                            if i > 0 {
                                assert(ids[i] == ids.drop_first()[i - 1]);
                            }
                        }
                    },
                }
            },
        }
    }
}

/// What is attached can be read back: after `attach_hir_ext(hir_id, ext)`
/// (the relation between the tables before and after that its contract
/// states), node `hir_id` has the returned id, that id names `ext`, and every
/// other node keeps its extension.
pub proof fn law_attach_hir_then_get(
    before: ExtensionTable,
    after: ExtensionTable,
    hir_id: HirId,
    ext: Extension,
    id: ExtensionId,
)
    requires
        before.spec_data().len() < usize::MAX,
        id.0 == before.spec_data().len(),
        after.spec_data() == before.spec_data().push(ext),
        after.spec_hir_exts() == before.spec_hir_exts().insert(hir_id.0, id),
    ensures
        map_get(after.spec_hir_exts(), hir_id.0) == Some(id),
        id.0 != usize::MAX,
        (id.0 as int) < after.spec_data().len(),
        after.spec_data()[id.0 as int] == ext,
        forall|h: usize|
            h != hir_id.0 ==> #[trigger] map_get(after.spec_hir_exts(), h) == map_get(
                before.spec_hir_exts(),
                h,
            ),
{
}

/// Attaching to a target appends to that target's extensions and leaves
/// every other target's as it was: after `attach_id(target, id)` (the relation
/// its contract states), the extensions of `target` are those before followed
/// by `id`.
pub proof fn law_attach_appends(
    before: ExtensionTable,
    after: ExtensionTable,
    target: ExtTargetKind,
    id: ExtensionId,
)
    requires
        after.spec_native() == before.spec_native().insert(target, before.native_of(target).push(id)),
    ensures
        after.native_of(target) == before.native_of(target).push(id),
        forall|t: ExtTargetKind| t != target ==> #[trigger] after.native_of(t) == before.native_of(t),
{
}

/// The extensions of a compilation: each at the index its id names, those
/// attached to each target in the order attached, and those attached to
/// nodes.
#[derive(Debug)]
pub struct ExtensionTable {
    data: Vec<Extension>,
    native: Vec<(ExtTargetKind, Vec<ExtensionId>)>,
    hir_map: HashMap<usize, ExtensionId>,
}

impl ExtensionTable {
    /// The extensions, by index.
    pub closed spec fn spec_data(&self) -> Seq<Extension> {
        self.data@
    }

    /// The targets with their extensions, each target once.
    pub closed spec fn spec_native_list(&self) -> Seq<(ExtTargetKind, Seq<ExtensionId>)> {
        native_view(self.native@)
    }

    /// The extensions attached to each target, in the order attached.
    pub open spec fn spec_native(&self) -> Map<ExtTargetKind, Seq<ExtensionId>> {
        assoc_map(self.spec_native_list())
    }

    /// The extensions attached to `target`; none where nothing is attached.
    pub open spec fn native_of(&self, target: ExtTargetKind) -> Seq<ExtensionId> {
        if self.spec_native().contains_key(target) {
            self.spec_native()[target]
        } else {
            Seq::empty()
        }
    }

    /// The extension attached to each node, by node index.
    pub closed spec fn spec_hir_exts(&self) -> Map<usize, ExtensionId> {
        self.hir_map@
    }

    /// Each target stands once in the list.
    pub open spec fn wf(&self) -> bool {
        targets_distinct(self.spec_native_list())
    }

    pub fn new() -> (res: Self)
        ensures
            res.wf(),
            res.spec_data().len() == 0,
            res.spec_native() == Map::<ExtTargetKind, Seq<ExtensionId>>::empty(),
            res.spec_hir_exts() == Map::<usize, ExtensionId>::empty(),
    {
        let res = ExtensionTable { data: Vec::new(), native: Vec::new(), hir_map: HashMap::new() };
        assert(res.spec_native() =~= Map::<ExtTargetKind, Seq<ExtensionId>>::empty());
        res
    }

    /// The targets with their extensions, each target once.
    pub fn native_exts(&self) -> (res: &Vec<(ExtTargetKind, Vec<ExtensionId>)>)
        requires
            self.wf(),
        ensures
            targets_distinct(native_view(res@)),
            assoc_map(native_view(res@)) == self.spec_native(),
    {
        &self.native
    }

    /// The same as [`ExtensionTable::native_exts`].
    pub fn get_all_native_exts(&self) -> (res: &Vec<(ExtTargetKind, Vec<ExtensionId>)>)
        requires
            self.wf(),
        ensures
            targets_distinct(native_view(res@)),
            assoc_map(native_view(res@)) == self.spec_native(),
    {
        &self.native
    }

    /// Whether some extension is attached to some target.
    pub fn native_exts_resolved(&self) -> (res: bool)
        ensures
            res == exists|t: ExtTargetKind| self.spec_native().contains_key(t),
    {
        if self.native.len() > 0 {
            assert(self.spec_native().contains_key(self.spec_native_list()[0].0));
            true
        } else {
            false
        }
    }

    /// The nodes that have an extension attached.
    pub fn hir_ids(&self) -> (res: Vec<HirId>)
        ensures
            res@.no_duplicates(),
            forall|h: HirId| res@.contains(h) <==> self.spec_hir_exts().contains_key(h.0),
    {
        let mut res: Vec<HirId> = Vec::new();
        let ghost s = vstd::std_specs::hash::spec_keys_iter(&self.hir_map).remaining();
        for k in it: self.hir_map.keys()
            invariant
                it.seq() == s,
                res@.len() == it.index(),
                forall|i: int| 0 <= i < it.index() ==> res@[i] == HirId(*s[i]),
        {
            res.push(HirId(*k));
        }
        proof {
            assert(res@.len() == s.len());
            assert forall|h: HirId| res@.contains(h) <==> self.spec_hir_exts().contains_key(h.0) by {
                if res@.contains(h) {
                    let i = choose|i: int| 0 <= i < res@.len() && res@[i] == h;
                    assert(s.unref()[i] == *s[i]);
                    assert(s.unref().contains(*s[i]));
                    assert(s.unref().to_set().contains(*s[i]));
                } else if self.spec_hir_exts().contains_key(h.0) {
                    assert(s.unref().to_set().contains(h.0));
                    assert(s.unref().contains(h.0));
                    let i = choose|i: int| 0 <= i < s.unref().len() && s.unref()[i] == h.0;
                    assert(res@[i] == h);
                }
            }
            assert forall|i: int, j: int| 0 <= i < res@.len() && 0 <= j < res@.len() && i != j implies res@[i] != res@[j] by {
                assert(s.no_duplicates());
            }
        }
        res
    }

    /// The nodes that have an extension attached, with their extensions.
    pub fn hir_mapping(&self) -> (res: Vec<(HirId, ExtensionId)>)
        ensures
            res@.len() == self.spec_hir_exts().len(),
            forall|i: int|
                #![trigger res@[i]]
                0 <= i < res@.len() ==> self.spec_hir_exts().contains_key(res@[i].0.0)
                    && self.spec_hir_exts()[res@[i].0.0] == res@[i].1,
            forall|k: usize|
                #[trigger] self.spec_hir_exts().contains_key(k) ==> exists|i: int|
                    0 <= i < res@.len() && res@[i].0 == HirId(k),
    {
        let mut res: Vec<(HirId, ExtensionId)> = Vec::new();
        let ghost s = vstd::std_specs::hash::spec_hash_map_iter(&self.hir_map).remaining();
        for kv in it: self.hir_map.iter()
            invariant
                it.seq() == s,
                res@.len() == it.index(),
                forall|i: int| 0 <= i < it.index() ==> res@[i] == (HirId(*s[i].0), *s[i].1),
        {
            let (k, v) = kv;
            res.push((HirId(*k), *v));
        }
        proof {
            assert(res@.len() == s.len());
            assert forall|k: usize| #[trigger] self.spec_hir_exts().contains_key(k) implies exists|i: int|
                0 <= i < res@.len() && res@[i].0 == HirId(k) by {
                assert(s.contains((&k, &self.spec_hir_exts()[k])));
                let i = choose|i: int| 0 <= i < s.len() && s[i] == (&k, &self.spec_hir_exts()[k]);
                assert(res@[i].0 == HirId(k));
            }
            assert forall|i: int| #![trigger res@[i]] 0 <= i < res@.len() implies self.spec_hir_exts().contains_key(res@[i].0.0)
                && self.spec_hir_exts()[res@[i].0.0] == res@[i].1 by {
                assert(self.hir_map@.contains_key(*s[i].0));
            }
        }
        res
    }

    /// Adds `ext` after the extensions already there; its id is its index.
    pub fn insert(&mut self, ext: Extension) -> (res: ExtensionId)
        requires
            old(self).spec_data().len() < usize::MAX,
        ensures
            res.0 == old(self).spec_data().len(),
            final(self).spec_data() == old(self).spec_data().push(ext),
            final(self).spec_native_list() == old(self).spec_native_list(),
            final(self).spec_hir_exts() == old(self).spec_hir_exts(),
    {
        self.data.push(ext);
        ExtensionId(self.data.len() - 1)
    }

    /// The extension with id `id`.
    pub fn get(&self, id: ExtensionId) -> (res: &Extension)
        requires
            id.0 != usize::MAX,
            (id.0 as int) < self.spec_data().len(),
        ensures
            *res == self.spec_data()[id.0 as int],
    {
        &self.data[id.unwrap()]
    }

    /// The extension with id `id`, to change in place.
    pub fn get_mut(&mut self, id: ExtensionId) -> (res: &mut Extension)
        requires
            id.0 != usize::MAX,
            (id.0 as int) < old(self).spec_data().len(),
        ensures
            *res == old(self).spec_data()[id.0 as int],
            final(self).spec_data() == old(self).spec_data().update(id.0 as int, *final(res)),
            final(self).spec_native_list() == old(self).spec_native_list(),
            final(self).spec_hir_exts() == old(self).spec_hir_exts(),
    {
        &mut self.data[id.unwrap()]
    }

    /// The extension attached to node `hir_id`, if any.
    pub fn get_hir_ext_id(&self, hir_id: HirId) -> (res: Option<ExtensionId>)
        ensures
            res == map_get(self.spec_hir_exts(), hir_id.0),
    {
        match self.hir_map.get(&hir_id.0) {
            Some(id) => Some(*id),
            None => None,
        }
    }

    /// The extension attached to node `hir_id`, if any; the id attached must
    /// name an extension.
    pub fn get_hir_ext(&self, hir_id: HirId) -> (res: Option<&Extension>)
        requires
            self.spec_hir_exts().contains_key(hir_id.0) ==> {
                let id = self.spec_hir_exts()[hir_id.0];
                id.0 != usize::MAX && (id.0 as int) < self.spec_data().len()
            },
        ensures
            match res {
                Some(e) => self.spec_hir_exts().contains_key(hir_id.0) && *e
                    == self.spec_data()[self.spec_hir_exts()[hir_id.0].0 as int],
                None => !self.spec_hir_exts().contains_key(hir_id.0),
            },
    {
        match self.hir_map.get(&hir_id.0) {
            Some(id) => Some(self.get(*id)),
            None => None,
        }
    }

    /// The extension attached to node `hir_id`, to change in place, if any;
    /// the id attached must name an extension.
    pub fn get_hir_mut_ext(&mut self, hir_id: HirId) -> (res: Option<&mut Extension>)
        requires
            old(self).spec_hir_exts().contains_key(hir_id.0) ==> {
                let id = old(self).spec_hir_exts()[hir_id.0];
                id.0 != usize::MAX && (id.0 as int) < old(self).spec_data().len()
            },
        ensures
            final(self).spec_native_list() == old(self).spec_native_list(),
            final(self).spec_hir_exts() == old(self).spec_hir_exts(),
            match res {
                Some(e) => {
                    let i = old(self).spec_hir_exts()[hir_id.0].0 as int;
                    &&& old(self).spec_hir_exts().contains_key(hir_id.0)
                    &&& *e == old(self).spec_data()[i]
                    &&& final(self).spec_data() == old(self).spec_data().update(i, *final(e))
                },
                None => !old(self).spec_hir_exts().contains_key(hir_id.0) && final(self).spec_data()
                    == old(self).spec_data(),
            },
    {
        let id = self.get_hir_ext_id(hir_id);
        match id {
            Some(id) => Some(self.get_mut(id)),
            None => None,
        }
    }

    /// The extension attached to node `hir_id`, which must have one.
    pub fn expect_hir_ext_id(&self, hir_id: HirId) -> (res: ExtensionId)
        requires
            self.spec_hir_exts().contains_key(hir_id.0),
        ensures
            res == self.spec_hir_exts()[hir_id.0],
    {
        self.get_hir_ext_id(hir_id).unwrap()
    }

    /// The extension attached to node `hir_id`, which must have one that
    /// names an extension.
    pub fn expect_hir_ext(&self, hir_id: HirId) -> (res: &Extension)
        requires
            self.spec_hir_exts().contains_key(hir_id.0),
            self.spec_hir_exts()[hir_id.0].0 != usize::MAX,
            (self.spec_hir_exts()[hir_id.0].0 as int) < self.spec_data().len(),
        ensures
            *res == self.spec_data()[self.spec_hir_exts()[hir_id.0].0 as int],
    {
        self.get(self.expect_hir_ext_id(hir_id))
    }

    /// The extension attached to node `hir_id`, to change in place, which
    /// must have one that names an extension.
    pub fn expect_hir_mut_ext(&mut self, hir_id: HirId) -> (res: &mut Extension)
        requires
            old(self).spec_hir_exts().contains_key(hir_id.0),
            old(self).spec_hir_exts()[hir_id.0].0 != usize::MAX,
            (old(self).spec_hir_exts()[hir_id.0].0 as int) < old(self).spec_data().len(),
        ensures
            *res == old(self).spec_data()[old(self).spec_hir_exts()[hir_id.0].0 as int],
            final(self).spec_data() == old(self).spec_data().update(
                old(self).spec_hir_exts()[hir_id.0].0 as int,
                *final(res),
            ),
            final(self).spec_native_list() == old(self).spec_native_list(),
            final(self).spec_hir_exts() == old(self).spec_hir_exts(),
    {
        let id = self.expect_hir_ext_id(hir_id);
        self.get_mut(id)
    }

    /// Adds `ext` and attaches it to `target`, after the extensions already
    /// attached there.
    pub fn attach(&mut self, target: ExtTargetKind, ext: Extension) -> (res: ExtensionId)
        requires
            old(self).wf(),
            old(self).spec_data().len() < usize::MAX,
        ensures
            final(self).wf(),
            res.0 == old(self).spec_data().len(),
            final(self).spec_data() == old(self).spec_data().push(ext),
            final(self).spec_native() == old(self).spec_native().insert(
                target,
                old(self).native_of(target).push(res),
            ),
            final(self).spec_hir_exts() == old(self).spec_hir_exts(),
    {
        let ext_id = self.insert(ext);
        self.attach_id(target, ext_id);
        ext_id
    }

    /// Attaches extension `ext_id` to `target`, after the extensions already
    /// attached there.
    pub fn attach_id(&mut self, target: ExtTargetKind, ext_id: ExtensionId)
        requires
            old(self).wf(),
        ensures
            final(self).wf(),
            final(self).spec_data() == old(self).spec_data(),
            final(self).spec_native() == old(self).spec_native().insert(
                target,
                old(self).native_of(target).push(ext_id),
            ),
            final(self).spec_hir_exts() == old(self).spec_hir_exts(),
    {
        let ghost l0 = self.spec_native_list();
        let mut i: usize = 0;
        while i < self.native.len()
            invariant
                self.native@ == old(self).native@,
                self.data@ == old(self).data@,
                self.hir_map@ == old(self).hir_map@,
                l0 == self.spec_native_list(),
                targets_distinct(l0),
                i <= self.native@.len(),
                forall|j: int| 0 <= j < i ==> (#[trigger] l0[j]).0 != target,
            decreases self.native@.len() - i,
        {
            if self.native[i].0 == target {
                let ghost idx = i as int;
                assert(l0[idx].0 == target);
                self.native[i].1.push(ext_id);
                proof {
                    let l1 = self.spec_native_list();
                    assert(l1 =~= l0.update(idx, (target, l0[idx].1.push(ext_id))));
                    assert(old(self).spec_native().contains_key(target));
                    let c = choose|k: int| 0 <= k < l0.len() && l0[k].0 == target;
                    assert(c == idx);
                    assert forall|t: ExtTargetKind| #[trigger] assoc_map(l1).contains_key(t)
                        == old(self).spec_native().insert(target, l0[idx].1.push(ext_id)).contains_key(t) by {
                        if assoc_map(l0).contains_key(t) {
                            let k = choose|k: int| 0 <= k < l0.len() && l0[k].0 == t;
                            assert(l1[k].0 == t);
                        }
                        if assoc_map(l1).contains_key(t) {
                            let k = choose|k: int| 0 <= k < l1.len() && l1[k].0 == t;
                            assert(l0[k].0 == t);
                        }
                    }
                    assert forall|t: ExtTargetKind| #[trigger] assoc_map(l1).contains_key(t) implies assoc_map(l1)[t]
                        == old(self).spec_native().insert(target, l0[idx].1.push(ext_id))[t] by {
                        let k1 = choose|k: int| 0 <= k < l1.len() && l1[k].0 == t;
                        let k0 = choose|k: int| 0 <= k < l0.len() && l0[k].0 == t;
                        assert(l0[k1].0 == t);
                        assert(k0 == k1);
                    }
                    assert(assoc_map(l1) =~= old(self).spec_native().insert(target, l0[idx].1.push(ext_id)));
                    assert forall|a: int, b: int| 0 <= a < b < l1.len() implies #[trigger] l1[a].0
                        != #[trigger] l1[b].0 by {
                        assert(l1[a].0 == l0[a].0 && l1[b].0 == l0[b].0);
                    }
                }
                return;
            }
            i = i + 1;
        }
        let mut v: Vec<ExtensionId> = Vec::new();
        v.push(ext_id);
        self.native.push((target, v));
        proof {
            let l1 = self.spec_native_list();
            assert(l1 =~= l0.push((target, seq![ext_id])));
            assert(!old(self).spec_native().contains_key(target));
            assert(old(self).native_of(target).push(ext_id) =~= seq![ext_id]);
            assert forall|t: ExtTargetKind| #[trigger] assoc_map(l1).contains_key(t)
                == old(self).spec_native().insert(target, seq![ext_id]).contains_key(t) by {
                if assoc_map(l0).contains_key(t) {
                    let k = choose|k: int| 0 <= k < l0.len() && l0[k].0 == t;
                    assert(l1[k].0 == t);
                }
                if t == target {
                    assert(l1[l0.len() as int].0 == t);
                }
            }
            assert forall|t: ExtTargetKind| #[trigger] assoc_map(l1).contains_key(t) implies assoc_map(l1)[t]
                == old(self).spec_native().insert(target, seq![ext_id])[t] by {
                let k1 = choose|k: int| 0 <= k < l1.len() && l1[k].0 == t;
                if t == target {
                    assert(k1 == l0.len());
                } else {
                    let k0 = choose|k: int| 0 <= k < l0.len() && l0[k].0 == t;
                    assert(k1 < l0.len());
                    assert(k0 == k1);
                }
            }
            assert(assoc_map(l1) =~= old(self).spec_native().insert(target, seq![ext_id]));
        }
    }

    /// Adds `ext` and attaches it to node `hir_id`.
    pub fn attach_hir_ext(&mut self, hir_id: HirId, ext: Extension) -> (res: ExtensionId)
        requires
            old(self).spec_data().len() < usize::MAX,
        ensures
            res.0 == old(self).spec_data().len(),
            final(self).spec_data() == old(self).spec_data().push(ext),
            final(self).spec_native_list() == old(self).spec_native_list(),
            final(self).spec_hir_exts() == old(self).spec_hir_exts().insert(hir_id.0, res),
    {
        let ext_id = self.insert(ext);
        self.attach_hir_ext_id(hir_id, ext_id);
        ext_id
    }

    /// Attaches extension `ext_id` to node `hir_id`, in place of any before.
    pub fn attach_hir_ext_id(&mut self, hir_id: HirId, ext_id: ExtensionId)
        ensures
            final(self).spec_data() == old(self).spec_data(),
            final(self).spec_native_list() == old(self).spec_native_list(),
            final(self).spec_hir_exts() == old(self).spec_hir_exts().insert(hir_id.0, ext_id),
    {
        self.hir_map.insert(hir_id.0, ext_id);
    }

    /// The extensions attached to `target`, in the order attached, or `None`
    /// where nothing is attached.
    pub fn get_native_exts(&self, target: ExtTargetKind) -> (res: Option<&[ExtensionId]>)
        requires
            self.wf(),
        ensures
            match res {
                Some(s) => self.spec_native().contains_key(target) && s@ == self.spec_native()[target],
                None => !self.spec_native().contains_key(target),
            },
    {
        let ghost l = self.spec_native_list();
        let mut i: usize = 0;
        while i < self.native.len()
            invariant
                l == self.spec_native_list(),
                targets_distinct(l),
                i <= self.native@.len(),
                forall|j: int| 0 <= j < i ==> (#[trigger] l[j]).0 != target,
            decreases self.native@.len() - i,
        {
            if self.native[i].0 == target {
                proof {
                    let c = choose|k: int| 0 <= k < l.len() && l[k].0 == target;
                    assert(l[i as int].0 == target);
                    assert(c == i);
                }
                return Some(self.native[i].1.as_slice());
            }
            i = i + 1;
        }
        None
    }

    /// The first extension, in the order attached, among those attached to
    /// `ids` that has an item named `name` in namespace `space`.
    fn find_in(&self, ids: &[ExtensionId], space: DefSpace, name: Symbol) -> (res: Option<(ExtensionId, Binding)>)
        requires
            searchable(ids@, self.spec_data(), space, name),
        ensures
            res == search(ids@, self.spec_data(), space, name),
    {
        let mut i: usize = 0;
        assert(ids@.subrange(0, ids@.len() as int) =~= ids@);
        while i < ids.len()
            invariant
                i <= ids@.len(),
                searchable(ids@.subrange(i as int, ids@.len() as int), self.spec_data(), space, name),
                search(ids@, self.spec_data(), space, name) == search(
                    ids@.subrange(i as int, ids@.len() as int),
                    self.spec_data(),
                    space,
                    name,
                ),
            decreases ids@.len() - i,
        {
            let ghost rest = ids@.subrange(i as int, ids@.len() as int);
            assert(rest[0] == ids@[i as int]);
            let id = ids[i];
            match self.get(id).get(space, name) {
                Some(b) => {
                    return Some((id, *b));
                },
                None => {},
            }
            assert(rest.drop_first() =~= ids@.subrange(i + 1, ids@.len() as int));
            i = i + 1;
        }
        None
    }

    /// The item named `name` in namespace `space` that an extension attached
    /// to `target` adds, with that extension: the first such extension in the
    /// order attached, or else the first such blanket extension.
    pub fn get_assoc_item(&self, target: ExtTargetKind, space: DefSpace, name: Symbol) -> (res: Option<(ExtensionId, Binding)>)
        requires
            self.wf(),
            searchable(self.native_of(target), self.spec_data(), space, name),
            search(self.native_of(target), self.spec_data(), space, name) is None ==> searchable(
                self.native_of(ExtTargetKind::Nominal(ExtNominalTargetKind::Blanket)),
                self.spec_data(),
                space,
                name,
            ),
        ensures
            res == match search(self.native_of(target), self.spec_data(), space, name) {
                Some(r) => Some(r),
                None => search(
                    self.native_of(ExtTargetKind::Nominal(ExtNominalTargetKind::Blanket)),
                    self.spec_data(),
                    space,
                    name,
                ),
            },
    {
        let found = match self.get_native_exts(target) {
            Some(ids) => self.find_in(ids, space, name),
            None => None,
        };
        match found {
            Some(r) => Some(r),
            None => match self.get_native_exts(ExtTargetKind::Nominal(ExtNominalTargetKind::Blanket)) {
                Some(ids) => self.find_in(ids, space, name),
                None => None,
            },
        }
    }
}

} // verus!
