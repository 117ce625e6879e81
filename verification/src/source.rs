use vstd::prelude::*;

verus! {

/// The index of a source in a [`SourceRegistry`]; `u16::MAX` marks an id that
/// was never assigned.
#[derive(Debug, Clone, Copy, PartialEq, Eq, Structural)]
pub struct SourceId(pub u16);

impl SourceId {
    /// The id that no registered source carries.
    #[allow(non_snake_case)]
    pub fn Invalid() -> (res: Self)
        ensures
            res.0 == u16::MAX,
    {
        SourceId(u16::MAX)
    }

    /// The raw index.
    pub fn data(&self) -> (res: u16)
        ensures
            res == self.0,
    {
        self.0
    }

    pub open spec fn spec_is_valid(&self) -> bool {
        self.0 != u16::MAX
    }

    /// Whether the id was assigned by a registry.
    pub fn is_valid(&self) -> (res: bool)
        ensures
            res == self.spec_is_valid(),
    {
        self.0 != u16::MAX
    }

    /// The raw index of a valid id.
    pub fn unwrap(&self) -> (res: u16)
        requires
            self.spec_is_valid(),
        ensures
            res == self.0,
    {
        self.0
    }
}

impl Default for SourceId {
    fn default() -> (res: Self)
        ensures
            res.0 == u16::MAX,
    {
        SourceId::Invalid()
    }
}

impl From<u16> for SourceId {
    fn from(value: u16) -> (res: Self) {
        SourceId(value)
    }
}

impl vstd::std_specs::convert::FromSpecImpl<u16> for SourceId {
    open spec fn obeys_from_spec() -> bool {
        true
    }

    open spec fn from_spec(value: u16) -> Self {
        SourceId(value)
    }
}

/// A source file: its id and path, and its text.
#[derive(Debug)]
pub struct Source {
    pub identifier: (SourceId, String),
    pub data: String,
}

impl Source {
    /// Whether a registry has assigned this source an id.
    pub fn is_registered(&self) -> (res: bool)
        ensures
            res == self.identifier.0.spec_is_valid(),
    {
        self.identifier.0.is_valid()
    }
}

/// The sources of a project, each at the index that its id names.
#[derive(Debug)]
pub struct SourceRegistry {
    sources: Vec<Source>,
}

/// The most sources a registry holds.
pub const SOURCE_REGISTRY_CAPACITY: usize = 65535;

impl SourceRegistry {
    /// The registered sources, in registration order.
    pub closed spec fn spec_sources(&self) -> Seq<Source> {
        self.sources@
    }

    /// Each source carries its own index as id, and the root is present.
    pub open spec fn wf(&self) -> bool {
        &&& 1 <= self.spec_sources().len() <= SOURCE_REGISTRY_CAPACITY
        &&& forall|i: int|
            0 <= i < self.spec_sources().len() ==> (#[trigger] self.spec_sources()[i]).identifier.0
                == SourceId(i as u16)
    }

    /// A registry whose root (id 0) is `source`.
    pub fn new(source: Source) -> (res: Self)
        ensures
            res.wf(),
            res.spec_sources().len() == 1,
            res.spec_sources()[0].identifier.0 == SourceId(0),
            res.spec_sources()[0].identifier.1 == source.identifier.1,
            res.spec_sources()[0].data == source.data,
    {
        let mut source = source;
        source.identifier.0 = SourceId(0);
        let mut sources = Vec::new();
        sources.push(source);
        SourceRegistry { sources }
    }

    /// The ids of all sources, in registration order.
    pub fn sources(&self) -> (res: Vec<SourceId>)
        ensures
            res@.len() == self.spec_sources().len(),
            forall|i: int|
                0 <= i < res@.len() ==> #[trigger] res@[i] == self.spec_sources()[i].identifier.0,
    {
        let mut res = Vec::new();
        let mut i: usize = 0;
        while i < self.sources.len()
            invariant
                i <= self.sources@.len(),
                res@.len() == i,
                forall|j: int| 0 <= j < i ==> #[trigger] res@[j] == self.sources@[j].identifier.0,
            decreases self.sources@.len() - i,
        {
            res.push(self.sources[i].identifier.0);
            i = i + 1;
        }
        res
    }

    /// The root source and its id.
    pub fn root(&self) -> (res: (SourceId, &Source))
        requires
            self.spec_sources().len() >= 1,
        ensures
            res.0 == SourceId(0),
            *res.1 == self.spec_sources()[0],
    {
        let id = SourceId(0);
        (id, &self.sources[id.unwrap() as usize])
    }

    /// Adds `source` under the next free id and returns that id.
    pub fn register(&mut self, source: Source) -> (res: SourceId)
        requires
            old(self).spec_sources().len() < SOURCE_REGISTRY_CAPACITY,
        ensures
            res == SourceId(old(self).spec_sources().len() as u16),
            final(self).spec_sources().len() == old(self).spec_sources().len() + 1,
            forall|i: int|
                0 <= i < old(self).spec_sources().len() ==> #[trigger] final(self).spec_sources()[i]
                    == old(self).spec_sources()[i],
            final(self).spec_sources().last().identifier.0 == res,
            final(self).spec_sources().last().identifier.1 == source.identifier.1,
            final(self).spec_sources().last().data == source.data,
            old(self).wf() ==> final(self).wf(),
    {
        let src_id = SourceId(self.sources.len() as u16);
        let mut source = source;
        source.identifier.0 = src_id;
        self.sources.push(source);
        src_id
    }

    /// The source with id `id`.
    pub fn get(&self, id: SourceId) -> (res: &Source)
        requires
            id.spec_is_valid(),
            (id.0 as int) < self.spec_sources().len(),
        ensures
            *res == self.spec_sources()[id.0 as int],
    {
        &self.sources[id.unwrap() as usize]
    }

    /// The source with id `id`, to change in place.
    pub fn get_mut(&mut self, id: SourceId) -> (res: &mut Source)
        requires
            id.spec_is_valid(),
            (id.0 as int) < old(self).spec_sources().len(),
        ensures
            *res == old(self).spec_sources()[id.0 as int],
            final(self).spec_sources() == old(self).spec_sources().update(id.0 as int, *final(res)),
    {
        let i = id.unwrap() as usize;
        &mut self.sources[i]
    }
}

/// One registration: the sources after are those before, with one more at
/// the end (the relation between the sources before and after that the
/// contract of `register` states).
pub open spec fn registered_step(before: Seq<Source>, after: Seq<Source>) -> bool {
    &&& after.len() == before.len() + 1
    &&& forall|i: int| 0 <= i < before.len() ==> #[trigger] after[i] == before[i]
}

/// Registrations never replace a source: after any number of registrations
/// (`states`, each related to the next by one registration), every source
/// registered before is still there, under the same index, and the count
/// has grown by the number of registrations.
pub proof fn law_registrations_keep_sources(states: Seq<Seq<Source>>, i: int)
    requires
        states.len() >= 1,
        forall|k: int| 0 <= k < states.len() - 1 ==> registered_step(#[trigger] states[k], states[k + 1]),
        0 <= i < states[0].len(),
    ensures
        states.last()[i] == states[0][i],
        states.last().len() == states[0].len() + states.len() - 1,
    decreases states.len(),
{
    if states.len() > 1 {
        let init = states.drop_last();
        assert forall|k: int| 0 <= k < init.len() - 1 implies registered_step(#[trigger] init[k], init[k + 1]) by {
            assert(init[k] == states[k] && init[k + 1] == states[k + 1]);
        }
        law_registrations_keep_sources(init, i);
        assert(registered_step(states[states.len() - 2], states[states.len() - 1]));
    }
}

/// The root stays source 0: after a registry is made and any number of
/// sources are registered, the source at index 0 is the one it was made with.
pub proof fn law_root_stays(states: Seq<Seq<Source>>)
    requires
        states.len() >= 1,
        states[0].len() >= 1,
        forall|k: int| 0 <= k < states.len() - 1 ==> registered_step(#[trigger] states[k], states[k + 1]),
    ensures
        states.last()[0] == states[0][0],
{
    law_registrations_keep_sources(states, 0);
}

/// A registered source is registered: the source that one registration adds
/// carries the id it was registered under, which is valid.
pub proof fn law_registered_is_registered(before: Seq<Source>, after: Seq<Source>, id: SourceId)
    requires
        before.len() < SOURCE_REGISTRY_CAPACITY,
        id == SourceId(before.len() as u16),
        after.len() == before.len() + 1,
        after.last().identifier.0 == id,
    ensures
        after.last().identifier.0.spec_is_valid(),
        after[id.0 as int].identifier.0 == id,
{
}

/// What a registry holds can be read back: after `register(source)` (the
/// relation between the sources before and after that its contract states),
/// `get` of the returned id gives the text and path of `source`, under that id,
/// and every earlier source is unchanged.
pub proof fn law_register_then_get(before: Seq<Source>, after: Seq<Source>, id: SourceId, source: Source)
    requires
        id == SourceId(before.len() as u16),
        after.len() == before.len() + 1,
        forall|i: int| 0 <= i < before.len() ==> #[trigger] after[i] == before[i],
        after.last().identifier.0 == id,
        after.last().identifier.1 == source.identifier.1,
        after.last().data == source.data,
        before.len() < SOURCE_REGISTRY_CAPACITY,
    ensures
        id.spec_is_valid(),
        (id.0 as int) < after.len(),
        after[id.0 as int].data == source.data,
        after[id.0 as int].identifier == (id, source.identifier.1),
        forall|i: int| 0 <= i < before.len() ==> #[trigger] after[i] == before[i],
{
}

/// A node of the source tree: one source.
#[derive(Debug)]
pub struct SourceNode {
    pub source: Source,
}

impl SourceNode {
    pub fn new(source: Source) -> (res: Self)
        ensures
            res.source == source,
    {
        SourceNode { source }
    }
}

/// The tree of a project's sources, rooted at the main source.
#[derive(Debug)]
pub struct SourceTree {
    pub root: SourceNode,
    counter: u16,
}

impl SourceTree {
    /// The number of ids handed out so far.
    pub closed spec fn spec_counter(&self) -> u16 {
        self.counter
    }

    /// The root node.
    pub closed spec fn spec_root(&self) -> SourceNode {
        self.root
    }

    /// A tree whose root is `root`, carrying id 0; the next id is 1.
    pub fn new(root: Source) -> (res: Self)
        ensures
            res.spec_root().source.identifier.0 == SourceId(0),
            res.spec_root().source.identifier.1 == root.identifier.1,
            res.spec_root().source.data == root.data,
            res.spec_counter() == 1,
    {
        let mut root = root;
        root.identifier.0 = SourceId(0);
        let counter = root.identifier.0.0 + 1;
        SourceTree { root: SourceNode::new(root), counter }
    }
}

} // verus!
