use vstd::prelude::*;
use vstd::hash_map::StringHashMap;

verus! {

/// An interned string: its index in a [`SymbolInterner`]; `usize::MAX` marks an
/// invalid symbol.
#[derive(Debug, Clone, Copy, PartialEq, Eq, Hash, Structural)]
pub struct Symbol(pub usize);

impl Symbol {
    /// The symbol that no interner hands out.
    #[allow(non_snake_case)]
    pub fn Invalid() -> (res: Self)
        ensures
            res.0 == usize::MAX,
    {
        Symbol(usize::MAX)
    }

    /// The index of a valid symbol.
    pub fn unwrap(&self) -> (res: usize)
        requires
            self.0 != usize::MAX,
        ensures
            res == self.0,
    {
        self.0
    }
}

/// Interning `s` among the distinct strings `strings`: the strings after, and
/// the index of `s` among them.
pub open spec fn interning(strings: Seq<Seq<char>>, s: Seq<char>) -> (Seq<Seq<char>>, int) {
    if strings.contains(s) {
        (strings, choose|i: int| 0 <= i < strings.len() && strings[i] == s)
    } else {
        (strings.push(s), strings.len() as int)
    }
}

/// Whether no string occurs twice.
pub open spec fn distinct(strings: Seq<Seq<char>>) -> bool {
    forall|i: int, j: int|
        0 <= i < strings.len() && 0 <= j < strings.len() && i != j ==> #[trigger] strings[i]
            != #[trigger] strings[j]
}

/// The symbol that interning gives stands for the interned string.
pub proof fn law_interning_get(strings: Seq<Seq<char>>, s: Seq<char>)
    ensures
        0 <= interning(strings, s).1 < interning(strings, s).0.len(),
        interning(strings, s).0[interning(strings, s).1] == s,
{
}

/// Interning a string a second time gives the same symbol and changes nothing;
/// the strings stay distinct.
pub proof fn law_interning_idempotent(strings: Seq<Seq<char>>, s: Seq<char>)
    requires
        distinct(strings),
    ensures
        interning(interning(strings, s).0, s) == interning(strings, s),
        distinct(interning(strings, s).0),
{
    let (t, i) = interning(strings, s);
    assert(t[i] == s);
    assert(t.contains(s));
    let j = choose|j: int| 0 <= j < t.len() && t[j] == s;
    if !strings.contains(s) {
        assert forall|a: int, b: int| 0 <= a < t.len() && 0 <= b < t.len() && a != b implies #[trigger] t[a]
            != #[trigger] t[b] by {
            if a == strings.len() {
                assert(t[b] == strings[b]);
                if t[b] == s {
                    assert(strings.contains(s));
                }
            } else if b == strings.len() {
                assert(t[a] == strings[a]);
                if t[a] == s {
                    assert(strings.contains(s));
                }
            }
        }
    }
    assert(j == i);
}

/// Interning two strings, one after the other, gives the same symbol exactly
/// when the strings are equal.
pub proof fn law_interning_injective(strings: Seq<Seq<char>>, x: Seq<char>, y: Seq<char>)
    requires
        distinct(strings),
    ensures
        ({
            let (t1, a) = interning(strings, x);
            let (t2, b) = interning(t1, y);
            (a == b) <==> (x == y)
        }),
{
    let (t1, a) = interning(strings, x);
    law_interning_idempotent(strings, x);
    law_interning_get(strings, x);
    let (t2, b) = interning(t1, y);
    law_interning_get(t1, y);
    assert(t1[a] == x);
    assert(t2[b] == y);
    assert(forall|k: int| 0 <= k < t1.len() ==> #[trigger] t2[k] == t1[k]);
    if x == y {
        assert(t1.contains(y));
        assert(t1[b] == y);
        assert(b == a);
    }
    if a == b {
        assert(t2[a] == t1[a]);
    }
}

/// Interns strings: equal strings get the same symbol, and each symbol gives
/// back its string.
pub struct SymbolInterner {
    data: Vec<String>,
    symbols: StringHashMap<Symbol>,
}

impl SymbolInterner {
    /// The interned strings; symbol `i` stands for the `i`-th.
    pub closed spec fn spec_strings(&self) -> Seq<Seq<char>> {
        self.data@.map_values(|s: String| s@)
    }

    /// The interner's tables agree: each string is listed once, and the lookup
    /// table maps each string to its own index.
    pub closed spec fn wf(&self) -> bool {
        &&& forall|i: int|
            0 <= i < self.data@.len() ==> #[trigger] self.symbols@.contains_key(self.data@[i]@)
                && self.symbols@[self.data@[i]@] == Symbol(i as usize)
        &&& forall|k: Seq<char>|
            #[trigger] self.symbols@.contains_key(k) ==> {
                let i = self.symbols@[k].0 as int;
                0 <= i < self.data@.len() && self.data@[i]@ == k
            }
    }

    pub proof fn lemma_strings_distinct(&self)
        requires
            self.wf(),
        ensures
            forall|i: int, j: int|
                0 <= i < self.spec_strings().len() && 0 <= j < self.spec_strings().len() && i != j
                    ==> #[trigger] self.spec_strings()[i] != #[trigger] self.spec_strings()[j],
    {
        assert forall|i: int, j: int|
            0 <= i < self.spec_strings().len() && 0 <= j < self.spec_strings().len() && i != j
                implies #[trigger] self.spec_strings()[i] != #[trigger] self.spec_strings()[j] by {
            assert(self.spec_strings().len() == self.data@.len());
            assert(self.data@.len() == self.data.len());
            assert(self.spec_strings()[i] == self.data@[i]@);
            assert(self.spec_strings()[j] == self.data@[j]@);
            assert(self.symbols@.contains_key(self.data@[i]@));
            assert(self.symbols@.contains_key(self.data@[j]@));
            if self.data@[i]@ == self.data@[j]@ {
                assert(Symbol(i as usize) == Symbol(j as usize));
                assert((i as usize) == (j as usize));
            }
        }
    }

    /// An empty interner.
    pub fn new() -> (res: Self)
        ensures
            res.wf(),
            res.spec_strings() == Seq::<Seq<char>>::empty(),
    {
        let res = SymbolInterner { data: Vec::new(), symbols: StringHashMap::new() };
        assert(res.spec_strings() =~= Seq::<Seq<char>>::empty());
        res
    }

    /// The symbol of `data`: the one it already has, or a new one, the next index.
    pub fn intern(&mut self, data: &str) -> (res: Symbol)
        requires
            old(self).wf(),
            old(self).spec_strings().len() < usize::MAX,
        ensures
            final(self).wf(),
            old(self).spec_strings().contains(data@) ==> {
                &&& final(self).spec_strings() == old(self).spec_strings()
                &&& (res.0 as int) < old(self).spec_strings().len()
                &&& old(self).spec_strings()[res.0 as int] == data@
            },
            !old(self).spec_strings().contains(data@) ==> {
                &&& final(self).spec_strings() == old(self).spec_strings().push(data@)
                &&& res.0 == old(self).spec_strings().len()
            },
            final(self).spec_strings() == interning(old(self).spec_strings(), data@).0,
            res.0 == interning(old(self).spec_strings(), data@).1,
    {
        proof {
            self.lemma_strings_distinct();
            if self.spec_strings().contains(data@) {
                let i = choose|i: int|
                    0 <= i < self.spec_strings().len() && self.spec_strings()[i] == data@;
                assert(self.symbols@.contains_key(self.data@[i]@));
            }
        }
        match self.symbols.get(data) {
            Some(sym) => {
                let sym = *sym;
                proof {
                    assert(self.spec_strings()[sym.0 as int] == data@);
                    assert(self.spec_strings().contains(data@));
                }
                sym
            },
            None => {
                let sym = Symbol(self.data.len());
                let ghost old_data = self.data@;
                let ghost old_symbols = self.symbols@;
                self.data.push(data.to_owned());
                self.symbols.insert(data.to_owned(), sym);
                proof {
                    assert(self.spec_strings() =~= old(self).spec_strings().push(data@));
                    assert forall|k: Seq<char>| #[trigger]
                        self.symbols@.contains_key(k) implies {
                        let i = self.symbols@[k].0 as int;
                        0 <= i < self.data@.len() && self.data@[i]@ == k
                    } by {
                        if k != data@ {
                            assert(old_symbols.contains_key(k));
                        }
                    }
                    assert forall|i: int| 0 <= i < self.data@.len() implies #[trigger]
                        self.symbols@.contains_key(self.data@[i]@) && self.symbols@[self.data@[i]@]
                            == Symbol(i as usize) by {
                        if i < old_data.len() {
                            assert(old_symbols.contains_key(old_data[i]@));
                            if old_data[i]@ == data@ {
                                assert(old(self).spec_strings()[i] == data@);
                            }
                        }
                    }
                }
                sym
            },
        }
    }

    /// The string that `id` stands for.
    pub fn get(&self, id: Symbol) -> (res: &str)
        requires
            id.0 != usize::MAX,
            (id.0 as int) < self.spec_strings().len(),
        ensures
            res@ == self.spec_strings()[id.0 as int],
    {
        self.data[id.unwrap()].as_str()
    }
}

} // verus!
