//! The units of a provenance store: each `.foo` unit's state, keyed by the unit's
//! project-relative path and kept in key order.

use vstd::prelude::*;

use crate::provenance::store::{UnitState, UnitStateView};
use crate::text::{lemma_lex_le_antisym, lemma_lex_le_refl, lemma_lex_le_total, lemma_lex_le_trans, lex_le, lex_lt, same, text_le};

verus! {

broadcast use vstd::seq_lib::group_seq_properties;

/// One unit and its state.
#[derive(Debug)]
pub struct UnitEntry {
    pub name: String,
    pub state: UnitState,
}

/// The abstract value of a set of units: its entries in key order.
pub type UnitsView = Seq<(Seq<char>, UnitStateView)>;

/// Units keyed by name. Keys are unique and strictly increasing.
#[derive(Debug)]
pub struct Units {
    entries: Vec<UnitEntry>,
}

/// The keys of the entries, in order.
pub open spec fn keys(es: UnitsView) -> Seq<Seq<char>> {
    es.map_values(|e: (Seq<char>, UnitStateView)| e.0)
}

/// Index of the entry with key `k`, or `-1`.
pub open spec fn key_index(es: UnitsView, k: Seq<char>) -> int
    decreases es.len(),
{
    if es.len() == 0 {
        -1
    } else if es[0].0 == k {
        0
    } else {
        let r = key_index(es.drop_first(), k);
        if r < 0 {
            -1
        } else {
            r + 1
        }
    }
}

/// The state of the unit `k`, if there is one.
pub open spec fn lookup(es: UnitsView, k: Seq<char>) -> Option<UnitStateView> {
    let i = key_index(es, k);
    if i >= 0 {
        Some(es[i].1)
    } else {
        None
    }
}

/// Where a new key `k` goes: after every key that sorts before it.
pub open spec fn insert_pos(es: UnitsView, k: Seq<char>) -> int
    decreases es.len(),
{
    if es.len() == 0 {
        0
    } else if lex_lt(es[0].0, k) {
        1 + insert_pos(es.drop_first(), k)
    } else {
        0
    }
}

/// The entries after setting unit `k` to `v`.
pub open spec fn insert_unit(es: UnitsView, k: Seq<char>, v: UnitStateView) -> UnitsView {
    let i = key_index(es, k);
    if i >= 0 {
        es.update(i, (k, v))
    } else {
        es.insert(insert_pos(es, k), (k, v))
    }
}

/// The entries without unit `k`.
pub open spec fn remove_unit(es: UnitsView, k: Seq<char>) -> UnitsView {
    let i = key_index(es, k);
    if i >= 0 {
        es.remove(i)
    } else {
        es
    }
}

/// Keys strictly increasing.
pub open spec fn keys_ordered(es: UnitsView) -> bool {
    forall|i: int, j: int| 0 <= i < j < es.len() ==> lex_lt(#[trigger] es[i].0, #[trigger] es[j].0)
}

proof fn lemma_key_index(es: UnitsView, k: Seq<char>, j: int)
    requires
        0 <= j <= es.len(),
        forall|i: int| 0 <= i < j ==> es[i].0 != k,
        j < es.len() ==> es[j].0 == k,
    ensures
        key_index(es, k) == (if j < es.len() { j } else { -1 }),
    decreases es.len(),
{
    if es.len() > 0 && j > 0 {
        lemma_key_index(es.drop_first(), k, j - 1);
    }
}

proof fn lemma_insert_pos(es: UnitsView, k: Seq<char>, p: int)
    requires
        0 <= p <= es.len(),
        forall|i: int| 0 <= i < p ==> lex_lt(#[trigger] es[i].0, k),
        p < es.len() ==> !lex_lt(es[p].0, k),
    ensures
        insert_pos(es, k) == p,
    decreases es.len(),
{
    if es.len() > 0 && p > 0 {
        assert(lex_lt(es[0].0, k));
        lemma_insert_pos(es.drop_first(), k, p - 1);
    }
}

impl UnitEntry {
    pub open spec fn view(&self) -> (Seq<char>, UnitStateView) {
        (self.name@, self.state@)
    }
}

impl View for Units {
    type V = UnitsView;

    closed spec fn view(&self) -> UnitsView {
        self.entries@.map_values(|e: UnitEntry| e.view())
    }
}

impl Units {
    #[verifier::type_invariant]
    closed spec fn inv(self) -> bool {
        keys_ordered(self.entries@.map_values(|e: UnitEntry| e.view()))
    }

    /// No units.
    pub fn new() -> (u: Units)
        ensures
            u@ == Seq::<(Seq<char>, UnitStateView)>::empty(),
    {
        let u = Units { entries: Vec::new() };
        assert(u@ =~= Seq::<(Seq<char>, UnitStateView)>::empty());
        u
    }

    /// The number of units.
    pub fn len(&self) -> (n: usize)
        ensures
            n == self@.len(),
    {
        self.entries.len()
    }

    /// The `i`th unit in key order.
    pub fn entry(&self, i: usize) -> (e: &UnitEntry)
        requires
            i < self@.len(),
        ensures
            e.view() == self@[i as int],
    {
        &self.entries[i]
    }

    /// Keys are strictly increasing.
    pub fn ordered(&self)
        ensures
            keys_ordered(self@),
    {
        proof {
            use_type_invariant(self);
        }
    }

    /// Position of unit `name`, if present.
    pub fn find(&self, name: &str) -> (r: Option<usize>)
        ensures
            match r {
                Some(i) => key_index(self@, name@) == i as int && i < self@.len(),
                None => key_index(self@, name@) == -1,
            },
    {
        let mut i: usize = 0;
        while i < self.entries.len()
            invariant
                i <= self@.len(),
                forall|j: int| 0 <= j < i ==> self@[j].0 != name@,
            decreases self@.len() - i,
        {
            if same(self.entries[i].name.as_str(), name) {
                proof {
                    lemma_key_index(self@, name@, i as int);
                }
                return Some(i);
            }
            i = i + 1;
        }
        proof {
            lemma_key_index(self@, name@, self@.len() as int);
        }
        None
    }

    /// The state of unit `name`.
    pub fn get(&self, name: &str) -> (r: Option<&UnitState>)
        ensures
            match r {
                Some(s) => lookup(self@, name@) == Some(s@),
                None => lookup(self@, name@) is None,
            },
    {
        match self.find(name) {
            Some(i) => Some(&self.entries[i].state),
            None => None,
        }
    }

    /// Whether unit `name` is present.
    pub fn contains_key(&self, name: &str) -> (r: bool)
        ensures
            r == (lookup(self@, name@) is Some),
    {
        self.find(name).is_some()
    }

    /// Sets unit `name` to `state`: replaces its state if present, else adds it in key order.
    pub fn insert(&mut self, name: String, state: UnitState)
        ensures
            final(self)@ == insert_unit(old(self)@, name@, state@),
            lookup(final(self)@, name@) == Some(state@),
            forall|k: Seq<char>| k != name@ ==> lookup(final(self)@, k) == lookup(old(self)@, k),
    {
        proof {
            use_type_invariant(&*self);
        }
        let ghost es = self@;
        let ghost k = name@;
        let mut p: usize = 0;
        while p < self.entries.len() && !text_le(name.as_str(), self.entries[p].name.as_str())
            invariant
                p <= es.len(),
                self@ == es,
                k == name@,
                keys_ordered(es),
                forall|i: int| 0 <= i < p ==> lex_lt(#[trigger] es[i].0, k),
            decreases es.len() - p,
        {
            proof {
                lemma_lex_le_total(k, es[p as int].0);
                if es[p as int].0 == k {
                    lemma_lex_le_refl(k);
                }
            }
            p = p + 1;
        }
        // every key before `p` sorts before `name`; the key at `p`, if any, does not
        proof {
            if p < es.len() {
                assert(lex_le(k, es[p as int].0));
                if lex_lt(es[p as int].0, k) {
                    lemma_lex_le_antisym(k, es[p as int].0);
                }
            }
            lemma_insert_pos(es, k, p as int);
        }
        let e = UnitEntry { name, state };
        if p < self.entries.len() && same(self.entries[p].name.as_str(), e.name.as_str()) {
            proof {
                assert forall|i: int| 0 <= i < p implies es[i].0 != k by {
                    assert(lex_lt(es[i].0, k));
                }
                lemma_key_index(es, k, p as int);
            }
            let mut entries = Vec::new();
            std::mem::swap(&mut entries, &mut self.entries);
            entries.set(p, e);
            proof {
                let ns = entries@.map_values(|e: UnitEntry| e.view());
                assert(ns =~= es.update(p as int, (k, state@)));
                assert forall|i: int, j: int| 0 <= i < j < ns.len() implies lex_lt(
                    #[trigger] ns[i].0,
                    #[trigger] ns[j].0,
                ) by {
                    assert(ns[i].0 == es[i].0 && ns[j].0 == es[j].0);
                }
            }
            self.entries = entries;
            proof {
                assert(self@ =~= es.update(p as int, (k, state@)));
                assert forall|kk: Seq<char>| kk != k implies lookup(self@, kk) == lookup(es, kk) by {
                    let ji = key_index(es, kk);
                    if ji >= 0 {
                        self.lemma_index_exists(es, kk);
                        assert(es[ji].0 == kk);
                        lemma_key_index_found(self@, kk, ji);
                    } else {
                        lemma_key_index_absent(es, kk);
                        assert forall|i: int| 0 <= i < self@.len() implies self@[i].0 != kk by {
                            if i != p {
                                assert(self@[i] == es[i]);
                            }
                        }
                        lemma_key_index(self@, kk, self@.len() as int);
                    }
                }
                lemma_key_index(self@, k, p as int);
            }
        } else {
            proof {
                assert forall|i: int| 0 <= i < es.len() implies es[i].0 != k by {
                    if i < p {
                        assert(lex_lt(es[i].0, k));
                    } else {
                        assert(lex_le(k, es[p as int].0));
                        if i > p {
                            assert(lex_lt(es[p as int].0, es[i].0));
                            lemma_lex_le_trans(k, es[p as int].0, es[i].0);
                            if es[i].0 == k {
                                lemma_lex_le_antisym(k, es[p as int].0);
                            }
                        }
                    }
                }
                lemma_key_index(es, k, es.len() as int);
            }
            let mut entries = Vec::new();
            std::mem::swap(&mut entries, &mut self.entries);
            entries.insert(p, e);
            proof {
                let ns = entries@.map_values(|e: UnitEntry| e.view());
                assert(ns =~= es.insert(p as int, (k, state@)));
                assert forall|i: int, j: int| 0 <= i < j < ns.len() implies lex_lt(
                    #[trigger] ns[i].0,
                    #[trigger] ns[j].0,
                ) by {
                    if j < p {
                        assert(ns[i] == es[i] && ns[j] == es[j]);
                    } else if j == p {
                        assert(ns[i] == es[i]);
                    } else if i > p {
                        assert(ns[i] == es[i - 1] && ns[j] == es[j - 1]);
                    } else if i == p {
                        assert(ns[j] == es[j - 1]);
                        assert(lex_le(k, es[p as int].0));
                        if j - 1 > p {
                            lemma_lex_le_trans(k, es[p as int].0, es[j - 1].0);
                        }
                        assert(es[j - 1].0 != k);
                    } else {
                        assert(ns[i] == es[i] && ns[j] == es[j - 1]);
                        assert(lex_lt(es[i].0, k));
                        assert(lex_le(k, es[p as int].0));
                        if j - 1 > p {
                            lemma_lex_le_trans(k, es[p as int].0, es[j - 1].0);
                        }
                        lemma_lex_le_trans(es[i].0, k, es[j - 1].0);
                        if es[i].0 == es[j - 1].0 {
                            lemma_lex_le_antisym(es[i].0, k);
                        }
                    }
                }
            }
            self.entries = entries;
            proof {
                assert(self@ =~= es.insert(p as int, (k, state@)));
                assert forall|kk: Seq<char>| kk != k implies lookup(self@, kk) == lookup(es, kk) by {
                    let ji = key_index(es, kk);
                    if ji >= 0 {
                        self.lemma_index_exists(es, kk);
                        if ji < p {
                            lemma_key_index_found(self@, kk, ji);
                        } else {
                            lemma_key_index_found(self@, kk, ji + 1);
                        }
                    } else {
                        lemma_key_index_absent(es, kk);
                        lemma_key_index(self@, kk, self@.len() as int);
                    }
                }
                lemma_key_index(self@, k, p as int);
            }
        }
    }

    proof fn lemma_index_exists(&self, es: UnitsView, k: Seq<char>)
        requires
            key_index(es, k) >= 0,
        ensures
            key_index(es, k) < es.len(),
            es[key_index(es, k)].0 == k,
            forall|i: int| 0 <= i < key_index(es, k) ==> es[i].0 != k,
    {
        lemma_key_index_props(es, k);
    }

    /// Removes unit `name`, if present.
    pub fn remove(&mut self, name: &str)
        ensures
            final(self)@ == remove_unit(old(self)@, name@),
            lookup(final(self)@, name@) is None,
            forall|k: Seq<char>| k != name@ ==> lookup(final(self)@, k) == lookup(old(self)@, k),
    {
        proof {
            use_type_invariant(&*self);
        }
        let ghost es = self@;
        match self.find(name) {
            Some(i) => {
                let mut entries = Vec::new();
                std::mem::swap(&mut entries, &mut self.entries);
                entries.remove(i);
                proof {
                    let ns = entries@.map_values(|e: UnitEntry| e.view());
                    assert(ns =~= es.remove(i as int));
                    assert forall|a: int, b: int| 0 <= a < b < ns.len() implies lex_lt(
                        #[trigger] ns[a].0,
                        #[trigger] ns[b].0,
                    ) by {
                        if b < i {
                        } else if a < i {
                            assert(ns[b] == es[b + 1]);
                        } else {
                            assert(ns[a] == es[a + 1] && ns[b] == es[b + 1]);
                        }
                    }
                }
                self.entries = entries;
                proof {
                    assert(self@ =~= es.remove(i as int));
                    lemma_key_index_props(es, name@);
                    assert forall|j: int| 0 <= j < self@.len() implies self@[j].0 != name@ by {
                        if j < i {
                        } else {
                            assert(self@[j] == es[j + 1]);
                            assert(lex_lt(es[i as int].0, es[j + 1].0));
                        }
                    }
                    lemma_key_index(self@, name@, self@.len() as int);
                    assert forall|kk: Seq<char>| kk != name@ implies lookup(self@, kk) == lookup(
                        es,
                        kk,
                    ) by {
                        let ji = key_index(es, kk);
                        if ji >= 0 {
                            lemma_key_index_props(es, kk);
                            if ji < i {
                                lemma_key_index_found(self@, kk, ji);
                            } else {
                                lemma_key_index_found(self@, kk, ji - 1);
                            }
                        } else {
                            lemma_key_index_absent(es, kk);
                            lemma_key_index(self@, kk, self@.len() as int);
                        }
                    }
                }
            },
            None => {
                proof {
                    lemma_key_index_absent(es, name@);
                }
            },
        }
    }
}

/// Facts about a found key.
pub proof fn lemma_key_index_props(es: UnitsView, k: Seq<char>)
    ensures
        -1 <= key_index(es, k) < es.len(),
        key_index(es, k) >= 0 ==> es[key_index(es, k)].0 == k,
        key_index(es, k) >= 0 ==> forall|i: int| 0 <= i < key_index(es, k) ==> es[i].0 != k,
        key_index(es, k) < 0 ==> forall|i: int| 0 <= i < es.len() ==> es[i].0 != k,
    decreases es.len(),
{
    if es.len() > 0 {
        lemma_key_index_props(es.drop_first(), k);
        assert forall|i: int| 1 <= i < es.len() implies es[i] == es.drop_first()[i - 1] by {}
    }
}

/// An absent key appears nowhere.
pub proof fn lemma_key_index_absent(es: UnitsView, k: Seq<char>)
    requires
        key_index(es, k) < 0,
    ensures
        forall|i: int| 0 <= i < es.len() ==> es[i].0 != k,
{
    lemma_key_index_props(es, k);
}

/// In ordered entries, the key at `j` is found at `j`.
pub proof fn lemma_key_index_found(es: UnitsView, k: Seq<char>, j: int)
    requires
        keys_ordered(es),
        0 <= j < es.len(),
        es[j].0 == k,
    ensures
        key_index(es, k) == j,
{
    assert forall|i: int| 0 <= i < j implies es[i].0 != k by {
        assert(lex_lt(es[i].0, es[j].0));
    }
    lemma_key_index(es, k, j);
}

/// Setting a present key overwrites its entry in place.
pub proof fn lemma_insert_present_index(es: UnitsView, k: Seq<char>, v: UnitStateView)
    requires
        key_index(es, k) >= 0,
    ensures
        insert_unit(es, k, v) == es.update(key_index(es, k), (k, v)),
        key_index(insert_unit(es, k, v), k) == key_index(es, k),
{
    lemma_key_index_props(es, k);
    let i = key_index(es, k);
    lemma_key_index(es.update(i, (k, v)), k, i);
}

/// Setting a present key puts its new state at its place.
pub proof fn lemma_lookup_insert_present(es: UnitsView, k: Seq<char>, v: UnitStateView)
    requires
        key_index(es, k) >= 0,
    ensures
        lookup(insert_unit(es, k, v), k) == Some(v),
{
    lemma_key_index_props(es, k);
    let i = key_index(es, k);
    lemma_key_index(es.update(i, (k, v)), k, i);
}

} // verus!
