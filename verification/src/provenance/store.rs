//! The provenance store: which dest files each `.foo` unit produced, which files the
//! project owns, and which are locked.

use vstd::prelude::*;

use crate::provenance::units::{
    insert_pos, insert_unit, key_index, keys, keys_ordered, lemma_key_index_absent,
    lemma_key_index_found, lemma_key_index_props, lookup, Units, UnitsView,
};
use crate::text::{
    clone_list, concat, has_prefix, lemma_lex_le_antisym, lemma_lex_le_trans, lex_le, lex_lt,
    list_contains, same, sort_list, sorted, starts_with, strictly_sorted, texts,
};

verus! {

broadcast use vstd::seq_lib::group_seq_properties;

/// Dest-relative path of the store file.
pub const STORE_REL: &'static str = ".dream/provenance.json";

/// What Dream remembers of one unit.
#[derive(Debug)]
pub struct UnitState {
    pub artifacts: Vec<String>,
    pub locked: bool,
    pub source_hash: Option<String>,
}

/// The abstract value of a unit's state.
pub struct UnitStateView {
    pub artifacts: Seq<Seq<char>>,
    pub locked: bool,
    pub source_hash: Option<Seq<char>>,
}

/// An optional text as its characters.
pub open spec fn opt_text(o: Option<String>) -> Option<Seq<char>> {
    match o {
        Some(s) => Some(s@),
        None => None,
    }
}

impl View for UnitState {
    type V = UnitStateView;

    open spec fn view(&self) -> UnitStateView {
        UnitStateView {
            artifacts: texts(self.artifacts@),
            locked: self.locked,
            source_hash: opt_text(self.source_hash),
        }
    }
}

/// A copy of an optional text.
pub fn clone_opt(o: &Option<String>) -> (r: Option<String>)
    ensures
        opt_text(r) == opt_text(*o),
{
    match o {
        Some(s) => Some(s.clone()),
        None => None,
    }
}

impl UnitState {
    /// A copy of this state.
    pub fn copy(&self) -> (r: UnitState)
        ensures
            r@ == self@,
    {
        UnitState {
            artifacts: clone_list(&self.artifacts),
            locked: self.locked,
            source_hash: clone_opt(&self.source_hash),
        }
    }
}

/// Who owns a dest path.
#[derive(Debug, Clone, PartialEq, Eq)]
pub enum Owner {
    Unit(String),
    Project,
    Unmanaged,
}

/// The abstract value of an owner.
pub enum OwnerView {
    Unit(Seq<char>),
    Project,
    Unmanaged,
}

impl View for Owner {
    type V = OwnerView;

    open spec fn view(&self) -> OwnerView {
        match self {
            Owner::Unit(u) => OwnerView::Unit(u@),
            Owner::Project => OwnerView::Project,
            Owner::Unmanaged => OwnerView::Unmanaged,
        }
    }
}

/// The provenance of one dest directory.
#[derive(Debug)]
pub struct Store {
    /// Catalog row Dream execs, or the `-t` string when there is no row.
    pub toolchain: String,
    pub source_root: Option<String>,
    pub units: Units,
    pub project: Vec<String>,
    pub locked_setup: Vec<String>,
}

/// The abstract value of a store.
pub struct StoreView {
    pub toolchain: Seq<char>,
    pub source_root: Option<Seq<char>>,
    pub units: UnitsView,
    pub project: Seq<Seq<char>>,
    pub locked_setup: Seq<Seq<char>>,
}

impl View for Store {
    type V = StoreView;

    open spec fn view(&self) -> StoreView {
        StoreView {
            toolchain: self.toolchain@,
            source_root: opt_text(self.source_root),
            units: self.units@,
            project: texts(self.project@),
            locked_setup: texts(self.locked_setup@),
        }
    }
}

/// The `.dream` directory and everything under it.
pub open spec fn is_reserved(rel: Seq<char>) -> bool {
    rel == ".dream"@ || has_prefix(rel, ".dream/"@)
}

/// Whether the project path `path` covers `rel`: `rel` is `path` or lies under it.
pub open spec fn covers(path: Seq<char>, rel: Seq<char>) -> bool {
    rel == path || has_prefix(rel, path + "/"@)
}

/// The first unit, in key order, whose artifacts include `rel`.
pub open spec fn first_owner(es: UnitsView, rel: Seq<char>) -> Option<Seq<char>>
    decreases es.len(),
{
    if es.len() == 0 {
        None
    } else if es[0].1.artifacts.contains(rel) {
        Some(es[0].0)
    } else {
        first_owner(es.drop_first(), rel)
    }
}

/// Who owns `rel`: Dream's own directory and project paths belong to the project, then
/// the first unit that produced it, else nobody.
pub open spec fn owner_of(s: StoreView, rel: Seq<char>) -> OwnerView {
    if is_reserved(rel) || exists|i: int| 0 <= i < s.project.len() && covers(#[trigger] s.project[i], rel) {
        OwnerView::Project
    } else {
        match first_owner(s.units, rel) {
            Some(u) => OwnerView::Unit(u),
            None => OwnerView::Unmanaged,
        }
    }
}

/// Whether `name` is locked: a locked unit, or a locked setup file.
pub open spec fn locked_in(s: StoreView, name: Seq<char>) -> bool {
    (lookup(s.units, name) matches Some(st) && st.locked) || s.locked_setup.contains(name)
}

/// The list without any copy of `x`.
pub open spec fn without(s: Seq<Seq<char>>, x: Seq<char>) -> Seq<Seq<char>>
    decreases s.len(),
{
    if s.len() == 0 {
        s
    } else {
        let r = without(s.drop_last(), x);
        if s.last() == x {
            r
        } else {
            r.push(s.last())
        }
    }
}

/// The units after dropping `rel` from every unit's artifacts and dropping units left
/// with no artifacts and no lock.
pub open spec fn strip_units(es: UnitsView, rel: Seq<char>) -> UnitsView
    decreases es.len(),
{
    if es.len() == 0 {
        es
    } else {
        let r = strip_units(es.drop_last(), rel);
        let e = es.last();
        let arts = without(e.1.artifacts, rel);
        if arts.len() == 0 && !e.1.locked {
            r
        } else {
            r.push((e.0, UnitStateView { artifacts: arts, locked: e.1.locked, source_hash: e.1.source_hash }))
        }
    }
}

/// The state a unit gets from `set_artifacts`: the new artifacts, keeping its lock and hash.
pub open spec fn with_artifacts(old: Option<UnitStateView>, arts: Seq<Seq<char>>) -> UnitStateView {
    UnitStateView {
        artifacts: arts,
        locked: old matches Some(st) && st.locked,
        source_hash: match old {
            Some(st) => st.source_hash,
            None => None,
        },
    }
}

/// `new` is `old` with the artifacts of `unit` set to `arts`, sorted and without
/// duplicates; a lock and its source hash survive, and a unit left with no artifacts
/// and no lock is dropped.
pub open spec fn artifacts_set(old: StoreView, new: StoreView, unit: Seq<char>, arts: Set<Seq<char>>) -> bool {
    &&& new.toolchain == old.toolchain
    &&& new.source_root == old.source_root
    &&& new.project == old.project
    &&& new.locked_setup == old.locked_setup
    &&& ({
        let prev = lookup(old.units, unit);
        let was_locked = prev matches Some(p) && p.locked;
        match lookup(new.units, unit) {
            Some(st) => {
                &&& st.locked == was_locked
                &&& st.source_hash == (match prev { Some(p) => p.source_hash, None => None })
                &&& strictly_sorted(st.artifacts)
                &&& st.artifacts.to_set() == arts
                &&& kept(st)
            },
            None => arts == Set::<Seq<char>>::empty() && !was_locked,
        }
    })
    &&& forall|k: Seq<char>| k != unit ==> lookup(new.units, k) == lookup(old.units, k)
}

/// The store after locking unit `unit` with `hash`; a store without that unit is unchanged.
pub open spec fn with_lock(s: StoreView, unit: Seq<char>, hash: Seq<char>) -> StoreView {
    match lookup(s.units, unit) {
        Some(st) => StoreView {
            units: insert_unit(s.units, unit, UnitStateView { locked: true, source_hash: Some(hash), ..st }),
            ..s
        },
        None => s,
    }
}

/// The store after unlocking `name`: a unit loses its lock and hash, a setup file leaves
/// the locked list.
pub open spec fn without_lock(s: StoreView, name: Seq<char>) -> StoreView {
    StoreView {
        units: match lookup(s.units, name) {
            Some(st) => insert_unit(s.units, name, UnitStateView { locked: false, source_hash: None, ..st }),
            None => s.units,
        },
        locked_setup: without(s.locked_setup, name),
        ..s
    }
}

/// `new` is `old` with the setup file `name` locked: added to the sorted locked list,
/// unless a unit has that name or it is locked already.
pub open spec fn file_locked(old: StoreView, new: StoreView, name: Seq<char>) -> bool {
    &&& new.toolchain == old.toolchain
    &&& new.source_root == old.source_root
    &&& new.project == old.project
    &&& new.units == old.units
    &&& if lookup(old.units, name) is Some || locked_in(old, name) {
        new.locked_setup == old.locked_setup
    } else {
        &&& sorted(new.locked_setup)
        &&& new.locked_setup.to_multiset() == old.locked_setup.to_multiset().insert(name)
    }
}

/// `new` is `old` with `rel` made a project path: stripped from every unit, and added
/// to the sorted project list unless it is listed already.
pub open spec fn project_marked(old: StoreView, new: StoreView, rel: Seq<char>) -> bool {
    &&& new.toolchain == old.toolchain
    &&& new.source_root == old.source_root
    &&& new.locked_setup == old.locked_setup
    &&& new.units == strip_units(old.units, rel)
    &&& if old.project.contains(rel) {
        new.project == old.project
    } else {
        &&& sorted(new.project)
        &&& new.project.to_multiset() == old.project.to_multiset().insert(rel)
    }
}

/// Whether a unit state is worth keeping: it has artifacts or a lock.
pub open spec fn kept(st: UnitStateView) -> bool {
    st.artifacts.len() > 0 || st.locked
}

/// Is `rel` Dream's own directory?
pub fn reserved(rel: &str) -> (r: bool)
    ensures
        r == is_reserved(rel@),
{
    same(rel, ".dream") || starts_with(rel, ".dream/")
}

/// Does the project path `path` cover `rel`?
pub fn path_covers(path: &str, rel: &str) -> (r: bool)
    ensures
        r == covers(path@, rel@),
{
    if same(rel, path) {
        return true;
    }
    let dir = concat(path, "/");
    starts_with(rel, dir.as_str())
}

/// `list` without any copy of `x`.
pub fn list_without(list: &Vec<String>, x: &str) -> (r: Vec<String>)
    ensures
        texts(r@) == without(texts(list@), x@),
{
    let mut r: Vec<String> = Vec::new();
    let mut i: usize = 0;
    while i < list.len()
        invariant
            i <= list@.len(),
            texts(r@) == without(texts(list@).take(i as int), x@),
        decreases list@.len() - i,
    {
        proof {
            assert(texts(list@).take(i + 1).drop_last() =~= texts(list@).take(i as int));
        }
        if !same(list[i].as_str(), x) {
            r.push(list[i].clone());
            proof {
                assert(texts(r@) =~= texts(r@).drop_last().push(list@[i as int]@));
            }
        }
        i = i + 1;
    }
    assert(texts(list@).take(list@.len() as int) =~= texts(list@));
    r
}

/// Sorted, without duplicates: what a set of paths becomes in the store.
pub fn sorted_paths(paths: Vec<String>) -> (r: Vec<String>)
    ensures
        strictly_sorted(texts(r@)),
        texts(r@).to_set() == texts(paths@).to_set(),
{
    let mut v = paths;
    let ghost orig = v@;
    sort_list(&mut v);
    proof {
        lemma_same_multiset_same_texts(orig, v@);
    }
    let mut r: Vec<String> = Vec::new();
    let mut i: usize = 0;
    while i < v.len()
        invariant
            i <= v@.len(),
            sorted(texts(v@)),
            strictly_sorted(texts(r@)),
            texts(r@).to_set() == texts(v@).take(i as int).to_set(),
            i > 0 ==> r@.len() > 0 && r@.last()@ == v@[i - 1]@,
            i == 0 ==> r@.len() == 0,
        decreases v@.len() - i,
    {
        let ghost old_r = r@;
        proof {
            assert(texts(v@).take(i + 1) =~= texts(v@).take(i as int).push(v@[i as int]@));
            texts(v@).take(i as int).lemma_push_to_set_commute(v@[i as int]@);
        }
        if i == 0 || !same(v[i].as_str(), v[i - 1].as_str()) {
            r.push(v[i].clone());
            proof {
                assert(texts(r@) =~= texts(old_r).push(v@[i as int]@));
                texts(old_r).lemma_push_to_set_commute(v@[i as int]@);
                assert forall|a: int, b: int| 0 <= a < b < texts(r@).len() implies lex_lt(
                    #[trigger] texts(r@)[a],
                    #[trigger] texts(r@)[b],
                ) by {
                    if b == texts(r@).len() - 1 && a < b {
                        // r's last element before the push is v[i-1], and v is sorted
                        let prev = v@[i - 1]@;
                        assert(lex_le(prev, v@[i as int]@)) by {
                            assert(texts(v@)[i - 1] == prev);
                            assert(texts(v@)[i as int] == v@[i as int]@);
                        }
                        if a < b - 1 {
                            assert(lex_lt(texts(old_r)[a], texts(old_r)[b - 1]));
                            lemma_lex_le_trans(texts(old_r)[a], prev, v@[i as int]@);
                            if texts(old_r)[a] == v@[i as int]@ {
                                lemma_lex_le_antisym(prev, v@[i as int]@);
                            }
                        }
                    } else {
                        assert(texts(r@)[a] == texts(old_r)[a]);
                        assert(texts(r@)[b] == texts(old_r)[b]);
                    }
                }
            }
        } else {
            proof {
                assert(texts(v@).take(i as int).contains(v@[i as int]@)) by {
                    assert(texts(v@).take(i as int)[i - 1] == v@[i as int]@);
                }
                assert(texts(v@).take(i as int).to_set().insert(v@[i as int]@) =~= texts(v@).take(i as int).to_set());
            }
        }
        i = i + 1;
    }
    assert(texts(v@).take(v@.len() as int) =~= texts(v@));
    r
}

/// Two lists that are permutations of each other hold the same texts.
proof fn lemma_same_multiset_same_texts(a: Seq<String>, b: Seq<String>)
    requires
        a.to_multiset() == b.to_multiset(),
    ensures
        texts(a).to_set() == texts(b).to_set(),
{
    assert forall|t: Seq<char>| texts(a).to_set().contains(t) implies texts(b).to_set().contains(t) by {
        let i = choose|i: int| 0 <= i < texts(a).len() && texts(a)[i] == t;
        vstd::seq_lib::to_multiset_contains(a, a[i]);
        vstd::seq_lib::to_multiset_contains(b, a[i]);
        let j = choose|j: int| 0 <= j < b.len() && b[j] == a[i];
        assert(texts(b)[j] == t);
    }
    assert forall|t: Seq<char>| texts(b).to_set().contains(t) implies texts(a).to_set().contains(t) by {
        let i = choose|i: int| 0 <= i < texts(b).len() && texts(b)[i] == t;
        vstd::seq_lib::to_multiset_contains(b, b[i]);
        vstd::seq_lib::to_multiset_contains(a, b[i]);
        let j = choose|j: int| 0 <= j < a.len() && a[j] == b[i];
        assert(texts(a)[j] == t);
    }
    assert(texts(a).to_set() =~= texts(b).to_set());
}

impl Store {
    /// An empty store for `toolchain`.
    pub fn new(toolchain: &str) -> (s: Store)
        ensures
            s@.toolchain == toolchain@,
            s@.source_root is None,
            s@.units.len() == 0,
            s@.project.len() == 0,
            s@.locked_setup.len() == 0,
    {
        Store {
            toolchain: toolchain.to_owned(),
            source_root: None,
            units: Units::new(),
            project: Vec::new(),
            locked_setup: Vec::new(),
        }
    }

    /// Where the store of dest `dest` lives.
    pub fn path(dest: &str) -> (r: String)
        ensures
            r@ == crate::source::paths::join_text(dest@, STORE_REL@),
    {
        crate::source::paths::join(dest, STORE_REL)
    }

    /// Records the canonical project root the store was composed from.
    pub fn set_source_root(&mut self, root: &str)
        ensures
            final(self)@ == (StoreView { source_root: Some(root@), ..old(self)@ }),
    {
        self.source_root = Some(root.to_owned());
    }

    /// Who owns `rel`.
    pub fn owner(&self, rel: &str) -> (o: Owner)
        ensures
            o@ == owner_of(self@, rel@),
    {
        if reserved(rel) {
            return Owner::Project;
        }
        let mut i: usize = 0;
        while i < self.project.len()
            invariant
                i <= self.project@.len(),
                !is_reserved(rel@),
                forall|j: int| 0 <= j < i ==> !covers(#[trigger] self@.project[j], rel@),
            decreases self.project@.len() - i,
        {
            if path_covers(self.project[i].as_str(), rel) {
                assert(covers(self@.project[i as int], rel@));
                assert(0 <= i < self@.project.len());
                return Owner::Project;
            }
            i = i + 1;
        }
        let n = self.units.len();
        let mut k: usize = 0;
        while k < n
            invariant
                n == self.units@.len(),
                k <= n,
                !is_reserved(rel@),
                forall|j: int| 0 <= j < self@.project.len() ==> !covers(#[trigger] self@.project[j], rel@),
                first_owner(self.units@, rel@) == first_owner(self.units@.subrange(k as int, n as int), rel@),
            decreases n - k,
        {
            let e = self.units.entry(k);
            let ghost rest = self.units@.subrange(k as int, n as int);
            assert(rest[0] == e.view());
            assert(rest.drop_first() =~= self.units@.subrange(k + 1, n as int));
            if list_contains(&e.state.artifacts, rel) {
                assert(rest[0].1.artifacts.contains(rel@));
                assert(first_owner(rest, rel@) == Some(e.name@));
                let name = e.name.clone();
                assert(name@ == e.name@);
                return Owner::Unit(name);
            }
            k = k + 1;
        }
        Owner::Unmanaged
    }

    /// Replaces the artifacts of `unit` with `artifacts`, sorted and without
    /// duplicates. A lock and its source hash survive; a unit left with no artifacts and
    /// no lock is dropped.
    pub fn set_artifacts(&mut self, unit: &str, artifacts: Vec<String>)
        ensures
            artifacts_set(old(self)@, final(self)@, unit@, texts(artifacts@).to_set()),
    {
        let ghost given = texts(artifacts@);
        let sorted = sorted_paths(artifacts);
        proof {
            if given.len() > 0 {
                assert(given.to_set().contains(given[0]));
                assert(texts(sorted@).to_set().contains(given[0]));
            }
            if texts(sorted@).len() > 0 {
                assert(texts(sorted@).to_set().contains(texts(sorted@)[0]));
                assert(given.to_set().contains(texts(sorted@)[0]));
            } else {
                assert(texts(sorted@).to_set() =~= Set::<Seq<char>>::empty());
            }
        }
        write_unit(self, unit, sorted);
    }

    /// Drops `rel` from every unit's artifacts; drops units left with nothing and no lock.
    pub fn take_from_units(&mut self, rel: &str)
        ensures
            final(self)@ == (StoreView { units: strip_units(old(self)@.units, rel@), ..old(self)@ }),
            !(owner_of(final(self)@, rel@) is Unit),
            forall|k: Seq<char>| #[trigger] locked_in(old(self)@, k) ==> locked_in(final(self)@, k),
    {
        let mut units = Units::new();
        std::mem::swap(&mut units, &mut self.units);
        units.ordered();
        let n = units.len();
        let mut out = Units::new();
        let mut k: usize = 0;
        while k < n
            invariant
                n == units@.len(),
                k <= n,
                keys_ordered(units@),
                out@ == strip_units(units@.take(k as int), rel@),
                forall|j: int| 0 <= j < out@.len() ==> keys(units@.take(k as int)).contains(#[trigger] out@[j].0),
            decreases n - k,
        {
            let e = units.entry(k);
            let arts = list_without(&e.state.artifacts, rel);
            proof {
                assert(units@.take(k + 1).drop_last() =~= units@.take(k as int));
            }
            if arts.len() > 0 || e.state.locked {
                let st = UnitState { artifacts: arts, locked: e.state.locked, source_hash: clone_opt(&e.state.source_hash) };
                let ghost before = out@;
                proof {
                    // the new key sorts after every key already kept
                    assert forall|j: int| 0 <= j < before.len() implies lex_lt(#[trigger] before[j].0, e.name@) by {
                        let t = before[j].0;
                        assert(keys(units@.take(k as int)).contains(t));
                        let q = choose|q: int| 0 <= q < keys(units@.take(k as int)).len() && keys(units@.take(k as int))[q] == t;
                        assert(units@[q].0 == t);
                        assert(lex_lt(units@[q].0, units@[k as int].0));
                    }
                    lemma_append_is_insert(before, e.name@, st@);
                }
                out.insert(e.name.clone(), st);
                proof {
                    assert(out@ =~= before.push((e.name@, st@)));
                    assert forall|j: int| 0 <= j < out@.len() implies keys(units@.take(k + 1)).contains(#[trigger] out@[j].0) by {
                        if j < before.len() {
                            let t = out@[j].0;
                            assert(keys(units@.take(k as int)).contains(t));
                            let q = choose|q: int| 0 <= q < keys(units@.take(k as int)).len() && keys(units@.take(k as int))[q] == t;
                            assert(keys(units@.take(k + 1))[q] == t);
                        } else {
                            assert(keys(units@.take(k + 1))[k as int] == e.name@);
                        }
                    }
                }
            } else {
                proof {
                    assert forall|j: int| 0 <= j < out@.len() implies keys(units@.take(k + 1)).contains(#[trigger] out@[j].0) by {
                        let t = out@[j].0;
                        assert(keys(units@.take(k as int)).contains(t));
                        let q = choose|q: int| 0 <= q < keys(units@.take(k as int)).len() && keys(units@.take(k as int))[q] == t;
                        assert(keys(units@.take(k + 1))[q] == t);
                    }
                }
            }
            k = k + 1;
        }
        assert(units@.take(n as int) =~= units@);
        self.units = out;
        self.units.ordered();
        proof {
            lemma_strip_units_drops(units@, rel@);
            lemma_strip_keeps_locks(units@, rel@);
        }
    }

    /// Makes `rel` a project path: no unit owns it any more, and the project list keeps it once,
    /// sorted.
    pub fn mark_project(&mut self, rel: &str)
        ensures
            final(self)@.units == strip_units(old(self)@.units, rel@),
            final(self)@.toolchain == old(self)@.toolchain,
            final(self)@.source_root == old(self)@.source_root,
            final(self)@.locked_setup == old(self)@.locked_setup,
            old(self)@.project.contains(rel@) ==> final(self)@.project == old(self)@.project,
            !old(self)@.project.contains(rel@) ==> {
                &&& sorted(final(self)@.project)
                &&& final(self)@.project.to_multiset() == old(self)@.project.to_multiset().insert(rel@)
            },
            final(self)@.project.contains(rel@),
            owner_of(final(self)@, rel@) == OwnerView::Project,
            forall|j: int| 0 <= j < final(self)@.units.len() ==> !(#[trigger] final(self)@.units[j]).1.artifacts.contains(rel@),
            strictly_sorted(old(self)@.project) ==> strictly_sorted(final(self)@.project),
            project_marked(old(self)@, final(self)@, rel@),
    {
        proof {
            lemma_strip_units_drops(old(self)@.units, rel@);
        }
        self.take_from_units(rel);
        if !list_contains(&self.project, rel) {
            let ghost before = self.project@;
            let item = rel.to_owned();
            self.project.push(item);
            let ghost pushed = self.project@;
            sort_list(&mut self.project);
            proof {
                assert(texts(pushed) =~= texts(before).push(rel@));
                vstd::seq_lib::to_multiset_build(texts(before), rel@);
                vstd::seq_lib::to_multiset_contains(texts(self.project@), rel@);
                if strictly_sorted(texts(before)) {
                    lemma_sorted_insert_strict(texts(self.project@), texts(before), rel@);
                }
            }
        }
        proof {
            lemma_project_path_is_project(self@, rel@);
        }
    }

    /// Is `name` locked, as a unit or as a setup file?
    pub fn is_locked(&self, name: &str) -> (r: bool)
        ensures
            r == locked_in(self@, name@),
    {
        let unit_locked = match self.units.get(name) {
            Some(st) => st.locked,
            None => false,
        };
        unit_locked || list_contains(&self.locked_setup, name)
    }

    /// Locks unit `unit` with `source_hash`, if the unit is in the store.
    pub fn set_lock(&mut self, unit: &str, source_hash: String)
        ensures
            final(self)@.toolchain == old(self)@.toolchain,
            final(self)@.source_root == old(self)@.source_root,
            final(self)@.project == old(self)@.project,
            final(self)@.locked_setup == old(self)@.locked_setup,
            match lookup(old(self)@.units, unit@) {
                Some(st) => lookup(final(self)@.units, unit@) == Some(
                    UnitStateView { locked: true, source_hash: Some(source_hash@), ..st },
                ),
                None => final(self)@.units == old(self)@.units,
            },
            forall|k: Seq<char>| k != unit@ ==> lookup(final(self)@.units, k) == lookup(old(self)@.units, k),
            lookup(old(self)@.units, unit@) is Some ==> locked_in(final(self)@, unit@),
            final(self)@ == with_lock(old(self)@, unit@, source_hash@),
    {
        let next = match self.units.get(unit) {
            Some(st) => Some(UnitState { artifacts: clone_list(&st.artifacts), locked: true, source_hash: Some(source_hash) }),
            None => None,
        };
        if let Some(st) = next {
            self.units.insert(unit.to_owned(), st);
        }
    }

    /// Locks the setup file `name`, unless a unit of that name exists or it is already locked.
    pub fn lock_file(&mut self, name: &str)
        ensures
            final(self)@.toolchain == old(self)@.toolchain,
            final(self)@.source_root == old(self)@.source_root,
            final(self)@.project == old(self)@.project,
            final(self)@.units == old(self)@.units,
            (lookup(old(self)@.units, name@) is Some || locked_in(old(self)@, name@)) ==> final(self)@.locked_setup == old(self)@.locked_setup,
            !(lookup(old(self)@.units, name@) is Some || locked_in(old(self)@, name@)) ==> {
                &&& sorted(final(self)@.locked_setup)
                &&& final(self)@.locked_setup.to_multiset() == old(self)@.locked_setup.to_multiset().insert(name@)
            },
            lookup(old(self)@.units, name@) is None ==> locked_in(final(self)@, name@),
            file_locked(old(self)@, final(self)@, name@),
    {
        if self.units.contains_key(name) || self.is_locked(name) {
            return;
        }
        let ghost before = self.locked_setup@;
        let item = name.to_owned();
        self.locked_setup.push(item);
        let ghost pushed = self.locked_setup@;
        sort_list(&mut self.locked_setup);
        proof {
            assert(texts(pushed) =~= texts(before).push(name@));
            vstd::seq_lib::to_multiset_build(texts(before), name@);
            vstd::seq_lib::to_multiset_contains(texts(self.locked_setup@), name@);
        }
    }

    /// Unlocks `name`: a unit keeps its artifacts and loses its lock and hash; a setup
    /// file leaves the locked list.
    pub fn clear_lock(&mut self, name: &str)
        ensures
            final(self)@.toolchain == old(self)@.toolchain,
            final(self)@.source_root == old(self)@.source_root,
            final(self)@.project == old(self)@.project,
            final(self)@.locked_setup == without(old(self)@.locked_setup, name@),
            match lookup(old(self)@.units, name@) {
                Some(st) => lookup(final(self)@.units, name@) == Some(
                    UnitStateView { locked: false, source_hash: None, ..st },
                ),
                None => final(self)@.units == old(self)@.units,
            },
            forall|k: Seq<char>| k != name@ ==> lookup(final(self)@.units, k) == lookup(old(self)@.units, k),
            !locked_in(final(self)@, name@),
            final(self)@ == without_lock(old(self)@, name@),
    {
        proof {
            lemma_without(old(self)@.locked_setup, name@);
        }
        let next = match self.units.get(name) {
            Some(st) => Some(UnitState { artifacts: clone_list(&st.artifacts), locked: false, source_hash: None }),
            None => None,
        };
        if let Some(st) = next {
            self.units.insert(name.to_owned(), st);
        }
        self.locked_setup = list_without(&self.locked_setup, name);
    }

    /// Every dest path the store owns: project paths, then each unit's artifacts in key order.
    pub fn owned_paths(&self) -> (r: Vec<String>)
        ensures
            texts(r@) == self@.project + all_artifacts(self@.units),
    {
        let mut r = clone_list(&self.project);
        let n = self.units.len();
        let mut k: usize = 0;
        while k < n
            invariant
                n == self.units@.len(),
                k <= n,
                texts(r@) == self@.project + all_artifacts(self.units@.take(k as int)),
            decreases n - k,
        {
            let e = self.units.entry(k);
            let mut j: usize = 0;
            let ghost base = texts(r@);
            while j < e.state.artifacts.len()
                invariant
                    j <= e.state.artifacts@.len(),
                    texts(r@) == base + texts(e.state.artifacts@).take(j as int),
                decreases e.state.artifacts@.len() - j,
            {
                let ghost before_r = texts(r@);
                r.push(e.state.artifacts[j].clone());
                proof {
                    assert(texts(r@) =~= before_r.push(e.state.artifacts@[j as int]@));
                    assert(texts(e.state.artifacts@).take(j + 1) =~= texts(e.state.artifacts@).take(j as int).push(e.state.artifacts@[j as int]@));
                    assert(texts(r@) =~= base + texts(e.state.artifacts@).take(j + 1));
                }
                j = j + 1;
            }
            proof {
                assert(texts(e.state.artifacts@).take(j as int) =~= e.view().1.artifacts);
                assert(self.units@.take(k + 1).drop_last() =~= self.units@.take(k as int));
                assert(texts(r@) =~= self@.project + all_artifacts(self.units@.take(k + 1)));
            }
            k = k + 1;
        }
        assert(self.units@.take(n as int) =~= self.units@);
        r
    }
}

/// All units' artifacts, in key order.
pub open spec fn all_artifacts(es: UnitsView) -> Seq<Seq<char>>
    decreases es.len(),
{
    if es.len() == 0 {
        seq![]
    } else {
        all_artifacts(es.drop_last()) + es.last().1.artifacts
    }
}

/// `without(s, x)` holds every element of `s` but `x`, and never `x`.
pub proof fn lemma_without(s: Seq<Seq<char>>, x: Seq<char>)
    ensures
        !without(s, x).contains(x),
        forall|y: Seq<char>| y != x && s.contains(y) ==> without(s, x).contains(y),
        forall|y: Seq<char>| without(s, x).contains(y) ==> s.contains(y),
    decreases s.len(),
{
    if s.len() > 0 {
        let p = s.drop_last();
        lemma_without(p, x);
        let r = without(p, x);
        assert forall|y: Seq<char>| y != x && s.contains(y) implies without(s, x).contains(y) by {
            let i = choose|i: int| 0 <= i < s.len() && s[i] == y;
            if i < s.len() - 1 {
                assert(p[i] == y);
                assert(p.contains(y));
                assert(r.contains(y));
                if s.last() != x {
                    let k = choose|k: int| 0 <= k < r.len() && r[k] == y;
                    assert(r.push(s.last())[k] == y);
                }
            } else {
                assert(r.push(s.last())[r.len() as int] == y);
            }
        }
        assert forall|y: Seq<char>| without(s, x).contains(y) implies s.contains(y) by {
            let w = without(s, x);
            let k = choose|k: int| 0 <= k < w.len() && w[k] == y;
            if k < r.len() {
                assert(r[k] == y);
                assert(p.contains(y));
                let i = choose|i: int| 0 <= i < p.len() && p[i] == y;
                assert(s[i] == y);
            } else {
                assert(s[s.len() - 1] == y);
            }
        }
        assert(!without(s, x).contains(x)) by {
            if without(s, x).contains(x) {
                let w = without(s, x);
                let k = choose|k: int| 0 <= k < w.len() && w[k] == x;
                if k < r.len() {
                    assert(r[k] == x);
                }
            }
        }
    }
}

/// A list without `x` is unchanged by removing `x`.
pub proof fn lemma_without_absent(s: Seq<Seq<char>>, x: Seq<char>)
    requires
        !s.contains(x),
    ensures
        without(s, x) == s,
    decreases s.len(),
{
    if s.len() > 0 {
        let p = s.drop_last();
        assert(!p.contains(x)) by {
            if p.contains(x) {
                let i = choose|i: int| 0 <= i < p.len() && p[i] == x;
                assert(s[i] == x);
            }
        }
        lemma_without_absent(p, x);
        assert(s[s.len() - 1] == s.last());
        assert(p.push(s.last()) =~= s);
    }
}

/// `without(s, x)` drops every copy of `x` and keeps every other element as often.
proof fn lemma_without_multiset(s: Seq<Seq<char>>, x: Seq<char>)
    ensures
        without(s, x).to_multiset().count(x) == 0,
        forall|y: Seq<char>| y != x ==> without(s, x).to_multiset().count(y) == s.to_multiset().count(y),
    decreases s.len(),
{
    broadcast use vstd::multiset::group_multiset_axioms;
    if s.len() == 0 {
        assert(s.to_multiset() =~= vstd::multiset::Multiset::<Seq<char>>::empty());
    } else {
        let p = s.drop_last();
        lemma_without_multiset(p, x);
        vstd::seq_lib::to_multiset_build(p, s.last());
        assert(p.push(s.last()) =~= s);
        if s.last() != x {
            vstd::seq_lib::to_multiset_build(without(p, x), s.last());
        }
    }
}

/// Dropping elements keeps a list sorted.
proof fn lemma_without_sorted(s: Seq<Seq<char>>, x: Seq<char>)
    requires
        sorted(s),
    ensures
        sorted(without(s, x)),
    decreases s.len(),
{
    if s.len() > 0 {
        let p = s.drop_last();
        lemma_without_sorted(p, x);
        lemma_without(p, x);
        let r = without(p, x);
        if s.last() != x {
            let w = r.push(s.last());
            assert forall|i: int, j: int| 0 <= i < j < w.len() implies lex_le(#[trigger] w[i], #[trigger] w[j]) by {
                if j == w.len() - 1 {
                    assert(p.contains(r[i]));
                    let k = choose|k: int| 0 <= k < p.len() && p[k] == r[i];
                    assert(lex_le(s[k], s[s.len() - 1]));
                } else {
                    assert(lex_le(r[i], r[j]));
                }
            }
        }
    }
}

/// Two sorted lists with the same elements, counted, are the same list.
proof fn lemma_sorted_same_multiset(a: Seq<Seq<char>>, b: Seq<Seq<char>>)
    requires
        sorted(a),
        sorted(b),
        a.to_multiset() == b.to_multiset(),
    ensures
        a == b,
    decreases a.len(),
{
    broadcast use vstd::multiset::group_multiset_axioms;
    vstd::seq_lib::to_multiset_len(a);
    vstd::seq_lib::to_multiset_len(b);
    if a.len() == 0 {
        assert(a =~= b);
    } else {
        let (la, lb) = (a.last(), b.last());
        vstd::seq_lib::to_multiset_contains(a, lb);
        vstd::seq_lib::to_multiset_contains(b, la);
        assert(a[a.len() - 1] == la);
        assert(b[b.len() - 1] == lb);
        assert(lex_le(lb, la)) by {
            let i = choose|i: int| 0 <= i < a.len() && a[i] == lb;
            if i < a.len() - 1 {
                assert(lex_le(a[i], a[a.len() - 1]));
            } else {
                crate::text::lemma_lex_le_refl(la);
            }
        }
        assert(lex_le(la, lb)) by {
            let i = choose|i: int| 0 <= i < b.len() && b[i] == la;
            if i < b.len() - 1 {
                assert(lex_le(b[i], b[b.len() - 1]));
            } else {
                crate::text::lemma_lex_le_refl(lb);
            }
        }
        lemma_lex_le_antisym(la, lb);
        let (pa, pb) = (a.drop_last(), b.drop_last());
        vstd::seq_lib::to_multiset_build(pa, la);
        vstd::seq_lib::to_multiset_build(pb, lb);
        assert(pa.push(la) =~= a);
        assert(pb.push(lb) =~= b);
        assert(pa.to_multiset() =~= pb.to_multiset()) by {
            assert(a.to_multiset() == pa.to_multiset().insert(la));
            assert(b.to_multiset() == pb.to_multiset().insert(la));
            assert forall|y: Seq<char>| pa.to_multiset().count(y) == pb.to_multiset().count(y) by {
                assert(a.to_multiset().count(y) == b.to_multiset().count(y));
                assert(a.to_multiset().count(y) == pa.to_multiset().count(y) + if y == la { 1int } else { 0int });
                assert(b.to_multiset().count(y) == pb.to_multiset().count(y) + if y == la { 1int } else { 0int });
            }
        }
        lemma_sorted_same_multiset(pa, pb);
        assert(a =~= b);
    }
}

/// A sorted list holding a strictly sorted list and one element it lacks is strictly sorted.
proof fn lemma_sorted_insert_strict(p: Seq<Seq<char>>, q: Seq<Seq<char>>, x: Seq<char>)
    requires
        sorted(p),
        strictly_sorted(q),
        !q.contains(x),
        p.to_multiset() == q.to_multiset().insert(x),
    ensures
        strictly_sorted(p),
{
    broadcast use vstd::multiset::group_multiset_axioms;
    assert(q.no_duplicates()) by {
        assert forall|i: int, j: int| 0 <= i < q.len() && 0 <= j < q.len() && i != j implies q[i] != q[j] by {
            if i < j {
                assert(lex_lt(q[i], q[j]));
            } else {
                assert(lex_lt(q[j], q[i]));
            }
        }
    }
    q.lemma_multiset_has_no_duplicates();
    vstd::seq_lib::to_multiset_contains(q, x);
    assert forall|y: Seq<char>| p.to_multiset().contains(y) implies p.to_multiset().count(y) == 1 by {
        if y != x {
            assert(q.to_multiset().contains(y));
        }
    }
    p.lemma_multiset_has_no_duplicates_conv();
    assert forall|i: int, j: int| 0 <= i < j < p.len() implies lex_lt(#[trigger] p[i], #[trigger] p[j]) by {
        assert(lex_le(p[i], p[j]));
        assert(p[i] != p[j]);
    }
}

/// Stripping a path a second time changes nothing.
pub proof fn lemma_strip_units_idempotent(es: UnitsView, rel: Seq<char>)
    ensures
        strip_units(strip_units(es, rel), rel) == strip_units(es, rel),
    decreases es.len(),
{
    if es.len() > 0 {
        let p = es.drop_last();
        lemma_strip_units_idempotent(p, rel);
        let e = es.last();
        let arts = without(e.1.artifacts, rel);
        lemma_without(e.1.artifacts, rel);
        if !(arts.len() == 0 && !e.1.locked) {
            let r = strip_units(p, rel);
            let ne = (e.0, UnitStateView { artifacts: arts, locked: e.1.locked, source_hash: e.1.source_hash });
            lemma_without_absent(arts, rel);
            assert(r.push(ne).drop_last() =~= r);
            assert(r.push(ne).last() == ne);
        }
    }
}

/// Making a path a project path twice is the same as doing it once: the second time
/// changes nothing.
pub proof fn lemma_mark_project_twice(s0: StoreView, s1: StoreView, s2: StoreView, rel: Seq<char>)
    requires
        project_marked(s0, s1, rel),
        project_marked(s1, s2, rel),
    ensures
        s2 == s1,
{
    if !s0.project.contains(rel) {
        vstd::seq_lib::to_multiset_contains(s1.project, rel);
        broadcast use vstd::multiset::group_multiset_axioms;
    }
    assert(s1.project.contains(rel));
    lemma_strip_units_idempotent(s0.units, rel);
}

/// Locking a setup file that was not locked, then clearing its lock, gives back the
/// store as it was.
pub proof fn lemma_clear_undoes_lock_file(old: StoreView, mid: StoreView, name: Seq<char>)
    requires
        sorted(old.locked_setup),
        lookup(old.units, name) is None,
        !locked_in(old, name),
        file_locked(old, mid, name),
    ensures
        without_lock(mid, name) == old,
{
    broadcast use vstd::multiset::group_multiset_axioms;
    let w = without(mid.locked_setup, name);
    lemma_without_sorted(mid.locked_setup, name);
    lemma_without_multiset(mid.locked_setup, name);
    vstd::seq_lib::to_multiset_contains(old.locked_setup, name);
    assert(!old.locked_setup.contains(name));
    assert forall|y: Seq<char>| w.to_multiset().count(y) == old.locked_setup.to_multiset().count(y) by {
        if y != name {
            assert(mid.locked_setup.to_multiset().count(y) == old.locked_setup.to_multiset().insert(name).count(y));
        }
    }
    assert(w.to_multiset() =~= old.locked_setup.to_multiset());
    lemma_sorted_same_multiset(w, old.locked_setup);
}

/// Unlocking a unit undoes locking it, for a unit that was unlocked with no recorded
/// source hash and is not also a locked setup file.
pub proof fn lemma_unlock_undoes_lock(s: StoreView, unit: Seq<char>, hash: Seq<char>)
    requires
        lookup(s.units, unit) matches Some(st) && !st.locked && st.source_hash is None,
        !s.locked_setup.contains(unit),
    ensures
        without_lock(with_lock(s, unit, hash), unit) == s,
{
    crate::provenance::units::lemma_key_index_props(s.units, unit);
    let i = key_index(s.units, unit);
    let st = s.units[i].1;
    let v1 = UnitStateView { locked: true, source_hash: Some(hash), ..st };
    crate::provenance::units::lemma_insert_present_index(s.units, unit, v1);
    let mid = with_lock(s, unit, hash);
    crate::provenance::units::lemma_key_index_props(mid.units, unit);
    let v2 = UnitStateView { locked: false, source_hash: None, ..v1 };
    crate::provenance::units::lemma_insert_present_index(mid.units, unit, v2);
    assert(v2 == st);
    assert(mid.units.update(i, (unit, v2)) =~= s.units);
    lemma_without_absent(s.locked_setup, unit);
}

/// After stripping `rel`, no unit's artifacts hold it.
pub proof fn lemma_strip_units_drops(es: UnitsView, rel: Seq<char>)
    ensures
        forall|j: int| 0 <= j < strip_units(es, rel).len() ==> !(#[trigger] strip_units(es, rel)[j]).1.artifacts.contains(rel),
        first_owner(strip_units(es, rel), rel) is None,
    decreases es.len(),
{
    if es.len() > 0 {
        lemma_strip_units_drops(es.drop_last(), rel);
        lemma_without(es.last().1.artifacts, rel);
    }
    lemma_no_owner(strip_units(es, rel), rel);
}

/// No unit holding `rel` means no first owner.
proof fn lemma_no_owner(es: UnitsView, rel: Seq<char>)
    requires
        forall|j: int| 0 <= j < es.len() ==> !(#[trigger] es[j]).1.artifacts.contains(rel),
    ensures
        first_owner(es, rel) is None,
    decreases es.len(),
{
    if es.len() > 0 {
        assert(!es[0].1.artifacts.contains(rel));
        assert forall|j: int| 0 <= j < es.drop_first().len() implies !(#[trigger] es.drop_first()[j]).1.artifacts.contains(rel) by {
            assert(es.drop_first()[j] == es[j + 1]);
        }
        lemma_no_owner(es.drop_first(), rel);
    }
}

/// A locked unit survives stripping, still locked.
pub proof fn lemma_strip_units_keeps_locked(es: UnitsView, rel: Seq<char>, i: int)
    requires
        0 <= i < es.len(),
        es[i].1.locked,
    ensures
        exists|j: int| 0 <= j < strip_units(es, rel).len() && (#[trigger] strip_units(es, rel)[j]).0 == es[i].0 && strip_units(es, rel)[j].1.locked,
    decreases es.len(),
{
    let r = strip_units(es, rel);
    if i == es.len() - 1 {
        assert(r.last().0 == es[i].0 && r.last().1.locked);
        assert(r[r.len() - 1] == r.last());
    } else {
        lemma_strip_units_keeps_locked(es.drop_last(), rel, i);
        let p = strip_units(es.drop_last(), rel);
        let j = choose|j: int| 0 <= j < p.len() && (#[trigger] p[j]).0 == es[i].0 && p[j].1.locked;
        assert(r[j] == p[j]);
    }
}

/// In ordered units, every locked unit is still found locked after stripping.
pub proof fn lemma_strip_keeps_locks(es: UnitsView, rel: Seq<char>)
    requires
        keys_ordered(strip_units(es, rel)),
    ensures
        forall|k: Seq<char>| (lookup(es, k) matches Some(st) && st.locked) ==> (#[trigger] lookup(strip_units(es, rel), k) matches Some(st2) && st2.locked),
{
    assert forall|k: Seq<char>| (lookup(es, k) matches Some(st) && st.locked) implies (#[trigger] lookup(strip_units(es, rel), k) matches Some(st2) && st2.locked) by {
        lemma_key_index_props(es, k);
        let i = key_index(es, k);
        lemma_strip_units_keeps_locked(es, rel, i);
        let r = strip_units(es, rel);
        let j = choose|j: int| 0 <= j < r.len() && (#[trigger] r[j]).0 == es[i].0 && r[j].1.locked;
        lemma_key_index_found(r, k, j);
    }
}

/// A project path is owned by the project.
pub proof fn lemma_project_path_is_project(s: StoreView, rel: Seq<char>)
    requires
        s.project.contains(rel),
    ensures
        owner_of(s, rel) == OwnerView::Project,
{
    let i = choose|i: int| 0 <= i < s.project.len() && s.project[i] == rel;
    assert(covers(s.project[i], rel));
}

/// Adding a key larger than every key already present appends it.
proof fn lemma_append_is_insert(es: UnitsView, k: Seq<char>, v: UnitStateView)
    requires
        forall|j: int| 0 <= j < es.len() ==> lex_lt(#[trigger] es[j].0, k),
    ensures
        insert_unit(es, k, v) == es.push((k, v)),
{
    assert forall|j: int| 0 <= j < es.len() implies es[j].0 != k by {
        assert(lex_lt(es[j].0, k));
    }
    lemma_key_index_absent_all(es, k);
    lemma_insert_pos_end(es, k);
    assert(es.insert(es.len() as int, (k, v)) =~= es.push((k, v)));
}

proof fn lemma_key_index_absent_all(es: UnitsView, k: Seq<char>)
    requires
        forall|j: int| 0 <= j < es.len() ==> es[j].0 != k,
    ensures
        key_index(es, k) == -1,
    decreases es.len(),
{
    if es.len() > 0 {
        assert forall|j: int| 0 <= j < es.drop_first().len() implies es.drop_first()[j].0 != k by {
            assert(es.drop_first()[j] == es[j + 1]);
        }
        lemma_key_index_absent_all(es.drop_first(), k);
    }
}

proof fn lemma_insert_pos_end(es: UnitsView, k: Seq<char>)
    requires
        forall|j: int| 0 <= j < es.len() ==> lex_lt(#[trigger] es[j].0, k),
    ensures
        insert_pos(es, k) == es.len(),
    decreases es.len(),
{
    if es.len() > 0 {
        assert(lex_lt(es[0].0, k));
        assert forall|j: int| 0 <= j < es.drop_first().len() implies lex_lt(#[trigger] es.drop_first()[j].0, k) by {
            assert(es.drop_first()[j] == es[j + 1]);
        }
        lemma_insert_pos_end(es.drop_first(), k);
    }
}

/// Writes a unit's sorted artifacts, keeping its lock and hash; drops an empty unlocked unit.
fn write_unit(store: &mut Store, unit: &str, artifacts: Vec<String>)
    requires
        strictly_sorted(texts(artifacts@)),
    ensures
        final(store)@.toolchain == old(store)@.toolchain,
        final(store)@.source_root == old(store)@.source_root,
        final(store)@.project == old(store)@.project,
        final(store)@.locked_setup == old(store)@.locked_setup,
        ({
            let prev = lookup(old(store)@.units, unit@);
            let w = with_artifacts(prev, texts(artifacts@));
            if kept(w) {
                lookup(final(store)@.units, unit@) == Some(w)
            } else {
                lookup(final(store)@.units, unit@) is None
            }
        }),
        forall|k: Seq<char>| k != unit@ ==> lookup(final(store)@.units, k) == lookup(old(store)@.units, k),
{
    let (locked, source_hash) = match store.units.get(unit) {
        Some(st) => (st.locked, clone_opt(&st.source_hash)),
        None => (false, None),
    };
    if artifacts.len() == 0 && !locked {
        store.units.remove(unit);
    } else {
        store.units.insert(unit.to_owned(), UnitState { artifacts, locked, source_hash });
    }
}

} // verus!
