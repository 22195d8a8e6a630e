//! The dest files one composition job has written so far, per unit.

use vstd::prelude::*;

use crate::text::{clone_list, list_contains, same, texts};
use crate::provenance::store::{lemma_without, list_without, without};

verus! {

broadcast use vstd::seq_lib::group_seq_properties;

/// The files one unit wrote in this job.
#[derive(Debug)]
pub struct JobEntry {
    pub unit: String,
    pub paths: Vec<String>,
}

/// Per unit, the set of dest paths this job wrote.
#[derive(Debug)]
pub struct JobArtifacts {
    entries: Vec<JobEntry>,
}

/// The abstract value: each unit with its set of paths, first entry of a unit wins.
pub type JobView = Seq<(Seq<char>, Set<Seq<char>>)>;

impl JobEntry {
    pub open spec fn view(&self) -> (Seq<char>, Set<Seq<char>>) {
        (self.unit@, texts(self.paths@).to_set())
    }
}

impl View for JobArtifacts {
    type V = JobView;

    closed spec fn view(&self) -> JobView {
        self.entries@.map_values(|e: JobEntry| e.view())
    }
}

/// Index of the first entry for `unit`, or `-1`.
pub open spec fn job_index(es: JobView, unit: Seq<char>) -> int
    decreases es.len(),
{
    if es.len() == 0 {
        -1
    } else if es[0].0 == unit {
        0
    } else {
        let r = job_index(es.drop_first(), unit);
        if r < 0 {
            -1
        } else {
            r + 1
        }
    }
}

/// The paths `unit` wrote in this job, if it has an entry.
pub open spec fn job_paths(es: JobView, unit: Seq<char>) -> Option<Set<Seq<char>>> {
    let i = job_index(es, unit);
    if i >= 0 {
        Some(es[i].1)
    } else {
        None
    }
}

/// The paths of `unit`, or none when it has no entry.
pub open spec fn paths_or_empty(es: JobView, unit: Seq<char>) -> Set<Seq<char>> {
    match job_paths(es, unit) {
        Some(p) => p,
        None => Set::empty(),
    }
}

/// Whether some unit wrote a file in this job.
pub open spec fn any_written(es: JobView) -> bool {
    exists|i: int| 0 <= i < es.len() && (#[trigger] es[i]).1 != Set::<Seq<char>>::empty()
}

proof fn lemma_job_index(es: JobView, unit: Seq<char>, j: int)
    requires
        0 <= j <= es.len(),
        forall|i: int| 0 <= i < j ==> es[i].0 != unit,
        j < es.len() ==> es[j].0 == unit,
    ensures
        job_index(es, unit) == (if j < es.len() { j } else { -1 }),
    decreases es.len(),
{
    if es.len() > 0 && j > 0 {
        lemma_job_index(es.drop_first(), unit, j - 1);
    }
}

proof fn lemma_job_index_props(es: JobView, unit: Seq<char>)
    ensures
        -1 <= job_index(es, unit) < es.len(),
        job_index(es, unit) >= 0 ==> es[job_index(es, unit)].0 == unit,
        job_index(es, unit) >= 0 ==> forall|i: int| 0 <= i < job_index(es, unit) ==> es[i].0 != unit,
        job_index(es, unit) < 0 ==> forall|i: int| 0 <= i < es.len() ==> es[i].0 != unit,
    decreases es.len(),
{
    if es.len() > 0 {
        lemma_job_index_props(es.drop_first(), unit);
        assert forall|i: int| 1 <= i < es.len() implies es[i] == es.drop_first()[i - 1] by {}
    }
}

/// Changing the entry at the first index of `unit` leaves every other unit's paths alone.
proof fn lemma_update_entry(es: JobView, unit: Seq<char>, s: Set<Seq<char>>)
    requires
        job_index(es, unit) >= 0,
    ensures
        job_paths(es.update(job_index(es, unit), (unit, s)), unit) == Some(s),
        forall|k: Seq<char>| k != unit ==> #[trigger] job_paths(es.update(job_index(es, unit), (unit, s)), k) == job_paths(es, k),
{
    let i = job_index(es, unit);
    let es2 = es.update(i, (unit, s));
    lemma_job_index_props(es, unit);
    lemma_job_index(es2, unit, i);
    assert forall|k: Seq<char>| k != unit implies #[trigger] job_paths(es2, k) == job_paths(es, k) by {
        lemma_job_index_props(es, k);
        let j = job_index(es, k);
        if j >= 0 {
            lemma_job_index(es2, k, j);
        } else {
            lemma_job_index(es2, k, es2.len() as int);
        }
    }
}

/// Appending an entry for a unit without one.
proof fn lemma_push_entry(es: JobView, unit: Seq<char>, s: Set<Seq<char>>)
    requires
        job_index(es, unit) < 0,
    ensures
        job_paths(es.push((unit, s)), unit) == Some(s),
        forall|k: Seq<char>| k != unit ==> #[trigger] job_paths(es.push((unit, s)), k) == job_paths(es, k),
{
    let es2 = es.push((unit, s));
    lemma_job_index_props(es, unit);
    lemma_job_index(es2, unit, es.len() as int);
    assert forall|k: Seq<char>| k != unit implies #[trigger] job_paths(es2, k) == job_paths(es, k) by {
        lemma_job_index_props(es, k);
        let j = job_index(es, k);
        if j >= 0 {
            lemma_job_index(es2, k, j);
        } else {
            lemma_job_index(es2, k, es2.len() as int);
        }
    }
}

proof fn lemma_empty_list_set(v: Seq<String>)
    requires
        v.len() == 0,
    ensures
        texts(v).to_set() == Set::<Seq<char>>::empty(),
{
    assert(texts(v).to_set() =~= Set::<Seq<char>>::empty());
}

impl JobArtifacts {
    /// No unit has written anything yet.
    pub fn new() -> (j: JobArtifacts)
        ensures
            j@.len() == 0,
    {
        JobArtifacts { entries: Vec::new() }
    }

    /// Number of unit entries.
    pub fn len(&self) -> (n: usize)
        ensures
            n == self@.len(),
    {
        self.entries.len()
    }

    /// The entry at `i`.
    pub fn entry(&self, i: usize) -> (e: &JobEntry)
        requires
            i < self@.len(),
        ensures
            e.view() == self@[i as int],
    {
        &self.entries[i]
    }

    fn find(&self, unit: &str) -> (r: Option<usize>)
        ensures
            self@.len() == self.entries@.len(),
            match r {
                Some(i) => i == job_index(self@, unit@) && i < self@.len() && self@[i as int] == self.entries@[i as int].view(),
                None => job_index(self@, unit@) < 0,
            },
    {
        let mut i: usize = 0;
        while i < self.entries.len()
            invariant
                i <= self@.len(),
                self@.len() == self.entries@.len(),
                forall|j: int| 0 <= j < i ==> self@[j].0 != unit@,
            decreases self.entries@.len() - i,
        {
            if same(self.entries[i].unit.as_str(), unit) {
                proof {
                    lemma_job_index(self@, unit@, i as int);
                }
                return Some(i);
            }
            i = i + 1;
        }
        proof {
            lemma_job_index(self@, unit@, self@.len() as int);
        }
        None
    }

    /// The paths `unit` wrote in this job.
    pub fn get(&self, unit: &str) -> (r: Option<&Vec<String>>)
        ensures
            match r {
                Some(v) => job_paths(self@, unit@) == Some(texts(v@).to_set()),
                None => job_paths(self@, unit@) is None,
            },
    {
        match self.find(unit) {
            Some(i) => Some(&self.entries[i].paths),
            None => None,
        }
    }

    /// Records that `unit` wrote `path`.
    pub fn add(&mut self, unit: &str, path: &str)
        ensures
            job_paths(final(self)@, unit@) == Some(paths_or_empty(old(self)@, unit@).insert(path@)),
            forall|k: Seq<char>| k != unit@ ==> #[trigger] job_paths(final(self)@, k) == job_paths(old(self)@, k),
    {
        match self.find(unit) {
            Some(i) => {
                let mut paths = clone_list(&self.entries[i].paths);
                let ghost before = paths@;
                if !list_contains(&paths, path) {
                    paths.push(path.to_owned());
                    proof {
                        assert(texts(paths@) =~= texts(before).push(path@));
                        texts(before).lemma_push_to_set_commute(path@);
                    }
                } else {
                    proof {
                        assert(texts(before).to_set().insert(path@) =~= texts(before).to_set());
                    }
                }
                let e = JobEntry { unit: unit.to_owned(), paths };
                let ghost es = self@;
                proof {
                    lemma_update_entry(es, unit@, e.view().1);
                }
                self.entries.set(i, e);
                assert(self@ =~= es.update(i as int, e.view()));
            },
            None => {
                let mut paths: Vec<String> = Vec::new();
                paths.push(path.to_owned());
                let e = JobEntry { unit: unit.to_owned(), paths };
                let ghost es = self@;
                proof {
                    assert(texts(e.paths@) =~= seq![path@]);
                    assert(seq![path@].to_set() =~= Set::<Seq<char>>::empty().insert(path@)) by {
                        assert(seq![path@].contains(path@)) by {
                            assert(seq![path@][0] == path@);
                        }
                    }
                    lemma_push_entry(es, unit@, e.view().1);
                }
                self.entries.push(e);
                assert(self@ =~= es.push(e.view()));
            },
        }
    }

    /// Records that `unit` removed `path`. A unit with no entry gets an empty one.
    pub fn discard(&mut self, unit: &str, path: &str)
        ensures
            job_paths(final(self)@, unit@) == Some(paths_or_empty(old(self)@, unit@).remove(path@)),
            forall|k: Seq<char>| k != unit@ ==> #[trigger] job_paths(final(self)@, k) == job_paths(old(self)@, k),
    {
        match self.find(unit) {
            Some(i) => {
                let paths = list_without(&self.entries[i].paths, path);
                let ghost before = texts(self.entries@[i as int].paths@);
                proof {
                    lemma_without(before, path@);
                    assert(texts(paths@).to_set() =~= before.to_set().remove(path@));
                }
                let e = JobEntry { unit: unit.to_owned(), paths };
                let ghost es = self@;
                proof {
                    lemma_update_entry(es, unit@, e.view().1);
                }
                self.entries.set(i, e);
                assert(self@ =~= es.update(i as int, e.view()));
            },
            None => {
                let e = JobEntry { unit: unit.to_owned(), paths: Vec::new() };
                let ghost es = self@;
                proof {
                    lemma_empty_list_set(e.paths@);
                    assert(Set::<Seq<char>>::empty().remove(path@) =~= Set::<Seq<char>>::empty());
                    lemma_push_entry(es, unit@, e.view().1);
                }
                self.entries.push(e);
                assert(self@ =~= es.push(e.view()));
            },
        }
    }

    /// Whether some unit wrote a file in this job.
    pub fn any_written(&self) -> (r: bool)
        ensures
            r == any_written(self@),
    {
        let mut i: usize = 0;
        while i < self.entries.len()
            invariant
                i <= self@.len(),
                self@.len() == self.entries@.len(),
                forall|j: int| 0 <= j < i ==> (#[trigger] self@[j]).1 == Set::<Seq<char>>::empty(),
            decreases self.entries@.len() - i,
        {
            if self.entries[i].paths.len() > 0 {
                proof {
                    let v = self.entries@[i as int].paths@;
                    assert(texts(v).to_set().contains(texts(v)[0]));
                    assert(self@[i as int].1 != Set::<Seq<char>>::empty());
                }
                return true;
            }
            proof {
                lemma_empty_list_set(self.entries@[i as int].paths@);
            }
            i = i + 1;
        }
        false
    }
}

} // verus!
