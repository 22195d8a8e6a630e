//! Bringing a unit's record up to date after it was composed again.

use vstd::prelude::*;

use crate::provenance::store::{artifacts_set, Store};
use crate::provenance::units::lookup;
use crate::text::{clone_list, list_contains, texts};

verus! {

broadcast use vstd::seq_lib::group_seq_properties;

/// The paths of `prev`, in order, that `new` no longer holds.
pub open spec fn stale_paths(prev: Seq<Seq<char>>, new: Seq<Seq<char>>) -> Seq<Seq<char>>
    decreases prev.len(),
{
    if prev.len() == 0 {
        seq![]
    } else {
        let r = stale_paths(prev.drop_last(), new);
        if new.contains(prev.last()) {
            r
        } else {
            r.push(prev.last())
        }
    }
}

/// The artifacts the store held for `unit`.
pub open spec fn previous_artifacts(units: crate::provenance::units::UnitsView, unit: Seq<char>) -> Seq<Seq<char>> {
    match lookup(units, unit) {
        Some(st) => st.artifacts,
        None => seq![],
    }
}

/// Records `new_artifacts` as what `unit` produced, and gives back the files it had
/// produced before and no longer does: the caller deletes them from the dest.
pub fn reconcile(store: &mut Store, unit: &str, new_artifacts: Vec<String>) -> (stale: Vec<String>)
    ensures
        texts(stale@) == stale_paths(previous_artifacts(old(store)@.units, unit@), texts(new_artifacts@)),
        artifacts_set(old(store)@, final(store)@, unit@, texts(new_artifacts@).to_set()),
{
    let previous = match store.units.get(unit) {
        Some(st) => clone_list(&st.artifacts),
        None => Vec::new(),
    };
    let ghost prev = texts(previous@);
    assert(prev == previous_artifacts(store@.units, unit@));
    let mut stale: Vec<String> = Vec::new();
    let mut i: usize = 0;
    while i < previous.len()
        invariant
            i <= previous@.len(),
            prev == texts(previous@),
            texts(stale@) == stale_paths(prev.take(i as int), texts(new_artifacts@)),
        decreases previous@.len() - i,
    {
        proof {
            assert(prev.take(i + 1).drop_last() =~= prev.take(i as int));
        }
        if !list_contains(&new_artifacts, previous[i].as_str()) {
            let ghost before = stale@;
            stale.push(previous[i].clone());
            proof {
                assert(texts(stale@) =~= texts(before).push(prev[i as int]));
            }
        }
        i = i + 1;
    }
    assert(prev.take(previous@.len() as int) =~= prev);
    store.set_artifacts(unit, new_artifacts);
    stale
}

/// Reconciling deletes exactly the unit's earlier files that the new composition did not
/// produce: each stale path was the unit's before and is not produced now, and each such
/// path is stale.
pub proof fn lemma_stale_paths(prev: Seq<Seq<char>>, new: Seq<Seq<char>>)
    ensures
        forall|p: Seq<char>| stale_paths(prev, new).contains(p) <==> (prev.contains(p) && !new.contains(p)),
    decreases prev.len(),
{
    if prev.len() > 0 {
        let d = prev.drop_last();
        lemma_stale_paths(d, new);
        let r = stale_paths(d, new);
        assert forall|p: Seq<char>| stale_paths(prev, new).contains(p) <==> (prev.contains(p) && !new.contains(p)) by {
            if prev.contains(p) && !new.contains(p) {
                let i = choose|i: int| 0 <= i < prev.len() && prev[i] == p;
                if i < prev.len() - 1 {
                    assert(d[i] == p);
                    assert(r.contains(p));
                    let k = choose|k: int| 0 <= k < r.len() && r[k] == p;
                    if !new.contains(prev.last()) {
                        assert(r.push(prev.last())[k] == p);
                    }
                } else {
                    assert(r.push(prev.last())[r.len() as int] == p);
                }
            }
            if stale_paths(prev, new).contains(p) {
                let w = stale_paths(prev, new);
                let k = choose|k: int| 0 <= k < w.len() && w[k] == p;
                if new.contains(prev.last()) {
                    assert(w == r);
                    assert(r.contains(p));
                    assert(d.contains(p) && !new.contains(p));
                    let i = choose|i: int| 0 <= i < d.len() && d[i] == p;
                    assert(prev[i] == p);
                } else if k < r.len() {
                    assert(w[k] == r[k]);
                    assert(r.contains(p));
                    assert(d.contains(p) && !new.contains(p));
                    let i = choose|i: int| 0 <= i < d.len() && d[i] == p;
                    assert(prev[i] == p);
                } else {
                    assert(prev[prev.len() - 1] == p);
                }
            }
        }
    }
}

} // verus!
