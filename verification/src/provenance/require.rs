//! Checks a composition must pass before and after it runs.

use vstd::prelude::*;

use crate::error::{DreamError, ErrorKind};
use crate::provenance::job::{any_written, JobArtifacts};
use crate::provenance::store::{Store, StoreView};
use crate::provenance::units::UnitsView;
use crate::text::same;

verus! {

/// Whether some unit in the store owns a file.
pub open spec fn store_has_files(units: UnitsView) -> bool {
    exists|i: int| 0 <= i < units.len() && (#[trigger] units[i]).1.artifacts.len() > 0
}

/// Whether the job or an earlier one produced files.
pub open spec fn composed(job: Seq<(Seq<char>, Set<Seq<char>>)>, s: StoreView) -> bool {
    any_written(job) || store_has_files(s.units)
}

/// A composition must leave files: written in this job or owned from before.
pub fn require_composed(artifacts: &JobArtifacts, store: &Store) -> (r: Result<(), DreamError>)
    ensures
        r is Ok <==> composed(artifacts@, store@),
        r matches Err(e) ==> e@ == (ErrorKind::Composer, "composition produced no files"@),
{
    if artifacts.any_written() {
        return Ok(());
    }
    let n = store.units.len();
    let mut k: usize = 0;
    while k < n
        invariant
            n == store.units@.len(),
            k <= n,
            forall|j: int| 0 <= j < k ==> (#[trigger] store.units@[j]).1.artifacts.len() == 0,
        decreases n - k,
    {
        if store.units.entry(k).state.artifacts.len() > 0 {
            assert(store@.units[k as int].1.artifacts.len() > 0);
            return Ok(());
        }
        k = k + 1;
    }
    Err(DreamError::composer("composition produced no files"))
}

/// A dest composed from one project root refuses another, unless recomposed fresh.
/// `canonical_root` is the project root with every link resolved.
pub fn require_source_root(store: &Store, canonical_root: &str) -> (r: Result<(), DreamError>)
    ensures
        r is Ok <==> (store@.source_root matches Some(prev) ==> prev == canonical_root@),
        r matches Err(e) ==> e@ == (ErrorKind::Usage, "dest is for another Dream project; pass --fresh to overwrite"@),
{
    match &store.source_root {
        None => Ok(()),
        Some(prev) => if same(prev.as_str(), canonical_root) {
            Ok(())
        } else {
            Err(DreamError::usage("dest is for another Dream project; pass --fresh to overwrite"))
        },
    }
}

} // verus!
