//! Opening a dest directory: which store applies, and what a fresh start removes.

use vstd::prelude::*;

use crate::error::{DreamError, ErrorKind};
use crate::provenance::store::{Store, StoreView};
use crate::text::{concat, concat3, owned, same, texts};
use crate::toolchain::catalog::{catalog_row, row, row_index, spec, CATALOG_LEN};
use crate::toolchain::{parse_spec, Toolchain};

verus! {

broadcast use vstd::seq_lib::group_seq_properties;

/// Whether a store bound to `store_toolchain` serves a request for `requested`: the same
/// name, or a catalog store and a request that names no catalog toolchain (a fuzzy
/// `-t`). A non-row store (`monkey_c`) is exact only; `unsupported` is not a row.
pub open spec fn accepts_spec(store_toolchain: Seq<char>, requested: Seq<char>) -> bool {
    store_toolchain == requested || (row_index(store_toolchain) >= 0 && parse_spec(requested) is Err)
}

/// Does a store for `store_toolchain` serve a request for `requested`?
pub fn accepts_target(store_toolchain: &str, requested: &str) -> (r: bool)
    ensures
        r == accepts_spec(store_toolchain@, requested@),
{
    same(store_toolchain, requested) || (spec(store_toolchain).is_some() && Toolchain::parse(requested).is_err())
}

/// The toolchain already bound for this dest: `None` means resolve (or a first catalog bind).
pub open spec fn existing_bind_spec(store_toolchain: Seq<char>, requested: Seq<char>, fresh: bool) -> Option<Toolchain> {
    if fresh || !accepts_spec(store_toolchain, requested) {
        None
    } else if row_index(store_toolchain) >= 0 {
        Some(Toolchain::Known(row_index(store_toolchain) as usize))
    } else {
        Some(Toolchain::Unsupported)
    }
}

/// The toolchain already bound for this dest.
pub fn existing_bind(store_toolchain: &str, requested: &str, fresh: bool) -> (r: Option<Toolchain>)
    ensures
        r == existing_bind_spec(store_toolchain@, requested@, fresh),
{
    proof {
        crate::toolchain::catalog::lemma_unsupported_is_not_a_row();
        crate::toolchain::catalog::lemma_row_index(store_toolchain@);
    }
    if fresh || !accepts_target(store_toolchain, requested) {
        return None;
    }
    match Toolchain::parse(store_toolchain) {
        Ok(known) => if known.spec().is_some() {
            Some(known)
        } else {
            Some(Toolchain::Unsupported)
        },
        Err(_) => Some(Toolchain::Unsupported),
    }
}

/// The store a command that needs a composed dest works on: the loaded store, if its
/// toolchain serves `target`.
pub fn require_store(loaded: Option<Store>, target: &str) -> (r: Result<Store, DreamError>)
    ensures
        match loaded {
            None => r matches Err(e) && e@ == (ErrorKind::Usage, "output has no provenance store; compose first"@),
            Some(s) => if accepts_spec(s@.toolchain, target@) {
                r matches Ok(t) && t == s
            } else {
                r matches Err(e) && e@ == (ErrorKind::Usage, "output is for toolchain `"@ + s@.toolchain + "`; pass `-t "@ + s@.toolchain + "`"@)
            },
        },
{
    match loaded {
        None => Err(DreamError::usage("output has no provenance store; compose first")),
        Some(store) => {
            if !accepts_target(store.toolchain.as_str(), target) {
                let a = concat3("output is for toolchain `", store.toolchain.as_str(), "`; pass `-t ");
                let msg = concat3(a.as_str(), store.toolchain.as_str(), "`");
                return Err(DreamError::usage(msg.as_str()));
            }
            Ok(store)
        },
    }
}

/// Every dest path some catalog row owns: each row's setup files, then its lockfiles and
/// build dirs, row by row.
pub open spec fn catalog_owned(k: int) -> Seq<Seq<char>>
    decreases k,
{
    if k <= 0 {
        seq![]
    } else {
        catalog_owned(k - 1) + catalog_row(k - 1).setup + catalog_row(k - 1).project
    }
}

/// The dest paths every catalog row owns.
pub fn catalog_owned_paths() -> (r: Vec<String>)
    ensures
        texts(r@) == catalog_owned(CATALOG_LEN as int),
{
    let mut out: Vec<String> = Vec::new();
    let mut k: usize = 0;
    while k < CATALOG_LEN
        invariant
            k <= CATALOG_LEN,
            texts(out@) == catalog_owned(k as int),
        decreases CATALOG_LEN - k,
    {
        let paths = row(k).owned_dest();
        let mut j: usize = 0;
        let ghost base = texts(out@);
        while j < paths.len()
            invariant
                j <= paths@.len(),
                texts(out@) == base + texts(paths@).take(j as int),
            decreases paths@.len() - j,
        {
            let ghost before = texts(out@);
            out.push(paths[j].clone());
            proof {
                assert(texts(out@) =~= before.push(paths@[j as int]@));
                assert(texts(out@) =~= base + texts(paths@).take(j + 1));
            }
            j = j + 1;
        }
        proof {
            assert(texts(paths@).take(paths@.len() as int) =~= texts(paths@));
            assert(texts(out@) =~= catalog_owned(k + 1));
        }
        k = k + 1;
    }
    out
}

/// What opening a dest decided: the store to compose into, whether it starts fresh,
/// and the dest paths to remove first, in order.
pub struct OpenPlan {
    pub store: Store,
    pub fresh: bool,
    pub remove: Vec<String>,
}

/// What `open` removes from a fresh dest: the old store's files and its `.dream`
/// directory, then whatever any catalog row owns.
pub open spec fn fresh_removals(old: Option<StoreView>) -> Seq<Seq<char>> {
    match old {
        Some(s) => s.project + crate::provenance::store::all_artifacts(s.units) + seq![".dream"@] + catalog_owned(CATALOG_LEN as int),
        None => catalog_owned(CATALOG_LEN as int),
    }
}

/// Opens a dest for composing with `target`, given the store found there (if any) and
/// whether files Dream does not own are present. A store for another toolchain needs
/// `--fresh`; so do foreign files without a store. A fresh start drops everything Dream
/// or any catalog row owns and begins a new store for `target`.
pub fn open(loaded: Option<Store>, has_user_files: bool, target: &str, fresh: bool) -> (r: Result<OpenPlan, DreamError>)
    ensures
        r matches Ok(p) ==> accepts_spec(p.store@.toolchain, target@),
        match loaded {
            Some(s) => if !fresh && !accepts_spec(s@.toolchain, target@) {
                r matches Err(e) && e@ == (ErrorKind::Usage, "output is for toolchain `"@ + s@.toolchain + "`; pass --fresh to overwrite `-t "@ + target@ + "`"@)
            } else if fresh {
                r matches Ok(p) && p.fresh && p.store@.toolchain == target@ && p.store@.units.len() == 0
                    && p.store@.project.len() == 0 && p.store@.locked_setup.len() == 0 && p.store@.source_root is None
                    && texts(p.remove@) == fresh_removals(Some(s@))
            } else {
                r matches Ok(p) && !p.fresh && p.store == s && p.remove@.len() == 0
            },
            None => if has_user_files && !fresh {
                r matches Err(e) && e@ == (ErrorKind::Usage, "output has files Dream does not own; pass --fresh to overwrite or use an empty directory"@)
            } else {
                r matches Ok(p) && p.fresh == fresh && p.store@.toolchain == target@ && p.store@.units.len() == 0
                    && p.store@.project.len() == 0 && p.store@.locked_setup.len() == 0 && p.store@.source_root is None
                    && texts(p.remove@) == (if fresh { fresh_removals(None) } else { seq![] })
            },
        },
{
    match loaded {
        Some(store) => {
            if !fresh && !accepts_target(store.toolchain.as_str(), target) {
                let a = concat3("output is for toolchain `", store.toolchain.as_str(), "`; pass --fresh to overwrite `-t ");
                let msg = concat3(a.as_str(), target, "`");
                return Err(DreamError::usage(msg.as_str()));
            }
            if fresh {
                let mut remove = store.owned_paths();
                remove.push(owned(".dream"));
                let catalog = catalog_owned_paths();
                let ghost base = texts(remove@);
                let mut j: usize = 0;
                while j < catalog.len()
                    invariant
                        j <= catalog@.len(),
                        texts(remove@) == base + texts(catalog@).take(j as int),
                    decreases catalog@.len() - j,
                {
                    let ghost before = texts(remove@);
                    remove.push(catalog[j].clone());
                    proof {
                        assert(texts(remove@) =~= before.push(catalog@[j as int]@));
                        assert(texts(remove@) =~= base + texts(catalog@).take(j + 1));
                    }
                    j = j + 1;
                }
                proof {
                    assert(texts(catalog@).take(catalog@.len() as int) =~= texts(catalog@));
                    assert(texts(remove@) =~= fresh_removals(Some(store@)));
                }
                return Ok(OpenPlan { store: Store::new(target), fresh: true, remove });
            }
            Ok(OpenPlan { store, fresh: false, remove: Vec::new() })
        },
        None => {
            if has_user_files && !fresh {
                return Err(DreamError::usage("output has files Dream does not own; pass --fresh to overwrite or use an empty directory"));
            }
            let remove = if fresh {
                catalog_owned_paths()
            } else {
                Vec::new()
            };
            assert(!fresh ==> texts(remove@) =~= Seq::<Seq<char>>::empty());
            Ok(OpenPlan { store: Store::new(target), fresh, remove })
        },
    }
}

} // verus!
