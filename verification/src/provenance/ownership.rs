//! Who may read, write and remove a dest path.

use vstd::prelude::*;

use crate::error::{DreamError, ErrorKind};
use crate::provenance::store::{is_reserved, locked_in, owner_of, reserved, Owner, OwnerView, Store, StoreView};
use crate::text::{concat3, list_contains, same, texts};
use crate::toolchain::catalog::{ToolchainSpec, ToolchainView};

verus! {

/// What the file system holds at a dest path.
#[derive(Debug, Clone, Copy, PartialEq, Eq, Structural)]
pub enum Entry {
    Missing,
    File,
    Other,
}

/// A refusal or consent.
pub type Verdict = Result<(), (ErrorKind, Seq<char>)>;

pub open spec fn verdict(r: Result<(), DreamError>) -> Verdict {
    match r {
        Ok(()) => Ok(()),
        Err(e) => Err(e@),
    }
}

/// `` `s` ``.
pub open spec fn ticked(s: Seq<char>) -> Seq<char> {
    "`"@ + s + "`"@
}

pub open spec fn refuse(message: Seq<char>) -> Verdict {
    Err((ErrorKind::Composer, message))
}

/// Whether the row makes `rel` a setup file.
pub open spec fn is_setup_in(spec: Option<ToolchainView>, rel: Seq<char>) -> bool {
    spec matches Some(t) && t.setup.contains(rel)
}

/// Whether the row makes `rel` a lockfile or build dir.
pub open spec fn is_wipe_in(spec: Option<ToolchainView>, rel: Seq<char>) -> bool {
    spec matches Some(t) && t.project.contains(rel)
}

pub open spec fn spec_view(spec: Option<&ToolchainSpec>) -> Option<ToolchainView> {
    match spec {
        Some(t) => Some(t@),
        None => None,
    }
}

pub open spec fn opt_view(o: Option<&str>) -> Option<Seq<char>> {
    match o {
        Some(s) => Some(s@),
        None => None,
    }
}

pub open spec fn job_view(o: Option<&Vec<String>>) -> Option<Set<Seq<char>>> {
    match o {
        Some(v) => Some(texts(v@).to_set()),
        None => None,
    }
}

/// A unit may be changed only while it is not locked.
pub open spec fn unit_verdict(s: StoreView, unit: Seq<char>) -> Verdict {
    if locked_in(s, unit) {
        refuse(ticked(unit) + " is locked"@)
    } else {
        Ok(())
    }
}

/// The owner of `rel`, counting the files this job already wrote for `unit`.
pub open spec fn owner_with_job(s: StoreView, rel: Seq<char>, unit: Option<Seq<char>>, job: Option<Set<Seq<char>>>) -> OwnerView {
    match (unit, job) {
        (Some(u), Some(arts)) => if arts.contains(rel) {
            OwnerView::Unit(u)
        } else {
            owner_of(s, rel)
        },
        _ => owner_of(s, rel),
    }
}

/// Neither the writing unit nor the owning unit may be locked.
pub open spec fn lock_verdict(s: StoreView, unit: Option<Seq<char>>, owner: OwnerView) -> Verdict {
    match unit {
        Some(u) if locked_in(s, u) => unit_verdict(s, u),
        _ => match owner {
            OwnerView::Unit(o) => unit_verdict(s, o),
            _ => Ok(()),
        },
    }
}

/// Setup files: not while locked, any but another unit's, and not a user's file.
pub open spec fn setup_verdict(s: StoreView, found: Entry, rel: Seq<char>) -> Verdict {
    if locked_in(s, rel) {
        unit_verdict(s, rel)
    } else {
        setup_owner_verdict(s, found, rel)
    }
}

/// Setup files by owner: any but another unit's, and not a user's file.
pub open spec fn setup_owner_verdict(s: StoreView, found: Entry, rel: Seq<char>) -> Verdict {
    match owner_of(s, rel) {
        OwnerView::Unit(o) => refuse("dest "@ + ticked(rel) + " is owned by "@ + ticked(o)),
        OwnerView::Unmanaged => if found != Entry::Missing {
            refuse("dest "@ + ticked(rel) + " is user-owned"@)
        } else {
            Ok(())
        },
        OwnerView::Project => Ok(()),
    }
}

/// Whether `unit` (or repair, when `None`) may write `rel`.
pub open spec fn write_verdict(
    s: StoreView,
    found: Entry,
    rel: Seq<char>,
    unit: Option<Seq<char>>,
    job: Option<Set<Seq<char>>>,
    spec: Option<ToolchainView>,
) -> Verdict {
    if is_reserved(rel) {
        refuse("cannot write Dream-owned project metadata"@)
    } else if is_wipe_in(spec, rel) {
        refuse("cannot write "@ + ticked(rel) + "; wipe-only"@)
    } else if is_setup_in(spec, rel) {
        setup_verdict(s, found, rel)
    } else {
        let owner = owner_with_job(s, rel, unit, job);
        match lock_verdict(s, unit, owner) {
            Err(e) => Err(e),
            Ok(()) => match owner {
                OwnerView::Project => refuse("cannot write "@ + ticked(rel) + "; wipe-only"@),
                OwnerView::Unit(o) => match unit {
                    Some(u) => if o == u {
                        Ok(())
                    } else {
                        refuse("dest "@ + ticked(rel) + " is owned by "@ + ticked(o))
                    },
                    None => Ok(()),
                },
                OwnerView::Unmanaged => if unit is None {
                    refuse("repair cannot create "@ + ticked(rel))
                } else if found != Entry::Missing {
                    refuse("dest "@ + ticked(rel) + " is user-owned"@)
                } else {
                    Ok(())
                },
            },
        }
    }
}

/// Whether a dest file may be read.
pub open spec fn read_verdict(s: StoreView, found: Entry, rel: Seq<char>, spec: Option<ToolchainView>) -> Verdict {
    if is_reserved(rel) {
        refuse("cannot read Dream-owned project metadata"@)
    } else if is_wipe_in(spec, rel) {
        refuse("cannot read "@ + ticked(rel))
    } else if is_setup_in(spec, rel) {
        if found != Entry::File {
            refuse("dest file "@ + ticked(rel) + " does not exist"@)
        } else {
            Ok(())
        }
    } else {
        match owner_of(s, rel) {
            OwnerView::Unit(_) => if found != Entry::File {
                refuse("dest file "@ + ticked(rel) + " does not exist"@)
            } else {
                Ok(())
            },
            OwnerView::Project => refuse("cannot read "@ + ticked(rel)),
            OwnerView::Unmanaged => refuse("dest "@ + ticked(rel) + " is user-owned"@),
        }
    }
}

/// Whether `unit` (or repair, when `None`) may remove `rel`.
pub open spec fn remove_verdict(
    s: StoreView,
    rel: Seq<char>,
    unit: Option<Seq<char>>,
    job: Option<Set<Seq<char>>>,
    spec: Option<ToolchainView>,
) -> Verdict {
    if is_reserved(rel) {
        refuse("cannot remove Dream-owned project metadata"@)
    } else if is_wipe_in(spec, rel) {
        refuse("cannot remove "@ + ticked(rel) + "; wipe-only"@)
    } else if is_setup_in(spec, rel) {
        match owner_of(s, rel) {
            OwnerView::Unit(o) => refuse("dest "@ + ticked(rel) + " is owned by "@ + ticked(o)),
            _ => Ok(()),
        }
    } else {
        let owner = owner_with_job(s, rel, unit, job);
        match lock_verdict(s, unit, owner) {
            Err(e) => Err(e),
            Ok(()) => match owner {
                OwnerView::Unit(o) => if unit == Some(o) {
                    Ok(())
                } else {
                    refuse("dest "@ + ticked(rel) + " is owned by "@ + ticked(o))
                },
                OwnerView::Project => refuse("cannot remove "@ + ticked(rel) + "; wipe-only"@),
                OwnerView::Unmanaged => refuse("dest "@ + ticked(rel) + " is user-owned"@),
            },
        }
    }
}

fn tick(s: &str) -> (r: String)
    ensures
        r@ == ticked(s@),
{
    concat3("`", s, "`")
}

fn refused(message: String) -> (r: Result<(), DreamError>)
    ensures
        verdict(r) == refuse(message@),
{
    Err(DreamError::composer(message.as_str()))
}

fn owned_by_msg(rel: &str, owner: &str) -> (r: String)
    ensures
        r@ == "dest "@ + ticked(rel@) + " is owned by "@ + ticked(owner@),
{
    let a = concat3("dest ", tick(rel).as_str(), " is owned by ");
    let r = crate::text::concat(a.as_str(), tick(owner).as_str());
    r
}

fn user_owned_msg(rel: &str) -> (r: String)
    ensures
        r@ == "dest "@ + ticked(rel@) + " is user-owned"@,
{
    concat3("dest ", tick(rel).as_str(), " is user-owned")
}

fn missing_file_msg(rel: &str) -> (r: String)
    ensures
        r@ == "dest file "@ + ticked(rel@) + " does not exist"@,
{
    concat3("dest file ", tick(rel).as_str(), " does not exist")
}

fn spec_is_setup(spec: Option<&ToolchainSpec>, rel: &str) -> (r: bool)
    ensures
        r == is_setup_in(spec_view(spec), rel@),
{
    match spec {
        Some(t) => t.is_setup(rel),
        None => false,
    }
}

fn spec_is_wipe(spec: Option<&ToolchainSpec>, rel: &str) -> (r: bool)
    ensures
        r == is_wipe_in(spec_view(spec), rel@),
{
    match spec {
        Some(t) => t.is_wipe(rel),
        None => false,
    }
}

/// A unit may be changed only while it is not locked.
pub fn authorize_unit(store: &Store, unit: &str) -> (r: Result<(), DreamError>)
    ensures
        verdict(r) == unit_verdict(store@, unit@),
{
    if store.is_locked(unit) {
        return refused(crate::text::concat(tick(unit).as_str(), " is locked"));
    }
    Ok(())
}

/// The owner of `rel`, counting the files this job already wrote for `unit`.
pub fn owner_including_job(store: &Store, rel: &str, unit: Option<&str>, this_job: Option<&Vec<String>>) -> (o: Owner)
    ensures
        o@ == owner_with_job(store@, rel@, opt_view(unit), job_view(this_job)),
{
    if let (Some(u), Some(artifacts)) = (unit, this_job) {
        if list_contains(artifacts, rel) {
            return Owner::Unit(u.to_owned());
        }
    }
    store.owner(rel)
}

/// Neither the writing unit nor the owning unit may be locked.
fn reject_if_locked(store: &Store, unit: Option<&str>, owner: &Owner) -> (r: Result<(), DreamError>)
    ensures
        verdict(r) == lock_verdict(store@, opt_view(unit), owner@),
{
    if let Some(u) = unit {
        if store.is_locked(u) {
            return authorize_unit(store, u);
        }
    }
    if let Owner::Unit(o) = owner {
        return authorize_unit(store, o.as_str());
    }
    Ok(())
}

/// Setup files: not while locked, any but another unit's, and not a user's file.
fn authorize_setup(store: &Store, found: Entry, rel: &str) -> (r: Result<(), DreamError>)
    ensures
        verdict(r) == setup_verdict(store@, found, rel@),
{
    if store.is_locked(rel) {
        return authorize_unit(store, rel);
    }
    match store.owner(rel) {
        Owner::Unit(owner) => refused(owned_by_msg(rel, owner.as_str())),
        Owner::Unmanaged => if found != Entry::Missing {
            refused(user_owned_msg(rel))
        } else {
            Ok(())
        },
        Owner::Project => Ok(()),
    }
}

/// Whether `unit` (or repair, when `None`) may write `rel`, given what the dest holds
/// there and the files this job already wrote for `unit`.
pub fn authorize_write(
    store: &Store,
    found: Entry,
    rel: &str,
    unit: Option<&str>,
    this_job: Option<&Vec<String>>,
    spec: Option<&ToolchainSpec>,
) -> (r: Result<(), DreamError>)
    ensures
        verdict(r) == write_verdict(store@, found, rel@, opt_view(unit), job_view(this_job), spec_view(spec)),
{
    if reserved(rel) {
        return refused(crate::text::owned("cannot write Dream-owned project metadata"));
    }
    if spec_is_wipe(spec, rel) {
        return refused(concat3("cannot write ", tick(rel).as_str(), "; wipe-only"));
    }
    if spec_is_setup(spec, rel) {
        return authorize_setup(store, found, rel);
    }
    let owner = owner_including_job(store, rel, unit, this_job);
    reject_if_locked(store, unit, &owner)?;
    match owner {
        Owner::Project => refused(concat3("cannot write ", tick(rel).as_str(), "; wipe-only")),
        Owner::Unit(o) => match unit {
            Some(u) => if same(o.as_str(), u) {
                Ok(())
            } else {
                refused(owned_by_msg(rel, o.as_str()))
            },
            None => Ok(()),
        },
        Owner::Unmanaged => {
            if unit.is_none() {
                return refused(crate::text::concat("repair cannot create ", tick(rel).as_str()));
            }
            if found != Entry::Missing {
                return refused(user_owned_msg(rel));
            }
            Ok(())
        },
    }
}

/// Whether a dest file may be read, given what the dest holds there.
pub fn authorize_read(store: &Store, found: Entry, rel: &str, spec: Option<&ToolchainSpec>) -> (r: Result<(), DreamError>)
    ensures
        verdict(r) == read_verdict(store@, found, rel@, spec_view(spec)),
{
    if reserved(rel) {
        return refused(crate::text::owned("cannot read Dream-owned project metadata"));
    }
    if spec_is_wipe(spec, rel) {
        return refused(crate::text::concat("cannot read ", tick(rel).as_str()));
    }
    if spec_is_setup(spec, rel) {
        if found != Entry::File {
            return refused(missing_file_msg(rel));
        }
        return Ok(());
    }
    match store.owner(rel) {
        Owner::Unit(_) => {
            if found != Entry::File {
                return refused(missing_file_msg(rel));
            }
            Ok(())
        },
        Owner::Project => refused(crate::text::concat("cannot read ", tick(rel).as_str())),
        Owner::Unmanaged => refused(user_owned_msg(rel)),
    }
}

/// Whether `unit` (or repair, when `None`) may remove `rel`.
pub fn authorize_remove(
    store: &Store,
    rel: &str,
    unit: Option<&str>,
    this_job: Option<&Vec<String>>,
    spec: Option<&ToolchainSpec>,
) -> (r: Result<(), DreamError>)
    ensures
        verdict(r) == remove_verdict(store@, rel@, opt_view(unit), job_view(this_job), spec_view(spec)),
{
    if reserved(rel) {
        return refused(crate::text::owned("cannot remove Dream-owned project metadata"));
    }
    if spec_is_wipe(spec, rel) {
        return refused(concat3("cannot remove ", tick(rel).as_str(), "; wipe-only"));
    }
    if spec_is_setup(spec, rel) {
        return match store.owner(rel) {
            Owner::Unit(owner) => refused(owned_by_msg(rel, owner.as_str())),
            Owner::Project | Owner::Unmanaged => Ok(()),
        };
    }
    let owner = owner_including_job(store, rel, unit, this_job);
    reject_if_locked(store, unit, &owner)?;
    match owner {
        Owner::Unit(o) => {
            let mine = match unit {
                Some(u) => same(o.as_str(), u),
                None => false,
            };
            if mine {
                Ok(())
            } else {
                refused(owned_by_msg(rel, o.as_str()))
            }
        },
        Owner::Project => refused(concat3("cannot remove ", tick(rel).as_str(), "; wipe-only")),
        Owner::Unmanaged => refused(user_owned_msg(rel)),
    }
}

/// Dream's own metadata cannot be written, read or removed through the dest tools.
pub proof fn lemma_metadata_is_closed(
    s: StoreView,
    found: Entry,
    rel: Seq<char>,
    unit: Option<Seq<char>>,
    job: Option<Set<Seq<char>>>,
    spec: Option<ToolchainView>,
)
    requires
        is_reserved(rel),
    ensures
        write_verdict(s, found, rel, unit, job, spec) is Err,
        read_verdict(s, found, rel, spec) is Err,
        remove_verdict(s, rel, unit, job, spec) is Err,
{
}

/// A locked unit's files, and a locked unit itself, are frozen: outside the toolchain's
/// setup files and wipe paths, no write or removal passes while the writing unit or
/// the owning unit is locked.
pub proof fn lemma_locked_is_frozen(
    s: StoreView,
    found: Entry,
    rel: Seq<char>,
    unit: Option<Seq<char>>,
    job: Option<Set<Seq<char>>>,
    spec: Option<ToolchainView>,
)
    requires
        !is_setup_in(spec, rel),
        (unit matches Some(u) && locked_in(s, u))
            || (owner_with_job(s, rel, unit, job) matches OwnerView::Unit(o) && locked_in(s, o)),
    ensures
        write_verdict(s, found, rel, unit, job, spec) is Err,
        remove_verdict(s, rel, unit, job, spec) is Err,
{
}

/// Repair never creates a file: without a unit, a path no unit or project owns cannot
/// be written.
pub proof fn lemma_repair_creates_nothing(
    s: StoreView,
    found: Entry,
    rel: Seq<char>,
    spec: Option<ToolchainView>,
)
    requires
        !is_setup_in(spec, rel),
        owner_of(s, rel) == OwnerView::Unmanaged,
    ensures
        write_verdict(s, found, rel, None, None, spec) is Err,
{
}

/// A write never takes what is not the writer's: a dest path that exists and that no
/// unit and not the project owns is a user's file and is never written, setup files
/// included; a path another unit owns is never written by a unit; Dream's own metadata
/// is never written; and repair never creates a file that is not a setup file.
pub proof fn lemma_write_respects_owners(
    s: StoreView,
    found: Entry,
    rel: Seq<char>,
    unit: Option<Seq<char>>,
    job: Option<Set<Seq<char>>>,
    spec: Option<ToolchainView>,
)
    ensures
        owner_with_job(s, rel, unit, job) is Unmanaged && found != Entry::Missing
            ==> write_verdict(s, found, rel, unit, job, spec) is Err,
        owner_with_job(s, rel, unit, job) matches OwnerView::Unit(o) && unit matches Some(u) && u != o
            ==> write_verdict(s, found, rel, unit, job, spec) is Err,
        is_reserved(rel) ==> write_verdict(s, found, rel, unit, job, spec) is Err,
        unit is None && owner_of(s, rel) is Unmanaged && !is_setup_in(spec, rel)
            ==> write_verdict(s, found, rel, unit, job, spec) is Err,
        unit matches Some(u) && locked_in(s, u) && !is_setup_in(spec, rel)
            ==> write_verdict(s, found, rel, unit, job, spec) is Err,
{
}

/// A removal never takes what is not the remover's: not a user's file, not another
/// unit's file, not Dream's own metadata, and nothing for a locked unit.
pub proof fn lemma_remove_respects_owners(
    s: StoreView,
    rel: Seq<char>,
    unit: Option<Seq<char>>,
    job: Option<Set<Seq<char>>>,
    spec: Option<ToolchainView>,
)
    ensures
        owner_with_job(s, rel, unit, job) is Unmanaged && !is_setup_in(spec, rel)
            ==> remove_verdict(s, rel, unit, job, spec) is Err,
        owner_with_job(s, rel, unit, job) matches OwnerView::Unit(o) && unit != Some(o)
            ==> remove_verdict(s, rel, unit, job, spec) is Err,
        is_reserved(rel) ==> remove_verdict(s, rel, unit, job, spec) is Err,
        unit matches Some(u) && locked_in(s, u) && !is_setup_in(spec, rel)
            ==> remove_verdict(s, rel, unit, job, spec) is Err,
{
}

/// A dest file is read only when it is a setup file or a unit's output that exists:
/// never Dream's metadata, a user's file, or a missing file.
pub proof fn lemma_read_respects_owners(s: StoreView, found: Entry, rel: Seq<char>, spec: Option<ToolchainView>)
    ensures
        read_verdict(s, found, rel, spec) is Ok ==> {
            &&& !is_reserved(rel)
            &&& found == Entry::File
            &&& (is_setup_in(spec, rel) || owner_of(s, rel) is Unit)
        },
{
}

/// A locked setup file of the toolchain cannot be written, by any unit or by repair.
pub proof fn lemma_locked_setup_is_frozen(
    s: StoreView,
    found: Entry,
    rel: Seq<char>,
    unit: Option<Seq<char>>,
    job: Option<Set<Seq<char>>>,
    spec: Option<ToolchainView>,
)
    requires
        is_setup_in(spec, rel),
        locked_in(s, rel),
    ensures
        write_verdict(s, found, rel, unit, job, spec) is Err,
{
}

} // verus!
