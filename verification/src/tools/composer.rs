//! The decisions of the dest tools `write_file` and `remove_file`: where a request
//! lands, which unit claims it, whether provenance allows it, and what the job
//! records once the dest was changed.

use vstd::prelude::*;

use crate::error::{DreamError, ErrorKind};
use crate::provenance::job::{job_paths, paths_or_empty, JobArtifacts, JobView};
use crate::provenance::ownership::{authorize_remove, authorize_unit, authorize_write, is_setup_in, job_view, remove_verdict, spec_view, unit_verdict, verdict, write_verdict, Entry};
use crate::provenance::store::{Store, StoreView};
use crate::source::graph::{was_read, DepGraph};
use crate::source::paths::{rel_dest, rel_under_spec, resolve_output, resolve_output_spec, text_result};
use crate::source::project::{Unit, UnitView};
use crate::text::{concat, concat3};
use crate::toolchain::catalog::{ToolchainSpec, ToolchainView};
use crate::tools::ctx::{Mode, ToolCtx};
use crate::tools::reply::{done, done_text, refused, warning, warning_text};

verus! {

/// The dest-relative path a dest tool's request names. The dest tools say `dest write`
/// where a request escapes the dest.
pub open spec fn dest_rel_spec(dest: Seq<char>, requested: Seq<char>) -> Result<Seq<char>, (ErrorKind, Seq<char>)> {
    match resolve_output_spec(dest, requested) {
        Err(e) => if e.1 == "output write escapes -o"@ {
            Err((e.0, "dest write escapes -o"@))
        } else {
            Err(e)
        },
        Ok(abs) => rel_under_spec(dest, abs, "dest write escapes -o"@),
    }
}

/// The dest-relative path a dest tool's request names, strictly inside the dest.
pub fn dest_rel(dest: &str, requested: &str) -> (r: Result<String, DreamError>)
    ensures
        text_result(r) == dest_rel_spec(dest@, requested@),
{
    let abs = match resolve_output(dest, requested) {
        Ok(abs) => abs,
        Err(e) => {
            if crate::text::same(e.detail(), "output write escapes -o") {
                return Err(DreamError::runtime("dest write escapes -o"));
            }
            return Err(e);
        },
    };
    rel_dest(dest, abs.as_str())
}

/// A dest tool works only while composing.
pub fn only_while_composing(ctx: &ToolCtx, name: &str) -> (r: Result<(), DreamError>)
    ensures
        r is Ok <==> ctx.mode is Compose,
        r matches Err(e) ==> e@ == (ErrorKind::Composer, name@ + " is only available while composing"@),
{
    match &ctx.mode {
        Mode::Compose(_) => Ok(()),
        _ => Err(DreamError::composer(concat(name, " is only available while composing").as_str())),
    }
}

/// The unit a write claims, as read from the project: it must have been read in this
/// composition, and must not be locked.
pub open spec fn authorize_spec(deps: crate::source::graph::DepGraphView, store: Option<StoreView>, read: Result<UnitView, (ErrorKind, Seq<char>)>) -> Result<Seq<char>, (ErrorKind, Seq<char>)> {
    match read {
        Err(e) => Err(e),
        Ok(u) => if !was_read(deps, u.rel) {
            Err((ErrorKind::Composer, "read `"@ + u.rel + "` first"@))
        } else {
            match store {
                Some(s) => match unit_verdict(s, u.rel) {
                    Err(e) => Err(e),
                    Ok(()) => Ok(u.rel),
                },
                None => Ok(u.rel),
            }
        },
    }
}

pub open spec fn read_view(r: Result<Unit, DreamError>) -> Result<UnitView, (ErrorKind, Seq<char>)> {
    match r {
        Ok(u) => Ok(u@),
        Err(e) => Err(e@),
    }
}

/// The unit a write claims: `read` is the project's read of the requested `.foo`
/// file; `store` the composition's store.
pub fn authorize(deps: &DepGraph, store: Option<&Store>, read: Result<Unit, DreamError>) -> (r: Result<String, DreamError>)
    ensures
        text_result(r) == authorize_spec(deps@, store_view(store), read_view(read)),
{
    let unit = read?;
    if !deps.reached(unit.rel.as_str()) {
        return Err(DreamError::composer(concat3("read `", unit.rel.as_str(), "` first").as_str()));
    }
    if let Some(store) = store {
        authorize_unit(store, unit.rel.as_str())?;
    }
    Ok(unit.rel)
}

pub open spec fn store_view(s: Option<&Store>) -> Option<StoreView> {
    match s {
        Some(x) => Some(x@),
        None => None,
    }
}

/// Which unit claims a dest write while composing: none for a setup file, else the
/// `unit` argument, which must pass `authorize`. A refusal is the reply to send.
pub open spec fn claim_spec(
    deps: crate::source::graph::DepGraphView,
    store: Option<StoreView>,
    composing: bool,
    setup: bool,
    name: Seq<char>,
    unit_arg: bool,
    read: Result<UnitView, (ErrorKind, Seq<char>)>,
) -> Result<Option<Seq<char>>, Seq<char>> {
    if composing && !setup {
        if !unit_arg {
            Err(warning_text(name + " requires a `.foo` file"@))
        } else {
            match authorize_spec(deps, store, read) {
                Ok(u) => Ok(Some(u)),
                Err(e) => Err(warning_text(e.1)),
            }
        }
    } else {
        Ok(None)
    }
}

pub open spec fn claim_view(r: Result<Option<String>, String>) -> Result<Option<Seq<char>>, Seq<char>> {
    match r {
        Ok(Some(u)) => Ok(Some(u@)),
        Ok(None) => Ok(None),
        Err(m) => Err(m@),
    }
}

/// Which unit claims a dest write. `read` is the project's read of the `unit`
/// argument, when there is one.
pub fn claim_unit(deps: &DepGraph, store: Option<&Store>, composing: bool, setup: bool, name: &str, read: Option<Result<Unit, DreamError>>) -> (r: Result<Option<String>, String>)
    ensures
        claim_view(r) == claim_spec(deps@, store_view(store), composing, setup, name@, read is Some,
            match read { Some(x) => read_view(x), None => Err((ErrorKind::Composer, seq![])) }),
{
    if !composing || setup {
        return Ok(None);
    }
    match read {
        None => Err(refused(DreamError::composer(concat(name, " requires a `.foo` file").as_str()))),
        Some(read) => match authorize(deps, store, read) {
            Ok(unit) => Ok(Some(unit)),
            Err(err) => Err(refused(err)),
        },
    }
}

pub open spec fn opt_str_view(o: Option<&str>) -> Option<Seq<char>> {
    match o {
        Some(s) => Some(s@),
        None => None,
    }
}

/// The files this job wrote for `unit`, as `authorize_write` sees them.
pub open spec fn this_job(job: Option<&JobArtifacts>, unit: Option<&str>) -> Option<Set<Seq<char>>> {
    match (job, unit) {
        (Some(j), Some(u)) => job_paths(j@, u@),
        _ => None,
    }
}

/// The refusal reply for a write `authorize_write` refuses, or `None` to go ahead.
pub fn check_write(
    store: &Store,
    found: Entry,
    rel: &str,
    unit: Option<&str>,
    job: Option<&JobArtifacts>,
    spec: Option<&ToolchainSpec>,
) -> (r: Option<String>)
    ensures
        match write_verdict(store@, found, rel@, opt_str_view(unit), this_job(job, unit), spec_view(spec)) {
            Ok(()) => r is None,
            Err(e) => r matches Some(m) && m@ == warning_text(e.1),
        },
{
    let this = match (job, unit) {
        (Some(j), Some(u)) => j.get(u),
        _ => None,
    };
    match authorize_write(store, found, rel, unit, this, spec) {
        Ok(()) => None,
        Err(err) => Some(refused(err)),
    }
}

/// The refusal reply for a removal `authorize_remove` refuses, or `None` to go ahead.
pub fn check_remove(
    store: &Store,
    rel: &str,
    unit: Option<&str>,
    job: Option<&JobArtifacts>,
    spec: Option<&ToolchainSpec>,
) -> (r: Option<String>)
    ensures
        match remove_verdict(store@, rel@, opt_str_view(unit), this_job(job, unit), spec_view(spec)) {
            Ok(()) => r is None,
            Err(e) => r matches Some(m) && m@ == warning_text(e.1),
        },
{
    let this = match (job, unit) {
        (Some(j), Some(u)) => j.get(u),
        _ => None,
    };
    match authorize_remove(store, rel, unit, this, spec) {
        Ok(()) => None,
        Err(err) => Some(refused(err)),
    }
}

/// A dest change that provenance allows: the dest-relative path, and the unit that
/// claims it, if any.
pub struct OutputChange {
    pub rel: String,
    pub unit: Option<String>,
}

/// What a dest tool decides while composing into `dest`, for a request of `path`:
/// the refusal reply to send, or the dest-relative path and claiming unit of the change
/// to make. The path must stay inside the dest; the `unit` argument (read from the
/// project as `read`) must claim the change unless it touches a setup file; and the
/// store's write rule (`write`) or removal rule must allow it, given what the dest holds
/// there (`found`).
pub open spec fn output_spec(
    dest: Seq<char>,
    store: StoreView,
    job: JobView,
    spec: Option<ToolchainView>,
    deps: crate::source::graph::DepGraphView,
    name: Seq<char>,
    path: Seq<char>,
    found: Entry,
    unit_arg: bool,
    read: Result<UnitView, (ErrorKind, Seq<char>)>,
    write: bool,
) -> Result<(Seq<char>, Option<Seq<char>>), Seq<char>> {
    match dest_rel_spec(dest, path) {
        Err(e) => Err(warning_text(e.1)),
        Ok(rel) => match claim_spec(deps, Some(store), true, is_setup_in(spec, rel), name, unit_arg, read) {
            Err(m) => Err(m),
            Ok(unit) => {
                let this = match unit {
                    Some(u) => job_paths(job, u),
                    None => None,
                };
                let v = if write {
                    write_verdict(store, found, rel, unit, this, spec)
                } else {
                    remove_verdict(store, rel, unit, this, spec)
                };
                match v {
                    Ok(()) => Ok((rel, unit)),
                    Err(e) => Err(warning_text(e.1)),
                }
            },
        },
    }
}

pub open spec fn change_view(r: Result<OutputChange, String>) -> Result<(Seq<char>, Option<Seq<char>>), Seq<char>> {
    match r {
        Ok(c) => Ok((c.rel@, match c.unit {
            Some(u) => Some(u@),
            None => None,
        })),
        Err(m) => Err(m@),
    }
}

/// Decides a dest tool's request while composing: where it lands, which unit claims
/// it, and whether provenance allows it. `read` is the project's read of the `unit`
/// argument, when there is one; `found` is what the dest holds at the request's path.
pub fn decide_output(
    dest: &str,
    store: &Store,
    job: &JobArtifacts,
    spec: Option<&ToolchainSpec>,
    deps: &DepGraph,
    name: &str,
    path: &str,
    found: Entry,
    read: Option<Result<Unit, DreamError>>,
    write: bool,
) -> (r: Result<OutputChange, String>)
    ensures
        change_view(r) == output_spec(dest@, store@, job@, spec_view(spec), deps@, name@, path@, found, read is Some,
            match read { Some(x) => read_view(x), None => Err((ErrorKind::Composer, seq![])) }, write),
{
    let rel = match dest_rel(dest, path) {
        Ok(rel) => rel,
        Err(err) => return Err(refused(err)),
    };
    let setup = match spec {
        Some(s) => s.is_setup(rel.as_str()),
        None => false,
    };
    let unit = claim_unit(deps, Some(store), true, setup, name, read)?;
    let unit_ref: Option<&str> = match &unit {
        Some(u) => Some(u.as_str()),
        None => None,
    };
    let refusal = if write {
        check_write(store, found, rel.as_str(), unit_ref, Some(job), spec)
    } else {
        check_remove(store, rel.as_str(), unit_ref, Some(job), spec)
    };
    match refusal {
        Some(m) => Err(m),
        None => Ok(OutputChange { rel, unit }),
    }
}

/// After a file was written at `path`: the unit that claimed it records it in this
/// job's files (nothing is recorded without a claiming unit), and the reply names the path.
pub fn record_write(job: &mut JobArtifacts, unit: Option<&str>, path: &str) -> (r: String)
    ensures
        r@ == done_text(path@),
        match unit {
            Some(u) => {
                &&& job_paths(final(job)@, u@) == Some(paths_or_empty(old(job)@, u@).insert(path@))
                &&& forall|k: Seq<char>| k != u@ ==> #[trigger] job_paths(final(job)@, k) == job_paths(old(job)@, k)
            },
            None => final(job)@ == old(job)@,
        },
{
    if let Some(u) = unit {
        job.add(u, path);
    }
    done(path)
}

/// How a removal ended.
pub enum Removed {
    /// The file at this path is gone.
    Done(String),
    /// There was no file there.
    Missing(String),
    /// The path is a directory, which was left alone.
    Directory(String),
}

/// The reply to a removal that ended as `removed`.
pub open spec fn removed_text(removed: Removed) -> Seq<char> {
    match removed {
        Removed::Done(p) => done_text(p@),
        Removed::Missing(p) => warning_text("dest file `"@ + p@ + "` does not exist"@),
        Removed::Directory(p) => warning_text("dest path `"@ + p@ + "` is a directory"@),
    }
}

/// After a removal: a removed file leaves the claiming unit's record in this job's
/// files (a unit without an entry gets an empty one); nothing else changes the record.
pub fn record_remove(job: &mut JobArtifacts, unit: Option<&str>, removed: Removed) -> (r: String)
    ensures
        r@ == removed_text(removed),
        match (unit, removed) {
            (Some(u), Removed::Done(p)) => {
                &&& job_paths(final(job)@, u@) == Some(paths_or_empty(old(job)@, u@).remove(p@))
                &&& forall|k: Seq<char>| k != u@ ==> #[trigger] job_paths(final(job)@, k) == job_paths(old(job)@, k)
            },
            _ => final(job)@ == old(job)@,
        },
{
    match removed {
        Removed::Done(path) => {
            if let Some(u) = unit {
                job.discard(u, path.as_str());
            }
            done(path.as_str())
        },
        Removed::Missing(path) => warning(concat3("dest file `", path.as_str(), "` does not exist").as_str()),
        Removed::Directory(path) => warning(concat3("dest path `", path.as_str(), "` is a directory").as_str()),
    }
}

} // verus!
