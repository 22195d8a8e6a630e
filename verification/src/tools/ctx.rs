//! What a tool works with: the project, the reads so far, and the job it serves.

use vstd::prelude::*;

use crate::provenance::job::JobArtifacts;
use crate::provenance::store::Store;
use crate::source::graph::DepGraph;
use crate::source::project::Project;
use crate::toolchain::Toolchain;

verus! {

/// Choosing the toolchain: the one chosen so far.
pub struct Resolve<'a> {
    pub toolchain: &'a mut Option<Toolchain>,
}

/// Composing into a dest.
pub struct Compose<'a> {
    pub dest: &'a str,
    pub store: &'a Store,
    pub artifacts: &'a mut JobArtifacts,
    pub toolchain: Option<Toolchain>,
}

/// The job a tool serves.
pub enum Mode<'a> {
    Lucid,
    Resolve(Resolve<'a>),
    Compose(Compose<'a>),
}

/// A tool's context.
pub struct ToolCtx<'a> {
    pub project: &'a Project,
    pub deps: &'a mut DepGraph,
    pub mode: Mode<'a>,
}

impl<'a> ToolCtx<'a> {
    /// Interpreting a `.foo` program.
    pub fn lucid(project: &'a Project, deps: &'a mut DepGraph) -> (c: ToolCtx<'a>)
        ensures
            c.project == project,
            c.mode is Lucid,
    {
        ToolCtx { project, deps, mode: Mode::Lucid }
    }

    /// Choosing the toolchain.
    pub fn resolve(project: &'a Project, deps: &'a mut DepGraph, toolchain: &'a mut Option<Toolchain>) -> (c: ToolCtx<'a>)
        ensures
            c.project == project,
            c.mode is Resolve,
    {
        ToolCtx { project, deps, mode: Mode::Resolve(Resolve { toolchain }) }
    }

    /// Composing into a dest.
    pub fn compose(project: &'a Project, deps: &'a mut DepGraph, compose: Compose<'a>) -> (c: ToolCtx<'a>)
        ensures
            c.project == project,
            c.mode matches Mode::Compose(x) && x.dest == compose.dest && x.store == compose.store && x.toolchain == compose.toolchain,
    {
        ToolCtx { project, deps, mode: Mode::Compose(compose) }
    }
}

/// Data files are only for interpreting.
pub fn require_lucid(mode: &Mode) -> (r: Result<(), crate::error::DreamError>)
    ensures
        r is Ok <==> mode is Lucid,
        r matches Err(e) ==> e@ == (crate::error::ErrorKind::Runtime, "data files are only available when interpreting"@),
{
    match mode {
        Mode::Lucid => Ok(()),
        _ => Err(crate::error::DreamError::runtime("data files are only available when interpreting")),
    }
}

} // verus!
