//! Dream: composes `.foo` programs into projects for a catalog toolchain, and keeps
//! the provenance of every file it writes.
//!
//! - `source`: projects, their manifests and paths, and the graph of unit reads.
//! - `provenance`: the store of which unit produced which dest file, its locks, and the
//!   rules for who may read, write and remove a dest path.
//! - `toolchain`: the catalog of toolchains and the steps that build and run a project.
//! - `toolchain_resolver`: mapping a requested target to a toolchain.
//! - `tools`: the decisions of the tools the model calls, and their replies.

pub mod error;
pub mod provenance;
pub mod source;
pub mod text;
pub mod toolchain;
pub mod toolchain_resolver;
pub mod tools;
pub mod trace;
pub mod utils;
