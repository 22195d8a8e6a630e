//! The sources of a composition: the project, its paths and its reads.

pub mod cycles;
pub mod graph;
pub mod manifest;
pub mod paths;
pub mod project;
