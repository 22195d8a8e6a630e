//! Map `-t` to a catalog row or `unsupported`.
//!
//! A catalog name binds immediately. A matching store reuses that bind. Otherwise the
//! model is asked to pick one.

use vstd::prelude::*;

use crate::error::{DreamError, ErrorKind};
use crate::provenance::open::{existing_bind, existing_bind_spec};
use crate::toolchain::{parse_spec, Toolchain};

verus! {

/// The toolchain `target` binds to without asking the model: a catalog name (or
/// `unsupported`), else the reusable bind of the stored toolchain. `None` means ask.
pub open spec fn from_store_or_catalog_spec(target: Seq<char>, stored: Seq<char>, fresh: bool) -> Option<Toolchain> {
    match parse_spec(target) {
        Ok(t) => Some(t),
        Err(_) => existing_bind_spec(stored, target, fresh),
    }
}

/// Catalog name or a reusable store bind. `None` means ask the model.
pub fn from_store_or_catalog(target: &str, stored: &str, fresh: bool) -> (r: Option<Toolchain>)
    ensures
        r == from_store_or_catalog_spec(target@, stored@, fresh),
{
    match Toolchain::parse(target) {
        Ok(known) => Some(known),
        Err(_) => existing_bind(stored, target, fresh),
    }
}

/// The toolchain the model's turn declared: the turn must have called a tool, and a call
/// must have chosen one.
pub fn declared_toolchain(calls: usize, chosen: Option<Toolchain>) -> (r: Result<Toolchain, DreamError>)
    ensures
        calls > 0 && chosen is Some ==> r == Ok::<Toolchain, DreamError>(chosen.unwrap()),
        calls == 0 || chosen is None ==> (r matches Err(e) && e@ == (ErrorKind::Composer, "toolchain was not declared; call set_toolchain"@)),
{
    if calls == 0 {
        return Err(DreamError::composer("toolchain was not declared; call set_toolchain"));
    }
    match chosen {
        Some(t) => Ok(t),
        None => Err(DreamError::composer("toolchain was not declared; call set_toolchain")),
    }
}

/// The `set_toolchain` call: declares the toolchain `name`, once per turn.
pub fn set_toolchain(chosen: &mut Option<Toolchain>, name: &str) -> (r: Result<Toolchain, DreamError>)
    ensures
        (*old(chosen)) is Some ==> (r matches Err(e) && e@ == (ErrorKind::Composer, "toolchain already declared"@)) && *final(chosen) == *old(chosen),
        (*old(chosen)) is None ==> match parse_spec(name@) {
            Ok(t) => r == Ok::<Toolchain, DreamError>(t) && *final(chosen) == Some(t),
            Err(e) => (r matches Err(x) && x@ == e) && *final(chosen) == *old(chosen),
        },
{
    if chosen.is_some() {
        return Err(DreamError::composer("toolchain already declared"));
    }
    let toolchain = Toolchain::parse(name)?;
    *chosen = Some(toolchain);
    Ok(toolchain)
}

} // verus!
