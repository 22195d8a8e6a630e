//! Toolchains: the catalog rows Dream can build and run, and `unsupported`.

pub mod capture;
pub mod catalog;
pub mod exec;
pub mod outcome;
pub mod program;

use vstd::prelude::*;

use crate::error::{DreamError, ErrorKind};
use crate::text::{concat3, same, texts};
use catalog::{catalog_row, lemma_row_index, row, row_index, row_index_of, ToolchainSpec, CATALOG_LEN};

verus! {

/// The name that stands for "no catalog row applies".
pub const UNSUPPORTED: &'static str = "unsupported";

/// A catalog toolchain, by its row in the catalog, or `unsupported`.
#[derive(Debug, Clone, Copy, PartialEq, Eq, Structural)]
pub enum Toolchain {
    Known(usize),
    Unsupported,
}

/// The result of `Toolchain::parse`.
pub open spec fn parse_spec(name: Seq<char>) -> Result<Toolchain, (ErrorKind, Seq<char>)> {
    if name == UNSUPPORTED@ {
        Ok(Toolchain::Unsupported)
    } else if row_index(name) >= 0 {
        Ok(Toolchain::Known(row_index(name) as usize))
    } else {
        Err((ErrorKind::Composer, "unknown toolchain `"@ + name + "`"@))
    }
}

/// The name of a toolchain.
pub open spec fn toolchain_name(t: Toolchain) -> Seq<char> {
    match t {
        Toolchain::Known(i) => if i < CATALOG_LEN {
            catalog_row(i as int).name
        } else {
            UNSUPPORTED@
        },
        Toolchain::Unsupported => UNSUPPORTED@,
    }
}

/// Whether a toolchain has a catalog row.
pub open spec fn has_row(t: Toolchain) -> bool {
    t matches Toolchain::Known(i) && i < CATALOG_LEN
}

impl Toolchain {
    /// A catalog name, or `unsupported`.
    pub fn parse(name: &str) -> (r: Result<Toolchain, DreamError>)
        ensures
            match r {
                Ok(t) => parse_spec(name@) == Ok::<Toolchain, (ErrorKind, Seq<char>)>(t),
                Err(e) => parse_spec(name@) == Err::<Toolchain, (ErrorKind, Seq<char>)>(e@),
            },
    {
        if same(name, UNSUPPORTED) {
            return Ok(Toolchain::Unsupported);
        }
        match row_index_of(name) {
            Some(i) => Ok(Toolchain::Known(i)),
            None => Err(DreamError::composer(concat3("unknown toolchain `", name, "`").as_str())),
        }
    }

    /// The catalog row, if there is one.
    pub fn spec(self) -> (r: Option<ToolchainSpec>)
        ensures
            match r {
                Some(s) => has_row(self) && s@ == catalog_row(self->Known_0 as int),
                None => !has_row(self),
            },
    {
        match self {
            Toolchain::Known(i) => if i < CATALOG_LEN {
                Some(row(i))
            } else {
                None
            },
            Toolchain::Unsupported => None,
        }
    }

    /// The toolchain's name.
    pub fn as_str(self) -> (r: &'static str)
        ensures
            r@ == toolchain_name(self),
    {
        match self {
            Toolchain::Known(i) => if i < CATALOG_LEN {
                row(i).name
            } else {
                UNSUPPORTED
            },
            Toolchain::Unsupported => UNSUPPORTED,
        }
    }

    /// Every name `set_toolchain` accepts: the catalog rows in order, then `unsupported`.
    pub fn schema_names() -> (r: Vec<&'static str>)
        ensures
            r@.len() == CATALOG_LEN + 1,
            forall|i: int| 0 <= i < CATALOG_LEN ==> (#[trigger] r@[i])@ == catalog_row(i).name,
            r@[CATALOG_LEN as int]@ == UNSUPPORTED@,
    {
        let mut names: Vec<&'static str> = Vec::new();
        let mut i: usize = 0;
        while i < CATALOG_LEN
            invariant
                i <= CATALOG_LEN,
                names@.len() == i,
                forall|j: int| 0 <= j < i ==> (#[trigger] names@[j])@ == catalog_row(j).name,
            decreases CATALOG_LEN - i,
        {
            names.push(row(i).name);
            i = i + 1;
        }
        names.push(UNSUPPORTED);
        names
    }
}

/// Parsing the name of a toolchain gives back that toolchain: `parse` and `as_str`
/// round-trip over the catalog and `unsupported`.
pub proof fn lemma_parse_name_round_trip(t: Toolchain)
    requires
        t is Unsupported || has_row(t),
    ensures
        parse_spec(toolchain_name(t)) == Ok::<Toolchain, (ErrorKind, Seq<char>)>(t),
{
    catalog::lemma_catalog_names_unique();
    catalog::lemma_unsupported_is_not_a_row();
    lemma_row_index(toolchain_name(t));
    if let Toolchain::Known(i) = t {
        let k = row_index(catalog_row(i as int).name);
        if k != i as int {
            assert(catalog_row(k).name == catalog_row(i as int).name);
        }
    }
}

} // verus!
