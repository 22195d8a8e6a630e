//! `dream.toml`: a project's name and entry `.foo` file.

use toml_edit::DocumentMut;
use vstd::prelude::*;

use crate::error::{DreamError, ErrorKind};
use crate::source::paths::{blank, is_blank, is_foo, is_foo_path};
use crate::text::concat;

verus! {

/// The file name of a project manifest.
pub const FILE: &'static str = "dream.toml";

/// Whether `text` parses as a TOML document, and else the parser's message.
pub uninterp spec fn toml_parse(text: Seq<char>) -> Result<(), Seq<char>>;

/// `DocumentMut::from_str`: whether `text` parses, and else the parser's message;
/// named `toml_parse(text)`.
#[verifier::external_body]
fn parse_document(text: &str) -> (r: Result<(), String>)
    ensures
        match toml_parse(text@) {
            Ok(()) => r is Ok,
            Err(m) => r matches Err(s) && s@ == m,
        },
{
    match text.parse::<DocumentMut>() {
        Ok(_) => Ok(()),
        Err(err) => Err(format!("{err}")),
    }
}

/// Whether the root table of the document `text` has an item under `key`.
pub uninterp spec fn toml_table(text: Seq<char>, key: Seq<char>) -> bool;

/// `Table::get` on the root table of the document `text` parses to: whether an item is
/// under `key` (`false` for text that does not parse); named `toml_table(text, key)`.
#[verifier::external_body]
fn root_has(text: &str, key: &str) -> (r: bool)
    ensures
        r == toml_table(text@, key@),
{
    match text.parse::<DocumentMut>() {
        Ok(doc) => doc.get(key).is_some(),
        Err(_) => false,
    }
}

/// The string under `key` in the item `table` of the document `text`, if there is one.
pub uninterp spec fn toml_string(text: Seq<char>, table: Seq<char>, key: Seq<char>) -> Option<Seq<char>>;

/// `Table::get`, `Item::get` and `Item::as_str` on the document `text` parses to: the
/// string under `key` in the item `table`, if both are there and it is a string (`None`
/// for text that does not parse); named `toml_string(text, table, key)`.
#[verifier::external_body]
fn table_string(text: &str, table: &str, key: &str) -> (r: Option<String>)
    ensures
        match r {
            Some(v) => toml_string(text@, table@, key@) == Some(v@),
            None => toml_string(text@, table@, key@) is None,
        },
{
    let doc = match text.parse::<DocumentMut>() {
        Ok(doc) => doc,
        Err(_) => return None,
    };
    match doc.get(table) {
        Some(item) => match item.get(key) {
            Some(value) => value.as_str().map(String::from),
            None => None,
        },
        None => None,
    }
}

/// A project's manifest.
#[derive(Debug)]
pub struct Manifest {
    pub name: Option<String>,
    pub entry: String,
}

pub struct ManifestView {
    pub name: Option<Seq<char>>,
    pub entry: Seq<char>,
}

impl View for Manifest {
    type V = ManifestView;

    open spec fn view(&self) -> ManifestView {
        ManifestView {
            name: match self.name {
                Some(n) => Some(n@),
                None => None,
            },
            entry: self.entry@,
        }
    }
}

pub open spec fn opt_view(o: Option<&str>) -> Option<Seq<char>> {
    match o {
        Some(s) => Some(s@),
        None => None,
    }
}

/// The manifest a `[project]` table gives, from whether the table is there and the
/// strings under its `entry` and `name` keys.
pub open spec fn manifest_spec(has_project: bool, entry: Option<Seq<char>>, name: Option<Seq<char>>) -> Result<ManifestView, (ErrorKind, Seq<char>)> {
    if !has_project {
        Err((ErrorKind::Usage, "dream.toml needs [project]"@))
    } else {
        match entry {
            None => Err((ErrorKind::Usage, "dream.toml [project] needs entry"@)),
            Some(e) => if !is_foo_path(e) {
                Err((ErrorKind::Usage, "dream.toml entry must be a .foo file"@))
            } else if is_blank(e) {
                Err((ErrorKind::Usage, "dream.toml [project] needs entry"@))
            } else {
                Ok(ManifestView {
                    name: match name {
                        Some(n) => if n.len() > 0 {
                            Some(n)
                        } else {
                            None
                        },
                        None => None,
                    },
                    entry: e,
                })
            },
        }
    }
}

pub open spec fn manifest_result(r: Result<Manifest, DreamError>) -> Result<ManifestView, (ErrorKind, Seq<char>)> {
    match r {
        Ok(m) => Ok(m@),
        Err(e) => Err(e@),
    }
}

impl Manifest {
    /// The manifest from the `[project]` table's fields: `entry` must name a `.foo`
    /// file, and an empty `name` counts as none.
    pub fn from_fields(has_project: bool, entry: Option<&str>, name: Option<&str>) -> (r: Result<Manifest, DreamError>)
        ensures
            manifest_result(r) == manifest_spec(has_project, opt_view(entry), opt_view(name)),
    {
        if !has_project {
            return Err(DreamError::usage("dream.toml needs [project]"));
        }
        let entry = match entry {
            Some(e) => e,
            None => return Err(DreamError::usage("dream.toml [project] needs entry")),
        };
        if !is_foo(entry) {
            return Err(DreamError::usage("dream.toml entry must be a .foo file"));
        }
        if blank(entry) {
            return Err(DreamError::usage("dream.toml [project] needs entry"));
        }
        let name = match name {
            Some(n) => if n.unicode_len() > 0 {
                Some(n.to_owned())
            } else {
                None
            },
            None => None,
        };
        Ok(Manifest { name, entry: entry.to_owned() })
    }
}

/// The manifest in `text`, the contents of `dream.toml`; `None` when there is no such
/// file. Text that is not TOML is refused with the parser's message; else the
/// `[project]` table's `entry` and `name` decide, as `Manifest::from_fields` does.
pub fn load(text: Option<&str>) -> (r: Result<Option<Manifest>, DreamError>)
    ensures
        text is None ==> r matches Ok(None),
        text matches Some(t) ==> match toml_parse(t@) {
            Err(m) => r matches Err(e) && e@ == (ErrorKind::Usage, "invalid dream.toml: "@ + m),
            Ok(()) => match manifest_spec(
                toml_table(t@, "project"@),
                toml_string(t@, "project"@, "entry"@),
                toml_string(t@, "project"@, "name"@),
            ) {
                Ok(m) => r matches Ok(Some(x)) && x@ == m,
                Err(e) => r matches Err(x) && x@ == e,
            },
        },
{
    let text = match text {
        Some(t) => t,
        None => return Ok(None),
    };
    if let Err(msg) = parse_document(text) {
        return Err(DreamError::usage(concat("invalid dream.toml: ", msg.as_str()).as_str()));
    }
    let has_project = root_has(text, "project");
    let entry = table_string(text, "project", "entry");
    let name = table_string(text, "project", "name");
    match Manifest::from_fields(has_project, opt_str(&entry), opt_str(&name)) {
        Ok(m) => Ok(Some(m)),
        Err(e) => Err(e),
    }
}

fn opt_str(o: &Option<String>) -> (r: Option<&str>)
    ensures
        opt_view(r) == match o {
            Some(s) => Some(s@),
            None => None::<Seq<char>>,
        },
{
    match o {
        Some(s) => Some(s.as_str()),
        None => None,
    }
}

} // verus!
