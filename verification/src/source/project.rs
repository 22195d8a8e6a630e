//! A Dream project: its root, its manifest, and its `.foo` units.
//!
//! The file system reaches a project as plain values: canonical paths (`None` where a
//! path does not exist), file texts, and lists of project-relative file paths.

use vstd::prelude::*;

use crate::error::{DreamError, ErrorKind};
use crate::source::manifest::{Manifest, ManifestView};
use crate::source::paths::{
    comps_exec, comps_of, comps_prefix, comps_prefix_exec, is_foo, is_foo_path, parent, parent_of,
    rel_path, rel_under, rel_under_spec, resolve_inside, resolve_under_spec, text_result, Comp, PathComp,
};
use crate::text::{concat3, sort_list, sorted, texts};

verus! {

broadcast use vstd::seq_lib::group_seq_properties;

/// A `.foo` unit: its project-relative path and its text.
#[derive(Debug)]
pub struct Unit {
    pub rel: String,
    pub source: String,
}

pub struct UnitView {
    pub rel: Seq<char>,
    pub source: Seq<char>,
}

impl View for Unit {
    type V = UnitView;

    open spec fn view(&self) -> UnitView {
        UnitView { rel: self.rel@, source: self.source@ }
    }
}

/// A project: its canonical root, and the name and entry its manifest gives.
#[derive(Debug)]
pub struct Project {
    root: String,
    name: Option<String>,
    entry: Option<String>,
}

pub struct ProjectView {
    pub root: Seq<char>,
    pub name: Option<Seq<char>>,
    pub entry: Option<Seq<char>>,
}

pub open spec fn opt_text(o: Option<String>) -> Option<Seq<char>> {
    match o {
        Some(s) => Some(s@),
        None => None,
    }
}

impl View for Project {
    type V = ProjectView;

    closed spec fn view(&self) -> ProjectView {
        ProjectView { root: self.root@, name: opt_text(self.name), entry: opt_text(self.entry) }
    }
}

/// What the file system says of a path given on the command line.
pub struct PathProbe {
    /// The path is a directory.
    pub is_dir: bool,
    /// The path, canonical, when it exists.
    pub canonical: Option<String>,
    /// The directory's manifest, as `manifest::load` read it.
    pub manifest: Result<Option<Manifest>, DreamError>,
    /// The manifest's entry, canonical, when it exists.
    pub entry_canonical: Option<String>,
    /// The text of the entry file.
    pub source: String,
}

pub type Opened = Result<(ProjectView, UnitView), (ErrorKind, Seq<char>)>;

pub open spec fn opened(r: Result<(Project, Unit), DreamError>) -> Opened {
    match r {
        Ok((p, u)) => Ok((p@, u@)),
        Err(e) => Err(e@),
    }
}

pub open spec fn ticked(s: Seq<char>) -> Seq<char> {
    "`"@ + s + "`"@
}

/// A project whose entry is the `.foo` file `entry`: the root is the directory holding it.
pub open spec fn entry_spec(entry: Seq<char>, canonical: Option<Seq<char>>, source: Seq<char>) -> Opened {
    if !is_foo_path(entry) {
        Err((ErrorKind::Usage, "expected a .foo file"@))
    } else {
        match canonical {
            None => Err((ErrorKind::Usage, "entry file "@ + ticked(entry) + " does not exist"@)),
            Some(c) => match parent_of(c) {
                None => Err((ErrorKind::Usage, "entry file has no project root"@)),
                Some(root) => match rel_under_spec(root, c, "source request escapes project root"@) {
                    Err(e) => Err(e),
                    Ok(rel) => Ok((ProjectView { root, name: None, entry: Some(rel) }, UnitView { rel, source })),
                },
            },
        }
    }
}

pub open spec fn manifest_opt(m: Result<Option<Manifest>, DreamError>) -> Result<Option<ManifestView>, (ErrorKind, Seq<char>)> {
    match m {
        Ok(Some(m)) => Ok(Some(m@)),
        Ok(None) => Ok(None),
        Err(e) => Err(e@),
    }
}

/// A project rooted at a directory, whose manifest names the entry.
pub open spec fn manifest_dir_spec(
    is_dir: bool,
    root: Option<Seq<char>>,
    manifest: Result<Option<ManifestView>, (ErrorKind, Seq<char>)>,
    entry_canonical: Option<Seq<char>>,
    source: Seq<char>,
) -> Opened {
    if !is_dir || root is None {
        Err((ErrorKind::Usage, "expected a directory"@))
    } else {
        let root = root.unwrap();
        match manifest {
            Err(e) => Err(e),
            Ok(None) => Err((ErrorKind::Usage, "directory needs dream.toml with [project] entry"@)),
            Ok(Some(m)) => match resolve_under_spec(root, m.entry, "source request is empty"@, "source request escapes project root"@) {
                Err(_) => Err((ErrorKind::Usage, "dream.toml entry escapes the project"@)),
                Ok(_) => match entry_canonical {
                    None => Err((ErrorKind::Usage, "entry file "@ + ticked(m.entry) + " does not exist"@)),
                    Some(c) => if !comps_prefix(comps_of(root), comps_of(c)) {
                        Err((ErrorKind::Usage, "dream.toml entry escapes the project"@))
                    } else {
                        match rel_under_spec(root, c, "source request escapes project root"@) {
                            Err(e) => Err(e),
                            Ok(rel) => Ok((ProjectView { root, name: m.name, entry: Some(rel) }, UnitView { rel, source })),
                        }
                    },
                },
            },
        }
    }
}

/// The paths of `files` that name `.foo` files.
pub open spec fn foo_files(files: Seq<Seq<char>>) -> Seq<Seq<char>> {
    files.filter(|f: Seq<char>| is_foo_path(f))
}

/// Whether a directory on the way to the file is named `.dream`.
pub open spec fn under_dream(f: Seq<char>) -> bool {
    let cs = comps_of(f);
    exists|i: int| 0 <= i < cs.len() - 1 && cs[i] == Comp::Normal(".dream"@)
}

/// The paths of `files` that are data files: no `.foo` file and nothing in a `.dream`
/// directory.
pub open spec fn data_files(files: Seq<Seq<char>>) -> Seq<Seq<char>> {
    files.filter(|f: Seq<char>| !is_foo_path(f) && !under_dream(f))
}

pub open spec fn unit_result(r: Result<Unit, DreamError>) -> Result<UnitView, (ErrorKind, Seq<char>)> {
    match r {
        Ok(u) => Ok(u@),
        Err(e) => Err(e@),
    }
}

/// The unit a source request names.
pub open spec fn source_spec(root: Seq<char>, requested: Seq<char>, canonical: Option<Seq<char>>, source: Seq<char>) -> Result<UnitView, (ErrorKind, Seq<char>)> {
    match resolve_under_spec(root, requested, "source request is empty"@, "source request escapes project root"@) {
        Err(e) => Err(e),
        Ok(resolved) => match canonical {
            None => Err((ErrorKind::Runtime, "requested source "@ + ticked(requested) + " does not exist"@)),
            Some(c) => if !is_foo_path(resolved) {
                Err((ErrorKind::Runtime, "requested source "@ + ticked(requested) + " is not a .foo file"@))
            } else {
                match rel_under_spec(root, c, "source request escapes project root"@) {
                    Err(e) => Err(e),
                    Ok(rel) => Ok(UnitView { rel, source }),
                }
            },
        },
    }
}

fn opt_str(o: &Option<String>) -> (r: Option<&str>)
    ensures
        match r {
            Some(s) => *o matches Some(t) && s@ == t@,
            None => o is None,
        },
{
    match o {
        Some(s) => Some(s.as_str()),
        None => None,
    }
}

/// Keeps the paths `keep` accepts, in order.
fn keep_paths(files: &Vec<String>, data: bool) -> (r: Vec<String>)
    ensures
        !data ==> texts(r@) == foo_files(texts(files@)),
        data ==> texts(r@) == data_files(texts(files@)),
{
    let mut r: Vec<String> = Vec::new();
    let mut i: usize = 0;
    while i < files.len()
        invariant
            i <= files@.len(),
            !data ==> texts(r@) == foo_files(texts(files@).take(i as int)),
            data ==> texts(r@) == data_files(texts(files@).take(i as int)),
        decreases files@.len() - i,
    {
        let f = files[i].as_str();
        let keep = if data {
            !is_foo(f) && !in_dream_dir(f)
        } else {
            is_foo(f)
        };
        proof {
            let t = texts(files@).take(i + 1);
            assert(t.drop_last() =~= texts(files@).take(i as int));
            assert(t.last() == f@);
            t.filter_lemma(|f: Seq<char>| is_foo_path(f));
            reveal(Seq::filter);
            assert(foo_files(t) == (if is_foo_path(f@) { foo_files(t.drop_last()).push(f@) } else { foo_files(t.drop_last()) }));
            assert(data_files(t) == (if !is_foo_path(f@) && !under_dream(f@) { data_files(t.drop_last()).push(f@) } else { data_files(t.drop_last()) }));
        }
        if keep {
            let ghost before = r@;
            r.push(files[i].clone());
            proof {
                assert(texts(r@) =~= texts(before).push(f@));
            }
        }
        i = i + 1;
    }
    assert(texts(files@).take(files@.len() as int) =~= texts(files@));
    r
}

fn in_dream_dir(f: &str) -> (r: bool)
    ensures
        r == under_dream(f@),
{
    let cs = comps_exec(f);
    let ghost cv = crate::source::paths::comp_views(cs@);
    let mut i: usize = 0;
    while i < cs.len() && cs.len() - i > 1
        invariant
            cv == crate::source::paths::comp_views(cs@),
            cv == comps_of(f@),
            i <= cs@.len(),
            forall|j: int| 0 <= j < i && j < cs@.len() - 1 ==> cv[j] != Comp::Normal(".dream"@),
        decreases cs@.len() - i,
    {
        let hit = match &cs[i] {
            PathComp::Normal(n) => n.len() == 6 && n[0] == '.' && n[1] == 'd' && n[2] == 'r' && n[3] == 'e' && n[4] == 'a' && n[5] == 'm',
            _ => false,
        };
        proof {
            reveal_strlit(".dream");
            if hit {
                if let PathComp::Normal(n) = &cs@[i as int] {
                    assert(n@ =~= ".dream"@);
                }
            } else {
                if let PathComp::Normal(n) = &cs@[i as int] {
                    if n@ == ".dream"@ {
                        assert(n@.len() == 6);
                        assert(n@[0] == '.' && n@[1] == 'd' && n@[2] == 'r' && n@[3] == 'e' && n@[4] == 'a' && n@[5] == 'm');
                    }
                }
            }
        }
        if hit {
            assert(cv[i as int] == Comp::Normal(".dream"@));
            return true;
        }
        i = i + 1;
    }
    false
}

impl Project {
    /// The project rooted at the directory whose canonical path is `canonical_root`, with
    /// the manifest read there, if any.
    pub fn from_root(is_dir: bool, canonical_root: &str, manifest: Result<Option<Manifest>, DreamError>) -> (r: Result<Project, DreamError>)
        ensures
            !is_dir ==> (r matches Err(e) && e@ == (ErrorKind::Usage, "expected a directory"@)),
            is_dir ==> match manifest_opt(manifest) {
                Err(e) => r matches Err(x) && x@ == e,
                Ok(None) => r matches Ok(p) && p@ == (ProjectView { root: canonical_root@, name: None, entry: None }),
                Ok(Some(m)) => r matches Ok(p) && p@ == (ProjectView { root: canonical_root@, name: m.name, entry: Some(m.entry) }),
            },
    {
        if !is_dir {
            return Err(DreamError::usage("expected a directory"));
        }
        match manifest {
            Err(e) => Err(e),
            Ok(None) => Ok(Project { root: canonical_root.to_owned(), name: None, entry: None }),
            Ok(Some(m)) => Ok(Project { root: canonical_root.to_owned(), name: m.name, entry: Some(m.entry) }),
        }
    }

    /// The project whose entry is the `.foo` file `entry`, and that unit. `canonical` is
    /// the entry's canonical path when it exists; `source` its text.
    pub fn from_entry(entry: &str, canonical: Option<&str>, source: String) -> (r: Result<(Project, Unit), DreamError>)
        ensures
            opened(r) == entry_spec(entry@, crate::source::manifest::opt_view(canonical), source@),
    {
        if !is_foo(entry) {
            return Err(DreamError::usage("expected a .foo file"));
        }
        let canon = match canonical {
            Some(c) => c,
            None => return Err(DreamError::usage(concat3("entry file ", concat3("`", entry, "`").as_str(), " does not exist").as_str())),
        };
        let root = match parent(canon) {
            Some(root) => root,
            None => return Err(DreamError::usage("entry file has no project root")),
        };
        let rel = rel_path(root.as_str(), canon)?;
        let entry_rel = rel.clone();
        Ok((Project { root, name: None, entry: Some(entry_rel) }, Unit { rel, source }))
    }

    /// The project rooted at the directory `dir`, whose manifest names its entry.
    pub fn from_manifest(probe: PathProbe) -> (r: Result<(Project, Unit), DreamError>)
        ensures
            opened(r) == manifest_dir_spec(probe.is_dir, opt_text(probe.canonical), manifest_opt(probe.manifest), opt_text(probe.entry_canonical), probe.source@),
    {
        let root = match probe.canonical {
            Some(root) => if probe.is_dir {
                root
            } else {
                return Err(DreamError::usage("expected a directory"));
            },
            None => return Err(DreamError::usage("expected a directory")),
        };
        let m = match probe.manifest {
            Err(e) => return Err(e),
            Ok(None) => return Err(DreamError::usage("directory needs dream.toml with [project] entry")),
            Ok(Some(m)) => m,
        };
        if resolve_inside(root.as_str(), m.entry.as_str()).is_err() {
            return Err(DreamError::usage("dream.toml entry escapes the project"));
        }
        let canon = match probe.entry_canonical {
            None => return Err(DreamError::usage(concat3("entry file ", concat3("`", m.entry.as_str(), "`").as_str(), " does not exist").as_str())),
            Some(c) => c,
        };
        if !comps_prefix_exec(&comps_exec(root.as_str()), &comps_exec(canon.as_str())) {
            return Err(DreamError::usage("dream.toml entry escapes the project"));
        }
        let rel = rel_path(root.as_str(), canon.as_str())?;
        let entry_rel = rel.clone();
        Ok((Project { root, name: m.name, entry: Some(entry_rel) }, Unit { rel, source: probe.source }))
    }

    /// The project `path` names: a directory with a manifest, or an entry `.foo` file.
    pub fn from_path(path: &str, probe: PathProbe) -> (r: Result<(Project, Unit), DreamError>)
        ensures
            probe.is_dir ==> opened(r) == manifest_dir_spec(probe.is_dir, opt_text(probe.canonical), manifest_opt(probe.manifest), opt_text(probe.entry_canonical), probe.source@),
            !probe.is_dir ==> opened(r) == entry_spec(path@, opt_text(probe.canonical), probe.source@),
    {
        if probe.is_dir {
            Self::from_manifest(probe)
        } else {
            let r = Self::from_entry(path, opt_str(&probe.canonical), probe.source);
            r
        }
    }

    /// Plans reading the data file `requested`: whether it goes ahead, and the project
    /// path it reads. `exists` and `is_dir` say what is at the requested path, and
    /// `canonical` is its canonical path.
    pub fn plan_data_read(&self, requested: &str, exists: bool, is_dir: bool, canonical: &str) -> (r: Result<String, DreamError>)
        ensures
            text_result(r) == data_read_spec(self@.root, requested@, exists, is_dir, canonical@),
    {
        reject_source_or_dream(requested, false)?;
        if !exists {
            return Err(DreamError::runtime(concat3("requested file `", requested, "` does not exist").as_str()));
        }
        if is_dir {
            return Err(DreamError::runtime(concat3("requested file `", requested, "` is a directory").as_str()));
        }
        rel_under(self.root.as_str(), canonical, "file request escapes project root")
    }

    /// The canonical project root.
    pub fn root(&self) -> (r: &str)
        ensures
            r@ == self@.root,
    {
        self.root.as_str()
    }

    /// The manifest's project name.
    pub fn name(&self) -> (r: Option<&str>)
        ensures
            crate::source::manifest::opt_view(r) == self@.name,
    {
        opt_str(&self.name)
    }

    /// The project-relative path of the entry unit.
    pub fn entry(&self) -> (r: Option<&str>)
        ensures
            crate::source::manifest::opt_view(r) == self@.entry,
    {
        opt_str(&self.entry)
    }

    /// The `.foo` units among `files`, the project-relative paths of the project's files,
    /// sorted.
    pub fn list_source_files(&self, files: &Vec<String>) -> (r: Vec<String>)
        ensures
            texts(r@).to_multiset() == foo_files(texts(files@)).to_multiset(),
            sorted(texts(r@)),
    {
        let mut r = keep_paths(files, false);
        sort_list(&mut r);
        r
    }

    /// The data files among `files`, the project-relative paths of the project's files,
    /// sorted: no `.foo` unit and nothing under a `.dream` directory.
    pub fn list_data_files(&self, files: &Vec<String>) -> (r: Vec<String>)
        ensures
            texts(r@).to_multiset() == data_files(texts(files@)).to_multiset(),
            sorted(texts(r@)),
    {
        let mut r = keep_paths(files, true);
        sort_list(&mut r);
        r
    }

    /// The unit a source request names. `canonical` is the canonical path of the file the
    /// request resolves to, when it exists; `source` its text.
    pub fn read_source_file(&self, requested: &str, canonical: Option<&str>, source: String) -> (r: Result<Unit, DreamError>)
        ensures
            unit_result(r) == source_spec(self@.root, requested@, crate::source::manifest::opt_view(canonical), source@),
    {
        let resolved = resolve_inside(self.root.as_str(), requested)?;
        let canon = match canonical {
            None => return Err(DreamError::runtime(concat3("requested source ", concat3("`", requested, "`").as_str(), " does not exist").as_str())),
            Some(c) => c,
        };
        if !is_foo(resolved.as_str()) {
            return Err(DreamError::runtime(concat3("requested source ", concat3("`", requested, "`").as_str(), " is not a .foo file").as_str()));
        }
        let rel = rel_path(self.root.as_str(), canon)?;
        Ok(Unit { rel, source })
    }
}

/// Whether reading the data file `requested` goes ahead, and the project path it reads:
/// not a `.foo` unit nor under `.dream`, an existing file and not a directory, whose
/// canonical path `canonical` lies under the project root. `exists` and `is_dir` say
/// what the file system holds at the requested path.
pub open spec fn data_read_spec(root: Seq<char>, requested: Seq<char>, exists: bool, is_dir: bool, canonical: Seq<char>) -> Result<Seq<char>, (ErrorKind, Seq<char>)> {
    match data_request_spec(requested, false) {
        Err(e) => Err(e),
        Ok(()) => if !exists {
            Err((ErrorKind::Runtime, "requested file `"@ + requested + "` does not exist"@))
        } else if is_dir {
            Err((ErrorKind::Runtime, "requested file `"@ + requested + "` is a directory"@))
        } else {
            rel_under_spec(root, canonical, "file request escapes project root"@)
        },
    }
}

/// The text of the data file at `rel`, read as `bytes`: refused unless they are UTF-8.
pub open spec fn data_text_spec(rel: Seq<char>, bytes: Seq<u8>) -> Result<Seq<char>, (ErrorKind, Seq<char>)> {
    if vstd::utf8::valid_utf8(bytes) {
        Ok(vstd::utf8::decode_utf8(bytes))
    } else {
        Err((ErrorKind::Runtime, "`"@ + rel + "` is not UTF-8"@))
    }
}

/// Why a data-file request is refused: `.foo` units are read and written as sources,
/// and `.dream` is Dream's own.
pub open spec fn data_request_spec(requested: Seq<char>, write: bool) -> Result<(), (ErrorKind, Seq<char>)> {
    if is_foo_path(requested) {
        Err((ErrorKind::Runtime, if write { "cannot write a `.foo` file"@ } else { "use read_source_file for a `.foo` file"@ }))
    } else if comps_of(requested).len() > 0 && comps_of(requested)[0] == Comp::Normal(".dream"@) {
        Err((ErrorKind::Runtime, "`.dream` is not a data file"@))
    } else {
        Ok(())
    }
}

/// The text of the data file at `rel`, read as `bytes`.
pub fn data_text(rel: &str, bytes: Vec<u8>) -> (r: Result<String, DreamError>)
    ensures
        text_result(r) == data_text_spec(rel@, bytes@),
{
    match crate::text::utf8_text(bytes) {
        Some(t) => {
            proof {
                vstd::utf8::encode_utf8_decode_utf8(t@);
            }
            Ok(t)
        },
        None => Err(DreamError::runtime(concat3("`", rel, "` is not UTF-8").as_str())),
    }
}

/// Refuses a data-file request that names a `.foo` unit or starts in `.dream`.
pub fn reject_source_or_dream(requested: &str, write: bool) -> (r: Result<(), DreamError>)
    ensures
        crate::provenance::ownership::verdict(r) == data_request_spec(requested@, write),
{
    if is_foo(requested) {
        return Err(DreamError::runtime(if write {
            "cannot write a `.foo` file"
        } else {
            "use read_source_file for a `.foo` file"
        }));
    }
    let cs = comps_exec(requested);
    if cs.len() > 0 {
        let first_is_dream = match &cs[0] {
            PathComp::Normal(n) => n.len() == 6 && n[0] == '.' && n[1] == 'd' && n[2] == 'r' && n[3] == 'e' && n[4] == 'a' && n[5] == 'm',
            _ => false,
        };
        proof {
            reveal_strlit(".dream");
            let cv = crate::source::paths::comp_views(cs@);
            assert(cv[0] == cs@[0]@);
            if let PathComp::Normal(n) = &cs@[0] {
                if first_is_dream {
                    assert(n@ =~= ".dream"@);
                } else if n@ == ".dream"@ {
                    assert(n@.len() == 6);
                    assert(n@[0] == '.' && n@[1] == 'd' && n@[2] == 'r' && n@[3] == 'e' && n@[4] == 'a' && n@[5] == 'm');
                }
            }
        }
        if first_is_dream {
            return Err(DreamError::runtime("`.dream` is not a data file"));
        }
    }
    Ok(())
}

} // verus!
