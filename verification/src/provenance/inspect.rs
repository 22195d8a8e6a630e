//! The `inspect` report: what the store knows of a project and of each unit.

use vstd::prelude::*;

use crate::error::{DreamError, ErrorKind};
use crate::provenance::lock::{digest_of, first_missing, read_of, read_views, source_digest, store_for, loaded_view, UnitRead, UnitReadView};
use crate::provenance::open::require_store;
use crate::provenance::store::{locked_in, sorted_paths, Store, StoreView, UnitState, UnitStateView};
use crate::provenance::units::{keys, lookup};
use crate::source::project::{Project, ProjectView};
use crate::text::{list_contains, same, strictly_sorted, texts};

verus! {

broadcast use vstd::seq_lib::group_seq_properties;

/// `n` levels of indent, two spaces each.
pub open spec fn pad(n: nat) -> Seq<char>
    decreases n,
{
    if n == 0 {
        seq![]
    } else {
        pad((n - 1) as nat) + "  "@
    }
}

/// The text of a unit, when it could be read.
pub open spec fn source_of(reads: Seq<UnitReadView>, unit: Seq<char>) -> Option<Seq<char>> {
    match read_of(reads, unit) {
        Some(Ok(src)) => Some(src),
        _ => None,
    }
}

/// A unit's status: `missing` from the store, `invalid` (no source, or a locked output
/// gone), `locked`, `stale` (locked to another source) or `unlocked`.
pub open spec fn status_text(st: Option<UnitStateView>, src: Option<Seq<char>>, files: Seq<Seq<char>>) -> Seq<char> {
    match st {
        None => "missing"@,
        Some(s) => match src {
            None => "invalid"@,
            Some(x) => if !s.locked {
                "unlocked"@
            } else if first_missing(s.artifacts, files) is Some {
                "invalid"@
            } else if s.source_hash == Some(digest_of(x)) {
                "locked"@
            } else {
                "stale"@
            },
        },
    }
}

/// Whether a locked unit's source still matches its lock.
pub open spec fn source_text(st: UnitStateView, src: Option<Seq<char>>) -> Seq<char> {
    match src {
        None => "missing"@,
        Some(x) => if st.source_hash == Some(digest_of(x)) {
            "matches"@
        } else {
            "changed"@
        },
    }
}

/// One line per path, each after `prefix`.
pub open spec fn path_lines(prefix: Seq<char>, paths: Seq<Seq<char>>) -> Seq<char>
    decreases paths.len(),
{
    if paths.len() == 0 {
        seq![]
    } else {
        path_lines(prefix, paths.drop_last()) + prefix + paths.last() + "\n"@
    }
}

/// The `owned` lines of a unit.
pub open spec fn owned_text(inner: Seq<char>, arts: Seq<Seq<char>>) -> Seq<char> {
    if arts.len() == 0 {
        inner + "owned: none\n"@
    } else {
        inner + "owned:\n"@ + path_lines(inner + "  "@, arts)
    }
}

/// The block of one unit, at `indent`.
pub open spec fn unit_text(s: StoreView, files: Seq<Seq<char>>, reads: Seq<UnitReadView>, unit: Seq<char>, indent: nat) -> Seq<char> {
    unit_head(s, files, reads, unit, indent) + unit_tail(s, reads, unit, indent)
}

/// A unit's name and status lines.
pub open spec fn unit_head(s: StoreView, files: Seq<Seq<char>>, reads: Seq<UnitReadView>, unit: Seq<char>, indent: nat) -> Seq<char> {
    pad(indent) + unit + "\n"@ + pad(indent + 1) + "status: "@
        + status_text(lookup(s.units, unit), source_of(reads, unit), files) + "\n"@
}

/// A unit's source and owned lines.
pub open spec fn unit_tail(s: StoreView, reads: Seq<UnitReadView>, unit: Seq<char>, indent: nat) -> Seq<char> {
    let inner = pad(indent + 1);
    match lookup(s.units, unit) {
        Some(x) => (if x.locked {
            inner + "source: "@ + source_text(x, source_of(reads, unit)) + "\n"@
        } else {
            seq![]
        }) + owned_text(inner, x.artifacts),
        None => inner + "owned: none\n"@,
    }
}

/// The blocks of `units`, in order, at indent 1.
pub open spec fn units_text(s: StoreView, files: Seq<Seq<char>>, reads: Seq<UnitReadView>, units: Seq<Seq<char>>) -> Seq<char>
    decreases units.len(),
{
    if units.len() == 0 {
        seq![]
    } else {
        units_text(s, files, reads, units.drop_last()) + unit_text(s, files, reads, units.last(), 1)
    }
}

/// The project paths, one a line, marked when locked.
pub open spec fn project_lines(s: StoreView, paths: Seq<Seq<char>>) -> Seq<char>
    decreases paths.len(),
{
    if paths.len() == 0 {
        seq![]
    } else {
        project_lines(s, paths.drop_last()) + "  "@ + paths.last() + (if locked_in(s, paths.last()) { " locked"@ } else { seq![] }) + "\n"@
    }
}

pub open spec fn opt_line(label: Seq<char>, v: Option<Seq<char>>) -> Seq<char> {
    match v {
        Some(x) => label + x + "\n"@,
        None => seq![],
    }
}

/// The report of a whole project, whose units are `units`.
pub open spec fn project_text(s: StoreView, p: ProjectView, files: Seq<Seq<char>>, reads: Seq<UnitReadView>, units: Seq<Seq<char>>) -> Seq<char> {
    project_head(s, p) + (if units.len() == 0 { "  none\n"@ } else { seq![] }) + units_text(s, files, reads, units)
}

/// The report's lines before the units.
pub open spec fn project_head(s: StoreView, p: ProjectView) -> Seq<char> {
    "toolchain: "@ + s.toolchain + "\n"@ + opt_line("name: "@, p.name) + opt_line("entry: "@, p.entry) + "project:\n"@
        + (if s.project.len() == 0 { "  none\n"@ } else { project_lines(s, s.project) })
        + "units:\n"@
}

/// The units a project report lists: the project's `.foo` files and the store's units,
/// sorted, each once.
pub open spec fn report_units(s: StoreView, foo: Seq<Seq<char>>, units: Seq<Seq<char>>) -> bool {
    strictly_sorted(units) && units.to_set() == foo.to_set() + keys(s.units).to_set()
}

fn pad_exec(n: usize) -> (r: String)
    ensures
        r@ == pad(n as nat),
{
    let mut r = String::new();
    let mut i: usize = 0;
    while i < n
        invariant
            i <= n,
            r@ == pad(i as nat),
        decreases n - i,
    {
        r.append("  ");
        i = i + 1;
    }
    r
}

fn read_source<'a>(reads: &'a Vec<UnitRead>, unit: &str) -> (r: Option<&'a str>)
    ensures
        crate::source::manifest::opt_view(r) == source_of(read_views(reads@), unit@),
{
    let mut i: usize = 0;
    while i < reads.len()
        invariant
            i <= reads@.len(),
            read_of(read_views(reads@), unit@) == read_of(read_views(reads@).skip(i as int), unit@),
        decreases reads@.len() - i,
    {
        assert(read_views(reads@).skip(i as int).drop_first() =~= read_views(reads@).skip(i + 1));
        assert(read_views(reads@).skip(i as int)[0] == reads@[i as int]@);
        if same(reads[i].unit.as_str(), unit) {
            return match &reads[i].source {
                Ok(s) => Some(s.as_str()),
                Err(_) => None,
            };
        }
        i = i + 1;
    }
    None
}

fn missing_any(rels: &Vec<String>, files: &Vec<String>) -> (r: bool)
    ensures
        r == (first_missing(texts(rels@), texts(files@)) is Some),
{
    let mut i: usize = 0;
    while i < rels.len()
        invariant
            i <= rels@.len(),
            first_missing(texts(rels@), texts(files@)) == first_missing(texts(rels@).skip(i as int), texts(files@)),
        decreases rels@.len() - i,
    {
        assert(texts(rels@).skip(i as int).drop_first() =~= texts(rels@).skip(i + 1));
        if !list_contains(files, rels[i].as_str()) {
            return true;
        }
        i = i + 1;
    }
    false
}

fn status_exec(st: Option<&UnitState>, src: Option<&str>, files: &Vec<String>) -> (r: &'static str)
    ensures
        r@ == status_text(unit_view(st), crate::source::manifest::opt_view(src), texts(files@)),
{
    proof {
        reveal_strlit("missing");
        reveal_strlit("invalid");
        reveal_strlit("unlocked");
        reveal_strlit("locked");
        reveal_strlit("stale");
    }
    match st {
        None => "missing",
        Some(s) => match src {
            None => "invalid",
            Some(x) => if !s.locked {
                "unlocked"
            } else if missing_any(&s.artifacts, files) {
                "invalid"
            } else if hash_matches(s, x) {
                "locked"
            } else {
                "stale"
            },
        },
    }
}

pub open spec fn unit_view(st: Option<&UnitState>) -> Option<UnitStateView> {
    match st {
        Some(s) => Some(s@),
        None => None,
    }
}

fn hash_matches(s: &UnitState, src: &str) -> (r: bool)
    ensures
        r == (s@.source_hash == Some(digest_of(src@))),
{
    match &s.source_hash {
        Some(h) => same(h.as_str(), source_digest(src).as_str()),
        None => false,
    }
}

fn source_exec(s: &UnitState, src: Option<&str>) -> (r: &'static str)
    ensures
        r@ == source_text(s@, crate::source::manifest::opt_view(src)),
{
    proof {
        reveal_strlit("missing");
        reveal_strlit("matches");
        reveal_strlit("changed");
    }
    match src {
        None => "missing",
        Some(x) => if hash_matches(s, x) {
            "matches"
        } else {
            "changed"
        },
    }
}

fn write_owned(out: &mut String, inner: &str, arts: &Vec<String>)
    ensures
        final(out)@ == old(out)@ + owned_text(inner@, texts(arts@)),
{
    if arts.len() == 0 {
        out.append(inner);
        out.append("owned: none\n");
    } else {
        out.append(inner);
        out.append("owned:\n");
        let deeper = crate::text::concat(inner, "  ");
        let ghost base = out@;
        let mut i: usize = 0;
        while i < arts.len()
            invariant
                i <= arts@.len(),
                out@ == base + path_lines(deeper@, texts(arts@).take(i as int)),
            decreases arts@.len() - i,
        {
            assert(texts(arts@).take(i + 1).drop_last() =~= texts(arts@).take(i as int));
            out.append(deeper.as_str());
            out.append(arts[i].as_str());
            out.append("\n");
            i = i + 1;
        }
        assert(texts(arts@).take(arts@.len() as int) =~= texts(arts@));
    }
}

fn write_unit(out: &mut String, store: &Store, files: &Vec<String>, reads: &Vec<UnitRead>, unit: &str, indent: usize)
    requires
        indent < 8,
    ensures
        final(out)@ == old(out)@ + unit_text(store@, texts(files@), read_views(reads@), unit@, indent as nat),
{
    let inner = pad_exec(indent + 1);
    let st = store.units.get(unit);
    let src = read_source(reads, unit);
    let head = unit_head_exec(store, files, reads, unit, indent);
    let mut tail = String::new();
    match st {
        Some(s) => {
            if s.locked {
                tail.append(inner.as_str());
                tail.append("source: ");
                tail.append(source_exec(s, src));
                tail.append("\n");
            }
            write_owned(&mut tail, inner.as_str(), &s.artifacts);
        },
        None => {
            tail.append(inner.as_str());
            tail.append("owned: none\n");
        },
    }
    assert(tail@ == unit_tail(store@, read_views(reads@), unit@, indent as nat));
    out.append(head.as_str());
    out.append(tail.as_str());
}

fn unit_head_exec(store: &Store, files: &Vec<String>, reads: &Vec<UnitRead>, unit: &str, indent: usize) -> (r: String)
    requires
        indent < 8,
    ensures
        r@ == unit_head(store@, texts(files@), read_views(reads@), unit@, indent as nat),
{
    let p = pad_exec(indent);
    let inner = pad_exec(indent + 1);
    let st = store.units.get(unit);
    let src = read_source(reads, unit);
    let status = status_exec(st, src, files);
    let mut out = String::new();
    out.append(p.as_str());
    out.append(unit);
    out.append("\n");
    out.append(inner.as_str());
    out.append("status: ");
    out.append(status);
    out.append("\n");
    out
}

/// The report of one unit.
fn unit_report(store: &Store, files: &Vec<String>, reads: &Vec<UnitRead>, unit: &str) -> (r: String)
    ensures
        r@ == unit_text(store@, texts(files@), read_views(reads@), unit@, 0),
{
    let mut out = String::new();
    write_unit(&mut out, store, files, reads, unit, 0);
    out
}

/// The report of the whole project.
fn project_report(store: &Store, project: &Project, foo_files: &Vec<String>, files: &Vec<String>, reads: &Vec<UnitRead>) -> (r: String)
    ensures
        exists|units: Seq<Seq<char>>| report_units(store@, texts(foo_files@), units)
            && r@ == #[trigger] project_text(store@, project@, texts(files@), read_views(reads@), units),
{
    let mut out = String::new();
    out.append("toolchain: ");
    out.append(store.toolchain.as_str());
    out.append("\n");
    if let Some(name) = project.name() {
        out.append("name: ");
        out.append(name);
        out.append("\n");
    }
    if let Some(entry) = project.entry() {
        out.append("entry: ");
        out.append(entry);
        out.append("\n");
    }
    out.append("project:\n");
    if store.project.len() == 0 {
        out.append("  none\n");
    } else {
        let ghost base = out@;
        let mut i: usize = 0;
        while i < store.project.len()
            invariant
                i <= store.project@.len(),
                out@ == base + project_lines(store@, texts(store.project@).take(i as int)),
            decreases store.project@.len() - i,
        {
            assert(texts(store.project@).take(i + 1).drop_last() =~= texts(store.project@).take(i as int));
            out.append("  ");
            out.append(store.project[i].as_str());
            if store.is_locked(store.project[i].as_str()) {
                out.append(" locked");
            }
            out.append("\n");
            i = i + 1;
        }
        assert(texts(store.project@).take(store.project@.len() as int) =~= texts(store.project@));
    }
    out.append("units:\n");
    assert(out@ == project_head(store@, project@));
    let ghost head = out@;
    let mut all: Vec<String> = crate::text::clone_list(foo_files);
    let n = store.units.len();
    let mut k: usize = 0;
    while k < n
        invariant
            n == store.units@.len(),
            k <= n,
            texts(all@) == texts(foo_files@) + keys(store.units@.take(k as int)),
        decreases n - k,
    {
        let ghost before = all@;
        all.push(store.units.entry(k).name.clone());
        assert(keys(store.units@.take(k + 1)) =~= keys(store.units@.take(k as int)).push(store.units@[k as int].0));
        assert(texts(all@) =~= texts(before).push(store.units@[k as int].0));
        k = k + 1;
    }
    assert(store.units@.take(n as int) =~= store.units@);
    let units = sorted_paths(all);
    proof {
        assert((texts(foo_files@) + keys(store.units@)).to_set() =~= texts(foo_files@).to_set() + keys(store.units@).to_set()) by {
            vstd::seq_lib::seq_to_set_distributes_over_add(texts(foo_files@), keys(store.units@));
        }
    }
    if units.len() == 0 {
        out.append("  none\n");
    }
    let ghost base = out@;
    assert(base == head + (if texts(units@).len() == 0 { "  none\n"@ } else { seq![] }));
    let mut i: usize = 0;
    while i < units.len()
        invariant
            i <= units@.len(),
            out@ == base + units_text(store@, texts(files@), read_views(reads@), texts(units@).take(i as int)),
        decreases units@.len() - i,
    {
        assert(texts(units@).take(i + 1).drop_last() =~= texts(units@).take(i as int));
        write_unit(&mut out, store, files, reads, units[i].as_str(), 1);
        i = i + 1;
    }
    assert(texts(units@).take(units@.len() as int) =~= texts(units@));
    assert(report_units(store@, texts(foo_files@), texts(units@)));
    assert(out@ == project_text(store@, project@, texts(files@), read_views(reads@), texts(units@)));
    out
}

/// The output must be from the project being inspected.
pub open spec fn same_root_spec(s: StoreView, canonical_root: Seq<char>) -> bool {
    s.source_root matches Some(prev) ==> prev == canonical_root
}

/// The `inspect` report for the store loaded from the dest: one unit's block, or the
/// whole project's. `canonical_root` is the project root with every link resolved;
/// `foo_files` the project's `.foo` units; `dest_files` the dest's files; `sources` the
/// reads of the units the store knows.
pub fn report(
    loaded: Option<Store>,
    target: &str,
    canonical_root: &str,
    project: &Project,
    unit: Option<&str>,
    foo_files: &Vec<String>,
    dest_files: &Vec<String>,
    sources: &Vec<UnitRead>,
) -> (r: Result<String, DreamError>)
    ensures
        match store_for(loaded_view(loaded), target@) {
            Err(e) => r matches Err(x) && x@ == e,
            Ok(s) => if !same_root_spec(s, canonical_root@) {
                r matches Err(x) && x@ == (ErrorKind::Usage, "output is for another Dream project"@)
            } else {
                match unit {
                    Some(u) => (r matches Ok(t) && t@ == unit_text(s, texts(dest_files@), read_views(sources@), u@, 0)),
                    None => (r matches Ok(t) && (exists|units: Seq<Seq<char>>| report_units(s, texts(foo_files@), units)
                        && t@ == #[trigger] project_text(s, project@, texts(dest_files@), read_views(sources@), units))),
                }
            }
        },
{
    let store = require_store(loaded, target)?;
    if let Some(prev) = &store.source_root {
        if !same(prev.as_str(), canonical_root) {
            return Err(DreamError::usage("output is for another Dream project"));
        }
    }
    match unit {
        Some(u) => Ok(unit_report(&store, dest_files, sources, u)),
        None => Ok(project_report(&store, project, foo_files, dest_files, sources)),
    }
}

} // verus!
