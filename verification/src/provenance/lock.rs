//! Locking units and setup files, and checking that locks still hold.
//!
//! A dest is seen through `dest_files`, the dest-relative paths of its regular files,
//! and a `.foo` file through its text (`None` when it is not a file).

use sha2::{Digest, Sha256};
use vstd::prelude::*;

use crate::error::{DreamError, ErrorKind};
use crate::provenance::open::{accepts_spec, require_store};
use crate::provenance::store::{file_locked, locked_in, with_lock, without_lock, Store, StoreView, UnitStateView};
use crate::provenance::units::lookup;
use crate::source::paths::{is_abs, is_foo, is_foo_path, join, join_text, rel_path, rel_under_spec};
use crate::text::{chars_of, concat, concat3, contains_text, from_chars, has_infix, list_contains, replace_char, replace_char_exec, texts};
use crate::toolchain::catalog::{catalog_row, row_index, spec};

verus! {

broadcast use vstd::seq_lib::group_seq_properties;

// ---------------------------------------------------------------------------
// Source digests
// ---------------------------------------------------------------------------

/// The SHA-256 hash of `data`.
pub uninterp spec fn sha256(data: Seq<u8>) -> Seq<u8>;

/// `sha2::Sha256::digest`: the SHA-256 hash of `data`, which is 32 bytes long.
#[verifier::external_body]
fn sha256_bytes(data: &[u8]) -> (r: Vec<u8>)
    ensures
        r@ == sha256(data@),
        r@.len() == 32,
{
    Sha256::digest(data).to_vec()
}

/// A lowercase hex digit.
pub open spec fn hex_digit(n: u8) -> char {
    if n < 10 {
        (48 + n) as char
    } else {
        (87 + n) as char
    }
}

/// Bytes as lowercase hex, two digits each.
pub open spec fn hex_of(bytes: Seq<u8>) -> Seq<char>
    decreases bytes.len(),
{
    if bytes.len() == 0 {
        seq![]
    } else {
        hex_of(bytes.drop_last()) + seq![hex_digit(bytes.last() / 16), hex_digit(bytes.last() % 16)]
    }
}

/// The digest a lock records for a `.foo` source: its UTF-8 bytes hashed, in hex.
pub open spec fn digest_of(source: Seq<char>) -> Seq<char> {
    hex_of(sha256(vstd::utf8::encode_utf8(source)))
}

fn hex_digit_exec(n: u8) -> (c: char)
    requires
        n < 16,
    ensures
        c == hex_digit(n),
{
    let digits: [char; 16] = ['0', '1', '2', '3', '4', '5', '6', '7', '8', '9', 'a', 'b', 'c', 'd', 'e', 'f'];
    let c = digits[n as usize];
    proof {
        assert(n == 0 || n == 1 || n == 2 || n == 3 || n == 4 || n == 5 || n == 6 || n == 7 || n == 8
            || n == 9 || n == 10 || n == 11 || n == 12 || n == 13 || n == 14 || n == 15);
    }
    c
}

fn hex(bytes: &Vec<u8>) -> (r: String)
    ensures
        r@ == hex_of(bytes@),
{
    let mut out: Vec<char> = Vec::new();
    let mut i: usize = 0;
    while i < bytes.len()
        invariant
            i <= bytes@.len(),
            out@ == hex_of(bytes@.take(i as int)),
        decreases bytes@.len() - i,
    {
        let b = bytes[i];
        out.push(hex_digit_exec(b / 16));
        out.push(hex_digit_exec(b % 16));
        proof {
            assert(bytes@.take(i + 1).drop_last() =~= bytes@.take(i as int));
            assert(out@ =~= hex_of(bytes@.take(i + 1)));
        }
        i = i + 1;
    }
    assert(bytes@.take(bytes@.len() as int) =~= bytes@);
    from_chars(out.as_slice())
}

/// The digest a lock records for `source`.
pub fn source_digest(source: &str) -> (r: String)
    ensures
        r@ == digest_of(source@),
{
    let hash = sha256_bytes(source.as_bytes());
    hex(&hash)
}

// ---------------------------------------------------------------------------
// Naming what to lock
// ---------------------------------------------------------------------------

/// What `lock` and `unlock` name: a unit by its project path, or a setup file by its
/// dest path.
pub enum Name {
    Unit(String),
    Setup(String),
}

pub enum NameView {
    Unit(Seq<char>),
    Setup(Seq<char>),
}

impl View for Name {
    type V = NameView;

    open spec fn view(&self) -> NameView {
        match self {
            Name::Unit(u) => NameView::Unit(u@),
            Name::Setup(s) => NameView::Setup(s@),
        }
    }
}

pub open spec fn name_text(n: NameView) -> Seq<char> {
    match n {
        NameView::Unit(u) => u,
        NameView::Setup(s) => s,
    }
}

pub open spec fn ticked(s: Seq<char>) -> Seq<char> {
    "`"@ + s + "`"@
}

/// `s` without any leading `./`.
pub open spec fn strip_dot_slash(s: Seq<char>) -> Seq<char>
    decreases s.len(),
{
    if s.len() >= 2 && s[0] == '.' && s[1] == '/' {
        strip_dot_slash(s.skip(2))
    } else {
        s
    }
}

/// The dest path a name on the command line stands for: its path below `dest`, else the
/// name itself without leading `./` and with `/` for `\`.
pub open spec fn dest_name_spec(dest: Seq<char>, named: Seq<char>) -> Seq<char> {
    match rel_under_spec(dest, named, "source request escapes project root"@) {
        Ok(r) => r,
        Err(_) => replace_char(strip_dot_slash(named), '\\', '/'),
    }
}

/// Whether `rel` is a setup file of the store's toolchain or a project path.
pub open spec fn setup_name(s: StoreView, rel: Seq<char>) -> bool {
    (row_index(s.toolchain) >= 0 && catalog_row(row_index(s.toolchain)).setup.contains(rel))
        || s.project.contains(rel)
}

/// The unit a `.foo` file on the command line stands for, given its canonical path when
/// it has one.
pub open spec fn unit_from_root_spec(s: StoreView, named: Seq<char>, canonical: Option<Seq<char>>) -> Result<Seq<char>, (ErrorKind, Seq<char>)> {
    match s.source_root {
        None => Err((ErrorKind::Usage, "output has no project root; compose first"@)),
        Some(root) => {
            let file = match canonical {
                Some(c) => c,
                None => if is_abs(named) {
                    named
                } else {
                    join_text(root, named)
                },
            };
            match rel_under_spec(root, file, "source request escapes project root"@) {
                Ok(r) => Ok(r),
                Err(_) => Err((ErrorKind::Usage, ticked(named) + " is not in the composed project"@)),
            }
        },
    }
}

/// What a name on the command line stands for.
pub open spec fn resolve_spec(s: StoreView, dest: Seq<char>, named: Seq<char>, canonical: Option<Seq<char>>) -> Result<NameView, (ErrorKind, Seq<char>)> {
    if is_foo_path(named) {
        match unit_from_root_spec(s, named, canonical) {
            Ok(u) => Ok(NameView::Unit(u)),
            Err(e) => Err(e),
        }
    } else {
        let rel = dest_name_spec(dest, named);
        if setup_name(s, rel) {
            Ok(NameView::Setup(rel))
        } else {
            Err((ErrorKind::Usage, ticked(rel) + " is not a setup file"@))
        }
    }
}

pub open spec fn opt_view(o: Option<&str>) -> Option<Seq<char>> {
    match o {
        Some(s) => Some(s@),
        None => None,
    }
}

fn strip_dot_slash_exec(s: &str) -> (r: String)
    ensures
        r@ == strip_dot_slash(s@),
{
    let v = chars_of(s);
    let mut i: usize = 0;
    while i < v.len() && v.len() - i >= 2 && v[i] == '.' && v[i + 1] == '/'
        invariant
            i <= v@.len(),
            strip_dot_slash(v@) == strip_dot_slash(v@.skip(i as int)),
        decreases v@.len() - i,
    {
        assert(v@.skip(i as int).skip(2) =~= v@.skip(i + 2));
        i = i + 2;
    }
    let rest = crate::source::paths::sub_chars(&v, i, v.len());
    assert(rest@ =~= v@.skip(i as int));
    from_chars(rest.as_slice())
}

/// The dest path a name on the command line stands for.
fn dest_name(dest: &str, named: &str) -> (r: String)
    ensures
        r@ == dest_name_spec(dest@, named@),
{
    match rel_path(dest, named) {
        Ok(rel) => rel,
        Err(_) => {
            let trimmed = strip_dot_slash_exec(named);
            replace_char_exec(trimmed.as_str(), '\\', '/')
        },
    }
}

/// Is `rel` a setup file of the store's toolchain, or a project path?
fn is_setup_name(store: &Store, rel: &str) -> (r: bool)
    ensures
        r == setup_name(store@, rel@),
{
    let row_setup = match spec(store.toolchain.as_str()) {
        Some(row) => row.is_setup(rel),
        None => false,
    };
    row_setup || list_contains(&store.project, rel)
}

fn unit_from_root(store: &Store, named: &str, canonical: Option<&str>) -> (r: Result<String, DreamError>)
    ensures
        crate::source::paths::text_result(r) == unit_from_root_spec(store@, named@, opt_view(canonical)),
{
    let root = match &store.source_root {
        Some(root) => root,
        None => return Err(DreamError::usage("output has no project root; compose first")),
    };
    let file = match canonical {
        Some(c) => c.to_owned(),
        None => {
            let v = chars_of(named);
            if v.len() > 0 && v[0] == '/' {
                named.to_owned()
            } else {
                join(root.as_str(), named)
            }
        },
    };
    match rel_path(root.as_str(), file.as_str()) {
        Ok(rel) => Ok(rel),
        Err(_) => Err(DreamError::usage(concat(tick(named).as_str(), " is not in the composed project").as_str())),
    }
}

/// What a name on the command line stands for: a `.foo` file names a unit of the composed
/// project; anything else must name a setup file. `canonical` is the name's canonical
/// path, when it has one.
pub fn resolve_name(store: &Store, dest: &str, named: &str, canonical: Option<&str>) -> (r: Result<Name, DreamError>)
    ensures
        match r {
            Ok(n) => resolve_spec(store@, dest@, named@, opt_view(canonical)) == Ok::<NameView, (ErrorKind, Seq<char>)>(n@),
            Err(e) => resolve_spec(store@, dest@, named@, opt_view(canonical)) == Err::<NameView, (ErrorKind, Seq<char>)>(e@),
        },
{
    if is_foo(named) {
        return match unit_from_root(store, named, canonical) {
            Ok(u) => Ok(Name::Unit(u)),
            Err(e) => Err(e),
        };
    }
    let rel = dest_name(dest, named);
    if !is_setup_name(store, rel.as_str()) {
        return Err(DreamError::usage(concat(tick(rel.as_str()).as_str(), " is not a setup file").as_str()));
    }
    Ok(Name::Setup(rel))
}

// ---------------------------------------------------------------------------
// Locking
// ---------------------------------------------------------------------------

/// The first of `rels` that is not among `files`.
pub open spec fn first_missing(rels: Seq<Seq<char>>, files: Seq<Seq<char>>) -> Option<Seq<char>>
    decreases rels.len(),
{
    if rels.len() == 0 {
        None
    } else if !files.contains(rels[0]) {
        Some(rels[0])
    } else {
        first_missing(rels.drop_first(), files)
    }
}

fn first_missing_exec(rels: &Vec<String>, files: &Vec<String>) -> (r: Option<String>)
    ensures
        opt_text(r) == first_missing(texts(rels@), texts(files@)),
{
    let mut i: usize = 0;
    while i < rels.len()
        invariant
            i <= rels@.len(),
            first_missing(texts(rels@), texts(files@)) == first_missing(texts(rels@).skip(i as int), texts(files@)),
        decreases rels@.len() - i,
    {
        assert(texts(rels@).skip(i as int).drop_first() =~= texts(rels@).skip(i + 1));
        if !list_contains(files, rels[i].as_str()) {
            return Some(rels[i].clone());
        }
        i = i + 1;
    }
    None
}

pub open spec fn opt_text(o: Option<String>) -> Option<Seq<char>> {
    match o {
        Some(s) => Some(s@),
        None => None,
    }
}

pub open spec fn missing_output_msg(rel: Seq<char>, unit: Seq<char>) -> Seq<char> {
    "locked output "@ + ticked(rel) + " for "@ + ticked(unit) + " is missing; restore the file, unlock, or --fresh"@
}

pub open spec fn missing_unit_msg(unit: Seq<char>) -> Seq<char> {
    "locked unit "@ + ticked(unit) + " is missing; unlock or restore the .foo"@
}

/// The outcome of locking unit `unit`: an error, or whether the lock is new (else it
/// already held for the same source).
pub open spec fn lock_unit_spec(s: StoreView, unit: Seq<char>, files: Seq<Seq<char>>, source: Option<Seq<char>>) -> Result<bool, (ErrorKind, Seq<char>)> {
    match lookup(s.units, unit) {
        Some(st) => if st.artifacts.len() == 0 {
            Err((ErrorKind::Usage, ticked(unit) + " has no output files for toolchain "@ + ticked(s.toolchain)))
        } else {
            match first_missing(st.artifacts, files) {
            Some(rel) => Err((ErrorKind::Composer, missing_output_msg(rel, unit))),
            None => match source {
                None => if st.locked {
                    Err((ErrorKind::Composer, missing_unit_msg(unit)))
                } else {
                    Err((ErrorKind::Usage, ticked(unit) + " does not exist"@))
                },
                Some(src) => if !st.locked {
                    Ok(true)
                } else if st.source_hash == Some(digest_of(src)) {
                    Ok(false)
                } else {
                    Err((ErrorKind::Composer, ticked(unit) + " is locked with a different source; unlock first"@))
                },
            },
        }},
        None => Err((ErrorKind::Usage, ticked(unit) + " has no output files for toolchain "@ + ticked(s.toolchain))),
    }
}

fn tick(s: &str) -> (r: String)
    ensures
        r@ == ticked(s@),
{
    concat3("`", s, "`")
}

fn missing_output_error(rel: &str, unit: &str) -> (e: DreamError)
    ensures
        e@ == (ErrorKind::Composer, missing_output_msg(rel@, unit@)),
{
    let a = concat3("locked output ", tick(rel).as_str(), " for ");
    let b = concat3(a.as_str(), tick(unit).as_str(), " is missing; restore the file, unlock, or --fresh");
    DreamError::composer(b.as_str())
}

fn missing_unit_error(unit: &str) -> (e: DreamError)
    ensures
        e@ == (ErrorKind::Composer, missing_unit_msg(unit@)),
{
    DreamError::composer(concat3("locked unit ", tick(unit).as_str(), " is missing; unlock or restore the .foo").as_str())
}

/// Locks unit `unit` to its current source. Its output files must all be in the dest; a
/// unit already locked must still have the source it was locked with.
pub fn lock_unit(store: &mut Store, unit: &str, dest_files: &Vec<String>, source: Option<&str>) -> (r: Result<(), DreamError>)
    ensures
        match lock_unit_spec(old(store)@, unit@, texts(dest_files@), opt_view(source)) {
            Ok(true) => r is Ok && final(store)@ == with_lock(old(store)@, unit@, digest_of(source.unwrap()@)),
            Ok(false) => r is Ok && final(store)@ == old(store)@,
            Err(e) => r matches Err(x) && x@ == e && final(store)@ == old(store)@,
        },
{
    let found = match store.units.get(unit) {
        Some(st) => if st.artifacts.len() > 0 {
            Some((crate::text::clone_list(&st.artifacts), st.locked, crate::provenance::store::clone_opt(&st.source_hash)))
        } else {
            None
        },
        None => None,
    };
    let (artifacts, locked, source_hash) = match found {
        Some(t) => t,
        None => {
            let a = concat(tick(unit).as_str(), " has no output files for toolchain ");
            return Err(DreamError::usage(concat(a.as_str(), tick(store.toolchain.as_str()).as_str()).as_str()));
        },
    };
    if let Some(rel) = first_missing_exec(&artifacts, dest_files) {
        return Err(missing_output_error(rel.as_str(), unit));
    }
    let src = match source {
        Some(src) => src,
        None => {
            return Err(if locked {
                missing_unit_error(unit)
            } else {
                DreamError::usage(concat(tick(unit).as_str(), " does not exist").as_str())
            });
        },
    };
    let hash = source_digest(src);
    if locked {
        let matches = match &source_hash {
            Some(h) => crate::text::same(h.as_str(), hash.as_str()),
            None => false,
        };
        return if matches {
            Ok(())
        } else {
            Err(DreamError::composer(concat(tick(unit).as_str(), " is locked with a different source; unlock first").as_str()))
        };
    }
    store.set_lock(unit, hash);
    Ok(())
}

/// The outcome of locking the setup file `rel`.
pub open spec fn lock_setup_spec(files: Seq<Seq<char>>, rel: Seq<char>) -> Result<(), (ErrorKind, Seq<char>)> {
    if files.contains(rel) {
        Ok(())
    } else {
        Err((ErrorKind::Usage, ticked(rel) + " does not exist"@))
    }
}

/// The store `lock` starts from: the loaded store, if it serves `target`.
pub open spec fn store_for(loaded: Option<StoreView>, target: Seq<char>) -> Result<StoreView, (ErrorKind, Seq<char>)> {
    match loaded {
        None => Err((ErrorKind::Usage, "output has no provenance store; compose first"@)),
        Some(s) => if accepts_spec(s.toolchain, target) {
            Ok(s)
        } else {
            Err((ErrorKind::Usage, "output is for toolchain `"@ + s.toolchain + "`; pass `-t "@ + s.toolchain + "`"@))
        },
    }
}

pub open spec fn loaded_view(loaded: Option<Store>) -> Option<StoreView> {
    match loaded {
        Some(s) => Some(s@),
        None => None,
    }
}

/// A store result as its view.
pub open spec fn store_result(r: Result<Store, DreamError>) -> Result<StoreView, (ErrorKind, Seq<char>)> {
    match r {
        Ok(s) => Ok(s@),
        Err(e) => Err(e@),
    }
}

/// Whether `r` is what `lock` gives for a store loaded as `loaded`: an error, or the
/// store with the named unit or setup file locked.
pub open spec fn lock_outcome(
    loaded: Option<StoreView>,
    target: Seq<char>,
    dest: Seq<char>,
    named: Seq<char>,
    canonical: Option<Seq<char>>,
    files: Seq<Seq<char>>,
    source: Option<Seq<char>>,
    r: Result<StoreView, (ErrorKind, Seq<char>)>,
) -> bool {
    match store_for(loaded, target) {
        Err(e) => r == Err::<StoreView, (ErrorKind, Seq<char>)>(e),
        Ok(s) => match resolve_spec(s, dest, named, canonical) {
            Err(e) => r == Err::<StoreView, (ErrorKind, Seq<char>)>(e),
            Ok(NameView::Setup(rel)) => match lock_setup_spec(files, rel) {
                Err(e) => r == Err::<StoreView, (ErrorKind, Seq<char>)>(e),
                Ok(()) => r matches Ok(t) && file_locked(s, t, rel),
            },
            Ok(NameView::Unit(u)) => match lock_unit_spec(s, u, files, source) {
                Err(e) => r == Err::<StoreView, (ErrorKind, Seq<char>)>(e),
                Ok(true) => r == Ok::<StoreView, (ErrorKind, Seq<char>)>(with_lock(s, u, digest_of(source.unwrap()))),
                Ok(false) => r == Ok::<StoreView, (ErrorKind, Seq<char>)>(s),
            },
        },
    }
}

/// What `unlock` gives for a store loaded as `loaded`: the store with the named unit or
/// setup file unlocked, or why not.
pub open spec fn unlock_spec(
    loaded: Option<StoreView>,
    target: Seq<char>,
    dest: Seq<char>,
    named: Seq<char>,
    canonical: Option<Seq<char>>,
) -> Result<StoreView, (ErrorKind, Seq<char>)> {
    match store_for(loaded, target) {
        Err(e) => Err(e),
        Ok(s) => match resolve_spec(s, dest, named, canonical) {
            Err(e) => Err(e),
            Ok(n) => if locked_in(s, name_text(n)) {
                Ok(without_lock(s, name_text(n)))
            } else {
                Err((ErrorKind::Usage, ticked(name_text(n)) + " is not locked"@))
            },
        },
    }
}

/// Locks the unit or setup file `named` names, in the store loaded from `dest`, and gives
/// back the store to save. `canonical` is the canonical path of `named` when it has one;
/// `named_source` is the text of `named` when it is a file.
pub fn lock(
    loaded: Option<Store>,
    target: &str,
    dest: &str,
    named: &str,
    canonical: Option<&str>,
    dest_files: &Vec<String>,
    named_source: Option<&str>,
) -> (r: Result<Store, DreamError>)
    ensures
        lock_outcome(loaded_view(loaded), target@, dest@, named@, opt_view(canonical), texts(dest_files@), opt_view(named_source), store_result(r)),
{
    let mut store = require_store(loaded, target)?;
    let name = resolve_name(&store, dest, named, canonical)?;
    match name {
        Name::Setup(rel) => {
            if !list_contains(dest_files, rel.as_str()) {
                return Err(DreamError::usage(concat(tick(rel.as_str()).as_str(), " does not exist").as_str()));
            }
            store.lock_file(rel.as_str());
        },
        Name::Unit(unit) => {
            lock_unit(&mut store, unit.as_str(), dest_files, named_source)?;
        },
    }
    Ok(store)
}

/// Unlocks the unit or setup file `named` names, and gives back the store to save.
pub fn unlock(loaded: Option<Store>, target: &str, dest: &str, named: &str, canonical: Option<&str>) -> (r: Result<Store, DreamError>)
    ensures
        store_result(r) == unlock_spec(loaded_view(loaded), target@, dest@, named@, opt_view(canonical)),
{
    let mut store = require_store(loaded, target)?;
    let name = match resolve_name(&store, dest, named, canonical)? {
        Name::Unit(n) => n,
        Name::Setup(n) => n,
    };
    if !store.is_locked(name.as_str()) {
        return Err(DreamError::usage(concat(tick(name.as_str()).as_str(), " is not locked").as_str()));
    }
    store.clear_lock(name.as_str());
    Ok(store)
}

// ---------------------------------------------------------------------------
// Checking locks
// ---------------------------------------------------------------------------

/// A `.foo` unit as read from the project: its text, or why it could not be read.
pub struct UnitRead {
    pub unit: String,
    pub source: Result<String, DreamError>,
}

pub type UnitReadView = (Seq<char>, Result<Seq<char>, (ErrorKind, Seq<char>)>);

impl View for UnitRead {
    type V = UnitReadView;

    open spec fn view(&self) -> UnitReadView {
        (self.unit@, match self.source {
            Ok(s) => Ok(s@),
            Err(e) => Err(e@),
        })
    }
}

pub open spec fn read_views(v: Seq<UnitRead>) -> Seq<UnitReadView> {
    v.map_values(|r: UnitRead| r@)
}

/// The read of `unit`: the first one for it.
pub open spec fn read_of(reads: Seq<UnitReadView>, unit: Seq<char>) -> Option<Result<Seq<char>, (ErrorKind, Seq<char>)>>
    decreases reads.len(),
{
    if reads.len() == 0 {
        None
    } else if reads[0].0 == unit {
        Some(reads[0].1)
    } else {
        read_of(reads.drop_first(), unit)
    }
}

/// The digest of a locked unit's current source, or why there is none.
pub open spec fn unit_hash(reads: Seq<UnitReadView>, unit: Seq<char>) -> Result<Seq<char>, (ErrorKind, Seq<char>)> {
    match read_of(reads, unit) {
        Some(Ok(src)) => Ok(digest_of(src)),
        Some(Err(e)) => if has_infix(e.1, "does not exist"@) {
            Err((ErrorKind::Composer, missing_unit_msg(unit)))
        } else {
            Err(e)
        },
        None => Err((ErrorKind::Composer, missing_unit_msg(unit))),
    }
}

/// Every locked unit, in key order, still has the source it was locked with and all its
/// output files.
pub open spec fn check_units(es: crate::provenance::units::UnitsView, files: Seq<Seq<char>>, reads: Seq<UnitReadView>) -> Result<(), (ErrorKind, Seq<char>)>
    decreases es.len(),
{
    if es.len() == 0 {
        Ok(())
    } else if !es[0].1.locked {
        check_units(es.drop_first(), files, reads)
    } else {
        let u = es[0].0;
        match unit_hash(reads, u) {
            Err(e) => Err(e),
            Ok(h) => if es[0].1.source_hash != Some(h) {
                Err((ErrorKind::Composer, "locked unit "@ + ticked(u) + " source changed; unlock or restore the .foo"@))
            } else {
                match first_missing(es[0].1.artifacts, files) {
                    Some(rel) => Err((ErrorKind::Composer, missing_output_msg(rel, u))),
                    None => check_units(es.drop_first(), files, reads),
                }
            },
        }
    }
}

/// The result of `check`.
pub open spec fn check_spec(s: StoreView, files: Seq<Seq<char>>, reads: Seq<UnitReadView>) -> Result<(), (ErrorKind, Seq<char>)> {
    match check_units(s.units, files, reads) {
        Err(e) => Err(e),
        Ok(()) => match first_missing(s.locked_setup, files) {
            Some(rel) => Err((ErrorKind::Composer, "locked setup file "@ + ticked(rel) + " is missing; restore the file, unlock, or --fresh"@)),
            None => Ok(()),
        },
    }
}

/// The locked units, in key order: the ones whose sources `check` needs.
pub fn locked_units(store: &Store) -> (r: Vec<String>)
    ensures
        forall|u: Seq<char>| texts(r@).contains(u) <==> (lookup(store@.units, u) matches Some(st) && st.locked),
{
    store.units.ordered();
    let n = store.units.len();
    let mut r: Vec<String> = Vec::new();
    let mut k: usize = 0;
    while k < n
        invariant
            n == store.units@.len(),
            k <= n,
            crate::provenance::units::keys_ordered(store.units@),
            forall|u: Seq<char>| texts(r@).contains(u) <==> exists|j: int| 0 <= j < k && (#[trigger] store.units@[j]).0 == u && store.units@[j].1.locked,
        decreases n - k,
    {
        let e = store.units.entry(k);
        if e.state.locked {
            let ghost before = r@;
            r.push(e.name.clone());
            proof {
                assert(texts(r@) =~= texts(before).push(e.name@));
                assert forall|u: Seq<char>| texts(r@).contains(u) <==> exists|j: int| 0 <= j < k + 1 && (#[trigger] store.units@[j]).0 == u && store.units@[j].1.locked by {
                    if texts(r@).contains(u) && u != e.name@ {
                        let i = choose|i: int| 0 <= i < texts(r@).len() && texts(r@)[i] == u;
                        assert(texts(before)[i] == u);
                    }
                    if exists|j: int| 0 <= j < k + 1 && (#[trigger] store.units@[j]).0 == u && store.units@[j].1.locked {
                        let j = choose|j: int| 0 <= j < k + 1 && (#[trigger] store.units@[j]).0 == u && store.units@[j].1.locked;
                        if j < k {
                            assert(texts(before).contains(u));
                            let i = choose|i: int| 0 <= i < texts(before).len() && texts(before)[i] == u;
                            assert(texts(r@)[i] == u);
                        } else {
                            assert(texts(r@)[texts(before).len() as int] == u);
                        }
                    }
                }
            }
        }
        k = k + 1;
    }
    proof {
        assert forall|u: Seq<char>| texts(r@).contains(u) <==> (lookup(store.units@, u) matches Some(st) && st.locked) by {
            crate::provenance::units::lemma_key_index_props(store.units@, u);
            if exists|j: int| 0 <= j < n && (#[trigger] store.units@[j]).0 == u && store.units@[j].1.locked {
                let j = choose|j: int| 0 <= j < n && (#[trigger] store.units@[j]).0 == u && store.units@[j].1.locked;
                crate::provenance::units::lemma_key_index_found(store.units@, u, j);
            }
        }
    }
    r
}

fn read_of_exec(reads: &Vec<UnitRead>, unit: &str) -> (r: Option<usize>)
    ensures
        match r {
            Some(i) => i < reads@.len() && read_of(read_views(reads@), unit@) == Some(reads@[i as int]@.1),
            None => read_of(read_views(reads@), unit@) is None,
        },
{
    let mut i: usize = 0;
    while i < reads.len()
        invariant
            i <= reads@.len(),
            read_of(read_views(reads@), unit@) == read_of(read_views(reads@).skip(i as int), unit@),
        decreases reads@.len() - i,
    {
        assert(read_views(reads@).skip(i as int).drop_first() =~= read_views(reads@).skip(i + 1));
        assert(read_views(reads@).skip(i as int)[0] == reads@[i as int]@);
        if crate::text::same(reads[i].unit.as_str(), unit) {
            return Some(i);
        }
        i = i + 1;
    }
    None
}

fn hash_unit(reads: &Vec<UnitRead>, unit: &str) -> (r: Result<String, DreamError>)
    ensures
        crate::source::paths::text_result(r) == unit_hash(read_views(reads@), unit@),
{
    match read_of_exec(reads, unit) {
        None => Err(missing_unit_error(unit)),
        Some(i) => match &reads[i].source {
            Ok(src) => Ok(source_digest(src.as_str())),
            Err(e) => if contains_text(e.detail(), "does not exist") {
                Err(missing_unit_error(unit))
            } else {
                Err(e.copy())
            },
        },
    }
}

/// Every lock still holds: each locked unit has its locked source and all its output
/// files, and each locked setup file is in the dest. `sources` holds the reads of the
/// locked units.
pub fn check(store: &Store, dest_files: &Vec<String>, sources: &Vec<UnitRead>) -> (r: Result<(), DreamError>)
    ensures
        crate::provenance::ownership::verdict(r) == check_spec(store@, texts(dest_files@), read_views(sources@)),
{
    let n = store.units.len();
    let mut k: usize = 0;
    while k < n
        invariant
            n == store.units@.len(),
            k <= n,
            check_units(store.units@, texts(dest_files@), read_views(sources@)) == check_units(store.units@.skip(k as int), texts(dest_files@), read_views(sources@)),
        decreases n - k,
    {
        let e = store.units.entry(k);
        proof {
            assert(store.units@.skip(k as int).drop_first() =~= store.units@.skip(k + 1));
            assert(store.units@.skip(k as int)[0] == e.view());
        }
        if e.state.locked {
            let hash = hash_unit(sources, e.name.as_str())?;
            let matches = match &e.state.source_hash {
                Some(h) => crate::text::same(h.as_str(), hash.as_str()),
                None => false,
            };
            if !matches {
                return Err(DreamError::composer(concat3("locked unit ", tick(e.name.as_str()).as_str(), " source changed; unlock or restore the .foo").as_str()));
            }
            if let Some(rel) = first_missing_exec(&e.state.artifacts, dest_files) {
                return Err(missing_output_error(rel.as_str(), e.name.as_str()));
            }
        }
        k = k + 1;
    }
    if let Some(rel) = first_missing_exec(&store.locked_setup, dest_files) {
        return Err(DreamError::composer(concat3("locked setup file ", tick(rel.as_str()).as_str(), " is missing; restore the file, unlock, or --fresh").as_str()));
    }
    Ok(())
}

// ---------------------------------------------------------------------------
// Laws
// ---------------------------------------------------------------------------

/// Locking a unit the store knows leaves it locked, with the digest it was locked to.
pub proof fn lemma_lock_locks(s: StoreView, unit: Seq<char>, hash: Seq<char>)
    requires
        lookup(s.units, unit) is Some,
    ensures
        locked_in(with_lock(s, unit, hash), unit),
        lookup(with_lock(s, unit, hash).units, unit) matches Some(st) && st.source_hash == Some(hash),
{
    crate::provenance::units::lemma_key_index_props(s.units, unit);
    let st = lookup(s.units, unit).unwrap();
    crate::provenance::units::lemma_lookup_insert_present(s.units, unit, UnitStateView { locked: true, source_hash: Some(hash), ..st });
}

/// Unlocking a name leaves it unlocked, whatever it was.
pub proof fn lemma_unlock_unlocks(s: StoreView, name: Seq<char>)
    ensures
        !locked_in(without_lock(s, name), name),
{
    crate::provenance::store::lemma_without(s.locked_setup, name);
    if let Some(st) = lookup(s.units, name) {
        crate::provenance::units::lemma_key_index_props(s.units, name);
        crate::provenance::units::lemma_lookup_insert_present(s.units, name, UnitStateView { locked: false, source_hash: None, ..st });
    }
}

/// Locking is idempotent: once a unit is locked to a source, locking it again to the
/// same source succeeds and changes nothing.
pub proof fn lemma_lock_is_idempotent(s: StoreView, unit: Seq<char>, files: Seq<Seq<char>>, source: Seq<char>)
    requires
        lock_unit_spec(s, unit, files, Some(source)) == Ok::<bool, (ErrorKind, Seq<char>)>(true),
    ensures
        lock_unit_spec(with_lock(s, unit, digest_of(source)), unit, files, Some(source)) == Ok::<bool, (ErrorKind, Seq<char>)>(false),
{
    let st = lookup(s.units, unit).unwrap();
    crate::provenance::units::lemma_key_index_props(s.units, unit);
    crate::provenance::units::lemma_lookup_insert_present(s.units, unit, UnitStateView { locked: true, source_hash: Some(digest_of(source)), ..st });
}

/// `unlock` undoes `lock`: when `lock` locks a unit or setup file that was not locked,
/// unlocking the same name in the store it gives back succeeds with the store as it was
/// before the lock, and a second unlock is refused as not locked. This holds of a store
/// whose locked setup files are sorted, for a unit stored without a source hash and not
/// also listed as a locked setup file, and for a setup file that is not also a unit.
pub proof fn lemma_unlock_reverses_lock(
    s0: StoreView,
    mid: StoreView,
    target: Seq<char>,
    dest: Seq<char>,
    named: Seq<char>,
    canonical: Option<Seq<char>>,
    files: Seq<Seq<char>>,
    source: Option<Seq<char>>,
)
    requires
        lock_outcome(Some(s0), target, dest, named, canonical, files, source, Ok(mid)),
        crate::text::sorted(s0.locked_setup),
        match resolve_spec(s0, dest, named, canonical) {
            Ok(NameView::Unit(u)) => (lookup(s0.units, u) matches Some(st) && !st.locked && st.source_hash is None)
                && !s0.locked_setup.contains(u),
            Ok(NameView::Setup(rel)) => lookup(s0.units, rel) is None && !s0.locked_setup.contains(rel),
            Err(_) => true,
        },
    ensures
        unlock_spec(Some(mid), target, dest, named, canonical) == Ok::<StoreView, (ErrorKind, Seq<char>)>(s0),
        resolve_spec(s0, dest, named, canonical) matches Ok(n) && unlock_spec(Some(s0), target, dest, named, canonical)
            == Err::<StoreView, (ErrorKind, Seq<char>)>((ErrorKind::Usage, ticked(name_text(n)) + " is not locked"@)),
{
    assert(store_for(Some(s0), target) == Ok::<StoreView, (ErrorKind, Seq<char>)>(s0));
    let n = resolve_spec(s0, dest, named, canonical)->Ok_0;
    match n {
        NameView::Unit(u) => {
            assert(lock_unit_spec(s0, u, files, source) == Ok::<bool, (ErrorKind, Seq<char>)>(true));
            let h = digest_of(source.unwrap());
            assert(mid == with_lock(s0, u, h));
            lemma_lock_locks(s0, u, h);
            crate::provenance::store::lemma_unlock_undoes_lock(s0, u, h);
        },
        NameView::Setup(rel) => {
            assert(file_locked(s0, mid, rel));
            vstd::seq_lib::to_multiset_contains(mid.locked_setup, rel);
            assert(mid.locked_setup.to_multiset().count(rel) > 0) by {
                broadcast use vstd::multiset::group_multiset_axioms;
            }
            assert(locked_in(mid, rel));
            crate::provenance::store::lemma_clear_undoes_lock_file(s0, mid, rel);
        },
    }
    assert(unit_from_root_spec(mid, named, canonical) == unit_from_root_spec(s0, named, canonical));
    assert(setup_name(mid, dest_name_spec(dest, named)) == setup_name(s0, dest_name_spec(dest, named)));
    assert(resolve_spec(mid, dest, named, canonical) == resolve_spec(s0, dest, named, canonical));
    assert(store_for(Some(mid), target) == Ok::<StoreView, (ErrorKind, Seq<char>)>(mid));
}

/// A locked unit's lock holds: its source was read and has the digest it was locked
/// with, and every one of its output files is in the dest.
pub open spec fn unit_lock_holds(st: UnitStateView, unit: Seq<char>, files: Seq<Seq<char>>, reads: Seq<UnitReadView>) -> bool {
    &&& read_of(reads, unit) matches Some(Ok(src)) && st.source_hash == Some(digest_of(src))
    &&& forall|rel: Seq<char>| #[trigger] st.artifacts.contains(rel) ==> files.contains(rel)
}

proof fn lemma_first_missing(rels: Seq<Seq<char>>, files: Seq<Seq<char>>)
    ensures
        first_missing(rels, files) is None <==> forall|rel: Seq<char>| #[trigger] rels.contains(rel) ==> files.contains(rel),
    decreases rels.len(),
{
    if rels.len() > 0 {
        lemma_first_missing(rels.drop_first(), files);
        assert(rels.contains(rels[0]));
        if first_missing(rels, files) is None {
            assert forall|rel: Seq<char>| #[trigger] rels.contains(rel) implies files.contains(rel) by {
                let i = choose|i: int| 0 <= i < rels.len() && rels[i] == rel;
                assert(!files.contains(rels[0]) ==> first_missing(rels, files) == Some(rels[0]));
                if i > 0 {
                    assert(rels.drop_first()[i - 1] == rel);
                    assert(rels.drop_first().contains(rel));
                }
            }
        } else if forall|rel: Seq<char>| #[trigger] rels.contains(rel) ==> files.contains(rel) {
            assert forall|rel: Seq<char>| #[trigger] rels.drop_first().contains(rel) implies files.contains(rel) by {
                let i = choose|i: int| 0 <= i < rels.drop_first().len() && rels.drop_first()[i] == rel;
                assert(rels[i + 1] == rel);
                assert(rels.contains(rel));
            }
        }
    }
}

proof fn lemma_check_units_holds(es: crate::provenance::units::UnitsView, files: Seq<Seq<char>>, reads: Seq<UnitReadView>)
    ensures
        check_units(es, files, reads) is Ok <==> forall|i: int| 0 <= i < es.len() && (#[trigger] es[i]).1.locked
            ==> unit_lock_holds(es[i].1, es[i].0, files, reads),
    decreases es.len(),
{
    if es.len() > 0 {
        let d = es.drop_first();
        lemma_check_units_holds(d, files, reads);
        lemma_first_missing(es[0].1.artifacts, files);
        let all = forall|i: int| 0 <= i < es.len() && (#[trigger] es[i]).1.locked ==> unit_lock_holds(es[i].1, es[i].0, files, reads);
        let rest = forall|i: int| 0 <= i < d.len() && (#[trigger] d[i]).1.locked ==> unit_lock_holds(d[i].1, d[i].0, files, reads);
        assert(all ==> rest) by {
            if all {
                assert forall|i: int| 0 <= i < d.len() && (#[trigger] d[i]).1.locked implies unit_lock_holds(d[i].1, d[i].0, files, reads) by {
                    assert(d[i] == es[i + 1]);
                }
            }
        }
        assert(rest && (es[0].1.locked ==> unit_lock_holds(es[0].1, es[0].0, files, reads)) ==> all) by {
            if rest && (es[0].1.locked ==> unit_lock_holds(es[0].1, es[0].0, files, reads)) {
                assert forall|i: int| 0 <= i < es.len() && (#[trigger] es[i]).1.locked implies unit_lock_holds(es[i].1, es[i].0, files, reads) by {
                    if i > 0 {
                        assert(d[i - 1] == es[i]);
                    }
                }
            }
        }
    }
}

/// `check` passes exactly when every lock still holds: each locked unit's source is
/// readable and has the digest it was locked with, each of its output files is in the
/// dest, and each locked setup file is in the dest.
pub proof fn lemma_check_passes_iff_locks_hold(s: StoreView, files: Seq<Seq<char>>, reads: Seq<UnitReadView>)
    ensures
        check_spec(s, files, reads) is Ok <==> {
            &&& forall|i: int| 0 <= i < s.units.len() && (#[trigger] s.units[i]).1.locked
                ==> unit_lock_holds(s.units[i].1, s.units[i].0, files, reads)
            &&& forall|rel: Seq<char>| #[trigger] s.locked_setup.contains(rel) ==> files.contains(rel)
        },
{
    lemma_check_units_holds(s.units, files, reads);
    lemma_first_missing(s.locked_setup, files);
}

proof fn lemma_check_units_update(
    es: crate::provenance::units::UnitsView,
    files: Seq<Seq<char>>,
    reads: Seq<UnitReadView>,
    i: int,
    e2: (Seq<char>, UnitStateView),
)
    requires
        0 <= i < es.len(),
        !es[i].1.locked,
        e2.1.locked,
        unit_hash(reads, e2.0) == Ok::<Seq<char>, (ErrorKind, Seq<char>)>(e2.1.source_hash.unwrap()),
        e2.1.source_hash is Some,
        first_missing(e2.1.artifacts, files) is None,
    ensures
        check_units(es.update(i, e2), files, reads) == check_units(es, files, reads),
    decreases es.len(),
{
    let es2 = es.update(i, e2);
    if i == 0 {
        assert(es2.drop_first() =~= es.drop_first());
    } else {
        assert(es2.drop_first() =~= es.drop_first().update(i - 1, e2));
        assert(es2[0] == es[0]);
        lemma_check_units_update(es.drop_first(), files, reads, i - 1, e2);
    }
}

/// Taking a lock never breaks the lock check: when the unit's current source is the one
/// it is locked to, a check that passed before the lock passes after it.
pub proof fn lemma_lock_keeps_check(
    s: StoreView,
    unit: Seq<char>,
    files: Seq<Seq<char>>,
    reads: Seq<UnitReadView>,
    source: Seq<char>,
)
    requires
        lock_unit_spec(s, unit, files, Some(source)) == Ok::<bool, (ErrorKind, Seq<char>)>(true),
        read_of(reads, unit) == Some(Ok::<Seq<char>, (ErrorKind, Seq<char>)>(source)),
    ensures
        check_spec(with_lock(s, unit, digest_of(source)), files, reads) == check_spec(s, files, reads),
{
    crate::provenance::units::lemma_key_index_props(s.units, unit);
    let i = crate::provenance::units::key_index(s.units, unit);
    let st = lookup(s.units, unit).unwrap();
    let e2 = (unit, UnitStateView { locked: true, source_hash: Some(digest_of(source)), ..st });
    lemma_check_units_update(s.units, files, reads, i, e2);
}

} // verus!
