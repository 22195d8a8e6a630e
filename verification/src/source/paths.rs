//! Lexical path handling: Unix paths as text, split into components the way
//! `std::path::Path::components` splits them, and resolved against a root without
//! touching the file system.

use vstd::prelude::*;

use crate::error::{DreamError, ErrorKind};
use crate::text::{chars_of, from_chars, replace_char};

verus! {

broadcast use vstd::seq_lib::group_seq_properties;

// ---------------------------------------------------------------------------
// The model
// ---------------------------------------------------------------------------

/// One path component.
pub enum Comp {
    Root,
    Cur,
    Parent,
    Normal(Seq<char>),
}

pub open spec fn dot() -> Seq<char> {
    seq!['.']
}

pub open spec fn dot_dot() -> Seq<char> {
    seq!['.', '.']
}

/// The pieces of `s` between `/` separators (there is always at least one).
pub open spec fn split_pieces(s: Seq<char>) -> Seq<Seq<char>>
    decreases s.len(),
{
    if s.len() == 0 {
        seq![seq![]]
    } else {
        let r = split_pieces(s.drop_last());
        if s.last() == '/' {
            r.push(seq![])
        } else {
            r.update(r.len() - 1, r.last().push(s.last()))
        }
    }
}

pub proof fn lemma_split_pieces_nonempty(s: Seq<char>)
    ensures
        split_pieces(s).len() >= 1,
    decreases s.len(),
{
    if s.len() > 0 {
        lemma_split_pieces_nonempty(s.drop_last());
    }
}

/// Whether `s` starts at the root.
pub open spec fn is_abs(s: Seq<char>) -> bool {
    s.len() > 0 && s[0] == '/'
}

/// The component a non-empty piece other than `.` stands for.
pub open spec fn piece_comp(p: Seq<char>) -> Comp {
    if p == dot_dot() {
        Comp::Parent
    } else {
        Comp::Normal(p)
    }
}

/// The components of the pieces: empty pieces and `.` pieces drop out.
pub open spec fn piece_comps(pieces: Seq<Seq<char>>) -> Seq<Comp>
    decreases pieces.len(),
{
    if pieces.len() == 0 {
        seq![]
    } else {
        let r = piece_comps(pieces.drop_last());
        let p = pieces.last();
        if p.len() == 0 || p == dot() {
            r
        } else {
            r.push(piece_comp(p))
        }
    }
}

/// The components of `s`: a root for an absolute path, a leading `.` for a relative
/// path that starts with one, then every other non-empty piece.
pub open spec fn comps_of(s: Seq<char>) -> Seq<Comp> {
    let pieces = split_pieces(s);
    let lead = if is_abs(s) {
        seq![Comp::Root]
    } else if pieces[0] == dot() {
        seq![Comp::Cur]
    } else {
        seq![]
    };
    lead + piece_comps(pieces)
}

/// Lexical normalisation: `.` drops out and `..` removes the last name, if there is one.
pub open spec fn norm(cs: Seq<Comp>) -> Seq<Comp>
    decreases cs.len(),
{
    if cs.len() == 0 {
        seq![]
    } else {
        let r = norm(cs.drop_last());
        match cs.last() {
            Comp::Cur => r,
            Comp::Parent => if r.len() > 0 && r.last() is Normal {
                r.drop_last()
            } else {
                r
            },
            c => r.push(c),
        }
    }
}

/// The text of one component.
pub open spec fn comp_text(c: Comp) -> Seq<char> {
    match c {
        Comp::Root => seq!['/'],
        Comp::Cur => dot(),
        Comp::Parent => dot_dot(),
        Comp::Normal(n) => n,
    }
}

/// The text of a list of components, with `/` between components and none after a root.
pub open spec fn render(cs: Seq<Comp>) -> Seq<char>
    decreases cs.len(),
{
    if cs.len() == 0 {
        seq![]
    } else if cs.len() == 1 {
        comp_text(cs[0])
    } else {
        let r = render(cs.drop_last());
        if cs.drop_last().last() is Root {
            r + comp_text(cs.last())
        } else {
            r + seq!['/'] + comp_text(cs.last())
        }
    }
}

/// `PathBuf::join`: an absolute `b` replaces `a`; else `b` follows `a`, with one `/`
/// between them when `a` is non-empty and does not already end in one.
pub open spec fn join_text(a: Seq<char>, b: Seq<char>) -> Seq<char> {
    if is_abs(b) {
        b
    } else if a.len() == 0 || a.last() == '/' {
        a + b
    } else {
        a + seq!['/'] + b
    }
}

/// Whether the components `a` begin the components `b`.
pub open spec fn comps_prefix(a: Seq<Comp>, b: Seq<Comp>) -> bool {
    a.len() <= b.len() && b.subrange(0, a.len() as int) == a
}

/// Unicode white space, as `char::is_whitespace` defines it.
pub open spec fn is_ws(c: char) -> bool {
    c == '\t' || c == '\n' || c == '\u{0B}' || c == '\u{0C}' || c == '\r' || c == ' '
        || c == '\u{85}' || c == '\u{A0}' || c == '\u{1680}' || ('\u{2000}' <= c && c <= '\u{200A}')
        || c == '\u{2028}' || c == '\u{2029}' || c == '\u{202F}' || c == '\u{205F}' || c == '\u{3000}'
}

/// Whether `s.trim()` is empty.
pub open spec fn is_blank(s: Seq<char>) -> bool {
    forall|i: int| 0 <= i < s.len() ==> is_ws(#[trigger] s[i])
}

/// The result of `resolve_under`: the normalised join, or an error message.
pub open spec fn resolve_under_spec(
    root: Seq<char>,
    requested: Seq<char>,
    empty: Seq<char>,
    escape: Seq<char>,
) -> Result<Seq<char>, (ErrorKind, Seq<char>)> {
    if is_blank(requested) {
        Err((ErrorKind::Runtime, empty))
    } else {
        let n = norm(comps_of(join_text(root, requested)));
        if !comps_prefix(comps_of(root), n) {
            Err((ErrorKind::Runtime, escape))
        } else {
            Ok(render(n))
        }
    }
}

/// The result of `rel_under`: the path of `path` below `root`, with `\` turned into `/`.
pub open spec fn rel_under_spec(root: Seq<char>, path: Seq<char>, escape: Seq<char>) -> Result<Seq<char>, (ErrorKind, Seq<char>)> {
    let rc = comps_of(root);
    let pc = comps_of(path);
    if !comps_prefix(rc, pc) {
        Err((ErrorKind::Runtime, escape))
    } else {
        Ok(replace_char(render(pc.skip(rc.len() as int)), '\\', '/'))
    }
}

pub open spec fn text_result(r: Result<String, DreamError>) -> Result<Seq<char>, (ErrorKind, Seq<char>)> {
    match r {
        Ok(v) => Ok(v@),
        Err(e) => Err(e@),
    }
}

// ---------------------------------------------------------------------------
// Components in code
// ---------------------------------------------------------------------------

/// One path component.
pub enum PathComp {
    Root,
    Cur,
    Parent,
    Normal(Vec<char>),
}

impl View for PathComp {
    type V = Comp;

    open spec fn view(&self) -> Comp {
        match self {
            PathComp::Root => Comp::Root,
            PathComp::Cur => Comp::Cur,
            PathComp::Parent => Comp::Parent,
            PathComp::Normal(n) => Comp::Normal(n@),
        }
    }
}

pub open spec fn comp_views(v: Seq<PathComp>) -> Seq<Comp> {
    v.map_values(|c: PathComp| c@)
}

pub open spec fn char_views(v: Seq<Vec<char>>) -> Seq<Seq<char>> {
    v.map_values(|c: Vec<char>| c@)
}

fn copy_chars(v: &Vec<char>) -> (r: Vec<char>)
    ensures
        r@ == v@,
{
    let mut r: Vec<char> = Vec::new();
    let mut i: usize = 0;
    while i < v.len()
        invariant
            i <= v@.len(),
            r@ == v@.subrange(0, i as int),
        decreases v@.len() - i,
    {
        r.push(v[i]);
        i = i + 1;
    }
    assert(v@.subrange(0, v@.len() as int) =~= v@);
    r
}

fn copy_comp(c: &PathComp) -> (r: PathComp)
    ensures
        r@ == c@,
{
    match c {
        PathComp::Root => PathComp::Root,
        PathComp::Cur => PathComp::Cur,
        PathComp::Parent => PathComp::Parent,
        PathComp::Normal(n) => PathComp::Normal(copy_chars(n)),
    }
}

fn chars_eq(a: &Vec<char>, b: &Vec<char>) -> (r: bool)
    ensures
        r == (a@ == b@),
{
    if a.len() != b.len() {
        return false;
    }
    let mut i: usize = 0;
    while i < a.len()
        invariant
            a@.len() == b@.len(),
            i <= a@.len(),
            a@.subrange(0, i as int) == b@.subrange(0, i as int),
        decreases a@.len() - i,
    {
        if a[i] != b[i] {
            return false;
        }
        assert(a@.subrange(0, i + 1) =~= a@.subrange(0, i as int).push(a@[i as int]));
        assert(b@.subrange(0, i + 1) =~= b@.subrange(0, i as int).push(b@[i as int]));
        i = i + 1;
    }
    assert(a@ =~= a@.subrange(0, a@.len() as int));
    assert(b@ =~= b@.subrange(0, b@.len() as int));
    true
}

fn comp_eq(a: &PathComp, b: &PathComp) -> (r: bool)
    ensures
        r == (a@ == b@),
{
    match (a, b) {
        (PathComp::Root, PathComp::Root) => true,
        (PathComp::Cur, PathComp::Cur) => true,
        (PathComp::Parent, PathComp::Parent) => true,
        (PathComp::Normal(x), PathComp::Normal(y)) => chars_eq(x, y),
        _ => false,
    }
}

fn is_dot(p: &Vec<char>) -> (r: bool)
    ensures
        r == (p@ == dot()),
{
    if p.len() == 1 && p[0] == '.' {
        assert(p@ =~= dot());
        true
    } else {
        false
    }
}

fn is_dot_dot(p: &Vec<char>) -> (r: bool)
    ensures
        r == (p@ == dot_dot()),
{
    if p.len() == 2 && p[0] == '.' && p[1] == '.' {
        assert(p@ =~= dot_dot());
        true
    } else {
        false
    }
}

/// The pieces of `s` between `/` separators.
fn split_exec(s: &Vec<char>) -> (r: Vec<Vec<char>>)
    ensures
        char_views(r@) == split_pieces(s@),
{
    let mut pieces: Vec<Vec<char>> = Vec::new();
    let mut cur: Vec<char> = Vec::new();
    let mut i: usize = 0;
    while i < s.len()
        invariant
            i <= s@.len(),
            char_views(pieces@).push(cur@) == split_pieces(s@.take(i as int)),
        decreases s@.len() - i,
    {
        let c = s[i];
        proof {
            assert(s@.take(i + 1).drop_last() =~= s@.take(i as int));
            assert(s@.take(i + 1).last() == c);
            lemma_split_pieces_nonempty(s@.take(i as int));
        }
        if c == '/' {
            let done = cur;
            pieces.push(done);
            cur = Vec::new();
            proof {
                assert(char_views(pieces@).push(cur@) =~= split_pieces(s@.take(i as int)).push(seq![]));
            }
        } else {
            let ghost before = char_views(pieces@).push(cur@);
            cur.push(c);
            proof {
                assert(char_views(pieces@).push(cur@) =~= before.update(before.len() - 1, before.last().push(c)));
            }
        }
        i = i + 1;
    }
    pieces.push(cur);
    proof {
        assert(s@.take(s@.len() as int) =~= s@);
    }
    pieces
}

/// The components of `s`.
pub fn comps_exec(s: &str) -> (r: Vec<PathComp>)
    ensures
        comp_views(r@) == comps_of(s@),
{
    let v = chars_of(s);
    let pieces = split_exec(&v);
    proof {
        lemma_split_pieces_nonempty(s@);
    }
    let mut out: Vec<PathComp> = Vec::new();
    if v.len() > 0 && v[0] == '/' {
        out.push(PathComp::Root);
    } else if is_dot(&pieces[0]) {
        out.push(PathComp::Cur);
    }
    let ghost lead = comp_views(out@);
    let mut i: usize = 0;
    while i < pieces.len()
        invariant
            char_views(pieces@) == split_pieces(s@),
            i <= pieces@.len(),
            comp_views(out@) == lead + piece_comps(char_views(pieces@).take(i as int)),
        decreases pieces@.len() - i,
    {
        let ghost before = comp_views(out@);
        let p = &pieces[i];
        proof {
            assert(char_views(pieces@).take(i + 1).drop_last() =~= char_views(pieces@).take(i as int));
            assert(char_views(pieces@).take(i + 1).last() == p@);
        }
        if p.len() == 0 || is_dot(p) {
        } else if is_dot_dot(p) {
            out.push(PathComp::Parent);
            proof {
                assert(comp_views(out@) =~= before.push(Comp::Parent));
            }
        } else {
            out.push(PathComp::Normal(copy_chars(p)));
            proof {
                assert(comp_views(out@) =~= before.push(Comp::Normal(p@)));
            }
        }
        i = i + 1;
    }
    proof {
        assert(char_views(pieces@).take(pieces@.len() as int) =~= char_views(pieces@));
        assert(comps_of(s@) =~= lead + piece_comps(split_pieces(s@)));
    }
    out
}

/// Lexical normalisation of components.
pub fn norm_exec(cs: &Vec<PathComp>) -> (r: Vec<PathComp>)
    ensures
        comp_views(r@) == norm(comp_views(cs@)),
{
    let mut out: Vec<PathComp> = Vec::new();
    let mut i: usize = 0;
    while i < cs.len()
        invariant
            i <= cs@.len(),
            comp_views(out@) == norm(comp_views(cs@).take(i as int)),
        decreases cs@.len() - i,
    {
        let ghost before = comp_views(out@);
        proof {
            assert(comp_views(cs@).take(i + 1).drop_last() =~= comp_views(cs@).take(i as int));
            assert(comp_views(cs@).take(i + 1).last() == cs@[i as int]@);
        }
        match &cs[i] {
            PathComp::Cur => {},
            PathComp::Parent => {
                let n = out.len();
                if n > 0 {
                    let last_normal = match &out[n - 1] {
                        PathComp::Normal(_) => true,
                        _ => false,
                    };
                    if last_normal {
                        out.pop();
                        proof {
                            assert(comp_views(out@) =~= before.drop_last());
                        }
                    }
                }
            },
            c => {
                out.push(copy_comp(c));
                proof {
                    assert(comp_views(out@) =~= before.push(c@));
                }
            },
        }
        i = i + 1;
    }
    proof {
        assert(comp_views(cs@).take(cs@.len() as int) =~= comp_views(cs@));
    }
    out
}

fn push_all(out: &mut Vec<char>, v: &Vec<char>)
    ensures
        final(out)@ == old(out)@ + v@,
{
    let mut i: usize = 0;
    let ghost base = out@;
    while i < v.len()
        invariant
            i <= v@.len(),
            out@ == base + v@.subrange(0, i as int),
        decreases v@.len() - i,
    {
        out.push(v[i]);
        proof {
            assert(v@.subrange(0, i + 1) =~= v@.subrange(0, i as int).push(v@[i as int]));
        }
        i = i + 1;
    }
    assert(v@.subrange(0, v@.len() as int) =~= v@);
}

fn comp_text_exec(c: &PathComp) -> (r: Vec<char>)
    ensures
        r@ == comp_text(c@),
{
    match c {
        PathComp::Root => {
            let v = vec!['/'];
            assert(v@ =~= seq!['/']);
            v
        },
        PathComp::Cur => {
            let v = vec!['.'];
            assert(v@ =~= dot());
            v
        },
        PathComp::Parent => {
            let v = vec!['.', '.'];
            assert(v@ =~= dot_dot());
            v
        },
        PathComp::Normal(n) => copy_chars(n),
    }
}

/// The text of components `cs[from..]`.
pub fn render_exec(cs: &Vec<PathComp>, from: usize) -> (r: String)
    requires
        from <= cs@.len(),
    ensures
        r@ == render(comp_views(cs@).skip(from as int)),
{
    let ghost all = comp_views(cs@).skip(from as int);
    let mut out: Vec<char> = Vec::new();
    let mut i: usize = from;
    while i < cs.len()
        invariant
            from <= i <= cs@.len(),
            all == comp_views(cs@).skip(from as int),
            out@ == render(all.take(i - from)),
        decreases cs@.len() - i,
    {
        let ghost k = i - from;
        proof {
            assert(all.take(k + 1).drop_last() =~= all.take(k));
            assert(all.take(k + 1).last() == cs@[i as int]@);
        }
        let t = comp_text_exec(&cs[i]);
        if i == from {
            push_all(&mut out, &t);
            proof {
                assert(out@ =~= render(all.take(k + 1)));
            }
        } else {
            let after_root = match &cs[i - 1] {
                PathComp::Root => true,
                _ => false,
            };
            proof {
                assert(all.take(k + 1).drop_last().last() == cs@[i - 1]@);
            }
            if !after_root {
                out.push('/');
            }
            push_all(&mut out, &t);
            proof {
                assert(out@ =~= render(all.take(k + 1)));
            }
        }
        i = i + 1;
    }
    proof {
        assert(all.take(cs@.len() - from) =~= all);
    }
    from_chars(out.as_slice())
}

/// Whether the components `a` begin the components `b`.
pub fn comps_prefix_exec(a: &Vec<PathComp>, b: &Vec<PathComp>) -> (r: bool)
    ensures
        r == comps_prefix(comp_views(a@), comp_views(b@)),
{
    if a.len() > b.len() {
        return false;
    }
    let mut i: usize = 0;
    while i < a.len()
        invariant
            a@.len() <= b@.len(),
            i <= a@.len(),
            comp_views(b@).subrange(0, i as int) == comp_views(a@).subrange(0, i as int),
        decreases a@.len() - i,
    {
        if !comp_eq(&a[i], &b[i]) {
            assert(comp_views(b@).subrange(0, a@.len() as int)[i as int] != comp_views(a@)[i as int]);
            return false;
        }
        assert(comp_views(b@).subrange(0, i + 1) =~= comp_views(b@).subrange(0, i as int).push(b@[i as int]@));
        assert(comp_views(a@).subrange(0, i + 1) =~= comp_views(a@).subrange(0, i as int).push(a@[i as int]@));
        i = i + 1;
    }
    assert(comp_views(a@).subrange(0, a@.len() as int) =~= comp_views(a@));
    true
}

/// Whether `s.trim()` is empty.
pub fn is_ws_exec(c: char) -> (r: bool)
    ensures
        r == is_ws(c),
{
    c == '\t' || c == '\n' || c == '\u{0B}' || c == '\u{0C}' || c == '\r' || c == ' '
        || c == '\u{85}' || c == '\u{A0}' || c == '\u{1680}' || ('\u{2000}' <= c && c <= '\u{200A}')
        || c == '\u{2028}' || c == '\u{2029}' || c == '\u{202F}' || c == '\u{205F}' || c == '\u{3000}'
}

/// Whether `s.trim()` is empty.
pub fn blank(s: &str) -> (r: bool)
    ensures
        r == is_blank(s@),
{
    let v = chars_of(s);
    let mut i: usize = 0;
    while i < v.len()
        invariant
            v@ == s@,
            i <= v@.len(),
            forall|j: int| 0 <= j < i ==> is_ws(#[trigger] s@[j]),
        decreases v@.len() - i,
    {
        if !is_ws_exec(v[i]) {
            return false;
        }
        i = i + 1;
    }
    true
}

/// `PathBuf::join` on text.
pub fn join(a: &str, b: &str) -> (r: String)
    ensures
        r@ == join_text(a@, b@),
{
    let bv = chars_of(b);
    if bv.len() > 0 && bv[0] == '/' {
        return b.to_owned();
    }
    let av = chars_of(a);
    if av.len() == 0 || av[av.len() - 1] == '/' {
        crate::text::concat(a, b)
    } else {
        proof {
            reveal_strlit("/");
            assert("/"@ =~= seq!['/']);
        }
        crate::text::concat3(a, "/", b)
    }
}

// ---------------------------------------------------------------------------
// Resolving requests
// ---------------------------------------------------------------------------

/// `requested` joined to `root` and normalised, if it stays under `root`.
fn resolve_under(root: &str, requested: &str, empty: &str, escape: &str) -> (r: Result<String, DreamError>)
    ensures
        text_result(r) == resolve_under_spec(root@, requested@, empty@, escape@),
{
    if blank(requested) {
        return Err(DreamError::runtime(empty));
    }
    let joined = join(root, requested);
    let cs = comps_exec(joined.as_str());
    let n = norm_exec(&cs);
    let rc = comps_exec(root);
    if !comps_prefix_exec(&rc, &n) {
        return Err(DreamError::runtime(escape));
    }
    Ok(render_exec(&n, 0))
}

/// The path a source request names, inside the project root.
pub fn resolve_inside(root: &str, requested: &str) -> (r: Result<String, DreamError>)
    ensures
        text_result(r) == resolve_under_spec(root@, requested@, "source request is empty"@, "source request escapes project root"@),
{
    resolve_under(root, requested, "source request is empty", "source request escapes project root")
}

/// The result of `resolve_output`: like `resolve_under`, and never the root itself.
pub open spec fn resolve_output_spec(root: Seq<char>, requested: Seq<char>) -> Result<Seq<char>, (ErrorKind, Seq<char>)> {
    match resolve_under_spec(root, requested, "output write is empty"@, "output write escapes -o"@) {
        Ok(p) => if norm(comps_of(join_text(root, requested))) == comps_of(root) {
            Err((ErrorKind::Runtime, "output write escapes -o"@))
        } else {
            Ok(p)
        },
        e => e,
    }
}

/// The path an output write names, strictly inside the output root.
pub fn resolve_output(root: &str, requested: &str) -> (r: Result<String, DreamError>)
    ensures
        text_result(r) == resolve_output_spec(root@, requested@),
{
    let dest = resolve_under(root, requested, "output write is empty", "output write escapes -o");
    match dest {
        Ok(path) => {
            let joined = join(root, requested);
            let n = norm_exec(&comps_exec(joined.as_str()));
            let rc = comps_exec(root);
            if n.len() == rc.len() && comps_prefix_exec(&rc, &n) {
                assert(comp_views(n@) =~= comp_views(rc@));
                Err(DreamError::runtime("output write escapes -o"))
            } else {
                Ok(path)
            }
        },
        Err(e) => Err(e),
    }
}

/// `path` relative to `root`, with `\` turned into `/`.
pub fn rel_under(root: &str, path: &str, escape: &str) -> (r: Result<String, DreamError>)
    ensures
        text_result(r) == rel_under_spec(root@, path@, escape@),
{
    let rc = comps_exec(root);
    let pc = comps_exec(path);
    if !comps_prefix_exec(&rc, &pc) {
        return Err(DreamError::runtime(escape));
    }
    let rest = render_exec(&pc, rc.len());
    Ok(crate::text::replace_char_exec(rest.as_str(), '\\', '/'))
}

/// A project path relative to the project root.
pub fn rel_path(root: &str, path: &str) -> (r: Result<String, DreamError>)
    ensures
        text_result(r) == rel_under_spec(root@, path@, "source request escapes project root"@),
{
    rel_under(root, path, "source request escapes project root")
}

/// A dest path relative to the dest root, for the dest tools.
pub fn rel_dest(root: &str, path: &str) -> (r: Result<String, DreamError>)
    ensures
        text_result(r) == rel_under_spec(root@, path@, "dest write escapes -o"@),
{
    rel_under(root, path, "dest write escapes -o")
}

/// An output path relative to the output root.
pub fn rel_output(root: &str, path: &str) -> (r: Result<String, DreamError>)
    ensures
        text_result(r) == rel_under_spec(root@, path@, "output write escapes -o"@),
{
    rel_under(root, path, "output write escapes -o")
}

// ---------------------------------------------------------------------------
// File names
// ---------------------------------------------------------------------------

/// `Path::file_name`: the last component, when it is a name.
pub open spec fn file_name(s: Seq<char>) -> Option<Seq<char>> {
    let cs = comps_of(s);
    if cs.len() > 0 && cs.last() is Normal {
        Some(cs.last()->Normal_0)
    } else {
        None
    }
}

/// Index of the last `.` in `n`, or `-1`.
pub open spec fn last_dot(n: Seq<char>) -> int
    decreases n.len(),
{
    if n.len() == 0 {
        -1
    } else if n.last() == '.' {
        n.len() - 1
    } else {
        last_dot(n.drop_last())
    }
}

/// `Path::extension`: what follows the last `.` of the file name, unless that `.` starts it.
pub open spec fn extension(s: Seq<char>) -> Option<Seq<char>> {
    match file_name(s) {
        Some(n) => if last_dot(n) <= 0 {
            None
        } else {
            Some(n.skip(last_dot(n) + 1))
        },
        None => None,
    }
}

/// `Path::file_stem`: the file name before its last `.`, unless that `.` starts it.
pub open spec fn file_stem(s: Seq<char>) -> Option<Seq<char>> {
    match file_name(s) {
        Some(n) => if last_dot(n) <= 0 {
            Some(n)
        } else {
            Some(n.take(last_dot(n)))
        },
        None => None,
    }
}

/// Whether the path names a `.foo` file.
pub open spec fn is_foo_path(s: Seq<char>) -> bool {
    extension(s) == Some(seq!['f', 'o', 'o'])
}

proof fn lemma_last_dot(n: Seq<char>)
    ensures
        -1 <= last_dot(n) < n.len(),
        last_dot(n) >= 0 ==> n[last_dot(n)] == '.',
        forall|j: int| last_dot(n) < j < n.len() ==> n[j] != '.',
    decreases n.len(),
{
    if n.len() > 0 && n.last() != '.' {
        lemma_last_dot(n.drop_last());
        assert forall|j: int| last_dot(n) < j < n.len() implies n[j] != '.' by {
            if j < n.len() - 1 {
                assert(n[j] == n.drop_last()[j]);
            }
        }
    }
}

fn last_dot_exec(n: &Vec<char>) -> (r: Option<usize>)
    ensures
        match r {
            Some(i) => last_dot(n@) == i && i < n@.len(),
            None => last_dot(n@) == -1,
        },
{
    proof {
        lemma_last_dot(n@);
    }
    let mut i: usize = n.len();
    assert(n@.take(i as int) =~= n@);
    while i > 0
        invariant
            i <= n@.len(),
            last_dot(n@) == last_dot(n@.take(i as int)),
        decreases i,
    {
        if n[i - 1] == '.' {
            assert(n@.take(i as int).last() == '.');
            return Some(i - 1);
        }
        assert(n@.take(i as int).drop_last() =~= n@.take(i - 1));
        i = i - 1;
    }
    None
}

/// The characters `v[from..to]`.
pub fn sub_chars(v: &Vec<char>, from: usize, to: usize) -> (r: Vec<char>)
    requires
        from <= to <= v@.len(),
    ensures
        r@ == v@.subrange(from as int, to as int),
{
    let mut r: Vec<char> = Vec::new();
    let mut i: usize = from;
    while i < to
        invariant
            from <= i <= to <= v@.len(),
            r@ == v@.subrange(from as int, i as int),
        decreases to - i,
    {
        r.push(v[i]);
        assert(v@.subrange(from as int, i + 1) =~= v@.subrange(from as int, i as int).push(v@[i as int]));
        i = i + 1;
    }
    r
}

fn file_name_exec(s: &str) -> (r: Option<Vec<char>>)
    ensures
        match r {
            Some(n) => file_name(s@) == Some(n@),
            None => file_name(s@) is None,
        },
{
    let cs = comps_exec(s);
    if cs.len() == 0 {
        return None;
    }
    match &cs[cs.len() - 1] {
        PathComp::Normal(n) => Some(copy_chars(n)),
        _ => None,
    }
}

/// `Path::extension` on text.
pub fn extension_of(s: &str) -> (r: Option<String>)
    ensures
        match r {
            Some(e) => extension(s@) == Some(e@),
            None => extension(s@) is None,
        },
{
    match file_name_exec(s) {
        Some(n) => match last_dot_exec(&n) {
            Some(d) if d > 0 => {
                let len = n.len();
                let tail = sub_chars(&n, d + 1, len);
                assert(tail@ =~= n@.skip(d + 1));
                Some(from_chars(tail.as_slice()))
            },
            _ => None,
        },
        None => None,
    }
}

/// `Path::file_stem` on text.
pub fn file_stem_of(s: &str) -> (r: Option<String>)
    ensures
        match r {
            Some(e) => file_stem(s@) == Some(e@),
            None => file_stem(s@) is None,
        },
{
    match file_name_exec(s) {
        Some(n) => match last_dot_exec(&n) {
            Some(d) if d > 0 => {
                let head = sub_chars(&n, 0, d);
                assert(head@ =~= n@.take(d as int));
                Some(from_chars(head.as_slice()))
            },
            _ => Some(from_chars(n.as_slice())),
        },
        None => None,
    }
}

/// Whether the path names a `.foo` file.
pub fn is_foo(s: &str) -> (r: bool)
    ensures
        r == is_foo_path(s@),
{
    match extension_of(s) {
        Some(e) => {
            let v = chars_of(e.as_str());
            let r = v.len() == 3 && v[0] == 'f' && v[1] == 'o' && v[2] == 'o';
            proof {
                if r {
                    assert(e@ =~= seq!['f', 'o', 'o']);
                }
            }
            r
        },
        None => false,
    }
}

/// The result of `entry_stem`.
pub open spec fn entry_stem_spec(entry: Seq<char>) -> Result<Seq<char>, (ErrorKind, Seq<char>)> {
    match file_stem(entry) {
        Some(stem) => Ok(stem),
        None => Err((ErrorKind::Usage, "entry `"@ + entry + "` has no file name"@)),
    }
}

/// The stem of the entry `.foo` file: its file name without the extension.
pub fn entry_stem(entry: &str) -> (r: Result<String, DreamError>)
    ensures
        text_result(r) == entry_stem_spec(entry@),
{
    match file_stem_of(entry) {
        Some(stem) => Ok(stem),
        None => Err(DreamError::usage(crate::text::concat3("entry `", entry, "` has no file name").as_str())),
    }
}

/// `Path::parent`: the path without its last component, unless it ends in the root or
/// is empty.
pub open spec fn parent_of(s: Seq<char>) -> Option<Seq<char>> {
    let cs = comps_of(s);
    if cs.len() > 0 && !(cs.last() is Root) {
        Some(render(cs.drop_last()))
    } else {
        None
    }
}

/// The parent of a path.
pub fn parent(s: &str) -> (r: Option<String>)
    ensures
        match r {
            Some(p) => parent_of(s@) == Some(p@),
            None => parent_of(s@) is None,
        },
{
    let mut cs = comps_exec(s);
    if cs.len() == 0 {
        return None;
    }
    let is_root = match &cs[cs.len() - 1] {
        PathComp::Root => true,
        _ => false,
    };
    if is_root {
        return None;
    }
    let ghost all = comp_views(cs@);
    cs.pop();
    assert(comp_views(cs@) =~= all.drop_last());
    assert(comp_views(cs@).skip(0) =~= comp_views(cs@));
    Some(render_exec(&cs, 0))
}

} // verus!
