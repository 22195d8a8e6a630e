//! Which `.foo` unit read which: reading back up the chain of reads is a cycle.

use vstd::prelude::*;

use crate::error::{DreamError, ErrorKind};
use crate::text::{concat, same};

verus! {

broadcast use vstd::seq_lib::group_seq_properties;

/// The reads so far: the unit being read now, and each "`a` read `b`" edge.
#[derive(Debug)]
pub struct DepGraph {
    current: String,
    edges: Vec<(String, String)>,
}

pub type Edges = Seq<(Seq<char>, Seq<char>)>;

pub struct DepGraphView {
    pub current: Seq<char>,
    pub edges: Edges,
}

pub open spec fn edge_views(v: Seq<(String, String)>) -> Edges {
    v.map_values(|e: (String, String)| (e.0@, e.1@))
}

impl View for DepGraph {
    type V = DepGraphView;

    closed spec fn view(&self) -> DepGraphView {
        DepGraphView { current: self.current@, edges: edge_views(self.edges@) }
    }
}

/// Each step of `w` is an edge.
pub open spec fn is_walk(es: Edges, w: Seq<Seq<char>>) -> bool {
    forall|i: int| 0 <= i < w.len() - 1 ==> #[trigger] es.contains((w[i], w[i + 1]))
}

/// `from` reaches `to` along one edge or more.
pub open spec fn reaches(es: Edges, from: Seq<char>, to: Seq<char>) -> bool {
    exists|w: Seq<Seq<char>>| w.len() >= 2 && w[0] == from && w.last() == to && #[trigger] is_walk(es, w)
}

/// The names joined with ` -> `.
pub open spec fn join_arrows(s: Seq<Seq<char>>) -> Seq<char>
    decreases s.len(),
{
    if s.len() == 0 {
        seq![]
    } else if s.len() == 1 {
        s[0]
    } else {
        join_arrows(s.drop_last()) + " -> "@ + s.last()
    }
}

/// The message for the cycle `chain`.
pub open spec fn cycle_message(chain: Seq<Seq<char>>) -> Seq<char> {
    "cycle in source requests: "@ + join_arrows(chain)
}

/// `chain` is the cycle that reading `path` from `current` closes: a walk of reads from
/// `path` to `current` that meets no unit twice, then `path` again.
pub open spec fn closes_cycle(es: Edges, current: Seq<char>, path: Seq<char>, chain: Seq<Seq<char>>) -> bool {
    &&& chain.len() >= 3
    &&& chain[0] == path
    &&& chain[chain.len() - 2] == current
    &&& chain.last() == path
    &&& is_walk(es, chain.drop_last())
    &&& chain.drop_last().no_duplicates()
}

/// The reads have no cycle: no unit reaches itself.
pub open spec fn acyclic(es: Edges) -> bool {
    forall|x: Seq<char>| !#[trigger] reaches(es, x, x)
}

/// `new` is the graph `old` becomes after reading `path`: unchanged when `path` is the
/// unit read now or leads back to it, else with the edge from the unit read now to
/// `path`, which becomes the unit read now.
pub open spec fn read_recorded(old: DepGraphView, new: DepGraphView, path: Seq<char>) -> bool {
    if path == old.current || reaches(old.edges, path, old.current) {
        new == old
    } else {
        &&& new.current == path
        &&& forall|e: (Seq<char>, Seq<char>)| new.edges.contains(e) <==> (old.edges.contains(e) || e == (old.current, path))
    }
}

/// `a` is `b` or reaches it.
pub open spec fn reaches_or_is(es: Edges, a: Seq<char>, b: Seq<char>) -> bool {
    a == b || reaches(es, a, b)
}

proof fn lemma_walk_push(es: Edges, w: Seq<Seq<char>>, b: Seq<char>)
    requires
        w.len() >= 1,
        is_walk(es, w),
        es.contains((w.last(), b)),
    ensures
        is_walk(es, w.push(b)),
{
    let v = w.push(b);
    assert forall|i: int| 0 <= i < v.len() - 1 implies #[trigger] es.contains((v[i], v[i + 1])) by {
        if i < w.len() - 1 {
            assert(v[i] == w[i] && v[i + 1] == w[i + 1]);
            assert(es.contains((w[i], w[i + 1])));
        } else {
            assert(v[i] == w.last());
        }
    }
}

/// One more edge after a unit `a` reaches (or is) gives a walk from `a`.
proof fn lemma_reaches_step(es: Edges, a: Seq<char>, m: Seq<char>, b: Seq<char>)
    requires
        reaches_or_is(es, a, m),
        es.contains((m, b)),
    ensures
        reaches(es, a, b),
{
    if a == m {
        let w = seq![a, b];
        assert(is_walk(es, w)) by {
            assert forall|i: int| 0 <= i < w.len() - 1 implies #[trigger] es.contains((w[i], w[i + 1])) by {
                assert(i == 0);
            }
        }
        assert(w.last() == b);
    } else {
        let w = choose|w: Seq<Seq<char>>| w.len() >= 2 && w[0] == a && w.last() == m && #[trigger] is_walk(es, w);
        lemma_walk_push(es, w, b);
        assert(w.push(b)[0] == a);
        assert(w.push(b).last() == b);
    }
}

/// `a` reaching `b` and `b` reaching `c` make `a` reach `c`.
proof fn lemma_reaches_trans(es: Edges, a: Seq<char>, b: Seq<char>, c: Seq<char>)
    requires
        reaches_or_is(es, a, b),
        reaches(es, b, c),
    ensures
        reaches(es, a, c),
{
    let w = choose|w: Seq<Seq<char>>| w.len() >= 2 && w[0] == b && w.last() == c && #[trigger] is_walk(es, w);
    lemma_reaches_along(es, a, w, w.len() - 1);
}

proof fn lemma_reaches_along(es: Edges, a: Seq<char>, w: Seq<Seq<char>>, k: int)
    requires
        w.len() >= 2,
        1 <= k < w.len(),
        reaches_or_is(es, a, w[0]),
        is_walk(es, w),
    ensures
        reaches(es, a, w[k]),
    decreases k,
{
    assert(es.contains((w[k - 1], w[(k - 1) + 1])));
    if k == 1 {
        lemma_reaches_step(es, a, w[0], w[1]);
    } else {
        lemma_reaches_along(es, a, w, k - 1);
        lemma_reaches_step(es, a, w[k - 1], w[k]);
    }
}

/// A walk over the old edges plus `c -> p` either keeps to the old edges, or leads from
/// its start to `c` and from `p` to its end.
proof fn lemma_walk_with_edge(old: Edges, new: Edges, c: Seq<char>, p: Seq<char>, w: Seq<Seq<char>>)
    requires
        forall|e: (Seq<char>, Seq<char>)| new.contains(e) <==> (old.contains(e) || e == (c, p)),
        w.len() >= 2,
        is_walk(new, w),
    ensures
        reaches(old, w[0], w.last()) || (reaches_or_is(old, w[0], c) && reaches_or_is(old, p, w.last())),
    decreases w.len(),
{
    let n = w.len();
    let m = w[n - 2];
    let b = w[n - 1];
    assert(new.contains((w[n - 2], w[(n - 2) + 1])));
    assert(w.last() == b);
    if n == 2 {
        if old.contains((m, b)) {
            lemma_reaches_step(old, w[0], m, b);
        }
    } else {
        let v = w.drop_last();
        assert forall|i: int| 0 <= i < v.len() - 1 implies #[trigger] new.contains((v[i], v[i + 1])) by {
            assert(v[i] == w[i] && v[i + 1] == w[i + 1]);
            assert(new.contains((w[i], w[i + 1])));
        }
        lemma_walk_with_edge(old, new, c, p, v);
        assert(v[0] == w[0] && v.last() == m);
        if old.contains((m, b)) {
            if reaches(old, w[0], m) {
                lemma_reaches_step(old, w[0], m, b);
            } else {
                lemma_reaches_step(old, p, m, b);
            }
        } else {
            assert(m == c && b == p);
        }
    }
}

/// Reading never closes a cycle: a graph whose reads have no cycle has none after a
/// `record_read`.
pub proof fn lemma_record_read_keeps_acyclic(old: DepGraphView, new: DepGraphView, path: Seq<char>)
    requires
        acyclic(old.edges),
        read_recorded(old, new, path),
    ensures
        acyclic(new.edges),
{
    if !(path == old.current || reaches(old.edges, path, old.current)) {
        assert forall|x: Seq<char>| !#[trigger] reaches(new.edges, x, x) by {
            if reaches(new.edges, x, x) {
                let w = choose|w: Seq<Seq<char>>| w.len() >= 2 && w[0] == x && w.last() == x && #[trigger] is_walk(new.edges, w);
                lemma_walk_with_edge(old.edges, new.edges, old.current, path, w);
                if !reaches(old.edges, x, x) {
                    // p reaches or is x, and x reaches or is c: p reaches or is c
                    if path == x {
                        assert(reaches(old.edges, path, old.current));
                    } else {
                        if x == old.current {
                            assert(reaches(old.edges, path, old.current));
                        } else {
                            lemma_reaches_trans(old.edges, path, x, old.current);
                        }
                    }
                }
            }
        }
    }
}

/// A graph with no reads between units has no cycle.
pub proof fn lemma_no_edges_acyclic(es: Edges)
    requires
        es.len() == 0,
    ensures
        acyclic(es),
{
    assert forall|x: Seq<char>| !#[trigger] reaches(es, x, x) by {
        if reaches(es, x, x) {
            let w = choose|w: Seq<Seq<char>>| w.len() >= 2 && w[0] == x && w.last() == x && #[trigger] is_walk(es, w);
            assert(es.contains((w[0], w[0int + 1])));
        }
    }
}

/// Whether `unit` has been read: the unit read now, or an end of an edge.
pub open spec fn was_read(g: DepGraphView, unit: Seq<char>) -> bool {
    unit == g.current || exists|i: int| 0 <= i < g.edges.len() && ((#[trigger] g.edges[i]).0 == unit || g.edges[i].1 == unit)
}

// ---------------------------------------------------------------------------
// The search
// ---------------------------------------------------------------------------

pub open spec fn found_nodes(f: Seq<(String, usize)>) -> Seq<Seq<char>> {
    f.map_values(|p: (String, usize)| p.0@)
}

/// How many edges lead to a node outside `r`.
pub open spec fn open_edges(es: Edges, r: Seq<Seq<char>>) -> nat
    decreases es.len(),
{
    if es.len() == 0 {
        0
    } else {
        open_edges(es.drop_last(), r) + if r.contains(es.last().1) { 0nat } else { 1nat }
    }
}

proof fn lemma_open_edges_shrink(es: Edges, r1: Seq<Seq<char>>, r2: Seq<Seq<char>>, j: int)
    requires
        forall|x: Seq<char>| r1.contains(x) ==> r2.contains(x),
        0 <= j < es.len() ==> r2.contains(es[j].1) && !r1.contains(es[j].1),
    ensures
        open_edges(es, r2) <= open_edges(es, r1),
        0 <= j < es.len() ==> open_edges(es, r2) < open_edges(es, r1),
    decreases es.len(),
{
    if es.len() > 0 {
        let d = es.drop_last();
        if j == es.len() - 1 {
            lemma_open_edges_shrink(d, r1, r2, -1);
        } else {
            if 0 <= j < es.len() {
                assert(d[j] == es[j]);
            }
            lemma_open_edges_shrink(d, r1, r2, j);
        }
    }
}

/// A set closed under the edges, holding `from` and with no edge into `to`, shows `from`
/// does not reach `to`.
proof fn lemma_closed_no_reach(es: Edges, r: Seq<Seq<char>>, from: Seq<char>, to: Seq<char>)
    requires
        r.contains(from),
        forall|i: int| 0 <= i < es.len() && r.contains((#[trigger] es[i]).0) ==> r.contains(es[i].1) && es[i].1 != to,
    ensures
        !reaches(es, from, to),
{
    if reaches(es, from, to) {
        let w = choose|w: Seq<Seq<char>>| w.len() >= 2 && w[0] == from && w.last() == to && #[trigger] is_walk(es, w);
        lemma_walk_stays(es, r, to, w, w.len() - 1);
    }
}

proof fn lemma_walk_stays(es: Edges, r: Seq<Seq<char>>, to: Seq<char>, w: Seq<Seq<char>>, k: int)
    requires
        0 <= k < w.len(),
        r.contains(w[0]),
        is_walk(es, w),
        forall|i: int| 0 <= i < es.len() && r.contains((#[trigger] es[i]).0) ==> r.contains(es[i].1) && es[i].1 != to,
    ensures
        r.contains(w[k]),
        k > 0 ==> w[k] != to,
    decreases k,
{
    if k > 0 {
        lemma_walk_stays(es, r, to, w, k - 1);
        assert(es.contains((w[k - 1], w[(k - 1) + 1])));
        let i = choose|i: int| 0 <= i < es.len() && es[i] == (w[k - 1], w[k]);
        assert(r.contains(es[i].0));
    }
}

fn node_index(found: &Vec<(String, usize)>, node: &str) -> (r: Option<usize>)
    ensures
        match r {
            Some(k) => k < found@.len() && found@[k as int].0@ == node@,
            None => !found_nodes(found@).contains(node@),
        },
{
    let mut k: usize = 0;
    while k < found.len()
        invariant
            k <= found@.len(),
            forall|j: int| 0 <= j < k ==> found@[j].0@ != node@,
        decreases found@.len() - k,
    {
        if same(found[k].0.as_str(), node) {
            return Some(k);
        }
        k = k + 1;
    }
    proof {
        if found_nodes(found@).contains(node@) {
            let j = choose|j: int| 0 <= j < found_nodes(found@).len() && found_nodes(found@)[j] == node@;
            assert(found@[j].0@ == node@);
        }
    }
    None
}

/// The search tree: node 0 is the start; every other node was reached along an edge
/// from an earlier one.
pub open spec fn search_tree(es: Edges, f: Seq<(String, usize)>, from: Seq<char>) -> bool {
    &&& f.len() >= 1
    &&& f[0].0@ == from
    &&& forall|k: int| 1 <= k < f.len() ==> (#[trigger] f[k]).1 < k && es.contains((f[f[k].1 as int].0@, f[k].0@))
}

/// The walk of reads from the start to node `a` of the search tree.
fn trail_to(edges: &Vec<(String, String)>, found: &Vec<(String, usize)>, a: usize, Ghost(from): Ghost<Seq<char>>) -> (r: Vec<String>)
    requires
        search_tree(edge_views(edges@), found@, from),
        found_nodes(found@).no_duplicates(),
        a < found@.len(),
    ensures
        r@.len() >= 1,
        r@[0]@ == from,
        r@.last()@ == found@[a as int].0@,
        is_walk(edge_views(edges@), r@.map_values(|s: String| s@)),
        r@.map_values(|s: String| s@).no_duplicates(),
        forall|i: int| 0 <= i < r@.len() ==> found_nodes(found@).contains(#[trigger] r@[i]@),
{
    let ghost es = edge_views(edges@);
    let ghost fv = found_nodes(found@);
    let mut back: Vec<String> = Vec::new();
    back.push(found[a].0.clone());
    let mut k: usize = a;
    let ghost mut idx: Seq<int> = seq![a as int];
    while k != 0
        invariant
            search_tree(es, found@, from),
            fv == found_nodes(found@),
            fv.no_duplicates(),
            k < found@.len(),
            back@.len() >= 1,
            back@[0]@ == found@[a as int].0@,
            back@.last()@ == found@[k as int].0@,
            forall|i: int| 0 <= i < back@.len() - 1 ==> es.contains((#[trigger] back@[i + 1]@, back@[i]@)),
            idx.len() == back@.len(),
            idx.last() == k,
            forall|i: int| 0 <= i < idx.len() ==> 0 <= #[trigger] idx[i] < found@.len() && back@[i]@ == found@[idx[i]].0@,
            forall|i: int, j: int| 0 <= i < j < idx.len() ==> #[trigger] idx[i] > #[trigger] idx[j],
        decreases k,
    {
        let p = found[k].1;
        let ghost before = back@;
        back.push(found[p].0.clone());
        proof {
            assert(found@[k as int].1 < k);
            idx = idx.push(p as int);
        }
        proof {
            assert forall|i: int| 0 <= i < back@.len() - 1 implies es.contains((#[trigger] back@[i + 1]@, back@[i]@)) by {
                if i < before.len() - 1 {
                    assert(back@[i + 1] == before[i + 1]);
                    assert(back@[i] == before[i]);
                } else {
                    assert(back@[i] == before.last());
                }
            }
        }
        k = p;
    }
    let mut r: Vec<String> = Vec::new();
    let mut i: usize = back.len();
    while i > 0
        invariant
            i <= back@.len(),
            back@.len() >= 1,
            r@.len() == back@.len() - i,
            forall|j: int| 0 <= j < r@.len() ==> r@[j] == back@[back@.len() - 1 - j],
        decreases i,
    {
        r.push(back[i - 1].clone());
        i = i - 1;
    }
    proof {
        let rv = r@.map_values(|s: String| s@);
        let n = back@.len();
        assert forall|x: int, y: int| 0 <= x < rv.len() && 0 <= y < rv.len() && x != y implies rv[x] != rv[y] by {
            assert(rv[x] == back@[n - 1 - x]@);
            assert(rv[y] == back@[n - 1 - y]@);
            let (ix, iy) = (idx[n - 1 - x], idx[n - 1 - y]);
            if n - 1 - x < n - 1 - y {
                assert(ix > iy);
            } else {
                assert(iy > ix);
            }
            assert(fv[ix] == found@[ix].0@);
            assert(fv[iy] == found@[iy].0@);
        }
        assert forall|i: int| 0 <= i < r@.len() implies fv.contains(#[trigger] r@[i]@) by {
            assert(r@[i] == back@[n - 1 - i]);
            let q = idx[n - 1 - i];
            assert(fv[q] == found@[q].0@);
        }
        assert forall|j: int| 0 <= j < rv.len() - 1 implies es.contains((#[trigger] rv[j], rv[j + 1])) by {
            let n = back@.len();
            assert(rv[j] == back@[n - 1 - j]@);
            assert(rv[j + 1] == back@[n - 2 - j]@);
            assert(es.contains((back@[(n - 2 - j) + 1]@, back@[n - 2 - j]@)));
        }
        assert(r@[0] == back@.last());
        assert(r@.last() == back@[0]);
    }
    r
}

/// A walk of reads from `from` to a unit that read `to`, if `from` reaches `to`.
fn path_between(edges: &Vec<(String, String)>, from: &str, to: &str) -> (r: Option<Vec<String>>)
    requires
        from@ != to@,
    ensures
        match r {
            Some(trail) => {
                &&& trail@.len() >= 1
                &&& trail@[0]@ == from@
                &&& is_walk(edge_views(edges@), trail@.map_values(|s: String| s@))
                &&& edge_views(edges@).contains((trail@.last()@, to@))
                &&& trail@.map_values(|s: String| s@).no_duplicates()
                &&& !trail@.map_values(|s: String| s@).contains(to@)
            },
            None => !reaches(edge_views(edges@), from@, to@),
        },
{
    let ghost es = edge_views(edges@);
    let mut found: Vec<(String, usize)> = Vec::new();
    found.push((from.to_owned(), 0));
    assert(found_nodes(found@) =~= seq![from@]);
    loop
        invariant
            search_tree(es, found@, from@),
            es == edge_views(edges@),
            found_nodes(found@).no_duplicates(),
            !found_nodes(found@).contains(to@),
        decreases open_edges(es, found_nodes(found@)),
    {
        let ghost start = found_nodes(found@);
        let mut changed = false;
        let mut j: usize = 0;
        while j < edges.len()
            invariant
                search_tree(es, found@, from@),
                es == edge_views(edges@),
                found_nodes(found@).no_duplicates(),
                !found_nodes(found@).contains(to@),
                j <= edges@.len(),
                forall|x: Seq<char>| start.contains(x) ==> found_nodes(found@).contains(x),
                changed ==> open_edges(es, found_nodes(found@)) < open_edges(es, start),
                !changed ==> found_nodes(found@) == start,
                !changed ==> forall|i: int| 0 <= i < j && start.contains((#[trigger] es[i]).0) ==> start.contains(es[i].1) && es[i].1 != to@,
            decreases edges@.len() - j,
        {
            let ghost before = found_nodes(found@);
            assert(es[j as int] == (edges@[j as int].0@, edges@[j as int].1@));
            if let Some(a) = node_index(&found, edges[j].0.as_str()) {
                if same(edges[j].1.as_str(), to) {
                    let trail = trail_to(edges, &found, a, Ghost(from@));
                    proof {
                        assert(es.contains((trail@.last()@, to@))) by {
                            assert(es[j as int] == (trail@.last()@, to@));
                        }
                        let tv = trail@.map_values(|s: String| s@);
                        if tv.contains(to@) {
                            let q = choose|q: int| 0 <= q < tv.len() && tv[q] == to@;
                            assert(found_nodes(found@).contains(trail@[q]@));
                        }
                    }
                    return Some(trail);
                }
                match node_index(&found, edges[j].1.as_str()) {
                    Some(b) => {
                        proof {
                            assert(found_nodes(found@)[b as int] == es[j as int].1);
                        }
                    },
                    None => {
                        let ghost old_found = found@;
                        found.push((edges[j].1.clone(), a));
                        proof {
                            assert(found_nodes(found@) =~= before.push(edges@[j as int].1@));
                            assert(found_nodes(found@).no_duplicates()) by {
                                let fv = found_nodes(found@);
                                assert forall|x: int, y: int| 0 <= x < fv.len() && 0 <= y < fv.len() && x != y implies fv[x] != fv[y] by {
                                    if x < before.len() && y < before.len() {
                                        assert(fv[x] == before[x] && fv[y] == before[y]);
                                    } else if x < before.len() {
                                        assert(fv[x] == before[x]);
                                    } else if y < before.len() {
                                        assert(fv[y] == before[y]);
                                    }
                                }
                            }
                            assert(!found_nodes(found@).contains(to@)) by {
                                let fv = found_nodes(found@);
                                if fv.contains(to@) {
                                    let q = choose|q: int| 0 <= q < fv.len() && fv[q] == to@;
                                    if q < before.len() {
                                        assert(before[q] == to@);
                                    }
                                }
                            }
                            assert forall|x: Seq<char>| before.contains(x) implies found_nodes(found@).contains(x) by {
                                let q = choose|q: int| 0 <= q < before.len() && before[q] == x;
                                assert(found_nodes(found@)[q] == x);
                            }
                            assert(found_nodes(found@)[before.len() as int] == es[j as int].1);
                            lemma_open_edges_shrink(es, before, found_nodes(found@), j as int);
                            assert forall|k: int| 1 <= k < found@.len() implies (#[trigger] found@[k]).1 < k && es.contains((found@[found@[k].1 as int].0@, found@[k].0@)) by {
                                if k < old_found.len() {
                                    assert(found@[k] == old_found[k]);
                                    assert(found@[old_found[k].1 as int] == old_found[old_found[k].1 as int]);
                                } else {
                                    assert(found@[k].1 == a);
                                    assert(found@[a as int] == old_found[a as int]);
                                    assert(es[j as int].0 == found@[a as int].0@);
                                }
                            }
                            if !changed {
                                assert forall|x: Seq<char>| start.contains(x) implies found_nodes(found@).contains(x) by {}
                            }
                        }
                        changed = true;
                    },
                }
            } else {
                proof {
                    if !changed {
                        assert(!start.contains(es[j as int].0));
                    }
                }
            }
            j = j + 1;
        }
        if !changed {
            proof {
                assert(start.contains(from@)) by {
                    assert(found_nodes(found@)[0] == from@);
                }
                lemma_closed_no_reach(es, start, from@, to@);
            }
            return None;
        }
    }
}

fn push_arrow(out: String, name: &str) -> (r: String)
    ensures
        r@ == out@ + " -> "@ + name@,
{
    let a = concat(out.as_str(), " -> ");
    concat(a.as_str(), name)
}

fn join_chain(chain: &Vec<String>) -> (r: String)
    ensures
        r@ == join_arrows(chain@.map_values(|s: String| s@)),
{
    let ghost cv = chain@.map_values(|s: String| s@);
    if chain.len() == 0 {
        return String::new();
    }
    let mut out = chain[0].clone();
    let mut i: usize = 1;
    assert(cv.take(1) =~= seq![cv[0]]);
    while i < chain.len()
        invariant
            1 <= i <= chain@.len(),
            cv == chain@.map_values(|s: String| s@),
            out@ == join_arrows(cv.take(i as int)),
        decreases chain@.len() - i,
    {
        assert(cv.take(i + 1).drop_last() =~= cv.take(i as int));
        out = push_arrow(out, chain[i].as_str());
        i = i + 1;
    }
    assert(cv.take(chain@.len() as int) =~= cv);
    out
}

/// The error for the cycle closed by `trail`, then `current`, then `path`.
fn cycle_error(edges: &Vec<(String, String)>, trail: Vec<String>, current: &str, path: &str) -> (e: DreamError)
    requires
        trail@.len() >= 1,
        trail@[0]@ == path@,
        is_walk(edge_views(edges@), trail@.map_values(|s: String| s@)),
        edge_views(edges@).contains((trail@.last()@, current@)),
        trail@.map_values(|s: String| s@).no_duplicates(),
        !trail@.map_values(|s: String| s@).contains(current@),
    ensures
        reaches(edge_views(edges@), path@, current@),
        e@.0 == ErrorKind::Dream,
        exists|chain: Seq<Seq<char>>| #[trigger] closes_cycle(edge_views(edges@), current@, path@, chain) && e@.1 == cycle_message(chain),
{
    let ghost es = edge_views(edges@);
    let ghost tv = trail@.map_values(|s: String| s@);
    let mut chain = trail;
    chain.push(current.to_owned());
    chain.push(path.to_owned());
    let ghost cv = chain@.map_values(|s: String| s@);
    proof {
        assert(cv.drop_last() =~= tv.push(current@));
        assert(tv[0] == path@);
        assert(is_walk(es, cv.drop_last())) by {
            assert forall|i: int| 0 <= i < cv.drop_last().len() - 1 implies es.contains((#[trigger] cv.drop_last()[i], cv.drop_last()[i + 1])) by {
                if i < tv.len() - 1 {
                    assert(cv.drop_last()[i] == tv[i]);
                    assert(cv.drop_last()[i + 1] == tv[i + 1]);
                } else {
                    assert(cv.drop_last()[i] == tv.last());
                }
            }
        }
        assert(cv.drop_last().no_duplicates()) by {
            let d = cv.drop_last();
            assert forall|x: int, y: int| 0 <= x < d.len() && 0 <= y < d.len() && x != y implies d[x] != d[y] by {
                if x < tv.len() && y < tv.len() {
                    assert(d[x] == tv[x] && d[y] == tv[y]);
                } else if x < tv.len() {
                    assert(d[x] == tv[x]);
                } else if y < tv.len() {
                    assert(d[y] == tv[y]);
                }
            }
        }
        assert(closes_cycle(es, current@, path@, cv));
        assert(cv.drop_last()[0] == path@);
        assert(cv.drop_last().last() == current@);
    }
    let msg = concat("cycle in source requests: ", join_chain(&chain).as_str());
    DreamError::new(msg.as_str())
}

/// Adds the edge `a -> b` unless it is there.
fn add_edge(edges: &mut Vec<(String, String)>, a: &str, b: &str)
    ensures
        forall|e: (Seq<char>, Seq<char>)| edge_views(final(edges)@).contains(e) <==> (edge_views(old(edges)@).contains(e) || e == (a@, b@)),
{
    let ghost es = edge_views(edges@);
    let mut present = false;
    let mut i: usize = 0;
    while i < edges.len()
        invariant
            i <= edges@.len(),
            es == edge_views(edges@),
            present ==> es.contains((a@, b@)),
        decreases edges@.len() - i,
    {
        assert(es[i as int] == (edges@[i as int].0@, edges@[i as int].1@));
        if same(edges[i].0.as_str(), a) && same(edges[i].1.as_str(), b) {
            present = true;
        }
        i = i + 1;
    }
    if !present {
        edges.push((a.to_owned(), b.to_owned()));
        proof {
            let ne = edge_views(edges@);
            assert(ne =~= es.push((a@, b@)));
            assert forall|e: (Seq<char>, Seq<char>)| ne.contains(e) <==> (es.contains(e) || e == (a@, b@)) by {
                if es.contains(e) {
                    let k = choose|k: int| 0 <= k < es.len() && es[k] == e;
                    assert(ne[k] == e);
                }
                if e == (a@, b@) {
                    assert(ne[es.len() as int] == e);
                }
                if ne.contains(e) {
                    let k = choose|k: int| 0 <= k < ne.len() && ne[k] == e;
                    if k < es.len() {
                        assert(es[k] == e);
                    }
                }
            }
        }
    }
}

impl DepGraph {
    /// A graph whose only read is `entry`.
    pub fn new(entry: &str) -> (g: DepGraph)
        ensures
            g@.current == entry@,
            g@.edges.len() == 0,
            acyclic(g@.edges),
    {
        let g = DepGraph { current: entry.to_owned(), edges: Vec::new() };
        proof {
            lemma_no_edges_acyclic(g@.edges);
        }
        g
    }

    /// Records that the unit read now reads `path`, which becomes the unit read now.
    /// Reading the current unit again changes nothing; reading a unit that leads back
    /// to the current one is a cycle.
    pub fn record_read(&mut self, path: &str) -> (r: Result<(), DreamError>)
        ensures
            path@ == old(self)@.current ==> r is Ok && final(self)@ == old(self)@,
            path@ != old(self)@.current && reaches(old(self)@.edges, path@, old(self)@.current) ==> {
                &&& final(self)@ == old(self)@
                &&& r matches Err(e) && e@.0 == ErrorKind::Dream
                &&& exists|chain: Seq<Seq<char>>| #[trigger] closes_cycle(old(self)@.edges, old(self)@.current, path@, chain)
                    && r->Err_0@.1 == cycle_message(chain)
            },
            path@ != old(self)@.current && !reaches(old(self)@.edges, path@, old(self)@.current) ==> {
                &&& r is Ok
                &&& final(self)@.current == path@
                &&& forall|e: (Seq<char>, Seq<char>)| final(self)@.edges.contains(e) <==> (old(self)@.edges.contains(e) || e == (old(self)@.current, path@))
            },
            read_recorded(old(self)@, final(self)@, path@),
            acyclic(old(self)@.edges) ==> acyclic(final(self)@.edges),
    {
        if same(path, self.current.as_str()) {
            return Ok(());
        }
        match path_between(&self.edges, path, self.current.as_str()) {
            Some(trail) => Err(cycle_error(&self.edges, trail, self.current.as_str(), path)),
            None => {
                let ghost before = self@;
                add_edge(&mut self.edges, self.current.as_str(), path);
                self.current = path.to_owned();
                proof {
                    assert(read_recorded(before, self@, path@));
                    if acyclic(before.edges) {
                        lemma_record_read_keeps_acyclic(before, self@, path@);
                    }
                }
                Ok(())
            },
        }
    }

    /// Whether `unit` has been read in this composition.
    pub fn reached(&self, unit: &str) -> (r: bool)
        ensures
            r == was_read(self@, unit@),
    {
        if same(unit, self.current.as_str()) {
            return true;
        }
        let mut i: usize = 0;
        while i < self.edges.len()
            invariant
                i <= self.edges@.len(),
                unit@ != self.current@,
                forall|k: int| 0 <= k < i ==> (#[trigger] self@.edges[k]).0 != unit@ && self@.edges[k].1 != unit@,
            decreases self.edges@.len() - i,
        {
            assert(self@.edges[i as int] == (self.edges@[i as int].0@, self.edges@[i as int].1@));
            if same(self.edges[i].0.as_str(), unit) || same(self.edges[i].1.as_str(), unit) {
                return true;
            }
            i = i + 1;
        }
        false
    }
}


} // verus!
