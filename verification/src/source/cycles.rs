//! The reads of a composition never form a cycle.

use vstd::prelude::*;

use crate::source::graph::{is_walk, reaches, Edges};

verus! {

/// Step `j` of a walk.
pub open spec fn step(w: Seq<Seq<char>>, j: int) -> (Seq<char>, Seq<char>) {
    (w[j], w[j + 1])
}

/// `es2` holds the edges of `es` and the edge `c -> p`, and nothing else.
pub open spec fn adds_edge(es: Edges, es2: Edges, c: Seq<char>, p: Seq<char>) -> bool {
    forall|e: (Seq<char>, Seq<char>)| #[trigger] es2.contains(e) <==> (es.contains(e) || e == (c, p))
}


/// No unit reaches itself through reads.
pub open spec fn acyclic(es: Edges) -> bool {
    forall|n: Seq<char>| !reaches(es, n, n)
}

/// A walk from `p` to `c` through `es` plus the edge `c -> p` gives one through `es` alone.
proof fn lemma_walk_without_new_edge(es: Edges, es2: Edges, c: Seq<char>, p: Seq<char>, u: Seq<Seq<char>>)
    requires
        adds_edge(es, es2, c, p),
        p != c,
        u.len() >= 2,
        u[0] == p,
        u.last() == c,
        is_walk(es2, u),
    ensures
        reaches(es, p, c),
    decreases u.len(),
{
    if exists|j: int| 0 <= j < u.len() - 1 && #[trigger] step(u, j) == (c, p) {
        let j = choose|j: int| 0 <= j < u.len() - 1 && #[trigger] step(u, j) == (c, p);
        let v = u.subrange(j + 1, u.len() as int);
        assert(v[0] == p);
        assert(v.last() == c);
        assert(is_walk(es2, v)) by {
            assert forall|i: int| 0 <= i < v.len() - 1 implies #[trigger] es2.contains((v[i], v[i + 1])) by {
                assert(v[i] == u[i + j + 1]);
                assert(v[i + 1] == u[i + j + 2]);
                assert(es2.contains((u[i + j + 1], u[(i + j + 1) + 1])));
            }
        }
        lemma_walk_without_new_edge(es, es2, c, p, v);
    } else {
        assert(is_walk(es, u)) by {
            assert forall|i: int| 0 <= i < u.len() - 1 implies #[trigger] es.contains((u[i], u[i + 1])) by {
                assert(es2.contains((u[i], u[i + 1])));
                assert(step(u, i) != (c, p));
                assert(es.contains((u[i], u[i + 1])));
            }
        }
    }
}

/// Recording a read keeps the reads free of cycles: when `path` does not reach the
/// current unit `current`, adding the read `current -> path` closes no cycle.
pub proof fn lemma_read_keeps_acyclic(es: Edges, es2: Edges, current: Seq<char>, path: Seq<char>)
    requires
        acyclic(es),
        adds_edge(es, es2, current, path),
        path != current,
        !reaches(es, path, current),
    ensures
        acyclic(es2),
{
    assert forall|n: Seq<char>| !reaches(es2, n, n) by {
        if reaches(es2, n, n) {
            let w = choose|w: Seq<Seq<char>>| w.len() >= 2 && w[0] == n && w.last() == n && #[trigger] is_walk(es2, w);
            if exists|k: int| 0 <= k < w.len() - 1 && #[trigger] step(w, k) == (current, path) {
                let k = choose|k: int| 0 <= k < w.len() - 1 && #[trigger] step(w, k) == (current, path);
                let a = w.subrange(k + 1, w.len() as int);
                let b = w.subrange(1, k + 1);
                let u = a + b;
                assert(u[0] == path);
                assert(u.last() == current) by {
                    if k == 0 {
                        assert(b.len() == 0);
                        assert(u.last() == w.last());
                    } else {
                        assert(u.last() == b.last());
                    }
                }
                assert(is_walk(es2, u)) by {
                    assert forall|i: int| 0 <= i < u.len() - 1 implies #[trigger] es2.contains((u[i], u[i + 1])) by {
                        if i < a.len() - 1 {
                            assert(u[i] == w[i + k + 1]);
                            assert(u[i + 1] == w[i + k + 2]);
                            assert(es2.contains((w[i + k + 1], w[(i + k + 1) + 1])));
                        } else if i == a.len() - 1 {
                            assert(u[i] == w.last());
                            assert(u[i + 1] == w[1]);
                            assert(es2.contains((w[0], w[1])));
                        } else {
                            let t = i - a.len();
                            assert(u[i] == w[t + 1]);
                            assert(u[i + 1] == w[t + 2]);
                            assert(es2.contains((w[t + 1], w[(t + 1) + 1])));
                        }
                    }
                }
                lemma_walk_without_new_edge(es, es2, current, path, u);
            } else {
                assert(is_walk(es, w)) by {
                    assert forall|i: int| 0 <= i < w.len() - 1 implies #[trigger] es.contains((w[i], w[i + 1])) by {
                        assert(es2.contains((w[i], w[i + 1])));
                        assert(step(w, i) != (current, path));
                    }
                }
                assert(reaches(es, n, n));
            }
        }
    }
}

} // verus!
