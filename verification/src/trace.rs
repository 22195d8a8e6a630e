//! The operator's trace switch and the blocks it prints.

use vstd::prelude::*;

use crate::source::paths::{is_ws, is_ws_exec};
use crate::text::{chars_of, concat3, from_chars};
use crate::toolchain::capture::{ascii_lower, to_ascii_lowercase};

verus! {

broadcast use vstd::seq_lib::group_seq_properties;

/// `str::trim`: `s` without white space at either end.
pub open spec fn trimmed(s: Seq<char>) -> Seq<char>
    decreases s.len(),
{
    if s.len() == 0 {
        s
    } else if is_ws(s[0]) {
        trimmed(s.drop_first())
    } else if is_ws(s.last()) {
        trimmed(s.drop_last())
    } else {
        s
    }
}

/// `str::trim`.
pub fn trim(s: &str) -> (r: String)
    ensures
        r@ == trimmed(s@),
{
    let v = chars_of(s);
    let mut lo: usize = 0;
    let mut hi: usize = v.len();
    assert(v@.subrange(0, v@.len() as int) =~= v@);
    while lo < hi && (is_ws_exec(v[lo]) || is_ws_exec(v[hi - 1]))
        invariant
            lo <= hi <= v@.len(),
            v@ == s@,
            trimmed(s@) == trimmed(v@.subrange(lo as int, hi as int)),
        decreases hi - lo,
    {
        let ghost w = v@.subrange(lo as int, hi as int);
        if is_ws_exec(v[lo]) {
            assert(w.drop_first() =~= v@.subrange(lo + 1, hi as int));
            lo = lo + 1;
        } else {
            assert(w.drop_last() =~= v@.subrange(lo as int, hi - 1));
            assert(w.last() == v@[hi - 1]);
            hi = hi - 1;
        }
    }
    let rest = crate::source::paths::sub_chars(&v, lo, hi);
    proof {
        let w = v@.subrange(lo as int, hi as int);
        assert(rest@ =~= w);
    }
    from_chars(rest.as_slice())
}

/// Whether a `DREAM_TRACE` value turns tracing on: `1`, `true` or `yes`, in any case,
/// with white space around it.
pub open spec fn trace_on(raw: Option<Seq<char>>) -> bool {
    match raw {
        None => false,
        Some(v) => {
            let t = ascii_lower(trimmed(v));
            t == "1"@ || t == "true"@ || t == "yes"@
        },
    }
}

/// Whether the value of `DREAM_TRACE` turns tracing on.
pub fn parse(raw: &Option<String>) -> (r: bool)
    ensures
        r == trace_on(match raw { Some(s) => Some(s@), None => None }),
{
    match raw {
        None => false,
        Some(v) => {
            let t = to_ascii_lowercase(trim(v.as_str()).as_str());
            crate::text::same(t.as_str(), "1") || crate::text::same(t.as_str(), "true") || crate::text::same(t.as_str(), "yes")
        },
    }
}

/// The block a user card prints as.
pub fn user_block(content: &str) -> (r: String)
    ensures
        r@ == "=== user ===\n"@ + content@ + "\n\n"@,
{
    concat3("=== user ===\n", content, "\n\n")
}

} // verus!
