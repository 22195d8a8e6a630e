//! Judging a captured build step: its output and whether it failed.

use vstd::prelude::*;

use crate::text::{chars_of, concat, from_chars, has_infix, occurs_at};
use crate::toolchain::outcome::{Outcome, OutcomeView};

verus! {

/// `char::to_ascii_lowercase`.
pub open spec fn lower_char(c: char) -> char {
    if 'A' <= c && c <= 'Z' {
        ((c as u8) + 32) as char
    } else {
        c
    }
}

/// `str::to_ascii_lowercase`.
pub open spec fn ascii_lower(s: Seq<char>) -> Seq<char> {
    s.map_values(|c: char| lower_char(c))
}

/// Whether a step's output reports a warning: `warning:` in any letter case.
pub open spec fn has_warning_spec(text: Seq<char>) -> bool {
    has_infix(ascii_lower(text), "warning:"@)
}

/// Whether the eight characters `s` spell `warning:` with each letter in either case.
pub open spec fn spells_warning(s: Seq<char>) -> bool {
    &&& s.len() == 8
    &&& (s[0] == 'w' || s[0] == 'W')
    &&& (s[1] == 'a' || s[1] == 'A')
    &&& (s[2] == 'r' || s[2] == 'R')
    &&& (s[3] == 'n' || s[3] == 'N')
    &&& (s[4] == 'i' || s[4] == 'I')
    &&& (s[5] == 'n' || s[5] == 'N')
    &&& (s[6] == 'g' || s[6] == 'G')
    &&& s[7] == ':'
}

proof fn lemma_lower_is(c: char, lo: char, up: char)
    requires
        'a' <= lo <= 'z',
        up as int == lo as int - 32,
    ensures
        lower_char(c) == lo <==> (c == lo || c == up),
{
    if 'A' <= c && c <= 'Z' {
        assert((c as u8) as int == c as int);
        assert((((c as u8) + 32) as char) as int == c as int + 32);
    }
}

proof fn lemma_lower_colon(c: char)
    ensures
        lower_char(c) == ':' <==> c == ':',
{
    if 'A' <= c && c <= 'Z' {
        assert((c as u8) as int == c as int);
        assert((((c as u8) + 32) as char) as int == c as int + 32);
    }
}

/// Eight characters lowercase to `warning:` exactly when they spell it in any case.
proof fn lemma_lower_spells(s: Seq<char>)
    requires
        s.len() == 8,
    ensures
        ascii_lower(s) == "warning:"@ <==> spells_warning(s),
{
    reveal_strlit("warning:");
    lemma_lower_is(s[0], 'w', 'W');
    lemma_lower_is(s[1], 'a', 'A');
    lemma_lower_is(s[2], 'r', 'R');
    lemma_lower_is(s[3], 'n', 'N');
    lemma_lower_is(s[4], 'i', 'I');
    lemma_lower_is(s[5], 'n', 'N');
    lemma_lower_is(s[6], 'g', 'G');
    lemma_lower_colon(s[7]);
    let l = ascii_lower(s);
    if spells_warning(s) {
        assert(l =~= "warning:"@);
    }
    if l == "warning:"@ {
        assert(l[0] == 'w' && l[1] == 'a' && l[2] == 'r' && l[3] == 'n');
        assert(l[4] == 'i' && l[5] == 'n' && l[6] == 'g' && l[7] == ':');
    }
}

/// A step's output reports a warning exactly when `warning:` appears in it with its
/// letters in any mix of cases (`warning:`, `Warning:`, `WARNING:`, ...); under
/// `--no-warn` a step that ran cleanly then fails, and it succeeds otherwise.
pub proof fn lemma_warning_in_any_case(step: Seq<char>, success: bool, no_warn: bool, text: Seq<char>)
    ensures
        has_warning_spec(text) <==> exists|i: int| 0 <= i && i + 8 <= text.len() && #[trigger] spells_warning(text.subrange(i, i + 8)),
        success && no_warn ==> (judge_spec(step, success, no_warn, text) is Failed <==> has_warning_spec(text)),
        !success ==> judge_spec(step, success, no_warn, text) == (OutcomeView::Failed { step, diagnostics: text }),
        success && !no_warn ==> judge_spec(step, success, no_warn, text) == OutcomeView::Succeeded,
{
    reveal_strlit("warning:");
    let l = ascii_lower(text);
    if has_warning_spec(text) {
        let i = choose|i: int| #[trigger] occurs_at(l, "warning:"@, i);
        assert(l.subrange(i, i + 8) =~= ascii_lower(text.subrange(i, i + 8)));
        lemma_lower_spells(text.subrange(i, i + 8));
    }
    if exists|i: int| 0 <= i && i + 8 <= text.len() && #[trigger] spells_warning(text.subrange(i, i + 8)) {
        let i = choose|i: int| 0 <= i && i + 8 <= text.len() && #[trigger] spells_warning(text.subrange(i, i + 8));
        assert(l.subrange(i, i + 8) =~= ascii_lower(text.subrange(i, i + 8)));
        lemma_lower_spells(text.subrange(i, i + 8));
        assert(occurs_at(l, "warning:"@, i));
    }
}

/// The lowercase form of `text`.
pub fn to_ascii_lowercase(text: &str) -> (r: String)
    ensures
        r@ == ascii_lower(text@),
{
    let v = chars_of(text);
    let mut out: Vec<char> = Vec::new();
    let mut i: usize = 0;
    while i < v.len()
        invariant
            v@ == text@,
            i <= v@.len(),
            out@ == ascii_lower(text@.take(i as int)),
        decreases v@.len() - i,
    {
        let c = v[i];
        let l = if 'A' <= c && c <= 'Z' {
            ((c as u8) + 32) as char
        } else {
            c
        };
        out.push(l);
        proof {
            assert(out@ =~= ascii_lower(text@.take(i + 1)));
        }
        i = i + 1;
    }
    assert(text@.take(text@.len() as int) =~= text@);
    from_chars(out.as_slice())
}

/// Does the output of a step report a warning?
pub fn has_warning(text: &str) -> (r: bool)
    ensures
        r == has_warning_spec(text@),
{
    let lower = to_ascii_lowercase(text);
    crate::text::contains_text(lower.as_str(), "warning:")
}

/// What a step printed: its standard output, then its standard error.
pub fn diagnostics(stdout: &str, stderr: &str) -> (r: String)
    ensures
        r@ == stdout@ + stderr@,
{
    concat(stdout, stderr)
}

/// The outcome of a captured step that ran: a failure when it exited unsuccessfully,
/// or when warnings are refused and its output reports one.
pub open spec fn judge_spec(step: Seq<char>, success: bool, no_warn: bool, text: Seq<char>) -> OutcomeView {
    if !success || (no_warn && has_warning_spec(text)) {
        OutcomeView::Failed { step, diagnostics: text }
    } else {
        OutcomeView::Succeeded
    }
}

/// Judges a captured step that ran.
pub fn judge_step(step: &'static str, success: bool, no_warn: bool, text: String) -> (r: Outcome)
    ensures
        r@ == judge_spec(step@, success, no_warn, text@),
{
    if !success {
        return Outcome::Failed { step, diagnostics: text };
    }
    if no_warn && has_warning(text.as_str()) {
        return Outcome::Failed { step, diagnostics: text };
    }
    Outcome::Succeeded
}

} // verus!
