//! Character-level helpers over `String` and `&str`, each stated over the text's
//! characters as a `Seq<char>`.

use vstd::prelude::*;

verus! {

broadcast use vstd::seq_lib::group_seq_properties;

// ---------------------------------------------------------------------------
// Building text
// ---------------------------------------------------------------------------

/// `String::from_utf8`: the text whose UTF-8 encoding is `bytes`, if they are valid UTF-8.
#[verifier::external_body]
pub(crate) fn utf8_text(bytes: Vec<u8>) -> (r: Option<String>)
    ensures
        r is Some <==> vstd::utf8::valid_utf8(bytes@),
        r matches Some(s) ==> vstd::utf8::encode_utf8(s@) == bytes@,
{
    String::from_utf8(bytes).ok()
}

/// The characters of `s`, in order.
pub fn chars_of(s: &str) -> (v: Vec<char>)
    ensures
        v@ == s@,
{
    let n = s.unicode_len();
    let mut v: Vec<char> = Vec::new();
    let mut i: usize = 0;
    while i < n
        invariant
            n == s@.len(),
            i <= n,
            v@ == s@.subrange(0, i as int),
        decreases n - i,
    {
        v.push(s.get_char(i));
        i = i + 1;
    }
    v
}

/// `String::push`: appends one character.
#[verifier::external_body]
fn push_char(s: &mut String, c: char)
    ensures
        final(s)@ == old(s)@.push(c),
{
    s.push(c);
}

/// The text whose characters are `v`.
pub fn from_chars(v: &[char]) -> (s: String)
    ensures
        s@ == v@,
{
    let mut s = String::new();
    let mut i: usize = 0;
    while i < v.len()
        invariant
            i <= v@.len(),
            s@ == v@.subrange(0, i as int),
        decreases v@.len() - i,
    {
        push_char(&mut s, v[i]);
        i = i + 1;
    }
    s
}

/// An owned copy of `s`.
pub fn owned(s: &str) -> (r: String)
    ensures
        r@ == s@,
{
    s.to_owned()
}

/// `a` followed by `b`.
pub fn concat(a: &str, b: &str) -> (r: String)
    ensures
        r@ == a@ + b@,
{
    let mut r = a.to_owned();
    r.append(b);
    r
}

/// `a`, `b` and `c`, in that order.
pub fn concat3(a: &str, b: &str, c: &str) -> (r: String)
    ensures
        r@ == a@ + b@ + c@,
{
    let mut r = a.to_owned();
    r.append(b);
    r.append(c);
    r
}

/// The characters of `s` with every character `from` replaced by `to`.
pub open spec fn replace_char(s: Seq<char>, from: char, to: char) -> Seq<char> {
    s.map_values(|c: char| if c == from { to } else { c })
}

/// `str::replace` for one character by one character.
pub fn replace_char_exec(s: &str, from: char, to: char) -> (r: String)
    ensures
        r@ == replace_char(s@, from, to),
{
    let v = chars_of(s);
    let mut out: Vec<char> = Vec::new();
    let mut i: usize = 0;
    while i < v.len()
        invariant
            v@ == s@,
            i <= v@.len(),
            out@ == replace_char(s@.subrange(0, i as int), from, to),
        decreases v@.len() - i,
    {
        let c = v[i];
        out.push(if c == from { to } else { c });
        proof {
            assert(s@.subrange(0, i + 1) =~= s@.subrange(0, i as int).push(c));
        }
        i = i + 1;
    }
    assert(s@.subrange(0, s@.len() as int) =~= s@);
    from_chars(out.as_slice())
}

// ---------------------------------------------------------------------------
// Comparing text
// ---------------------------------------------------------------------------

/// Whether `a` and `b` are the same text.
pub fn same(a: &str, b: &str) -> (r: bool)
    ensures
        r == (a@ == b@),
{
    let n = a.unicode_len();
    let m = b.unicode_len();
    if n != m {
        return false;
    }
    let mut i: usize = 0;
    while i < n
        invariant
            n == a@.len(),
            m == b@.len(),
            n == m,
            i <= n,
            a@.subrange(0, i as int) == b@.subrange(0, i as int),
        decreases n - i,
    {
        if a.get_char(i) != b.get_char(i) {
            assert(a@[i as int] != b@[i as int]);
            return false;
        }
        assert(a@.subrange(0, i + 1) =~= a@.subrange(0, i as int).push(a@[i as int]));
        assert(b@.subrange(0, i + 1) =~= b@.subrange(0, i as int).push(b@[i as int]));
        i = i + 1;
    }
    assert(a@ =~= a@.subrange(0, n as int));
    assert(b@ =~= b@.subrange(0, n as int));
    true
}

/// Whether `s` begins with `prefix`.
pub open spec fn has_prefix(s: Seq<char>, prefix: Seq<char>) -> bool {
    prefix.len() <= s.len() && s.subrange(0, prefix.len() as int) == prefix
}

/// Whether `needle` occurs in `s` at position `i`.
pub open spec fn occurs_at(s: Seq<char>, needle: Seq<char>, i: int) -> bool {
    0 <= i && i + needle.len() <= s.len() && s.subrange(i, i + needle.len()) == needle
}

/// Whether `needle` occurs anywhere in `s`.
pub open spec fn has_infix(s: Seq<char>, needle: Seq<char>) -> bool {
    exists|i: int| #[trigger] occurs_at(s, needle, i)
}

/// Whether `needle` occurs in the characters `v` at position `i`.
fn occurs_at_exec(v: &Vec<char>, needle: &Vec<char>, i: usize) -> (r: bool)
    requires
        i + needle@.len() <= v@.len(),
    ensures
        r == occurs_at(v@, needle@, i as int),
{
    let _n = v.len();
    let mut k: usize = 0;
    while k < needle.len()
        invariant
            i + needle@.len() <= v@.len(),
            _n == v@.len(),
            k <= needle@.len(),
            v@.subrange(i as int, i + k) == needle@.subrange(0, k as int),
        decreases needle@.len() - k,
    {
        if v[i + k] != needle[k] {
            assert(v@.subrange(i as int, i + needle@.len())[k as int] != needle@[k as int]);
            return false;
        }
        assert(v@.subrange(i as int, i + k + 1) =~= v@.subrange(i as int, i + k).push(v@[i + k]));
        assert(needle@.subrange(0, k + 1) =~= needle@.subrange(0, k as int).push(needle@[k as int]));
        k = k + 1;
    }
    assert(needle@.subrange(0, needle@.len() as int) =~= needle@);
    true
}

/// `str::starts_with` for a text pattern.
pub fn starts_with(s: &str, prefix: &str) -> (r: bool)
    ensures
        r == has_prefix(s@, prefix@),
{
    let v = chars_of(s);
    let p = chars_of(prefix);
    if p.len() > v.len() {
        return false;
    }
    let r = occurs_at_exec(&v, &p, 0);
    r
}

/// `str::contains` for a text pattern.
pub fn contains_text(s: &str, needle: &str) -> (r: bool)
    ensures
        r == has_infix(s@, needle@),
{
    let v = chars_of(s);
    let p = chars_of(needle);
    if p.len() > v.len() {
        assert forall|i: int| !occurs_at(s@, needle@, i) by {}
        return false;
    }
    if p.len() == 0 {
        assert(s@.subrange(0, 0) =~= needle@);
        assert(occurs_at(s@, needle@, 0));
        return true;
    }
    let end = v.len() - p.len() + 1;
    let mut i: usize = 0;
    while i < end
        invariant
            v@ == s@,
            p@ == needle@,
            end + p@.len() == v@.len() + 1,
            i <= end,
            forall|j: int| 0 <= j < i ==> !#[trigger] occurs_at(s@, needle@, j),
        decreases end - i,
    {
        if occurs_at_exec(&v, &p, i) {
            return true;
        }
        i = i + 1;
    }
    assert forall|j: int| !#[trigger] occurs_at(s@, needle@, j) by {
        if 0 <= j < end {
            assert(j < i);
        }
    }
    false
}

/// `s` with every occurrence of the non-empty `pat`, scanning left to right, replaced by
/// `rep`.
pub open spec fn replace_all(s: Seq<char>, pat: Seq<char>, rep: Seq<char>) -> Seq<char>
    recommends
        pat.len() > 0,
    decreases s.len(),
{
    if s.len() == 0 || pat.len() == 0 {
        s
    } else if has_prefix(s, pat) {
        rep + replace_all(s.skip(pat.len() as int), pat, rep)
    } else {
        seq![s[0]] + replace_all(s.drop_first(), pat, rep)
    }
}

/// `str::replace` for a non-empty pattern.
pub fn replace_text(s: &str, pat: &str, rep: &str) -> (r: String)
    requires
        pat@.len() > 0,
    ensures
        r@ == replace_all(s@, pat@, rep@),
{
    let v = chars_of(s);
    let p = chars_of(pat);
    let rv = chars_of(rep);
    let mut out: Vec<char> = Vec::new();
    let mut i: usize = 0;
    while i < v.len()
        invariant
            v@ == s@,
            p@ == pat@,
            rv@ == rep@,
            p@.len() > 0,
            i <= v@.len(),
            out@ + replace_all(s@.skip(i as int), pat@, rep@) == replace_all(s@, pat@, rep@),
        decreases v@.len() - i,
    {
        let ghost rest = s@.skip(i as int);
        if p.len() <= v.len() - i && occurs_at_exec(&v, &p, i) {
            proof {
                assert(rest.subrange(0, p@.len() as int) =~= v@.subrange(i as int, i + p@.len()));
                assert(has_prefix(rest, pat@));
                assert(rest.skip(pat@.len() as int) =~= s@.skip(i + p@.len()));
            }
            let mut j: usize = 0;
            let ghost base = out@;
            while j < rv.len()
                invariant
                    j <= rv@.len(),
                    out@ == base + rv@.subrange(0, j as int),
                decreases rv@.len() - j,
            {
                out.push(rv[j]);
                proof {
                    assert(rv@.subrange(0, j + 1) =~= rv@.subrange(0, j as int).push(rv@[j as int]));
                }
                j = j + 1;
            }
            proof {
                assert(rv@.subrange(0, rv@.len() as int) =~= rv@);
                assert(out@ + replace_all(s@.skip(i + p@.len()), pat@, rep@) =~= base + (rep@ + replace_all(rest.skip(pat@.len() as int), pat@, rep@)));
            }
            i = i + p.len();
        } else {
            proof {
                if has_prefix(rest, pat@) {
                    assert(rest.subrange(0, p@.len() as int) =~= v@.subrange(i as int, i + p@.len()));
                }
                assert(!has_prefix(rest, pat@));
                assert(rest.drop_first() =~= s@.skip(i + 1));
            }
            let ghost base = out@;
            out.push(v[i]);
            proof {
                assert(out@ + replace_all(s@.skip(i + 1), pat@, rep@) =~= base + (seq![rest[0]] + replace_all(rest.drop_first(), pat@, rep@)));
            }
            i = i + 1;
        }
    }
    proof {
        assert(s@.skip(i as int) =~= Seq::<char>::empty());
        assert(out@ + Seq::<char>::empty() =~= out@);
    }
    from_chars(out.as_slice())
}

// ---------------------------------------------------------------------------
// Lexicographic order
// ---------------------------------------------------------------------------

/// `a` sorts at or before `b`, comparing characters by code point. For Rust's `String`
/// this is the order of `Ord`, since UTF-8 keeps code point order byte by byte.
pub open spec fn lex_le(a: Seq<char>, b: Seq<char>) -> bool
    decreases a.len(),
{
    if a.len() == 0 {
        true
    } else if b.len() == 0 {
        false
    } else if a[0] != b[0] {
        a[0] < b[0]
    } else {
        lex_le(a.drop_first(), b.drop_first())
    }
}

/// `a` sorts strictly before `b`.
pub open spec fn lex_lt(a: Seq<char>, b: Seq<char>) -> bool {
    lex_le(a, b) && a != b
}

pub proof fn lemma_lex_le_refl(a: Seq<char>)
    ensures
        lex_le(a, a),
    decreases a.len(),
{
    if a.len() > 0 {
        lemma_lex_le_refl(a.drop_first());
    }
}

pub proof fn lemma_lex_le_total(a: Seq<char>, b: Seq<char>)
    ensures
        lex_le(a, b) || lex_le(b, a),
    decreases a.len(),
{
    if a.len() > 0 && b.len() > 0 && a[0] == b[0] {
        lemma_lex_le_total(a.drop_first(), b.drop_first());
    }
}

pub proof fn lemma_lex_le_antisym(a: Seq<char>, b: Seq<char>)
    requires
        lex_le(a, b),
        lex_le(b, a),
    ensures
        a == b,
    decreases a.len(),
{
    if a.len() == 0 {
        assert(b.len() == 0);
        assert(a =~= b);
    } else {
        assert(b.len() > 0);
        if a[0] == b[0] {
            lemma_lex_le_antisym(a.drop_first(), b.drop_first());
            assert(a =~= seq![a[0]] + a.drop_first());
            assert(b =~= seq![b[0]] + b.drop_first());
        } else {
            assert(false);
        }
    }
}

pub proof fn lemma_lex_le_trans(a: Seq<char>, b: Seq<char>, c: Seq<char>)
    requires
        lex_le(a, b),
        lex_le(b, c),
    ensures
        lex_le(a, c),
    decreases a.len(),
{
    if a.len() > 0 && b.len() > 0 && c.len() > 0 && a[0] == b[0] && b[0] == c[0] {
        lemma_lex_le_trans(a.drop_first(), b.drop_first(), c.drop_first());
    }
}

/// Whether `a` sorts at or before `b`.
pub fn text_le(a: &str, b: &str) -> (r: bool)
    ensures
        r == lex_le(a@, b@),
{
    let n = a.unicode_len();
    let m = b.unicode_len();
    let mut i: usize = 0;
    assert(a@.subrange(0, n as int) =~= a@);
    assert(b@.subrange(0, m as int) =~= b@);
    while i < n && i < m
        invariant
            n == a@.len(),
            m == b@.len(),
            i <= n,
            i <= m,
            a@.subrange(0, i as int) == b@.subrange(0, i as int),
            lex_le(a@, b@) == lex_le(a@.subrange(i as int, n as int), b@.subrange(i as int, m as int)),
        decreases n - i,
    {
        let x = a.get_char(i);
        let y = b.get_char(i);
        assert(a@.subrange(i as int, n as int)[0] == x);
        assert(b@.subrange(i as int, m as int)[0] == y);
        if x != y {
            return x < y;
        }
        assert(a@.subrange(i as int, n as int).drop_first() =~= a@.subrange(i + 1, n as int));
        assert(b@.subrange(i as int, m as int).drop_first() =~= b@.subrange(i + 1, m as int));
        assert(a@.subrange(0, i + 1) =~= a@.subrange(0, i as int).push(x));
        assert(b@.subrange(0, i + 1) =~= b@.subrange(0, i as int).push(y));
        i = i + 1;
    }
    i == n
}

// ---------------------------------------------------------------------------
// Lists of text
// ---------------------------------------------------------------------------

/// The texts of `v`, each as its characters.
pub open spec fn texts(v: Seq<String>) -> Seq<Seq<char>> {
    v.map_values(|s: String| s@)
}

/// Whether a list of texts is in non-decreasing order.
pub open spec fn sorted(s: Seq<Seq<char>>) -> bool {
    forall|i: int, j: int| 0 <= i < j < s.len() ==> lex_le(#[trigger] s[i], #[trigger] s[j])
}

/// Whether a list of texts is in strictly increasing order.
pub open spec fn strictly_sorted(s: Seq<Seq<char>>) -> bool {
    forall|i: int, j: int| 0 <= i < j < s.len() ==> lex_lt(#[trigger] s[i], #[trigger] s[j])
}

/// Whether `s` appears in `v`.
pub fn list_contains(v: &Vec<String>, s: &str) -> (r: bool)
    ensures
        r == texts(v@).contains(s@),
{
    let mut i: usize = 0;
    while i < v.len()
        invariant
            i <= v@.len(),
            forall|j: int| 0 <= j < i ==> v@[j]@ != s@,
        decreases v@.len() - i,
    {
        if same(v[i].as_str(), s) {
            assert(texts(v@)[i as int] == s@);
            return true;
        }
        i = i + 1;
    }
    assert forall|j: int| 0 <= j < texts(v@).len() implies texts(v@)[j] != s@ by {}
    false
}

/// A copy of the list.
pub fn clone_list(v: &Vec<String>) -> (r: Vec<String>)
    ensures
        r@ == v@,
{
    let mut r: Vec<String> = Vec::new();
    let mut i: usize = 0;
    while i < v.len()
        invariant
            i <= v@.len(),
            r@ == v@.subrange(0, i as int),
        decreases v@.len() - i,
    {
        r.push(v[i].clone());
        i = i + 1;
    }
    assert(v@.subrange(0, v@.len() as int) =~= v@);
    r
}

/// Sorts the list in place, as `slice::sort` does for `String`.
pub fn sort_list(v: &mut Vec<String>)
    ensures
        final(v)@.to_multiset() == old(v)@.to_multiset(),
        texts(final(v)@).to_multiset() == texts(old(v)@).to_multiset(),
        sorted(texts(final(v)@)),
{
    let mut out: Vec<String> = Vec::new();
    let ghost orig = v@;
    while v.len() > 0
        invariant
            out@.to_multiset().add(v@.to_multiset()) == orig.to_multiset(),
            texts(out@).to_multiset().add(texts(v@).to_multiset()) == texts(orig).to_multiset(),
            sorted(texts(out@)),
        decreases v@.len(),
    {
        let ghost before_v = v@;
        let x = v.pop().unwrap();
        proof {
            assert(before_v =~= v@.push(x));
            vstd::seq_lib::to_multiset_build(v@, x);
            assert(texts(before_v) =~= texts(v@).push(x@));
            vstd::seq_lib::to_multiset_build(texts(v@), x@);
        }
        let ghost before = out@;
        // place `x` after every element that sorts at or before it
        let mut pos: usize = out.len();
        while pos > 0 && !text_le(out[pos - 1].as_str(), x.as_str())
            invariant
                pos <= out@.len(),
                out@ == before,
                forall|k: int| pos <= k < out@.len() ==> !lex_le(#[trigger] out@[k]@, x@),
            decreases pos,
        {
            pos = pos - 1;
        }
        out.insert(pos, x);
        proof {
            vstd::seq_lib::to_multiset_insert(before, pos as int, x);
            assert(texts(out@) =~= texts(before).insert(pos as int, x@));
            vstd::seq_lib::to_multiset_insert(texts(before), pos as int, x@);
            assert forall|i: int, j: int| 0 <= i < j < out@.len() implies lex_le(
                #[trigger] texts(out@)[i],
                #[trigger] texts(out@)[j],
            ) by {
                let ti = texts(out@)[i];
                let tj = texts(out@)[j];
                if j < pos {
                    assert(ti == texts(before)[i] && tj == texts(before)[j]);
                } else if j == pos {
                    assert(tj == x@);
                    assert(ti == before[i]@);
                    assert(lex_le(before[pos - 1]@, x@));
                    if i < pos - 1 {
                        assert(lex_le(texts(before)[i], texts(before)[pos - 1]));
                        lemma_lex_le_trans(ti, before[pos - 1]@, x@);
                    }
                } else if i > pos {
                    assert(ti == texts(before)[i - 1] && tj == texts(before)[j - 1]);
                } else {
                    // j > pos, i <= pos
                    assert(tj == before[j - 1]@);
                    assert(!lex_le(before[j - 1]@, x@));
                    lemma_lex_le_total(x@, before[j - 1]@);
                    if i == pos {
                        assert(ti == x@);
                    } else {
                        assert(ti == before[i]@);
                        assert(lex_le(before[pos - 1]@, x@));
                        if i < pos - 1 {
                            assert(lex_le(texts(before)[i], texts(before)[pos - 1]));
                            lemma_lex_le_trans(ti, before[pos - 1]@, x@);
                        }
                        lemma_lex_le_trans(ti, x@, tj);
                    }
                }
            }
        }
    }
    *v = out;
}

} // verus!
