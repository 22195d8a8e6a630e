//! Tool replies: the JSON text a tool hands back to the model.

use vstd::prelude::*;

use crate::error::DreamError;
use crate::text::concat3;

verus! {

/// A lowercase hexadecimal digit.
pub open spec fn hex_lower(n: int) -> char {
    if n < 10 {
        (48 + n) as char
    } else {
        (87 + n) as char
    }
}

/// How JSON writes the character `c` inside a string: `"` and `\` behind a backslash,
/// backspace, tab, newline, form feed and carriage return by their short escapes, other
/// control characters as `\u00` and two lowercase hex digits, anything else as itself.
pub open spec fn json_escape(c: char) -> Seq<char> {
    if c == '"' {
        seq!['\\', '"']
    } else if c == '\\' {
        seq!['\\', '\\']
    } else if c == '\u{8}' {
        seq!['\\', 'b']
    } else if c == '\t' {
        seq!['\\', 't']
    } else if c == '\n' {
        seq!['\\', 'n']
    } else if c == '\u{c}' {
        seq!['\\', 'f']
    } else if c == '\r' {
        seq!['\\', 'r']
    } else if (c as int) < 0x20 {
        seq!['\\', 'u', '0', '0', hex_lower((c as int) / 16), hex_lower((c as int) % 16)]
    } else {
        seq![c]
    }
}

/// The characters of `s`, each as JSON writes it inside a string.
pub open spec fn json_escaped(s: Seq<char>) -> Seq<char>
    decreases s.len(),
{
    if s.len() == 0 {
        seq![]
    } else {
        json_escaped(s.drop_last()) + json_escape(s.last())
    }
}

/// The JSON text of the string `s`: between two quotes, each character escaped as JSON
/// needs.
pub open spec fn json_string(s: Seq<char>) -> Seq<char> {
    seq!['"'] + json_escaped(s) + seq!['"']
}

/// Whether `s` has nothing that JSON escapes.
pub open spec fn json_plain(s: Seq<char>) -> bool {
    forall|i: int| 0 <= i < s.len() ==> s[i] != '"' && s[i] != '\\' && (s[i] as int) >= 0x20
}

proof fn lemma_json_escaped_plain(s: Seq<char>)
    requires
        json_plain(s),
    ensures
        json_escaped(s) == s,
    decreases s.len(),
{
    if s.len() > 0 {
        let p = s.drop_last();
        assert forall|i: int| 0 <= i < p.len() implies p[i] != '"' && p[i] != '\\' && (p[i] as int) >= 0x20 by {
            assert(p[i] == s[i]);
        }
        lemma_json_escaped_plain(p);
        assert(s[s.len() - 1] == s.last());
        assert(json_escape(s.last()) == seq![s.last()]);
        assert(p.push(s.last()) =~= s);
        assert(json_escaped(s) =~= p + seq![s.last()]);
    }
}

/// Text with nothing to escape comes out of JSON as it went in, between two quotes.
pub proof fn lemma_json_plain(s: Seq<char>)
    requires
        json_plain(s),
    ensures
        json_string(s) == seq!['"'] + s + seq!['"'],
{
    lemma_json_escaped_plain(s);
}

/// `serde_json::to_string` on a `str`: the string as JSON text, quoted and escaped as
/// `json_string` says.
#[verifier::external_body]
pub(crate) fn json_quote(s: &str) -> (r: String)
    ensures
        r@ == json_string(s@),
{
    serde_json::to_string(s).unwrap_or_default()
}

/// The text of `{"ok":false,"warning":message}`.
pub open spec fn warning_text(message: Seq<char>) -> Seq<char> {
    "{\"ok\":false,\"warning\":"@ + json_string(message) + "}"@
}

/// A warning reply: the tool did nothing, for this reason.
pub fn warning(message: &str) -> (r: String)
    ensures
        r@ == warning_text(message@),
{
    concat3("{\"ok\":false,\"warning\":", json_quote(message).as_str(), "}")
}

/// The warning reply for a refusal: its message without the kind.
pub fn refused(err: DreamError) -> (r: String)
    ensures
        r@ == warning_text(err@.1),
{
    warning(err.detail())
}

/// The text of `{"ok":true,"path":path}`.
pub open spec fn done_text(path: Seq<char>) -> Seq<char> {
    "{\"ok\":true,\"path\":"@ + json_string(path) + "}"@
}

/// The reply for a file written or removed at `path`.
pub fn done(path: &str) -> (r: String)
    ensures
        r@ == done_text(path@),
{
    concat3("{\"ok\":true,\"path\":", json_quote(path).as_str(), "}")
}

} // verus!
