//! The `http_request` tool: which requests Dream sends, and how it replies with what
//! came back. Sending is the caller's.

use reqwest::header::{HeaderName, HeaderValue};
use vstd::prelude::*;

use crate::error::{DreamError, ErrorKind};
use crate::text::{concat, concat3, from_chars, same, texts, utf8_text};
use crate::tools::reply::json_string;

verus! {

broadcast use vstd::seq_lib::group_seq_properties;

/// The largest response body Dream hands back, in bytes.
pub const MAX_BODY: usize = 1000000;

// ---------------------------------------------------------------------------
// What the HTTP crates decide
// ---------------------------------------------------------------------------

/// The scheme of `url` as a URL parser reads it, or the parser's message.
pub uninterp spec fn url_scheme(url: Seq<char>) -> Result<Seq<char>, Seq<char>>;

/// `reqwest::Url::parse`, then `Url::scheme`: the scheme of `url`, or the parser's
/// message; named `url_scheme(url)`.
#[verifier::external_body]
fn parse_scheme(url: &str) -> (r: Result<String, String>)
    ensures
        match r {
            Ok(s) => url_scheme(url@) == Ok::<Seq<char>, Seq<char>>(s@),
            Err(m) => url_scheme(url@) == Err::<Seq<char>, Seq<char>>(m@),
        },
{
    match reqwest::Url::parse(url) {
        Ok(parsed) => Ok(parsed.scheme().to_string()),
        Err(err) => Err(err.to_string()),
    }
}

/// The canonical (lowercase) form of a header name, when `name` is a valid one.
pub uninterp spec fn header_name_of(name: Seq<char>) -> Option<Seq<char>>;

/// `HeaderName::from_bytes`, then `HeaderName::as_str`: the canonical name, when
/// `name` is a valid header name; named `header_name_of(name)`.
#[verifier::external_body]
fn header_name(name: &str) -> (r: Option<String>)
    ensures
        match r {
            Some(n) => header_name_of(name@) == Some(n@),
            None => header_name_of(name@) is None,
        },
{
    match HeaderName::from_bytes(name.as_bytes()) {
        Ok(n) => Some(n.as_str().to_string()),
        Err(_) => None,
    }
}

/// A byte a header value may hold: visible or high bytes, space, and tab.
pub open spec fn header_byte(b: u8) -> bool {
    (b >= 32 && b != 127) || b == 9
}

/// Whether `value` can be a header value: every byte of it is allowed.
pub open spec fn header_value_ok(value: Seq<char>) -> bool {
    let bytes = vstd::utf8::encode_utf8(value);
    forall|i: int| 0 <= i < bytes.len() ==> header_byte(#[trigger] bytes[i])
}

/// `HeaderValue::from_str`: accepts a value exactly when each of its bytes is allowed.
#[verifier::external_body]
fn header_value_valid(value: &str) -> (r: bool)
    ensures
        r == header_value_ok(value@),
{
    HeaderValue::from_str(value).is_ok()
}

/// A character an HTTP method may hold: a letter, a digit, or one of ``!#$%&'*+-.^_`|~``.
pub open spec fn is_tchar(c: char) -> bool {
    ('a' <= c && c <= 'z') || ('A' <= c && c <= 'Z') || ('0' <= c && c <= '9') || c == '!' || c == '#'
        || c == '$' || c == '%' || c == '&' || c == '\'' || c == '*' || c == '+' || c == '-' || c == '.'
        || c == '^' || c == '_' || c == '`' || c == '|' || c == '~'
}

/// Whether `method` is an HTTP method: a token, one or more method characters.
pub open spec fn method_parses(method: Seq<char>) -> bool {
    method.len() > 0 && forall|i: int| 0 <= i < method.len() ==> is_tchar(#[trigger] method[i])
}

/// `reqwest::Method::from_str`: whether `method` parses, which it does exactly when it
/// is a token.
#[verifier::external_body]
fn method_valid(method: &str) -> (r: bool)
    ensures
        r == method_parses(method@),
{
    method.parse::<reqwest::Method>().is_ok()
}

// ---------------------------------------------------------------------------
// The request
// ---------------------------------------------------------------------------

/// A request Dream agreed to send.
#[derive(Debug)]
pub struct RequestPlan {
    pub method: String,
    pub url: String,
    pub body: Option<String>,
    /// Header names in canonical form, with their values, in order.
    pub headers: Vec<(String, String)>,
}

pub type Headers = Seq<(Seq<char>, Seq<char>)>;

pub open spec fn header_views(v: Seq<(String, String)>) -> Headers {
    v.map_values(|h: (String, String)| (h.0@, h.1@))
}

pub open spec fn ticked(s: Seq<char>) -> Seq<char> {
    "`"@ + s + "`"@
}

/// The headers with canonical names, or the refusal of the first bad one.
pub open spec fn headers_spec(hs: Headers) -> Result<Headers, (ErrorKind, Seq<char>)>
    decreases hs.len(),
{
    if hs.len() == 0 {
        Ok(seq![])
    } else {
        match headers_spec(hs.drop_last()) {
            Err(e) => Err(e),
            Ok(done) => match header_name_of(hs.last().0) {
                None => Err((ErrorKind::Runtime, "invalid header name "@ + ticked(hs.last().0))),
                Some(n) => if !header_value_ok(hs.last().1) {
                    Err((ErrorKind::Runtime, "invalid header value for "@ + ticked(n)))
                } else {
                    Ok(done.push((n, hs.last().1)))
                },
            },
        }
    }
}

/// Every header given is kept, in order: the headers pass exactly when each has a valid
/// name and value, and then the i-th checked header is the canonical name of the i-th
/// given one with its value unchanged.
pub proof fn lemma_headers_kept(hs: Headers)
    ensures
        headers_spec(hs) is Ok <==> forall|i: int| 0 <= i < hs.len() ==> header_name_of((#[trigger] hs[i]).0) is Some && header_value_ok(hs[i].1),
        headers_spec(hs) matches Ok(out) ==> {
            &&& out.len() == hs.len()
            &&& forall|i: int| 0 <= i < hs.len() ==> (#[trigger] out[i]) == (header_name_of(hs[i].0)->Some_0, hs[i].1)
        },
    decreases hs.len(),
{
    if hs.len() > 0 {
        let d = hs.drop_last();
        lemma_headers_kept(d);
        let n = hs.len() - 1;
        assert(hs[n] == hs.last());
        assert forall|i: int| 0 <= i < d.len() implies d[i] == hs[i] by {}
        if headers_spec(hs) is Ok {
            let out = headers_spec(hs)->Ok_0;
            let done = headers_spec(d)->Ok_0;
            assert(out == done.push((header_name_of(hs.last().0)->Some_0, hs.last().1)));
            assert forall|i: int| 0 <= i < hs.len() implies (#[trigger] out[i]) == (header_name_of(hs[i].0)->Some_0, hs[i].1) by {
                if i < n {
                    assert(out[i] == done[i]);
                    assert(d[i] == hs[i]);
                }
            }
            assert forall|i: int| 0 <= i < hs.len() implies header_name_of((#[trigger] hs[i]).0) is Some && header_value_ok(hs[i].1) by {
                if i < n {
                    assert(d[i] == hs[i]);
                }
            }
        } else {
            if forall|i: int| 0 <= i < hs.len() ==> header_name_of((#[trigger] hs[i]).0) is Some && header_value_ok(hs[i].1) {
                assert forall|i: int| 0 <= i < d.len() implies header_name_of((#[trigger] d[i]).0) is Some && header_value_ok(d[i].1) by {
                    assert(d[i] == hs[i]);
                }
                assert(header_name_of(hs[n].0) is Some && header_value_ok(hs[n].1));
            }
        }
    }
}

pub open spec fn opt_view(o: Option<&str>) -> Option<Seq<char>> {
    match o {
        Some(s) => Some(s@),
        None => None,
    }
}

/// The request to send, or why not: the URL must parse with an `http` or `https`
/// scheme, each header must be valid, and the method must parse.
pub open spec fn plan_spec(method: Seq<char>, url: Seq<char>, body: Option<Seq<char>>, headers: Headers) -> Result<(Seq<char>, Seq<char>, Option<Seq<char>>, Headers), (ErrorKind, Seq<char>)> {
    if url.len() == 0 {
        Err((ErrorKind::Runtime, "url is empty"@))
    } else {
        match url_scheme(url) {
            Err(m) => Err((ErrorKind::Runtime, m)),
            Ok(scheme) => if scheme != "http"@ && scheme != "https"@ {
                Err((ErrorKind::Runtime, "url must be http or https"@))
            } else {
                match headers_spec(headers) {
                    Err(e) => Err(e),
                    Ok(hs) => if !method_parses(method) {
                        Err((ErrorKind::Runtime, "unknown method "@ + ticked(method)))
                    } else {
                        Ok((method, url, body, hs))
                    },
                }
            },
        }
    }
}

/// A request that goes ahead carries every header it was given, in order: the i-th is
/// the canonical name of the i-th given header with its value unchanged.
pub proof fn lemma_plan_keeps_headers(method: Seq<char>, url: Seq<char>, body: Option<Seq<char>>, hs: Headers)
    ensures
        plan_spec(method, url, body, hs) matches Ok(p) ==> {
            &&& p.0 == method
            &&& p.1 == url
            &&& p.2 == body
            &&& p.3.len() == hs.len()
            &&& forall|i: int| 0 <= i < hs.len() ==> (#[trigger] p.3[i]) == (header_name_of(hs[i].0)->Some_0, hs[i].1)
        },
{
    lemma_headers_kept(hs);
}

pub open spec fn plan_view(r: Result<RequestPlan, DreamError>) -> Result<(Seq<char>, Seq<char>, Option<Seq<char>>, Headers), (ErrorKind, Seq<char>)> {
    match r {
        Ok(p) => Ok((p.method@, p.url@, match p.body { Some(b) => Some(b@), None => None }, header_views(p.headers@))),
        Err(e) => Err(e@),
    }
}

fn tick(s: &str) -> (r: String)
    ensures
        r@ == ticked(s@),
{
    concat3("`", s, "`")
}

proof fn lemma_headers_err_extends(hs: Headers, k: int)
    requires
        0 <= k <= hs.len(),
        headers_spec(hs.take(k)) is Err,
    ensures
        headers_spec(hs) == headers_spec(hs.take(k)),
    decreases hs.len() - k,
{
    if k < hs.len() {
        assert(hs.take(k + 1).drop_last() =~= hs.take(k));
        lemma_headers_err_extends(hs, k + 1);
    } else {
        assert(hs.take(k) =~= hs);
    }
}

fn check_headers(headers: &Vec<(String, String)>) -> (r: Result<Vec<(String, String)>, DreamError>)
    ensures
        match r {
            Ok(v) => headers_spec(header_views(headers@)) == Ok::<Headers, (ErrorKind, Seq<char>)>(header_views(v@)),
            Err(e) => headers_spec(header_views(headers@)) == Err::<Headers, (ErrorKind, Seq<char>)>(e@),
        },
{
    let ghost hv = header_views(headers@);
    let mut out: Vec<(String, String)> = Vec::new();
    let mut i: usize = 0;
    assert(hv.take(0) =~= Seq::<(Seq<char>, Seq<char>)>::empty());
    assert(header_views(out@) =~= Seq::<(Seq<char>, Seq<char>)>::empty());
    while i < headers.len()
        invariant
            i <= headers@.len(),
            hv == header_views(headers@),
            headers_spec(hv.take(i as int)) == Ok::<Headers, (ErrorKind, Seq<char>)>(header_views(out@)),
        decreases headers@.len() - i,
    {
        let ghost t = hv.take(i + 1);
        proof {
            assert(t.drop_last() =~= hv.take(i as int));
            assert(t.last() == (headers@[i as int].0@, headers@[i as int].1@));
        }
        let name = headers[i].0.as_str();
        let value = headers[i].1.as_str();
        let canonical = match header_name(name) {
            Some(n) => n,
            None => {
                proof {
                    lemma_headers_err_extends(hv, i + 1);
                }
                return Err(DreamError::runtime(concat("invalid header name ", tick(name).as_str()).as_str()));
            },
        };
        if !header_value_valid(value) {
            proof {
                lemma_headers_err_extends(hv, i + 1);
            }
            return Err(DreamError::runtime(concat("invalid header value for ", tick(canonical.as_str()).as_str()).as_str()));
        }
        let ghost before = out@;
        out.push((canonical, value.to_owned()));
        proof {
            assert(header_views(out@) =~= header_views(before).push((out@.last().0@, value@)));
        }
        i = i + 1;
    }
    assert(hv.take(headers@.len() as int) =~= hv);
    Ok(out)
}

/// Dream sends only `http` and `https` requests: the scheme a URL parsed to must be one
/// of them.
pub fn check_scheme(scheme: &str) -> (r: Result<(), DreamError>)
    ensures
        r is Ok <==> (scheme@ == "http"@ || scheme@ == "https"@),
        r matches Err(e) ==> e@ == (ErrorKind::Runtime, "url must be http or https"@),
{
    if !same(scheme, "http") && !same(scheme, "https") {
        return Err(DreamError::runtime("url must be http or https"));
    }
    Ok(())
}

/// The request to send for an `http_request` call, or why Dream refuses it.
pub fn plan_request(method: &str, url: &str, body: Option<&str>, headers: &Vec<(String, String)>) -> (r: Result<RequestPlan, DreamError>)
    ensures
        plan_view(r) == plan_spec(method@, url@, opt_view(body), header_views(headers@)),
{
    if url.unicode_len() == 0 {
        return Err(DreamError::runtime("url is empty"));
    }
    let scheme = match parse_scheme(url) {
        Ok(s) => s,
        Err(m) => return Err(DreamError::runtime(m.as_str())),
    };
    check_scheme(scheme.as_str())?;
    let checked = check_headers(headers)?;
    if !method_valid(method) {
        return Err(DreamError::runtime(concat("unknown method ", tick(method).as_str()).as_str()));
    }
    Ok(RequestPlan {
        method: method.to_owned(),
        url: url.to_owned(),
        body: match body {
            Some(b) => Some(b.to_owned()),
            None => None,
        },
        headers: checked,
    })
}

// ---------------------------------------------------------------------------
// The reply
// ---------------------------------------------------------------------------

/// The decimal digits of `n`.
pub open spec fn decimal(n: nat) -> Seq<char>
    decreases n,
{
    if n < 10 {
        seq![digit(n)]
    } else {
        decimal(n / 10) + seq![digit(n % 10)]
    }
}

pub open spec fn digit(n: nat) -> char {
    (48 + n) as char
}

fn decimal_exec(n: u16) -> (r: String)
    ensures
        r@ == decimal(n as nat),
{
    let mut digits: Vec<char> = Vec::new();
    let mut m: u16 = n;
    let ghost mut rest: Seq<char> = seq![];
    loop
        invariant_except_break
            decimal(n as nat) == decimal(m as nat) + rest,
        invariant
            m <= n,
            digits@.reverse() == rest,
        ensures
            decimal(n as nat) == rest,
        decreases m,
    {
        let d = m % 10;
        let c = digit_exec(d);
        proof {
            if m >= 10 {
                assert(decimal(m as nat) == decimal((m / 10) as nat) + seq![digit((m % 10) as nat)]);
            }
        }
        let ghost before = digits@;
        digits.push(c);
        proof {
            assert(digits@.reverse() =~= seq![c] + before.reverse());
            rest = seq![c] + rest;
        }
        if m < 10 {
            assert(decimal(n as nat) =~= rest);
            break;
        }
        proof {
            assert(decimal(n as nat) =~= decimal((m / 10) as nat) + rest);
        }
        m = m / 10;
    }
    let mut out: Vec<char> = Vec::new();
    let mut i: usize = digits.len();
    while i > 0
        invariant
            i <= digits@.len(),
            out@ == digits@.reverse().take(digits@.len() - i),
        decreases i,
    {
        proof {
            assert(digits@.reverse().take(digits@.len() - i + 1) =~= digits@.reverse().take(digits@.len() - i).push(digits@[i - 1]));
        }
        out.push(digits[i - 1]);
        i = i - 1;
    }
    assert(digits@.reverse().take(digits@.len() as int) =~= digits@.reverse());
    from_chars(out.as_slice())
}

fn digit_exec(d: u16) -> (c: char)
    requires
        d < 10,
    ensures
        c == digit(d as nat),
{
    let digits: [char; 10] = ['0', '1', '2', '3', '4', '5', '6', '7', '8', '9'];
    let c = digits[d as usize];
    proof {
        assert(d == 0 || d == 1 || d == 2 || d == 3 || d == 4 || d == 5 || d == 6 || d == 7 || d == 8 || d == 9);
    }
    c
}

/// The text of `{"error":message,"ok":false}`.
pub open spec fn failure_text(message: Seq<char>) -> Seq<char> {
    "{\"error\":"@ + json_string(message) + ",\"ok\":false}"@
}

/// The reply when sending failed, or what came back cannot be handed over.
pub fn failure(message: &str) -> (r: String)
    ensures
        r@ == failure_text(message@),
{
    concat3("{\"error\":", crate::tools::reply::json_quote(message).as_str(), ",\"ok\":false}")
}

/// The JSON array of the headers, each `{"name":..,"value":..}`.
pub open spec fn headers_text(hs: Headers) -> Seq<char> {
    "["@ + header_items(hs) + "]"@
}

pub open spec fn header_items(hs: Headers) -> Seq<char>
    decreases hs.len(),
{
    if hs.len() == 0 {
        seq![]
    } else {
        let item = "{\"name\":"@ + json_string(hs.last().0) + ",\"value\":"@ + json_string(hs.last().1) + "}"@;
        if hs.len() == 1 {
            item
        } else {
            header_items(hs.drop_last()) + ","@ + item
        }
    }
}

/// The reply to a response that came back: too large a body or a body that is not
/// UTF-8 is a failure; else the status, headers and body.
pub open spec fn response_text(status: u16, headers: Headers, body: Seq<u8>) -> Seq<char> {
    if body.len() > MAX_BODY {
        failure_text("response body is too large"@)
    } else if !vstd::utf8::valid_utf8(body) {
        failure_text("response is not UTF-8"@)
    } else {
        let text = vstd::utf8::decode_utf8(body);
        "{\"body\":"@ + json_string(text) + ",\"headers\":"@ + headers_text(headers) + ",\"ok\":true,\"status\":"@ + decimal(status as nat) + "}"@
    }
}

fn headers_json(headers: &Vec<(String, String)>) -> (r: String)
    ensures
        r@ == headers_text(header_views(headers@)),
{
    let ghost hv = header_views(headers@);
    let mut items = String::new();
    let mut i: usize = 0;
    while i < headers.len()
        invariant
            i <= headers@.len(),
            hv == header_views(headers@),
            items@ == header_items(hv.take(i as int)),
        decreases headers@.len() - i,
    {
        proof {
            assert(hv.take(i + 1).drop_last() =~= hv.take(i as int));
            assert(hv.take(i + 1).last() == (headers@[i as int].0@, headers@[i as int].1@));
        }
        if i > 0 {
            items.append(",");
        }
        items.append("{\"name\":");
        items.append(crate::tools::reply::json_quote(headers[i].0.as_str()).as_str());
        items.append(",\"value\":");
        items.append(crate::tools::reply::json_quote(headers[i].1.as_str()).as_str());
        items.append("}");
        i = i + 1;
    }
    assert(hv.take(headers@.len() as int) =~= hv);
    concat3("[", items.as_str(), "]")
}

/// The reply to a response with `status`, `headers` (as text) and `body`.
pub fn response_reply(status: u16, headers: &Vec<(String, String)>, body: Vec<u8>) -> (r: String)
    ensures
        r@ == response_text(status, header_views(headers@), body@),
{
    if body.len() > MAX_BODY {
        return failure("response body is too large");
    }
    let ghost bytes = body@;
    let text = match utf8_text(body) {
        Some(t) => t,
        None => return failure("response is not UTF-8"),
    };
    proof {
        vstd::utf8::encode_utf8_decode_utf8(text@);
    }
    let mut out = String::new();
    out.append("{\"body\":");
    out.append(crate::tools::reply::json_quote(text.as_str()).as_str());
    out.append(",\"headers\":");
    out.append(headers_json(headers).as_str());
    out.append(",\"ok\":true,\"status\":");
    out.append(decimal_exec(status).as_str());
    out.append("}");
    out
}

} // verus!
