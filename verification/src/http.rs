//! What the server answers with: statuses and headers, which requests may
//! be answered from a cache, and which resource a path below `static` names.

use vstd::prelude::*;
use vstd::string::StringExecFns;
use crate::route::path_segments;
use crate::rpc::{RpcError, rpc_message_of, rpc_status_of};
use crate::text::{
    find_char,
    from_chars,
    index_of,
    joined,
    lemma_find_char,
    opt_view,
    str_eq,
    to_chars,
};

verus! {

/// The kinds of refusal.
#[derive(Clone, Copy, Debug, PartialEq, Eq, Structural)]
pub enum ErrorKind {
    BadRequest,
    Forbidden,
    InternalServerError,
}

/// A refusal: its kind, and what is logged of it.
#[derive(Clone, Debug, PartialEq, Eq)]
pub struct Error {
    pub kind: ErrorKind,
    pub message: String,
}

/// Status, headers and body of an answer.
#[derive(Clone, Debug, PartialEq, Eq)]
pub struct Response {
    pub status: u16,
    pub headers: Vec<(String, String)>,
    pub body: Vec<u8>,
}

/// The views of a list of headers.
pub open spec fn headers_view(v: Seq<(String, String)>) -> Seq<(Seq<char>, Seq<char>)> {
    Seq::new(v.len(), |i: int| (v[i].0@, v[i].1@))
}

/// The status of a kind of refusal.
pub open spec fn error_status(kind: ErrorKind) -> u16 {
    match kind {
        ErrorKind::BadRequest => 400,
        ErrorKind::Forbidden => 403,
        ErrorKind::InternalServerError => 500,
    }
}

/// The words that are sent for a kind of refusal.
pub open spec fn error_words(kind: ErrorKind) -> Seq<char> {
    match kind {
        ErrorKind::BadRequest => "Bad Request"@,
        ErrorKind::Forbidden => "Forbidden"@,
        ErrorKind::InternalServerError => "Internal Server Error"@,
    }
}

/// The headers of a refusal.
pub open spec fn error_headers() -> Seq<(Seq<char>, Seq<char>)> {
    seq![
        ("X-Powered-By"@, "light-letter"@),
        ("cache-control"@, "no-cache, no-store"@),
        ("content-type"@, "text/plain; charset=utf-8"@),
    ]
}

fn header(name: &str, value: &str) -> (r: (String, String))
    ensures
        r.0@ == name@,
        r.1@ == value@,
{
    (name.to_owned(), value.to_owned())
}

impl Error {
    /// A request that cannot be read.
    pub fn bad_request(message: &str) -> (r: Error)
        ensures
            r.kind == ErrorKind::BadRequest,
            r.message@ == message@,
    {
        Error { kind: ErrorKind::BadRequest, message: message.to_owned() }
    }

    /// A request that is not allowed.
    pub fn forbidden(message: &str) -> (r: Error)
        ensures
            r.kind == ErrorKind::Forbidden,
            r.message@ == message@,
    {
        Error { kind: ErrorKind::Forbidden, message: message.to_owned() }
    }

    /// A failure of the server.
    pub fn internal_server_error(message: &str) -> (r: Error)
        ensures
            r.kind == ErrorKind::InternalServerError,
            r.message@ == message@,
    {
        Error { kind: ErrorKind::InternalServerError, message: message.to_owned() }
    }

    /// The answer that tells of this refusal: 400, 403 or 500 by its kind,
    /// never cached, with the kind's words as a plain text; the message is
    /// kept for the log.
    pub fn response(&self) -> (r: Response)
        ensures
            r.status == error_status(self.kind),
            headers_view(r.headers@) == error_headers(),
            r.body@ == vstd::utf8::encode_utf8(error_words(self.kind)),
    {
        let (status, words) = match self.kind {
            ErrorKind::BadRequest => (400u16, "Bad Request"),
            ErrorKind::Forbidden => (403u16, "Forbidden"),
            ErrorKind::InternalServerError => (500u16, "Internal Server Error"),
        };
        let mut headers: Vec<(String, String)> = Vec::new();
        headers.push(header("X-Powered-By", "light-letter"));
        headers.push(header("cache-control", "no-cache, no-store"));
        headers.push(header("content-type", "text/plain; charset=utf-8"));
        assert(headers_view(headers@) =~= error_headers());
        Response { status, headers, body: vstd::slice::slice_to_vec(words.as_bytes()) }
    }
}

/// The headers that every answer but a refusal begins with.
pub open spec fn common_headers() -> Seq<(Seq<char>, Seq<char>)> {
    seq![("X-Powered-By"@, "light-letter"@), ("vary"@, "Accept-Encoding,Cookie"@)]
}

/// The headers of an answer that must not be cached, with its content type.
pub open spec fn uncached_headers(content_type: Seq<char>) -> Seq<(Seq<char>, Seq<char>)> {
    common_headers() + seq![
        ("cache-control"@, "no-cache, no-store"@),
        ("content-type"@, content_type),
    ]
}

fn uncached(status: u16, content_type: &str, body: Vec<u8>) -> (r: Response)
    ensures
        r.status == status,
        headers_view(r.headers@) == uncached_headers(content_type@),
        r.body@ == body@,
{
    let mut headers: Vec<(String, String)> = Vec::new();
    headers.push(header("X-Powered-By", "light-letter"));
    headers.push(header("vary", "Accept-Encoding,Cookie"));
    headers.push(header("cache-control", "no-cache, no-store"));
    headers.push(header("content-type", content_type));
    assert(headers_view(headers@) =~= uncached_headers(content_type@));
    Response { status, headers, body }
}

/// The answer for a failure of the server: 500, with the message as a plain text.
pub fn internal_server_error(message: &str) -> (r: Response)
    ensures
        r.status == 500,
        headers_view(r.headers@) == uncached_headers("text/plain; charset=utf-8"@),
        r.body@ == vstd::utf8::encode_utf8(message@),
{
    uncached(500, "text/plain; charset=utf-8", vstd::slice::slice_to_vec(message.as_bytes()))
}

/// The answer where nothing was found: 404.
pub fn not_found() -> (r: Response)
    ensures
        r.status == 404,
        headers_view(r.headers@) == uncached_headers("text/plain; charset=utf-8"@),
        r.body@ == vstd::utf8::encode_utf8("Not Found"@),
{
    uncached(404, "text/plain; charset=utf-8", vstd::slice::slice_to_vec("Not Found".as_bytes()))
}

/// The answer with a document: 200.
pub fn html_ok(body: Vec<u8>) -> (r: Response)
    ensures
        r.status == 200,
        headers_view(r.headers@) == uncached_headers("text/html; charset=utf-8"@),
        r.body@ == body@,
{
    uncached(200, "text/html; charset=utf-8", body)
}

/// The headers of a redirect.
pub open spec fn redirect_headers(location: Seq<char>) -> Seq<(Seq<char>, Seq<char>)> {
    common_headers() + seq![("cache-control"@, "no-cache, no-store"@), ("location"@, location)]
}

/// The answer that sends a request on to `location`: 302, without a body.
pub fn redirect(location: &str) -> (r: Response)
    ensures
        r.status == 302,
        headers_view(r.headers@) == redirect_headers(location@),
        r.body@.len() == 0,
{
    let mut headers: Vec<(String, String)> = Vec::new();
    headers.push(header("X-Powered-By", "light-letter"));
    headers.push(header("vary", "Accept-Encoding,Cookie"));
    headers.push(header("cache-control", "no-cache, no-store"));
    headers.push(header("location", location));
    assert(headers_view(headers@) =~= redirect_headers(location@));
    Response { status: 302, headers, body: Vec::new() }
}

/// The methods that a resource is read with.
#[derive(Clone, Copy, Debug, PartialEq, Eq, Structural)]
pub enum ReadMethod {
    Get,
    Head,
}

/// The method of a request, where it is one that reads.
pub open spec fn read_method_of(method: Seq<char>) -> Option<ReadMethod> {
    if method == "GET"@ {
        Some(ReadMethod::Get)
    } else if method == "HEAD"@ {
        Some(ReadMethod::Head)
    } else {
        None
    }
}

/// How a resource that may be cached is answered.
#[derive(Clone, Copy, Debug, PartialEq, Eq, Structural)]
pub struct CacheDecision {
    pub status: u16,
    /// Whether the body is left out.
    pub head_only: bool,
}

/// A resource is answered without its body to a HEAD, and to a GET of
/// something that the client has and that has not changed; such an answer
/// has status 304, any other 200. Other methods are not allowed.
pub open spec fn cache_decision_of(method: Seq<char>, unmodified: bool) -> Option<CacheDecision> {
    match read_method_of(method) {
        None => None,
        Some(ReadMethod::Head) => Some(CacheDecision { status: 304, head_only: true }),
        Some(ReadMethod::Get) => if unmodified {
            Some(CacheDecision { status: 304, head_only: true })
        } else {
            Some(CacheDecision { status: 200, head_only: false })
        },
    }
}

/// How a resource that may be cached is answered; for a method that does
/// not read, a refusal.
pub fn cache_decision(method: &str, unmodified: bool) -> (r: Result<CacheDecision, Error>)
    ensures
        match r {
            Ok(d) => cache_decision_of(method@, unmodified) == Some(d),
            Err(e) => cache_decision_of(method@, unmodified) is None && e.kind
                == ErrorKind::Forbidden && e.message@ == "Invalid Method"@,
        },
{
    if str_eq(method, "GET") {
        if unmodified {
            Ok(CacheDecision { status: 304, head_only: true })
        } else {
            Ok(CacheDecision { status: 200, head_only: false })
        }
    } else if str_eq(method, "HEAD") {
        Ok(CacheDecision { status: 304, head_only: true })
    } else {
        Err(Error::forbidden("Invalid Method"))
    }
}

/// The headers of a resource that the client may keep.
pub open spec fn cached_headers(last_modified: Seq<char>, content_type: Seq<char>) -> Seq<
    (Seq<char>, Seq<char>),
> {
    common_headers() + seq![
        ("cache-control"@, "max-age=0"@),
        ("last-modified"@, last_modified),
        ("content-type"@, content_type),
    ]
}

/// The answer with a resource that the client may keep: with the body
/// where the client has to be sent it, without where it has not; a refusal
/// for a method that does not read.
pub fn cache_ok(
    method: &str,
    unmodified: bool,
    last_modified: &str,
    content_type: &str,
    body: Vec<u8>,
) -> (r: Response)
    ensures
        match cache_decision_of(method@, unmodified) {
            Some(d) => r.status == d.status && headers_view(r.headers@) == cached_headers(
                last_modified@,
                content_type@,
            ) && r.body@ == (if d.head_only {
                Seq::<u8>::empty()
            } else {
                body@
            }),
            None => r.status == 403 && headers_view(r.headers@) == error_headers() && r.body@
                == vstd::utf8::encode_utf8("Forbidden"@),
        },
{
    let decision = match cache_decision(method, unmodified) {
        Ok(d) => d,
        Err(e) => {
            return e.response();
        },
    };
    let mut headers: Vec<(String, String)> = Vec::new();
    headers.push(header("X-Powered-By", "light-letter"));
    headers.push(header("vary", "Accept-Encoding,Cookie"));
    headers.push(header("cache-control", "max-age=0"));
    headers.push(header("last-modified", last_modified));
    headers.push(header("content-type", content_type));
    assert(headers_view(headers@) =~= cached_headers(last_modified@, content_type@));
    let body = if decision.head_only {
        Vec::new()
    } else {
        body
    };
    Response { status: decision.status, headers, body }
}

/// Whether a page may be asked for with this method: only with GET.
pub fn page_method_allowed(method: &str) -> (r: Result<(), Error>)
    ensures
        match r {
            Ok(_) => method@ == "GET"@,
            Err(e) => method@ != "GET"@ && e.kind == ErrorKind::Forbidden && e.message@
                == "Invalid Method"@,
        },
{
    if str_eq(method, "GET") {
        Ok(())
    } else {
        Err(Error::forbidden("Invalid Method"))
    }
}

/// Whether a procedure may be called with this method: only with POST.
pub fn rpc_method_allowed(method: &str) -> (r: Result<(), Error>)
    ensures
        match r {
            Ok(_) => method@ == "POST"@,
            Err(e) => method@ != "POST"@ && e.kind == ErrorKind::Forbidden && e.message@
                == "Invalid Method"@,
        },
{
    if str_eq(method, "POST") {
        Ok(())
    } else {
        Err(Error::forbidden("Invalid Method"))
    }
}

/// Whether what the client has, from the second `since`, is still good for
/// a resource that was changed at `modified_secs` seconds and
/// `modified_nanos` nanoseconds: a second of slack is given.
pub open spec fn unmodified_since(since: Option<i64>, modified_secs: i64, modified_nanos: u32) -> bool {
    match since {
        None => false,
        Some(t) => t + 1 > modified_secs || (t + 1 == modified_secs && modified_nanos == 0),
    }
}

/// Whether what the client has is still good. `since` is the time that the
/// client named, in seconds; nothing where it named none that can be read.
pub fn unmodified_at(since: Option<i64>, modified_secs: i64, modified_nanos: u32) -> (r: bool)
    ensures
        r == unmodified_since(since, modified_secs, modified_nanos),
{
    match since {
        None => false,
        Some(t) => {
            if t >= modified_secs {
                true
            } else {
                t == modified_secs - 1 && modified_nanos == 0
            }
        },
    }
}

/// The time that a date of the form of RFC 2822 names, in seconds since
/// the epoch; nothing for a text that is no such date.
pub uninterp spec fn rfc2822_seconds(text: Seq<char>) -> Option<i64>;

/// Calls `chrono::DateTime::parse_from_rfc2822` and takes the seconds of
/// the result. Trusted: the result depends on the text alone.
#[verifier::external_body]
fn parse_rfc2822(text: &str) -> (r: Option<i64>)
    ensures
        r == rfc2822_seconds(text@),
{
    chrono::DateTime::parse_from_rfc2822(text).ok().map(|t| t.timestamp())
}

/// Whether what the client has, by its `If-Modified-Since`, is still good
/// for a resource that was changed at the given time. A header that names
/// no date says nothing of what the client has.
pub fn is_unmodified_since(
    if_modified_since: &str,
    modified_secs: i64,
    modified_nanos: u32,
) -> (r: bool)
    ensures
        r == unmodified_since(rfc2822_seconds(if_modified_since@), modified_secs, modified_nanos),
{
    unmodified_at(parse_rfc2822(if_modified_since), modified_secs, modified_nanos)
}

/// A script, style sheet or module below `static`.
#[derive(Clone, Debug, PartialEq, Eq)]
pub enum StaticResource {
    /// The style sheet of the backstage.
    WebCss,
    /// The script of the backstage.
    WebJs,
    /// The module of the backstage.
    WebWasm,
    /// The style sheet of the theme of this name.
    ThemeCss(String),
    /// The script of the theme of this name.
    ThemeJs(String),
    /// The module of the theme of this name.
    ThemeWasm(String),
    /// Nothing.
    NotFound,
}

pub enum StaticResourceView {
    WebCss,
    WebJs,
    WebWasm,
    ThemeCss(Seq<char>),
    ThemeJs(Seq<char>),
    ThemeWasm(Seq<char>),
    NotFound,
}

impl View for StaticResource {
    type V = StaticResourceView;

    open spec fn view(&self) -> StaticResourceView {
        match self {
            StaticResource::WebCss => StaticResourceView::WebCss,
            StaticResource::WebJs => StaticResourceView::WebJs,
            StaticResource::WebWasm => StaticResourceView::WebWasm,
            StaticResource::ThemeCss(n) => StaticResourceView::ThemeCss(n@),
            StaticResource::ThemeJs(n) => StaticResourceView::ThemeJs(n@),
            StaticResource::ThemeWasm(n) => StaticResourceView::ThemeWasm(n@),
            StaticResource::NotFound => StaticResourceView::NotFound,
        }
    }
}

/// Whether `s` ends with `suffix`.
pub open spec fn ends_with(s: Seq<char>, suffix: Seq<char>) -> bool {
    s.len() >= suffix.len() && s.subrange(s.len() - suffix.len(), s.len() as int) == suffix
}

/// `s` without its last `n` characters.
pub open spec fn without_last(s: Seq<char>, n: int) -> Seq<char> {
    s.subrange(0, s.len() - n)
}

/// The resource that a path below `static` names: one of the three of the
/// backstage by its full name, else one of a theme by its ending.
pub open spec fn static_resource_of(sub_path: Seq<char>) -> StaticResourceView {
    if sub_path == "light_letter_web.css"@ {
        StaticResourceView::WebCss
    } else if sub_path == "light_letter_web.js"@ {
        StaticResourceView::WebJs
    } else if sub_path == "light_letter_web_bg.wasm"@ {
        StaticResourceView::WebWasm
    } else if ends_with(sub_path, ".css"@) {
        StaticResourceView::ThemeCss(without_last(sub_path, 4))
    } else if ends_with(sub_path, ".js"@) {
        StaticResourceView::ThemeJs(without_last(sub_path, 3))
    } else if ends_with(sub_path, "_bg.wasm"@) {
        StaticResourceView::ThemeWasm(without_last(sub_path, 8))
    } else {
        StaticResourceView::NotFound
    }
}

/// `chars` without its last `n` characters, if it ends with `suffix`, which has `n`.
fn strip_suffix(chars: &Vec<char>, suffix: &str, n: usize) -> (r: Option<String>)
    requires
        suffix@.len() == n,
    ensures
        match r {
            Some(s) => ends_with(chars@, suffix@) && s@ == without_last(chars@, n as int),
            None => !ends_with(chars@, suffix@),
        },
{
    if chars.len() < n {
        return None;
    }
    let cut = chars.len() - n;
    let tail = from_chars(chars, cut, chars.len());
    if str_eq(tail.as_str(), suffix) {
        Some(from_chars(chars, 0, cut))
    } else {
        None
    }
}

/// Tells which resource a path below `static` names.
pub fn static_resource(sub_path: &str) -> (r: StaticResource)
    ensures
        r@ == static_resource_of(sub_path@),
{
    if str_eq(sub_path, "light_letter_web.css") {
        return StaticResource::WebCss;
    }
    if str_eq(sub_path, "light_letter_web.js") {
        return StaticResource::WebJs;
    }
    if str_eq(sub_path, "light_letter_web_bg.wasm") {
        return StaticResource::WebWasm;
    }
    let chars = to_chars(sub_path);
    proof {
        reveal_strlit(".css");
        reveal_strlit(".js");
        reveal_strlit("_bg.wasm");
    }
    match strip_suffix(&chars, ".css", 4) {
        Some(name) => {
            return StaticResource::ThemeCss(name);
        },
        None => {},
    }
    match strip_suffix(&chars, ".js", 3) {
        Some(name) => {
            return StaticResource::ThemeJs(name);
        },
        None => {},
    }
    match strip_suffix(&chars, "_bg.wasm", 8) {
        Some(name) => StaticResource::ThemeWasm(name),
        None => StaticResource::NotFound,
    }
}

/// Whether a file of this size and type is sent compressed to a client
/// that takes `gzip`: only text, of at most 4 MiB.
pub fn file_use_gzip(mime_type: Option<&str>, size: u64, accepts_gzip: bool) -> (r: bool)
    ensures
        r == (mime_type is Some && mime_type->0@ == "text"@ && size <= 4 * 1024 * 1024
            && accepts_gzip),
{
    match mime_type {
        Some(t) => str_eq(t, "text") && size <= 4 * 1024 * 1024 && accepts_gzip,
        None => false,
    }
}

/// Whether a path stays below the directory it is joined to: it does not
/// begin at the root, none of its pieces is `..`, and it does not begin
/// with the piece `.`.
pub open spec fn is_plain_path(path: Seq<char>) -> bool {
    &&& (path.len() == 0 || path[0] != '/')
    &&& forall|k: int|
        0 <= k < path_segments(path).len() ==> #[trigger] path_segments(path)[k] != ".."@
    &&& (path_segments(path).len() == 0 || path_segments(path)[0] != "."@)
}

/// Whether a path reads the same on every system: it holds neither a
/// backslash, which parts pieces on some systems, nor a colon, which ends
/// the name of a drive there.
pub open spec fn is_portable_path(path: Seq<char>) -> bool {
    forall|i: int| 0 <= i < path.len() ==> #[trigger] path[i] != '\\' && path[i] != ':'
}

/// Calls `std::path::Path::components` and tells of each component
/// whether it is a normal one. Trusted, of every system: `/` parts pieces,
/// repeated separators and pieces `.` behind the first piece give no
/// component, and a root, a piece `..` and a first piece `.` give a
/// component that is not normal; so a path of normal components only is a
/// plain one. Where a system parts pieces by more than `/`, it does so by a
/// backslash, and a prefix before the root needs a backslash, a colon or a
/// slash in front; so a plain path without backslash and colon has normal
/// components only.
#[verifier::external_body]
fn normal_components(path: &str) -> (r: Vec<bool>)
    ensures
        (forall|i: int| 0 <= i < r@.len() ==> r@[i]) ==> is_plain_path(path@),
        is_plain_path(path@) && is_portable_path(path@) ==> (forall|i: int|
            0 <= i < r@.len() ==> r@[i]),
{
    std::path::Path::new(path).components().map(
        |c| match c {
            std::path::Component::Normal(_) => true,
            _ => false,
        },
    ).collect()
}

/// Whether a file may be served under this path: whether the system reads
/// it as a path of normal components only. A path that is allowed is a
/// plain one, on every system; and a plain path without backslash and colon
/// is allowed, on every system. Of a plain path with one of the two the
/// system decides.
pub fn file_path_allowed(path: &str) -> (r: bool)
    ensures
        r ==> is_plain_path(path@),
        is_plain_path(path@) && is_portable_path(path@) ==> r,
{
    let normal = normal_components(path);
    let ghost all = forall|j: int| 0 <= j < normal@.len() ==> normal@[j];
    let mut i: usize = 0;
    while i < normal.len()
        invariant
            i <= normal.len(),
            forall|j: int| 0 <= j < i ==> normal@[j],
            all == (forall|j: int| 0 <= j < normal@.len() ==> normal@[j]),
            all ==> is_plain_path(path@),
            is_plain_path(path@) && is_portable_path(path@) ==> all,
        decreases normal.len() - i,
    {
        if !normal[i] {
            return false;
        }
        i += 1;
    }
    true
}

/// Whether a character is white space: whether it has the property
/// `White_Space` of Unicode.
pub open spec fn is_white_space(c: char) -> bool {
    ||| ('\u{9}' <= c && c <= '\u{d}')
    ||| c == ' '
    ||| c == '\u{85}'
    ||| c == '\u{a0}'
    ||| c == '\u{1680}'
    ||| ('\u{2000}' <= c && c <= '\u{200a}')
    ||| c == '\u{2028}'
    ||| c == '\u{2029}'
    ||| c == '\u{202f}'
    ||| c == '\u{205f}'
    ||| c == '\u{3000}'
}

/// `char::is_whitespace`. Trusted: the characters with the property
/// `White_Space` are the 25 that `is_white_space` lists.
pub assume_specification[ char::is_whitespace ](c: char) -> (r: bool)
    ensures
        r == is_white_space(c),
;

/// The first place from `from` on at which `s` holds no white space; its length if there is none.
pub open spec fn skip_white(s: Seq<char>, from: int) -> int
    decreases s.len() - from,
{
    if from < 0 || from >= s.len() {
        s.len() as int
    } else if !is_white_space(s[from]) {
        from
    } else {
        skip_white(s, from + 1)
    }
}

/// The end of `s[from..to]` without the white space at its end.
pub open spec fn trim_end(s: Seq<char>, from: int, to: int) -> int
    decreases to - from,
{
    if to <= from || to > s.len() {
        from
    } else if !is_white_space(s[to - 1]) {
        to
    } else {
        trim_end(s, from, to - 1)
    }
}

/// `s` without the white space at its ends.
pub open spec fn trimmed(s: Seq<char>) -> Seq<char> {
    let from = skip_white(s, 0);
    s.subrange(from, trim_end(s, from, s.len() as int))
}

/// The coding that an item of `Accept-Encoding` names: the item without
/// white space at its ends, up to its first `;`.
pub open spec fn coding_of(item: Seq<char>) -> Seq<char> {
    trimmed(item).take(find_char(trimmed(item), ';', 0))
}

/// Whether one of the items of `s[from..]`, which stand between commas, names `gzip`.
pub open spec fn names_gzip_from(s: Seq<char>, from: int) -> bool
    decreases s.len() - from,
    via names_gzip_from_decreases
{
    if from < 0 || from > s.len() {
        false
    } else {
        let to = find_char(s, ',', from);
        coding_of(s.subrange(from, to)) == "gzip"@ || (to < s.len() && names_gzip_from(s, to + 1))
    }
}

#[via_fn]
proof fn names_gzip_from_decreases(s: Seq<char>, from: int) {
    if 0 <= from <= s.len() {
        lemma_find_char(s, ',', from);
    }
}

/// `item` without the white space at its ends.
fn trim(item: &Vec<char>) -> (r: Vec<char>)
    ensures
        r@ == trimmed(item@),
{
    let mut from: usize = 0;
    while from < item.len() && item[from].is_whitespace()
        invariant
            from <= item.len(),
            skip_white(item@, 0) == skip_white(item@, from as int),
        decreases item.len() - from,
    {
        from += 1;
    }
    let mut to: usize = item.len();
    while to > from && item[to - 1].is_whitespace()
        invariant
            from <= to <= item.len(),
            trim_end(item@, from as int, item@.len() as int) == trim_end(
                item@,
                from as int,
                to as int,
            ),
        decreases to - from,
    {
        to -= 1;
    }
    let inner = from_chars(item, from, to);
    to_chars(inner.as_str())
}

/// The coding that an item of `Accept-Encoding` names.
fn coding(item: &Vec<char>) -> (r: String)
    ensures
        r@ == coding_of(item@),
{
    let inner = trim(item);
    let cut = index_of(&inner, ';', 0);
    let r = from_chars(&inner, 0, cut);
    assert(r@ =~= coding_of(item@));
    r
}

/// The coding to answer with, by what the client's `Accept-Encoding`
/// says: `gzip` where one of its items names it, else none.
pub fn parse_accept_encoding(s: &str) -> (r: &'static str)
    ensures
        r@ == (if names_gzip_from(s@, 0) {
            "gzip"@
        } else {
            ""@
        }),
{
    let chars = to_chars(s);
    let mut from: usize = 0;
    loop
        invariant
            chars@ == s@,
            from <= chars.len(),
            names_gzip_from(s@, 0) == names_gzip_from(s@, from as int),
        decreases chars.len() - from,
    {
        let to = index_of(&chars, ',', from);
        let item_text = from_chars(&chars, from, to);
        let item = to_chars(item_text.as_str());
        let name = coding(&item);
        if str_eq(name.as_str(), "gzip") {
            return "gzip";
        }
        if to >= chars.len() {
            return "";
        }
        from = to + 1;
    }
}

/// The answer to a call of a procedure: the response with status 200, or
/// the words of the error as a plain text with the status of its kind.
pub fn rpc_response(result: Result<String, RpcError>) -> (r: Response)
    ensures
        match result {
            Ok(body) => r.status == 200 && headers_view(r.headers@) == uncached_headers(
                "text/html; charset=utf-8"@,
            ) && r.body@ == vstd::utf8::encode_utf8(body@),
            Err(e) => r.status == rpc_status_of(e@) && headers_view(r.headers@)
                == uncached_headers("text/plain; charset=utf-8"@) && r.body@
                == vstd::utf8::encode_utf8(rpc_message_of(e@)),
        },
{
    match result {
        Ok(body) => html_ok(vstd::slice::slice_to_vec(body.as_str().as_bytes())),
        Err(e) => {
            let words = e.to_string();
            uncached(
                e.status(),
                "text/plain; charset=utf-8",
                vstd::slice::slice_to_vec(words.as_str().as_bytes()),
            )
        },
    }
}

/// A file is answered with status 304 where the client has it and it has
/// not changed, else with 200; without its body to a HEAD, and to a GET
/// with status 304. Other methods are not allowed.
pub open spec fn file_decision_of(method: Seq<char>, unmodified: bool) -> Option<CacheDecision> {
    let status: u16 = if unmodified {
        304
    } else {
        200
    };
    match read_method_of(method) {
        None => None,
        Some(ReadMethod::Head) => Some(CacheDecision { status, head_only: true }),
        Some(ReadMethod::Get) => Some(CacheDecision { status, head_only: unmodified }),
    }
}

/// How a file is answered; for a method that does not read, a refusal.
/// `unmodified` says whether the client has the file as it is; it is false
/// where the time of the file's last change is not known.
pub fn file_ok(method: &str, unmodified: bool) -> (r: Result<CacheDecision, Error>)
    ensures
        match r {
            Ok(d) => file_decision_of(method@, unmodified) == Some(d),
            Err(e) => file_decision_of(method@, unmodified) is None && e.kind
                == ErrorKind::Forbidden && e.message@ == "Invalid Method"@,
        },
{
    let status: u16 = if unmodified {
        304
    } else {
        200
    };
    if str_eq(method, "GET") {
        Ok(CacheDecision { status, head_only: unmodified })
    } else if str_eq(method, "HEAD") {
        Ok(CacheDecision { status, head_only: true })
    } else {
        Err(Error::forbidden("Invalid Method"))
    }
}

/// The name of the cookie that carries the id of a session's token.
pub const SESSION_COOKIE: &'static str = "light-letter-session";

/// The value that an item of a `Cookie` header gives the cookie `name`:
/// what stands behind the first `=` of the item, where the item without
/// white space at its ends begins with the name and that `=`.
pub open spec fn cookie_item_value(item: Seq<char>, name: Seq<char>) -> Option<Seq<char>> {
    let t = trimmed(item);
    let cut = find_char(t, '=', 0);
    if cut < t.len() && t.take(cut) == name {
        Some(t.skip(cut + 1))
    } else {
        None
    }
}

/// The value of the first of the items of `s[from..]`, which stand between
/// semicolons, that gives the cookie `name` one.
pub open spec fn cookie_from(s: Seq<char>, name: Seq<char>, from: int) -> Option<Seq<char>>
    decreases s.len() - from,
    via cookie_from_decreases
{
    if from < 0 || from > s.len() {
        None
    } else {
        let to = find_char(s, ';', from);
        match cookie_item_value(s.subrange(from, to), name) {
            Some(v) => Some(v),
            None => if to < s.len() {
                cookie_from(s, name, to + 1)
            } else {
                None
            },
        }
    }
}

#[via_fn]
proof fn cookie_from_decreases(s: Seq<char>, name: Seq<char>, from: int) {
    if 0 <= from <= s.len() {
        lemma_find_char(s, ';', from);
    }
}

/// The value that an item of a `Cookie` header gives the cookie `name`.
fn cookie_value(item: &Vec<char>, name: &str) -> (r: Option<String>)
    ensures
        opt_view(r) == cookie_item_value(item@, name@),
{
    let t = trim(item);
    let cut = index_of(&t, '=', 0);
    if cut >= t.len() {
        return None;
    }
    let key = from_chars(&t, 0, cut);
    assert(key@ =~= t@.take(cut as int));
    if !str_eq(key.as_str(), name) {
        return None;
    }
    let value = from_chars(&t, cut + 1, t.len());
    assert(value@ =~= t@.skip(cut + 1));
    Some(value)
}

/// The id of the session token that a `Cookie` header carries, if it carries one.
pub fn session_cookie(header: &str) -> (r: Option<String>)
    ensures
        opt_view(r) == cookie_from(header@, SESSION_COOKIE@, 0),
{
    let chars = to_chars(header);
    let mut from: usize = 0;
    loop
        invariant
            chars@ == header@,
            from <= chars.len(),
            cookie_from(header@, SESSION_COOKIE@, 0) == cookie_from(
                header@,
                SESSION_COOKIE@,
                from as int,
            ),
        decreases chars.len() - from,
    {
        let to = index_of(&chars, ';', from);
        let item_text = from_chars(&chars, from, to);
        let item = to_chars(item_text.as_str());
        match cookie_value(&item, SESSION_COOKIE) {
            Some(v) => {
                return Some(v);
            },
            None => {},
        }
        if to >= chars.len() {
            return None;
        }
        from = to + 1;
    }
}

/// The `Set-Cookie` header that hands the id of a new token to the client.
pub fn set_session_cookie(id: &str) -> (r: (String, String))
    ensures
        r.0@ == "set-cookie"@,
        r.1@ == SESSION_COOKIE@ + "="@ + id@ + "; Path=/; HttpOnly"@,
{
    let a = joined(SESSION_COOKIE, "=");
    let b = joined(a.as_str(), id);
    let c = joined(b.as_str(), "; Path=/; HttpOnly");
    ("set-cookie".to_owned(), c)
}

/// An answer, as what it holds.
pub struct ResponseView {
    pub status: u16,
    pub headers: Seq<(Seq<char>, Seq<char>)>,
    pub body: Seq<u8>,
}

impl View for Response {
    type V = ResponseView;

    open spec fn view(&self) -> ResponseView {
        ResponseView { status: self.status, headers: headers_view(self.headers@), body: self.body@ }
    }
}

/// The answer that tells of a refusal of the given kind.
pub open spec fn refusal_of(kind: ErrorKind) -> ResponseView {
    ResponseView {
        status: error_status(kind),
        headers: error_headers(),
        body: vstd::utf8::encode_utf8(error_words(kind)),
    }
}

/// The answer where nothing was found.
pub open spec fn not_found_of() -> ResponseView {
    ResponseView {
        status: 404,
        headers: uncached_headers("text/plain; charset=utf-8"@),
        body: vstd::utf8::encode_utf8("Not Found"@),
    }
}

/// The answer with a resource that the client may keep.
pub open spec fn cache_ok_of(
    method: Seq<char>,
    unmodified: bool,
    last_modified: Seq<char>,
    content_type: Seq<char>,
    body: Seq<u8>,
) -> ResponseView {
    match cache_decision_of(method, unmodified) {
        Some(d) => ResponseView {
            status: d.status,
            headers: cached_headers(last_modified, content_type),
            body: if d.head_only {
                Seq::empty()
            } else {
                body
            },
        },
        None => refusal_of(ErrorKind::Forbidden),
    }
}

/// The style sheet, the script and the compiled module of one set of pages.
#[derive(Clone, Debug, PartialEq, Eq)]
pub struct Resource {
    pub mod_name: String,
    pub css: Vec<u8>,
    pub js: Vec<u8>,
    pub wasm: Vec<u8>,
}

pub struct ResourceView {
    pub mod_name: Seq<char>,
    pub css: Seq<u8>,
    pub js: Seq<u8>,
    pub wasm: Seq<u8>,
}

impl View for Resource {
    type V = ResourceView;

    open spec fn view(&self) -> ResourceView {
        ResourceView { mod_name: self.mod_name@, css: self.css@, js: self.js@, wasm: self.wasm@ }
    }
}

/// The views of a list of resources.
pub open spec fn resources_view(v: Seq<Resource>) -> Seq<ResourceView> {
    Seq::new(v.len(), |i: int| v[i]@)
}

/// The first of `resources[from..]` that belongs to the module `name`.
pub open spec fn find_resource(resources: Seq<ResourceView>, name: Seq<char>, from: int) -> Option<
    ResourceView,
>
    decreases resources.len() - from,
{
    if from < 0 || from >= resources.len() {
        None
    } else if resources[from].mod_name == name {
        Some(resources[from])
    } else {
        find_resource(resources, name, from + 1)
    }
}

/// The content type and the bytes that a path below `static` names among
/// the loaded resources: a style sheet is `text/css`, a script
/// `text/javascript`, a compiled module `application/wasm`; those of the
/// backstage are kept under `backstage`. A path that names no resource, or
/// one of a module that is not loaded, names nothing.
pub open spec fn static_content_of(sub_path: Seq<char>, resources: Seq<ResourceView>) -> Option<
    (Seq<char>, Seq<u8>),
> {
    match static_resource_of(sub_path) {
        StaticResourceView::WebCss => match find_resource(resources, "backstage"@, 0) {
            Some(r) => Some(("text/css"@, r.css)),
            None => None,
        },
        StaticResourceView::WebJs => match find_resource(resources, "backstage"@, 0) {
            Some(r) => Some(("text/javascript"@, r.js)),
            None => None,
        },
        StaticResourceView::WebWasm => match find_resource(resources, "backstage"@, 0) {
            Some(r) => Some(("application/wasm"@, r.wasm)),
            None => None,
        },
        StaticResourceView::ThemeCss(name) => match find_resource(resources, name, 0) {
            Some(r) => Some(("text/css"@, r.css)),
            None => None,
        },
        StaticResourceView::ThemeJs(name) => match find_resource(resources, name, 0) {
            Some(r) => Some(("text/javascript"@, r.js)),
            None => None,
        },
        StaticResourceView::ThemeWasm(name) => match find_resource(resources, name, 0) {
            Some(r) => Some(("application/wasm"@, r.wasm)),
            None => None,
        },
        StaticResourceView::NotFound => None,
    }
}

fn lookup_resource<'a>(resources: &'a Vec<Resource>, name: &str) -> (r: Option<&'a Resource>)
    ensures
        match r {
            Some(x) => find_resource(resources_view(resources@), name@, 0) == Some(x@),
            None => find_resource(resources_view(resources@), name@, 0) is None,
        },
{
    let mut i: usize = 0;
    while i < resources.len()
        invariant
            i <= resources.len(),
            find_resource(resources_view(resources@), name@, 0) == find_resource(
                resources_view(resources@),
                name@,
                i as int,
            ),
        decreases resources.len() - i,
    {
        if str_eq(resources[i].mod_name.as_str(), name) {
            return Some(&resources[i]);
        }
        i += 1;
    }
    None
}

/// The part of a resource that a path names.
#[derive(Clone, Copy, Debug, PartialEq, Eq, Structural)]
enum Part {
    Css,
    Js,
    Wasm,
}

/// Bytes compressed as a gzip stream; nothing where compressing fails.
pub uninterp spec fn gzip_of(body: Seq<u8>) -> Option<Seq<u8>>;

/// Calls `flate2::write::GzEncoder::new` with the default compression,
/// writes the bytes to it and finishes it. Trusted: the result depends on
/// the bytes alone; the header that the encoder writes holds neither a time
/// nor the system.
#[verifier::external_body]
fn gzip(body: &[u8]) -> (r: Option<Vec<u8>>)
    ensures
        match r {
            Some(z) => gzip_of(body@) == Some(z@),
            None => gzip_of(body@) is None,
        },
{
    let mut encoder = flate2::write::GzEncoder::new(Vec::new(), flate2::Compression::default());
    std::io::Write::write_all(&mut encoder, body).ok()?;
    encoder.try_finish().ok()?;
    encoder.finish().ok()
}

/// An answer as it is sent to a client with this `Accept-Encoding`: as it
/// is where no item names `gzip`; else with its body compressed and the
/// header that says so behind the others. Where compressing fails, the
/// answer is a failure of the server.
pub open spec fn common_builder_of(accept_encoding: Seq<char>, response: ResponseView) -> ResponseView {
    if !names_gzip_from(accept_encoding, 0) {
        response
    } else {
        match gzip_of(response.body) {
            Some(z) => ResponseView {
                status: response.status,
                headers: response.headers.push(("content-encoding"@, "gzip"@)),
                body: z,
            },
            None => refusal_of(ErrorKind::InternalServerError),
        }
    }
}

/// Makes an answer ready for a client with this `Accept-Encoding`.
pub fn common_builder(accept_encoding: &str, response: Response) -> (r: Response)
    ensures
        r@ == common_builder_of(accept_encoding@, response@),
{
    let coding = parse_accept_encoding(accept_encoding);
    proof {
        reveal_strlit("gzip");
        reveal_strlit("");
        assert("gzip"@.len() == 4);
        assert(""@.len() == 0);
    }
    if !str_eq(coding, "gzip") {
        return response;
    }
    assert(names_gzip_from(accept_encoding@, 0));
    let Response { status, headers, body } = response;
    match gzip(body.as_slice()) {
        Some(z) => {
            let mut headers = headers;
            let ghost before = headers_view(headers@);
            headers.push(header("content-encoding", "gzip"));
            assert(headers_view(headers@) =~= before.push(("content-encoding"@, "gzip"@)));
            Response { status, headers, body: z }
        },
        None => Error::internal_server_error("Cannot compress the answer").response(),
    }
}

/// The first second that a date of the form of RFC 2822 can name: the beginning of the year 0.
pub const FIRST_RFC2822_SECOND: i64 = -62167219200;

/// The last second that a date of the form of RFC 2822 can name: the end of the year 9999.
pub const LAST_RFC2822_SECOND: i64 = 253402300799;

/// A time in seconds since the epoch, written as a date of the form of RFC 2822.
pub uninterp spec fn rfc2822_text(secs: i64) -> Seq<char>;

/// Calls `chrono::DateTime::from_timestamp` and `DateTime::to_rfc2822`.
/// Trusted: the result depends on the time alone. The time is bounded
/// because only the years 0 to 9999 can be written.
#[verifier::external_body]
fn format_rfc2822(secs: i64) -> (r: String)
    requires
        FIRST_RFC2822_SECOND <= secs <= LAST_RFC2822_SECOND,
    ensures
        r@ == rfc2822_text(secs),
{
    chrono::DateTime::from_timestamp(secs, 0).map_or(String::new(), |t| t.to_rfc2822())
}

/// `s` with every `from` turned into `to`: the text is read from the
/// front, and where `from` stands, `to` is written and reading goes on
/// behind it.
pub open spec fn replaced_text(s: Seq<char>, from: Seq<char>, to: Seq<char>) -> Seq<char>
    decreases s.len(),
{
    if from.len() == 0 || s.len() < from.len() {
        s
    } else if s.take(from.len() as int) == from {
        to + replaced_text(s.skip(from.len() as int), from, to)
    } else {
        seq![s[0]] + replaced_text(s.skip(1), from, to)
    }
}

/// Whether `from` stands in `s` at `i`.
fn stands_at(s: &Vec<char>, i: usize, from: &Vec<char>) -> (r: bool)
    requires
        i <= s.len(),
    ensures
        r == (s@.skip(i as int).len() >= from@.len() && s@.skip(i as int).take(
            from@.len() as int,
        ) == from@),
{
    if s.len() - i < from.len() {
        return false;
    }
    let ghost rest = s@.skip(i as int);
    let mut k: usize = 0;
    while k < from.len()
        invariant
            k <= from.len(),
            i + from.len() <= s.len(),
            rest == s@.skip(i as int),
            forall|j: int| 0 <= j < k ==> s@[i + j] == from@[j],
        decreases from.len() - k,
    {
        if s[i + k] != from[k] {
            assert(rest.take(from@.len() as int)[k as int] == s@[i + k]);
            return false;
        }
        k += 1;
    }
    assert(rest.take(from@.len() as int) =~= from@);
    true
}

/// A copy of `s` in which every `from` is `to`.
fn replace_text(s: &str, from: &str, to: &str) -> (r: String)
    requires
        from@.len() > 0,
    ensures
        r@ == replaced_text(s@, from@, to@),
{
    let chars = to_chars(s);
    let pattern = to_chars(from);
    let mut r = String::new();
    let mut i: usize = 0;
    proof {
        assert(chars@.skip(0) =~= chars@);
        assert(r@ + replaced_text(chars@, from@, to@) =~= replaced_text(chars@, from@, to@));
    }
    while i < chars.len()
        invariant
            i <= chars.len(),
            chars@ == s@,
            pattern@ == from@,
            from@.len() > 0,
            replaced_text(s@, from@, to@) == r@ + replaced_text(chars@.skip(i as int), from@, to@),
        decreases chars.len() - i,
    {
        let ghost rest = chars@.skip(i as int);
        let ghost before = r@;
        if stands_at(&chars, i, &pattern) {
            r.append(to);
            proof {
                assert(rest.skip(from@.len() as int) =~= chars@.skip(i + from@.len()));
                assert(before + (to@ + replaced_text(rest.skip(from@.len() as int), from@, to@))
                    =~= (before + to@) + replaced_text(
                    rest.skip(from@.len() as int),
                    from@,
                    to@,
                ));
            }
            i += pattern.len();
        } else {
            r.push(chars[i]);
            proof {
                assert(rest.skip(1) =~= chars@.skip(i + 1));
                if rest.len() < from@.len() {
                    assert(replaced_text(rest.skip(1), from@, to@) == rest.skip(1));
                    assert(rest =~= seq![rest[0]] + rest.skip(1));
                }
                assert(before + (seq![rest[0]] + replaced_text(rest.skip(1), from@, to@)) =~= (
                before.push(rest[0])) + replaced_text(rest.skip(1), from@, to@));
            }
            i += 1;
        }
    }
    proof {
        assert(chars@.skip(i as int) =~= Seq::<char>::empty());
        assert(r@ + Seq::<char>::empty() =~= r@);
    }
    r
}

/// The text of `Last-Modified` for a time: the date of the form of RFC
/// 2822 with the zone written as `GMT`.
pub open spec fn last_modified_of(secs: i64) -> Option<Seq<char>> {
    if FIRST_RFC2822_SECOND <= secs <= LAST_RFC2822_SECOND {
        Some(replaced_text(rfc2822_text(secs), "+0000"@, "GMT"@))
    } else {
        None
    }
}

/// The text of `Last-Modified` for a time in seconds since the epoch;
/// nothing for a time before the year 0 or behind the year 9999.
pub fn last_modified(secs: i64) -> (r: Option<String>)
    ensures
        opt_view(r) == last_modified_of(secs),
{
    if secs < FIRST_RFC2822_SECOND || secs > LAST_RFC2822_SECOND {
        return None;
    }
    let date = format_rfc2822(secs);
    proof {
        reveal_strlit("+0000");
    }
    Some(replace_text(date.as_str(), "+0000", "GMT"))
}

/// A resource that the client may keep, as it is sent to a client with
/// this `Accept-Encoding`; the refusal of a method that does not read is
/// sent as it is.
pub open spec fn cached_answer_of(
    accept_encoding: Seq<char>,
    method: Seq<char>,
    unmodified: bool,
    last_modified: Seq<char>,
    content_type: Seq<char>,
    body: Seq<u8>,
) -> ResponseView {
    match cache_decision_of(method, unmodified) {
        Some(_) => common_builder_of(
            accept_encoding,
            cache_ok_of(method, unmodified, last_modified, content_type, body),
        ),
        None => refusal_of(ErrorKind::Forbidden),
    }
}

/// The answer to a request for a path below `static`: the resource that
/// the path names among the loaded ones, as one that the client may keep;
/// 404 where it names none.
pub open spec fn static_response_of(
    sub_path: Seq<char>,
    resources: Seq<ResourceView>,
    accept_encoding: Seq<char>,
    method: Seq<char>,
    unmodified: bool,
    last_modified: Seq<char>,
) -> ResponseView {
    match static_content_of(sub_path, resources) {
        Some((content_type, body)) => cached_answer_of(
            accept_encoding,
            method,
            unmodified,
            last_modified,
            content_type,
            body,
        ),
        None => common_builder_of(accept_encoding, not_found_of()),
    }
}

/// Answers with a resource that the client may keep, made ready for a
/// client with this `Accept-Encoding`.
pub fn cached_answer(
    accept_encoding: &str,
    method: &str,
    unmodified: bool,
    last_modified: &str,
    content_type: &str,
    body: Vec<u8>,
) -> (r: Response)
    ensures
        r@ == cached_answer_of(
            accept_encoding@,
            method@,
            unmodified,
            last_modified@,
            content_type@,
            body@,
        ),
{
    match cache_decision(method, unmodified) {
        Err(e) => e.response(),
        Ok(_) => common_builder(
            accept_encoding,
            cache_ok(method, unmodified, last_modified, content_type, body),
        ),
    }
}

/// Answers a request for a path below `static` from the loaded resources.
pub fn static_resource_response(
    sub_path: &str,
    resources: &Vec<Resource>,
    accept_encoding: &str,
    method: &str,
    unmodified: bool,
    last_modified: &str,
) -> (r: Response)
    ensures
        r@ == static_response_of(
            sub_path@,
            resources_view(resources@),
            accept_encoding@,
            method@,
            unmodified,
            last_modified@,
        ),
{
    let (name, part) = match static_resource(sub_path) {
        StaticResource::WebCss => ("backstage".to_owned(), Part::Css),
        StaticResource::WebJs => ("backstage".to_owned(), Part::Js),
        StaticResource::WebWasm => ("backstage".to_owned(), Part::Wasm),
        StaticResource::ThemeCss(name) => (name, Part::Css),
        StaticResource::ThemeJs(name) => (name, Part::Js),
        StaticResource::ThemeWasm(name) => (name, Part::Wasm),
        StaticResource::NotFound => {
            return common_builder(accept_encoding, not_found());
        },
    };
    match lookup_resource(resources, name.as_str()) {
        None => common_builder(accept_encoding, not_found()),
        Some(found) => match part {
            Part::Css => cached_answer(
                accept_encoding,
                method,
                unmodified,
                last_modified,
                "text/css",
                vstd::slice::slice_to_vec(found.css.as_slice()),
            ),
            Part::Js => cached_answer(
                accept_encoding,
                method,
                unmodified,
                last_modified,
                "text/javascript",
                vstd::slice::slice_to_vec(found.js.as_slice()),
            ),
            Part::Wasm => cached_answer(
                accept_encoding,
                method,
                unmodified,
                last_modified,
                "application/wasm",
                vstd::slice::slice_to_vec(found.wasm.as_slice()),
            ),
        },
    }
}

} // verus!
