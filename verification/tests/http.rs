use light_letter::http::{
    cached_answer, common_builder, last_modified, static_resource_response, Resource,
};
use light_letter::http::{
    cache_decision, cache_ok, file_ok, file_path_allowed, file_use_gzip, html_ok, internal_server_error,
    is_unmodified_since, not_found, page_method_allowed, parse_accept_encoding, redirect,
    rpc_method_allowed, rpc_response, session_cookie, set_session_cookie, static_resource,
    unmodified_at, CacheDecision, Error, ErrorKind, StaticResource,
};
use light_letter::rpc::RpcError;
use light_letter::text::{decimal, hex_bytes, replace_char, request_text};

fn h(name: &str, value: &str) -> (String, String) {
    (name.to_string(), value.to_string())
}

#[test]
fn refusals_have_their_statuses() {
    let e = Error::bad_request("what");
    assert_eq!(e.kind, ErrorKind::BadRequest);
    assert_eq!(e.message, "what");
    assert_eq!(e.response().status, 400);
    assert_eq!(e.response().body, b"Bad Request".to_vec());
    let e = Error::forbidden("no");
    assert_eq!(e.response().status, 403);
    assert_eq!(e.response().body, b"Forbidden".to_vec());
    let e = Error::internal_server_error("boom");
    assert_eq!(e.kind, ErrorKind::InternalServerError);
    assert_eq!(e.response().status, 500);
    assert_eq!(e.response().body, b"Internal Server Error".to_vec());
    assert_eq!(
        e.response().headers,
        vec![
            h("X-Powered-By", "light-letter"),
            h("cache-control", "no-cache, no-store"),
            h("content-type", "text/plain; charset=utf-8"),
        ]
    );
}

#[test]
fn answers_have_their_heads() {
    let r = not_found();
    assert_eq!(r.status, 404);
    assert_eq!(r.body, b"Not Found".to_vec());
    assert_eq!(
        r.headers,
        vec![
            h("X-Powered-By", "light-letter"),
            h("vary", "Accept-Encoding,Cookie"),
            h("cache-control", "no-cache, no-store"),
            h("content-type", "text/plain; charset=utf-8"),
        ]
    );
    let r = internal_server_error("it broke");
    assert_eq!(r.status, 500);
    assert_eq!(r.body, b"it broke".to_vec());
    let r = html_ok(b"<p>".to_vec());
    assert_eq!(r.status, 200);
    assert_eq!(r.body, b"<p>".to_vec());
    assert_eq!(r.headers[3], h("content-type", "text/html; charset=utf-8"));
    let r = redirect("//host/path?q");
    assert_eq!(r.status, 302);
    assert!(r.body.is_empty());
    assert_eq!(r.headers[3], h("location", "//host/path?q"));
    assert_eq!(r.headers[2], h("cache-control", "no-cache, no-store"));
}

#[test]
fn a_call_is_answered_by_the_kind_of_its_error() {
    let r = rpc_response(Ok("{\"a\":1}".to_string()));
    assert_eq!(r.status, 200);
    assert_eq!(r.body, b"{\"a\":1}".to_vec());
    assert_eq!(rpc_response(Err(RpcError::IllegalArgs("short".to_string()))).status, 400);
    assert_eq!(rpc_response(Err(RpcError::ParseError("bad".to_string()))).status, 400);
    assert_eq!(rpc_response(Err(RpcError::NoSuchRoute)).status, 404);
    let r = rpc_response(Err(RpcError::InternalError("down".to_string())));
    assert_eq!(r.status, 500);
    assert_eq!(r.body, b"down".to_vec());
    assert_eq!(r.headers[3], h("content-type", "text/plain; charset=utf-8"));
}

#[test]
fn methods_are_held_to_what_they_are_for() {
    assert!(page_method_allowed("GET").is_ok());
    let e = page_method_allowed("POST").unwrap_err();
    assert_eq!(e.kind, ErrorKind::Forbidden);
    assert_eq!(e.message, "Invalid Method");
    assert_eq!(e.response().status, 403);
    assert!(page_method_allowed("get").is_err());
    assert!(rpc_method_allowed("POST").is_ok());
    assert!(rpc_method_allowed("GET").is_err());
}

#[test]
fn a_cached_resource_is_answered_without_its_body() {
    assert_eq!(cache_decision("GET", false), Ok(CacheDecision { status: 200, head_only: false }));
    assert_eq!(cache_decision("GET", true), Ok(CacheDecision { status: 304, head_only: true }));
    assert_eq!(cache_decision("HEAD", false), Ok(CacheDecision { status: 304, head_only: true }));
    assert_eq!(cache_decision("HEAD", true), Ok(CacheDecision { status: 304, head_only: true }));
    assert_eq!(cache_decision("POST", true).unwrap_err().kind, ErrorKind::Forbidden);
    assert_eq!(cache_decision("", false).unwrap_err().response().status, 403);
}

#[test]
fn a_cached_resource_has_its_head() {
    let date = "Thu, 01 Jan 1970 00:01:40 GMT";
    let r = cache_ok("GET", false, date, "text/css", b"a{}".to_vec());
    assert_eq!(r.status, 200);
    assert_eq!(r.body, b"a{}".to_vec());
    assert_eq!(
        r.headers,
        vec![
            h("X-Powered-By", "light-letter"),
            h("vary", "Accept-Encoding,Cookie"),
            h("cache-control", "max-age=0"),
            h("last-modified", date),
            h("content-type", "text/css"),
        ]
    );
    let r = cache_ok("GET", true, date, "text/css", b"a{}".to_vec());
    assert_eq!(r.status, 304);
    assert!(r.body.is_empty());
    let r = cache_ok("HEAD", false, date, "text/css", b"a{}".to_vec());
    assert_eq!(r.status, 304);
    assert!(r.body.is_empty());
    let r = cache_ok("PUT", false, date, "text/css", b"a{}".to_vec());
    assert_eq!(r.status, 403);
    assert_eq!(r.body, b"Forbidden".to_vec());
}

#[test]
fn a_second_of_slack_is_given() {
    assert!(!unmodified_at(None, 100, 0));
    assert!(unmodified_at(Some(100), 100, 0));
    assert!(unmodified_at(Some(100), 100, 999_999_999));
    assert!(unmodified_at(Some(99), 100, 0));
    assert!(!unmodified_at(Some(99), 100, 1));
    assert!(!unmodified_at(Some(98), 100, 0));
    assert!(unmodified_at(Some(101), 100, 5));
    assert!(unmodified_at(Some(i64::MAX), i64::MAX, 0));
    assert!(!unmodified_at(Some(i64::MIN), i64::MIN + 2, 0));
}

#[test]
fn the_date_of_the_client_is_read() {
    let date = "Thu, 01 Jan 1970 00:01:40 GMT";
    assert!(is_unmodified_since(date, 100, 0));
    assert!(is_unmodified_since(date, 101, 0));
    assert!(!is_unmodified_since(date, 101, 1));
    assert!(!is_unmodified_since(date, 102, 0));
    assert!(is_unmodified_since("Thu, 01 Jan 1970 01:01:40 +0100", 100, 0));
    assert!(!is_unmodified_since("", 0, 0));
    assert!(!is_unmodified_since("yesterday", 0, 0));
    assert!(!is_unmodified_since("100", 0, 0));
}

#[test]
fn gzip_is_taken_where_an_item_names_it() {
    assert_eq!(parse_accept_encoding("gzip"), "gzip");
    assert_eq!(parse_accept_encoding("deflate, gzip;q=1.0, *;q=0.5"), "gzip");
    assert_eq!(parse_accept_encoding("  gzip  "), "gzip");
    assert_eq!(parse_accept_encoding("br,\tgzip;q=0\t"), "gzip");
    assert_eq!(parse_accept_encoding("br,\tgzip\t;q=0"), "");
    assert_eq!(parse_accept_encoding("gzip;"), "gzip");
    assert_eq!(parse_accept_encoding(""), "");
    assert_eq!(parse_accept_encoding("deflate, br"), "");
    assert_eq!(parse_accept_encoding("GZIP"), "");
    assert_eq!(parse_accept_encoding("gzip ;q=1"), "");
    assert_eq!(parse_accept_encoding("x-gzip"), "");
    assert_eq!(parse_accept_encoding("gzipped"), "");
    assert_eq!(parse_accept_encoding(",,,"), "");
    assert_eq!(parse_accept_encoding("a,gzip,"), "gzip");
}

#[test]
fn resources_are_told_by_name_and_ending() {
    assert_eq!(static_resource("light_letter_web.css"), StaticResource::WebCss);
    assert_eq!(static_resource("light_letter_web.js"), StaticResource::WebJs);
    assert_eq!(static_resource("light_letter_web_bg.wasm"), StaticResource::WebWasm);
    assert_eq!(static_resource("ivy_leaf.css"), StaticResource::ThemeCss("ivy_leaf".to_string()));
    assert_eq!(static_resource("ivy_leaf.js"), StaticResource::ThemeJs("ivy_leaf".to_string()));
    assert_eq!(
        static_resource("ivy_leaf_bg.wasm"),
        StaticResource::ThemeWasm("ivy_leaf".to_string())
    );
    assert_eq!(static_resource(".css"), StaticResource::ThemeCss("".to_string()));
    assert_eq!(static_resource("a.wasm"), StaticResource::NotFound);
    assert_eq!(static_resource(""), StaticResource::NotFound);
    assert_eq!(static_resource("a.css.js"), StaticResource::ThemeJs("a.css".to_string()));
    assert_eq!(static_resource("css"), StaticResource::NotFound);
}

#[test]
fn only_small_texts_are_compressed() {
    assert!(file_use_gzip(Some("text"), 10, true));
    assert!(file_use_gzip(Some("text"), 4 * 1024 * 1024, true));
    assert!(!file_use_gzip(Some("text"), 4 * 1024 * 1024 + 1, true));
    assert!(!file_use_gzip(Some("text"), 10, false));
    assert!(!file_use_gzip(Some("image"), 10, true));
    assert!(!file_use_gzip(None, 10, true));
}

#[test]
fn a_path_must_stay_below_its_directory() {
    assert!(file_path_allowed("a/b.html"));
    assert!(file_path_allowed(""));
    assert!(file_path_allowed("a//b"));
    assert!(file_path_allowed("a/./b"));
    assert!(file_path_allowed("a/b/"));
    assert!(file_path_allowed("..."));
    assert!(file_path_allowed("a/.b"));
    assert!(!file_path_allowed("../a"));
    assert!(!file_path_allowed("a/../b"));
    assert!(!file_path_allowed("a/.."));
    assert!(!file_path_allowed("/a"));
    assert!(!file_path_allowed("/"));
    assert!(!file_path_allowed("./a"));
    assert!(!file_path_allowed("."));
    assert!(!file_path_allowed(".."));
}

#[test]
fn numbers_and_bytes_are_written() {
    assert_eq!(decimal(0), "0");
    assert_eq!(decimal(9), "9");
    assert_eq!(decimal(10), "10");
    assert_eq!(decimal(86405), "86405");
    assert_eq!(decimal(u64::MAX), "18446744073709551615");
    assert_eq!(hex_bytes(&vec![0, 1, 171, 255]), "0001abff");
    assert_eq!(hex_bytes(&vec![]), "");
    assert_eq!(replace_char("ivy-leaf-2", '-', '_'), "ivy_leaf_2");
    assert_eq!(request_text(b"{\"a\":1}".to_vec()), "{\"a\":1}");
    assert_eq!(request_text(vec![0xff, 0xfe]), "");
    assert_eq!(request_text(Vec::new()), "");
}

#[test]
fn a_file_is_answered_by_method_and_change() {
    assert_eq!(file_ok("GET", false), Ok(CacheDecision { status: 200, head_only: false }));
    assert_eq!(file_ok("GET", true), Ok(CacheDecision { status: 304, head_only: true }));
    assert_eq!(file_ok("HEAD", false), Ok(CacheDecision { status: 200, head_only: true }));
    assert_eq!(file_ok("HEAD", true), Ok(CacheDecision { status: 304, head_only: true }));
    let e = file_ok("DELETE", false).unwrap_err();
    assert_eq!(e.kind, ErrorKind::Forbidden);
    assert_eq!(e.message, "Invalid Method");
}

#[test]
fn the_session_cookie_is_found_among_the_others() {
    assert_eq!(session_cookie("light-letter-session=abc"), Some("abc".to_string()));
    assert_eq!(
        session_cookie("a=1; light-letter-session=7f6d-0f1e ; b=2"),
        Some("7f6d-0f1e".to_string())
    );
    assert_eq!(session_cookie("light-letter-session=a=b"), Some("a=b".to_string()));
    assert_eq!(session_cookie("light-letter-session="), Some("".to_string()));
    assert_eq!(
        session_cookie("light-letter-session=first;light-letter-session=second"),
        Some("first".to_string())
    );
    assert_eq!(session_cookie(""), None);
    assert_eq!(session_cookie("light-letter-session"), None);
    assert_eq!(session_cookie("other=1; another=2"), None);
    assert_eq!(session_cookie("xlight-letter-session=abc"), None);
    assert_eq!(session_cookie("light-letter-session =abc"), None);
    assert_eq!(
        set_session_cookie("abc"),
        ("set-cookie".to_string(), "light-letter-session=abc; Path=/; HttpOnly".to_string())
    );
}

fn resources() -> Vec<Resource> {
    vec![
        Resource {
            mod_name: "backstage".to_string(),
            css: b"b{}".to_vec(),
            js: b"b()".to_vec(),
            wasm: vec![0, 97, 115, 109],
        },
        Resource {
            mod_name: "ivy_leaf".to_string(),
            css: b"i{}".to_vec(),
            js: b"i()".to_vec(),
            wasm: vec![0, 97, 115, 109, 1],
        },
        Resource {
            mod_name: "ivy_leaf".to_string(),
            css: b"second".to_vec(),
            js: Vec::new(),
            wasm: Vec::new(),
        },
    ]
}

fn content_type(r: &light_letter::http::Response) -> Option<String> {
    r.headers.iter().find(|(n, _)| n == "content-type").map(|(_, v)| v.clone())
}

#[test]
fn a_path_below_static_is_answered_with_its_resource() {
    let date = "Thu, 01 Jan 1970 00:01:40 GMT";
    let all = resources();
    let cases: Vec<(&str, &str, Vec<u8>)> = vec![
        ("light_letter_web.css", "text/css", b"b{}".to_vec()),
        ("light_letter_web.js", "text/javascript", b"b()".to_vec()),
        ("light_letter_web_bg.wasm", "application/wasm", vec![0, 97, 115, 109]),
        ("ivy_leaf.css", "text/css", b"i{}".to_vec()),
        ("ivy_leaf.js", "text/javascript", b"i()".to_vec()),
        ("ivy_leaf_bg.wasm", "application/wasm", vec![0, 97, 115, 109, 1]),
    ];
    for (path, mime, bytes) in cases {
        let r = static_resource_response(path, &all, "", "GET", false, date);
        assert_eq!(r.status, 200, "{}", path);
        assert_eq!(content_type(&r), Some(mime.to_string()));
        assert_eq!(r.body, bytes);
        assert_eq!(r, cache_ok("GET", false, date, mime, r.body.clone()));
        let r = static_resource_response(path, &all, "", "GET", true, date);
        assert_eq!(r.status, 304);
        assert!(r.body.is_empty());
        let r = static_resource_response(path, &all, "", "POST", false, date);
        assert_eq!(r.status, 403);
    }
}

#[test]
fn a_path_below_static_that_names_nothing_is_not_found() {
    let date = "Thu, 01 Jan 1970 00:01:40 GMT";
    let all = resources();
    for path in ["", "x.png", "unknown.css", "unknown.js", "unknown_bg.wasm", "ivy_leaf.wasm"] {
        let r = static_resource_response(path, &all, "", "GET", false, date);
        assert_eq!(r, not_found(), "{}", path);
        let r = static_resource_response(path, &all, "", "POST", false, date);
        assert_eq!(r.status, 404);
    }
    let r = static_resource_response("light_letter_web.css", &Vec::new(), "", "GET", false, date);
    assert_eq!(r, not_found());
}

fn gunzip(bytes: &[u8]) -> Vec<u8> {
    let mut out = Vec::new();
    std::io::Read::read_to_end(&mut flate2::read::GzDecoder::new(bytes), &mut out).unwrap();
    out
}

#[test]
fn an_answer_is_compressed_for_a_client_that_takes_gzip() {
    let body = b"a body that is long enough to be worth it, a body that is long enough".to_vec();
    let r = common_builder("deflate", html_ok(body.clone()));
    assert_eq!(r, html_ok(body.clone()));
    let r = common_builder("", not_found());
    assert_eq!(r, not_found());
    let r = common_builder("deflate, gzip", html_ok(body.clone()));
    assert_eq!(r.status, 200);
    assert_eq!(r.headers.len(), 5);
    assert_eq!(&r.headers[..4], &html_ok(Vec::new()).headers[..]);
    assert_eq!(r.headers[4], h("content-encoding", "gzip"));
    assert_ne!(r.body, body);
    assert_eq!(&r.body[..4], &[0x1f, 0x8b, 8, 0]);
    assert_eq!(&r.body[4..8], &[0, 0, 0, 0]);
    assert_eq!(r.body[9], 255);
    assert_eq!(gunzip(&r.body), body);
    assert_eq!(r, common_builder("gzip", html_ok(body.clone())));
    let r = static_resource_response(
        "ivy_leaf.css",
        &resources(),
        "gzip",
        "GET",
        false,
        "Thu, 01 Jan 1970 00:01:40 GMT",
    );
    assert_eq!(gunzip(&r.body), b"i{}".to_vec());
    assert_eq!(r.headers[5], h("content-encoding", "gzip"));
    let r = cached_answer("gzip", "PUT", false, "d", "text/css", b"x".to_vec());
    assert_eq!(r.status, 403);
    assert_eq!(r.body, b"Forbidden".to_vec());
    let r = cached_answer("", "GET", false, "d", "text/css", b"x".to_vec());
    assert_eq!(r, cache_ok("GET", false, "d", "text/css", b"x".to_vec()));
}

#[test]
fn the_time_of_the_last_change_is_written_with_gmt() {
    assert_eq!(last_modified(0), Some("Thu, 1 Jan 1970 00:00:00 GMT".to_string()));
    assert_eq!(last_modified(100), Some("Thu, 1 Jan 1970 00:01:40 GMT".to_string()));
    assert_eq!(last_modified(1_431_648_000), Some("Fri, 15 May 2015 00:00:00 GMT".to_string()));
    assert_eq!(
        last_modified(253_402_300_799),
        Some("Fri, 31 Dec 9999 23:59:59 GMT".to_string())
    );
    assert_eq!(last_modified(253_402_300_800), None);
    assert_eq!(last_modified(-1), Some("Wed, 31 Dec 1969 23:59:59 GMT".to_string()));
    for secs in [-62_167_219_200i64, -62_135_596_800, -1, 0, 951_782_400, 253_402_300_799] {
        let expected =
            chrono::DateTime::from_timestamp(secs, 0).unwrap().to_rfc2822().replace("+0000", "GMT");
        assert_eq!(last_modified(secs), Some(expected), "{}", secs);
    }
    assert!(last_modified(-62_167_219_200).unwrap().contains(" 0000 "));
    assert_eq!(last_modified(-62_167_219_201), None);
    assert_eq!(last_modified(i64::MAX), None);
    assert_eq!(last_modified(i64::MIN), None);
}
