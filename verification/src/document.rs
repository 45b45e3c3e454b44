//! The document that carries a prerendered page to the browser: the page's
//! markup, its snapshot in base64, and the script that replays it.

use vstd::prelude::*;
use vstd::string::StringExecFns;
use vstd::utf8::encode_utf8;
use crate::http::{Response, headers_view, html_ok, internal_server_error, uncached_headers};
use crate::page::{
    Page,
    PageKind,
    PageView,
    PrerenderResult,
    Theme,
    applied,
    data_kind_of,
    hydrated,
    lemma_replay_equals_fetch,
    page_of,
};
use crate::route::{RouteTable, resolve};
use crate::snapshot::{PageDataView, fits, kind_of, snapshot_of};
use crate::text::{decimal, decimal_of, joined};

verus! {

/// Bytes in base64, with the standard alphabet and padding.
pub uninterp spec fn base64_of(data: Seq<u8>) -> Seq<char>;

/// The bytes that a text in base64 stands for, if it is well formed.
pub uninterp spec fn base64_decoded(text: Seq<char>) -> Option<Seq<u8>>;

/// Calls `base64::Engine::encode` on the engine `STANDARD`. Trusted: the
/// result depends on the bytes alone, and the same engine decodes it to
/// the bytes again. The length is bounded because the engine stops where
/// the length of the text does not fit a `usize`.
#[verifier::external_body]
fn base64_encode(data: &[u8]) -> (r: String)
    requires
        data@.len() < usize::MAX / 2,
    ensures
        r@ == base64_of(data@),
        base64_decoded(r@) == Some(data@),
{
    base64::Engine::encode(&base64::engine::general_purpose::STANDARD, data)
}

/// Calls `base64::Engine::decode` on the engine `STANDARD`. Trusted: the
/// result depends on the text alone.
#[verifier::external_body]
fn base64_decode(text: &str) -> (r: Option<Vec<u8>>)
    ensures
        match r {
            Some(v) => base64_decoded(text@) == Some(v@),
            None => base64_decoded(text@) is None,
        },
{
    base64::Engine::decode(&base64::engine::general_purpose::STANDARD, text).ok()
}

/// The snapshot that a document carries as `data`.
pub fn read_prerendered_data(data: &str) -> (r: Option<Vec<u8>>)
    ensures
        match r {
            Some(v) => base64_decoded(data@) == Some(v@),
            None => base64_decoded(data@) is None,
        },
{
    base64_decode(data)
}

/// The names under `static` of what a page needs beside its markup.
#[derive(Clone, Debug, PartialEq, Eq)]
pub struct PageAssets {
    pub style_url: String,
    pub script_url: String,
    pub wasm_url: String,
}

/// The assets of the backstage, and those of a theme by its module name.
pub open spec fn assets_of(theme: Theme, mod_name: Seq<char>) -> (Seq<char>, Seq<char>, Seq<char>) {
    match theme {
        Theme::Backstage => (
            "light_letter_web.css"@,
            "light_letter_web.js"@,
            "light_letter_web_bg.wasm"@,
        ),
        Theme::IvyLeaf => (mod_name + ".css"@, mod_name + ".js"@, mod_name + "_bg.wasm"@),
    }
}

impl PageAssets {
    /// The assets of the pages of a theme whose module is called `mod_name`.
    pub fn of(theme: Theme, mod_name: &str) -> (r: PageAssets)
        ensures
            (r.style_url@, r.script_url@, r.wasm_url@) == assets_of(theme, mod_name@),
    {
        match theme {
            Theme::Backstage => PageAssets {
                style_url: "light_letter_web.css".to_owned(),
                script_url: "light_letter_web.js".to_owned(),
                wasm_url: "light_letter_web_bg.wasm".to_owned(),
            },
            Theme::IvyLeaf => PageAssets {
                style_url: joined(mod_name, ".css"),
                script_url: joined(mod_name, ".js"),
                wasm_url: joined(mod_name, "_bg.wasm"),
            },
        }
    }
}

/// The address of an asset, with the version of this run of the server.
pub open spec fn asset_link(url: Seq<char>, version: u32) -> Seq<char> {
    "/static/"@ + url + "?v="@ + decimal_of(version as nat)
}

/// The document up to the page's markup.
pub open spec fn document_head(title: Seq<char>, style_url: Seq<char>, version: u32) -> Seq<char> {
    "<!DOCTYPE html><html><head><meta charset=\"UTF-8\"><meta name=\"viewport\" content=\"width=device-width,initial-scale=1\"><title>"@
        + title + "</title><link rel=\"stylesheet\" href=\""@ + asset_link(style_url, version)
        + "\"></head><body>"@
}

/// The document behind the page's markup: the script, and the call that
/// loads the module and replays the snapshot.
pub open spec fn document_tail(
    script_url: Seq<char>,
    wasm_url: Seq<char>,
    version: u32,
    data: Seq<char>,
) -> Seq<char> {
    "<script src=\""@ + asset_link(script_url, version)
        + "\"></script><script>var xhr=new XMLHttpRequest();xhr.responseType=\"arraybuffer\";xhr.addEventListener(\"load\", function(){wasm_bindgen(xhr.response).then(function(){wasm_bindgen.load_maomi_component(location.pathname,\""@
        + data + "\")})});xhr.open(\"GET\",\""@ + asset_link(wasm_url, version)
        + "\");xhr.send()</script></body></html>"@
}

/// The whole document.
pub open spec fn document_of(
    title: Seq<char>,
    markup: Seq<char>,
    assets: (Seq<char>, Seq<char>, Seq<char>),
    version: u32,
    snapshot: Seq<u8>,
) -> Seq<char> {
    document_head(title, assets.0, version) + markup + document_tail(
        assets.1,
        assets.2,
        version,
        base64_of(snapshot),
    )
}

fn link(url: &str, version: u32) -> (r: String)
    ensures
        r@ == asset_link(url@, version),
{
    let mut r = joined("/static/", url);
    r.append("?v=");
    let v = decimal(version as u64);
    r.append(v.as_str());
    r
}

/// The status of a page: 200 where a declared route took the path, 404 where none did.
pub open spec fn page_status(is_ok: bool) -> u16 {
    if is_ok {
        200
    } else {
        404
    }
}

/// Writes the document of a prerendered page around its markup. The page
/// for a path that no route took is written like any other, and answered
/// with status 404. A snapshot of half the address space or more is not
/// written: the answer is then a failure of the server.
pub fn render_page_component(
    prerendered: &PrerenderResult,
    markup: &str,
    assets: &PageAssets,
    version: u32,
) -> (r: Response)
    ensures
        prerendered.prerendered_data@.len() < usize::MAX / 2 ==> {
            &&& base64_decoded(base64_of(prerendered.prerendered_data@)) == Some(
                prerendered.prerendered_data@,
            )
            &&& r.status == page_status(prerendered.is_ok)
            &&& headers_view(r.headers@) == uncached_headers("text/html; charset=utf-8"@)
            &&& r.body@ == encode_utf8(
                document_of(
                    prerendered.title@,
                    markup@,
                    (assets.style_url@, assets.script_url@, assets.wasm_url@),
                    version,
                    prerendered.prerendered_data@,
                ),
            )
        },
        prerendered.prerendered_data@.len() >= usize::MAX / 2 ==> r.status == 500,
{
    if prerendered.prerendered_data.len() >= usize::MAX / 2 {
        return internal_server_error("The page's data is too large");
    }
    let data = base64_encode(prerendered.prerendered_data.as_slice());
    let mut html =
        "<!DOCTYPE html><html><head><meta charset=\"UTF-8\"><meta name=\"viewport\" content=\"width=device-width,initial-scale=1\"><title>".to_owned();
    html.append(prerendered.title.as_str());
    html.append("</title><link rel=\"stylesheet\" href=\"");
    let style = link(assets.style_url.as_str(), version);
    html.append(style.as_str());
    html.append("\"></head><body>");
    html.append(markup);
    html.append("<script src=\"");
    let script = link(assets.script_url.as_str(), version);
    html.append(script.as_str());
    html.append(
        "\"></script><script>var xhr=new XMLHttpRequest();xhr.responseType=\"arraybuffer\";xhr.addEventListener(\"load\", function(){wasm_bindgen(xhr.response).then(function(){wasm_bindgen.load_maomi_component(location.pathname,\"",
    );
    html.append(data.as_str());
    html.append("\")})});xhr.open(\"GET\",\"");
    let wasm = link(assets.wasm_url.as_str(), version);
    html.append(wasm.as_str());
    html.append("\");xhr.send()</script></body></html>");
    proof {
        assert(html@ =~= document_of(
            prerendered.title@,
            markup@,
            (assets.style_url@, assets.script_url@, assets.wasm_url@),
            version,
            prerendered.prerendered_data@,
        ));
    }
    let mut response = html_ok(vstd::slice::slice_to_vec(html.as_str().as_bytes()));
    if !prerendered.is_ok {
        response.status = 404;
    }
    response
}

/// The page that the browser makes of what a document carries: the
/// snapshot that the text stands for, replayed on a fresh page. A text that
/// is not well formed, or stands for no snapshot of the page type's data,
/// makes none.
pub open spec fn loaded_of(kind: PageKind, data: Seq<char>) -> Option<PageView> {
    match base64_decoded(data) {
        Some(snapshot) => hydrated(kind, snapshot),
        None => None,
    }
}

/// The browser's way from the document to the page of a path: the page
/// type by the theme's routes, and on a fresh page of it the snapshot that
/// the document carries.
pub fn load_maomi_component(theme: Theme, routes: &RouteTable, path: &str, data: &str) -> (r:
    Option<Page>)
    ensures
        match r {
            Some(p) => loaded_of(page_of(theme, resolve(routes.declared(), path@).target).0, data@)
                == Some(p@),
            None => loaded_of(page_of(theme, resolve(routes.declared(), path@).target).0, data@)
                is None,
        },
{
    match base64_decode(data) {
        Some(snapshot) => theme.load_maomi_component(routes, path, snapshot.as_slice()),
        None => None,
    }
}

/// Snapshot replay reaches the document: of a text that stands for the
/// snapshot of fetched data, as the text in a document that
/// `render_page_component` wrote does, the browser makes the page that
/// applying the fetched data to a fresh page gives.
pub proof fn lemma_document_replay(kind: PageKind, data: PageDataView, text: Seq<char>)
    requires
        kind_of(data) == data_kind_of(kind),
        fits(data),
        base64_decoded(text) == Some(snapshot_of(data)),
    ensures
        loaded_of(kind, text) == Some(applied(kind, data)),
{
    lemma_replay_equals_fetch(kind, data);
}

} // verus!
