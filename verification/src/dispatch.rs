//! Which site answers a request, and which part of a blog site.

use vstd::prelude::*;
use crate::site::{SiteState, SiteStateView, states_view};
use crate::text::{find_char, from_chars, index_of, joined, str_eq, to_chars, views};

verus! {

/// What is done with a request, by its `Host`.
#[derive(Clone, Debug, PartialEq, Eq)]
pub enum HostDispatch {
    /// The site at this place in the list serves it.
    Site(usize),
    /// The host is an alias: the request is sent on to this location.
    Redirect(String),
    /// No site has this host.
    NotFound,
}

pub enum HostDispatchView {
    Site(int),
    Redirect(Seq<char>),
    NotFound,
}

impl View for HostDispatch {
    type V = HostDispatchView;

    open spec fn view(&self) -> HostDispatchView {
        match self {
            HostDispatch::Site(i) => HostDispatchView::Site(*i as int),
            HostDispatch::Redirect(l) => HostDispatchView::Redirect(l@),
            HostDispatch::NotFound => HostDispatchView::NotFound,
        }
    }
}

/// The first site from `from` on whose host is `host`, letter for letter.
pub open spec fn find_host(sites: Seq<SiteStateView>, host: Seq<char>, from: int) -> Option<int>
    decreases sites.len() - from,
{
    if from < 0 || from >= sites.len() {
        None
    } else if sites[from].host == host {
        Some(from)
    } else {
        find_host(sites, host, from + 1)
    }
}

/// The first site from `from` on that lists `host` among its aliases.
pub open spec fn find_alias(sites: Seq<SiteStateView>, host: Seq<char>, from: int) -> Option<int>
    decreases sites.len() - from,
{
    if from < 0 || from >= sites.len() {
        None
    } else if sites[from].host_aliases.contains(host) {
        Some(from)
    } else {
        find_alias(sites, host, from + 1)
    }
}

/// Where an alias sends a request: the canonical host, then path and query as they came.
pub open spec fn redirect_location(
    canonical: Seq<char>,
    path: Seq<char>,
    query: Seq<char>,
) -> Seq<char> {
    "//"@ + canonical + path + (if query.len() > 0 {
        "?"@
    } else {
        Seq::<char>::empty()
    }) + query
}

/// Hosts are looked for first, then aliases; a request that matches neither finds nothing.
pub open spec fn dispatch_of(
    sites: Seq<SiteStateView>,
    host: Seq<char>,
    path: Seq<char>,
    query: Seq<char>,
) -> HostDispatchView {
    match find_host(sites, host, 0) {
        Some(i) => HostDispatchView::Site(i),
        None => match find_alias(sites, host, 0) {
            Some(i) => HostDispatchView::Redirect(redirect_location(sites[i].host, path, query)),
            None => HostDispatchView::NotFound,
        },
    }
}

/// The status that goes with a dispatch, where the dispatch itself answers.
pub open spec fn status_of(d: HostDispatchView) -> Option<u16> {
    match d {
        HostDispatchView::Site(_) => None,
        HostDispatchView::Redirect(_) => Some(302u16),
        HostDispatchView::NotFound => Some(404u16),
    }
}

impl HostDispatch {
    /// 302 for a redirect, 404 where no site was found; a site gives its own status.
    pub fn status(&self) -> (r: Option<u16>)
        ensures
            r == status_of(self@),
    {
        match self {
            HostDispatch::Site(_) => None,
            HostDispatch::Redirect(_) => Some(302),
            HostDispatch::NotFound => Some(404),
        }
    }
}

/// Whether `list` holds `s`.
pub fn contains_str(list: &Vec<String>, s: &str) -> (r: bool)
    ensures
        r == views(list@).contains(s@),
{
    let mut i: usize = 0;
    while i < list.len()
        invariant
            i <= list.len(),
            forall|j: int| 0 <= j < i ==> views(list@)[j] != s@,
        decreases list.len() - i,
    {
        if str_eq(list[i].as_str(), s) {
            assert(views(list@)[i as int] == s@);
            return true;
        }
        i += 1;
    }
    false
}

/// Where an alias sends a request.
pub fn host_alias_redirect(canonical: &str, path: &str, query: &str) -> (r: String)
    ensures
        r@ == redirect_location(canonical@, path@, query@),
{
    let a = joined("//", canonical);
    let b = joined(a.as_str(), path);
    let q = to_chars(query);
    let c = if q.len() > 0 {
        joined(b.as_str(), "?")
    } else {
        b
    };
    let r = joined(c.as_str(), query);
    proof {
        assert(r@ =~= redirect_location(canonical@, path@, query@));
    }
    r
}

/// Finds the site that answers a request for `host`, or what to answer in its place.
pub fn serve(site_states: &Vec<SiteState>, host: &str, path: &str, query: &str) -> (r:
    HostDispatch)
    ensures
        r@ == dispatch_of(states_view(site_states@), host@, path@, query@),
{
    let ghost sites = states_view(site_states@);
    let mut i: usize = 0;
    while i < site_states.len()
        invariant
            i <= site_states.len(),
            sites == states_view(site_states@),
            find_host(sites, host@, 0) == find_host(sites, host@, i as int),
        decreases site_states.len() - i,
    {
        if str_eq(site_states[i].host.as_str(), host) {
            return HostDispatch::Site(i);
        }
        i += 1;
    }
    let mut k: usize = 0;
    while k < site_states.len()
        invariant
            k <= site_states.len(),
            sites == states_view(site_states@),
            find_host(sites, host@, 0) is None,
            find_alias(sites, host@, 0) == find_alias(sites, host@, k as int),
        decreases site_states.len() - k,
    {
        if contains_str(&site_states[k].host_aliases, host) {
            let location = host_alias_redirect(site_states[k].host.as_str(), path, query);
            return HostDispatch::Redirect(location);
        }
        k += 1;
    }
    HostDispatch::NotFound
}

/// `find_host` gives the first site of that host: no site before it has the
/// host, and where it gives none, no site has.
pub proof fn lemma_first_host(sites: Seq<SiteStateView>, host: Seq<char>, from: int)
    requires
        0 <= from,
    ensures
        match find_host(sites, host, from) {
            Some(i) => from <= i < sites.len() && sites[i].host == host && forall|j: int|
                from <= j < i ==> (#[trigger] sites[j]).host != host,
            None => forall|j: int| from <= j < sites.len() ==> (#[trigger] sites[j]).host != host,
        },
    decreases sites.len() - from,
{
    if from < sites.len() && sites[from].host != host {
        lemma_first_host(sites, host, from + 1);
    }
}

/// `find_alias` gives the first site that lists the alias: no site before
/// it lists it, and where it gives none, no site does.
pub proof fn lemma_first_alias(sites: Seq<SiteStateView>, host: Seq<char>, from: int)
    requires
        0 <= from,
    ensures
        match find_alias(sites, host, from) {
            Some(i) => from <= i < sites.len() && sites[i].host_aliases.contains(host)
                && forall|j: int|
                from <= j < i ==> !(#[trigger] sites[j]).host_aliases.contains(host),
            None => forall|j: int|
                from <= j < sites.len() ==> !(#[trigger] sites[j]).host_aliases.contains(host),
        },
    decreases sites.len() - from,
{
    if from < sites.len() && !sites[from].host_aliases.contains(host) {
        lemma_first_alias(sites, host, from + 1);
    }
}

/// A request whose host is no site's own and stands among the aliases of a
/// site is redirected with status 302 to the canonical host of the first
/// such site, path and query string unchanged.
pub proof fn lemma_alias_redirects(
    sites: Seq<SiteStateView>,
    host: Seq<char>,
    path: Seq<char>,
    query: Seq<char>,
    k: int,
)
    requires
        0 <= k < sites.len(),
        sites[k].host_aliases.contains(host),
        forall|i: int| 0 <= i < sites.len() ==> (#[trigger] sites[i]).host != host,
    ensures
        find_alias(sites, host, 0) is Some,
        0 <= find_alias(sites, host, 0)->0 <= k,
        sites[find_alias(sites, host, 0)->0].host_aliases.contains(host),
        dispatch_of(sites, host, path, query) == HostDispatchView::Redirect(
            redirect_location(sites[find_alias(sites, host, 0)->0].host, path, query),
        ),
        status_of(dispatch_of(sites, host, path, query)) == Some(302u16),
{
    lemma_no_host(sites, host, 0);
    lemma_alias_found(sites, host, 0, k);
}

/// A request whose host is neither a site's own nor an alias finds nothing: status 404.
pub proof fn lemma_unknown_host_not_found(
    sites: Seq<SiteStateView>,
    host: Seq<char>,
    path: Seq<char>,
    query: Seq<char>,
)
    requires
        forall|i: int| 0 <= i < sites.len() ==> (#[trigger] sites[i]).host != host,
        forall|i: int| 0 <= i < sites.len() ==> !(#[trigger] sites[i]).host_aliases.contains(host),
    ensures
        dispatch_of(sites, host, path, query) == HostDispatchView::NotFound,
        status_of(dispatch_of(sites, host, path, query)) == Some(404u16),
{
    lemma_no_host(sites, host, 0);
    lemma_no_alias(sites, host, 0);
}

proof fn lemma_no_host(sites: Seq<SiteStateView>, host: Seq<char>, from: int)
    requires
        0 <= from,
        forall|i: int| 0 <= i < sites.len() ==> (#[trigger] sites[i]).host != host,
    ensures
        find_host(sites, host, from) is None,
    decreases sites.len() - from,
{
    if from < sites.len() {
        lemma_no_host(sites, host, from + 1);
    }
}

proof fn lemma_no_alias(sites: Seq<SiteStateView>, host: Seq<char>, from: int)
    requires
        0 <= from,
        forall|i: int| 0 <= i < sites.len() ==> !(#[trigger] sites[i]).host_aliases.contains(host),
    ensures
        find_alias(sites, host, from) is None,
    decreases sites.len() - from,
{
    if from < sites.len() {
        lemma_no_alias(sites, host, from + 1);
    }
}

proof fn lemma_alias_found(sites: Seq<SiteStateView>, host: Seq<char>, from: int, k: int)
    requires
        0 <= from <= k < sites.len(),
        sites[k].host_aliases.contains(host),
    ensures
        find_alias(sites, host, from) is Some,
        from <= find_alias(sites, host, from)->0 <= k,
        sites[find_alias(sites, host, from)->0].host_aliases.contains(host),
    decreases k - from,
{
    if !sites[from].host_aliases.contains(host) {
        lemma_alias_found(sites, host, from + 1, k);
    }
}

/// The part of a blog site that a path belongs to.
#[derive(Clone, Debug, PartialEq, Eq)]
pub enum BlogTarget {
    /// The site's icon, a file in its directory.
    Favicon,
    /// A file below `files`, by its path there.
    File(String),
    /// A script, style sheet or module of the server or of a theme.
    StaticResource(String),
    /// A call of the procedure at this path.
    Rpc(String),
    /// A page of the backstage.
    BackstagePage,
    /// A page of the site's theme.
    Page,
}

pub enum BlogTargetView {
    Favicon,
    File(Seq<char>),
    StaticResource(Seq<char>),
    Rpc(Seq<char>),
    BackstagePage,
    Page,
}

impl View for BlogTarget {
    type V = BlogTargetView;

    open spec fn view(&self) -> BlogTargetView {
        match self {
            BlogTarget::Favicon => BlogTargetView::Favicon,
            BlogTarget::File(p) => BlogTargetView::File(p@),
            BlogTarget::StaticResource(p) => BlogTargetView::StaticResource(p@),
            BlogTarget::Rpc(p) => BlogTargetView::Rpc(p@),
            BlogTarget::BackstagePage => BlogTargetView::BackstagePage,
            BlogTarget::Page => BlogTargetView::Page,
        }
    }
}

/// A path without its first character.
pub open spec fn without_first(path: Seq<char>) -> Seq<char> {
    if path.len() > 0 {
        path.skip(1)
    } else {
        path
    }
}

/// What stands before the first `/` of `rest`.
pub open spec fn scope_of(rest: Seq<char>) -> Seq<char> {
    rest.take(find_char(rest, '/', 0))
}

/// What stands behind the first `/` of `rest`; nothing where there is none.
pub open spec fn sub_path_of(rest: Seq<char>) -> Seq<char> {
    if find_char(rest, '/', 0) < rest.len() {
        rest.skip(find_char(rest, '/', 0) + 1)
    } else {
        Seq::empty()
    }
}

/// `/favicon.ico` is the icon. Any other path is told by what stands between
/// its first character and the next `/`.
pub open spec fn blog_target_of(path: Seq<char>) -> BlogTargetView {
    let rest = without_first(path);
    let scope = scope_of(rest);
    let sub_path = sub_path_of(rest);
    if path == "/favicon.ico"@ {
        BlogTargetView::Favicon
    } else if scope == "files"@ {
        BlogTargetView::File(sub_path)
    } else if scope == "static"@ {
        BlogTargetView::StaticResource(sub_path)
    } else if scope == "rpc"@ {
        BlogTargetView::Rpc("/"@ + sub_path)
    } else if scope == "backstage"@ {
        BlogTargetView::BackstagePage
    } else {
        BlogTargetView::Page
    }
}

/// Tells which part of a blog site the request path belongs to.
pub fn serve_blog(path: &str) -> (r: BlogTarget)
    ensures
        r@ == blog_target_of(path@),
{
    if str_eq(path, "/favicon.ico") {
        return BlogTarget::Favicon;
    }
    let chars = to_chars(path);
    let start: usize = if chars.len() > 0 {
        1
    } else {
        0
    };
    let rest_string = from_chars(&chars, start, chars.len());
    let rest = to_chars(rest_string.as_str());
    assert(rest@ =~= without_first(path@));
    let cut = index_of(&rest, '/', 0);
    let scope = from_chars(&rest, 0, cut);
    let sub_path = if cut < rest.len() {
        from_chars(&rest, cut + 1, rest.len())
    } else {
        String::new()
    };
    assert(scope@ =~= scope_of(rest@));
    assert(sub_path@ =~= sub_path_of(rest@));
    if str_eq(scope.as_str(), "files") {
        BlogTarget::File(sub_path)
    } else if str_eq(scope.as_str(), "static") {
        BlogTarget::StaticResource(sub_path)
    } else if str_eq(scope.as_str(), "rpc") {
        BlogTarget::Rpc(joined("/", sub_path.as_str()))
    } else if str_eq(scope.as_str(), "backstage") {
        BlogTarget::BackstagePage
    } else {
        BlogTarget::Page
    }
}

/// The file of a static site that a request path names: the path without its first character.
pub fn serve_static(path: &str) -> (r: String)
    ensures
        r@ == without_first(path@),
{
    let chars = to_chars(path);
    let start: usize = if chars.len() > 0 {
        1
    } else {
        0
    };
    let r = from_chars(&chars, start, chars.len());
    assert(r@ =~= without_first(path@));
    r
}

} // verus!
