//! The life of a page: made, its data fetched, the data applied, and on the
//! server written out as a snapshot that the browser replays in place of a
//! second fetch.

use vstd::prelude::*;
use crate::backstage::load_post_list;
use crate::post::{PostListFilter, PostListReq};
use crate::request::{RequestChannel, RequestError};
use crate::route::{
    RouteMatch,
    RouteTable,
    init_routes,
    is_static_route,
    lemma_no_brace_is_static,
    lemma_static_routes_conflict_free,
    pairs_view,
    resolve,
};
use crate::rpc::{CurrentUserReq, CurrentUserResp};
use crate::session::{LoginUser, LoginUserView};
use crate::snapshot::{
    DataKind,
    PageData,
    PageDataView,
    fits,
    get_snapshot,
    kind_of,
    lemma_snapshot_round_trip,
    read_data,
    read_snapshot,
    snapshot_of,
};
use crate::text::str_eq;

verus! {

/// What a page tells about itself beside its content.
#[derive(Clone, Debug, PartialEq, Eq)]
pub struct PageMetaData {
    pub title: String,
}

/// The path and the query string of a request for a page.
#[derive(Clone, Debug, PartialEq, Eq)]
pub struct ReqInfo {
    pub path: String,
    pub query: String,
}

/// The page types.
#[derive(Clone, Copy, Debug, PartialEq, Eq, Structural)]
pub enum PageKind {
    /// The backstage's first page.
    Home,
    /// The backstage's login form.
    Login,
    /// The page for a path that no route takes.
    NotFound,
    /// The first page of a site.
    Index,
    /// The page about the author.
    About,
}

/// The shape of the data that a page type fetches.
pub open spec fn data_kind_of(kind: PageKind) -> DataKind {
    match kind {
        PageKind::Home => DataKind::CurrentUser,
        PageKind::Login => DataKind::Account,
        PageKind::NotFound => DataKind::Empty,
        PageKind::Index => DataKind::Empty,
        PageKind::About => DataKind::Empty,
    }
}

/// The title of a page type.
pub open spec fn title_of(kind: PageKind) -> Seq<char> {
    match kind {
        PageKind::Home => "Backstage Home"@,
        PageKind::Login => "Login"@,
        PageKind::NotFound => "Not Found"@,
        PageKind::Index => "\u{6700}\u{540e}\u{7684}\u{53f6}\u{5b50}\u{7684}\u{795e}\u{79d8}\u{6545}\u{4e8b}"@,
        PageKind::About => "\u{6700}\u{540e}\u{7684}\u{53f6}\u{5b50}\u{7684}\u{795e}\u{79d8}\u{6545}\u{4e8b}"@,
    }
}

impl PageKind {
    /// The shape of the data that pages of this type fetch.
    pub fn data_kind(&self) -> (r: DataKind)
        ensures
            r == data_kind_of(*self),
    {
        match self {
            PageKind::Home => DataKind::CurrentUser,
            PageKind::Login => DataKind::Account,
            PageKind::NotFound => DataKind::Empty,
            PageKind::Index => DataKind::Empty,
            PageKind::About => DataKind::Empty,
        }
    }

    /// The meta data of pages of this type.
    pub fn meta_data(&self) -> (r: PageMetaData)
        ensures
            r.title@ == title_of(*self),
    {
        let title = match self {
            PageKind::Home => "Backstage Home",
            PageKind::Login => "Login",
            PageKind::NotFound => "Not Found",
            PageKind::Index => "\u{6700}\u{540e}\u{7684}\u{53f6}\u{5b50}\u{7684}\u{795e}\u{79d8}\u{6545}\u{4e8b}",
            PageKind::About => "\u{6700}\u{540e}\u{7684}\u{53f6}\u{5b50}\u{7684}\u{795e}\u{79d8}\u{6545}\u{4e8b}",
        };
        PageMetaData { title: title.to_owned() }
    }
}

/// Where a page stands in its life.
#[derive(Clone, Copy, Debug, PartialEq, Eq, Structural)]
pub enum PagePhase {
    /// Made, with nothing to show yet.
    Constructed,
    /// Its data is being fetched.
    Fetching,
    /// Its data was pushed into its state.
    Applied,
    /// Written out; the instance is done with.
    Terminal,
}

/// A page instance.
#[derive(Clone, Debug, PartialEq, Eq)]
pub struct Page {
    kind: PageKind,
    phase: PagePhase,
    current_user: Option<LoginUser>,
    account: String,
    hint: String,
    needs_update: bool,
}

/// What can be seen of a page instance.
pub struct PageView {
    pub kind: PageKind,
    pub phase: PagePhase,
    /// Who is logged in, on the backstage's first page.
    pub current_user: Option<LoginUserView>,
    /// The account name in the login form.
    pub account: Seq<char>,
    /// The line that the first page of a site and the page about the author show.
    pub hint: Seq<char>,
    /// Whether the page has asked to be rendered again.
    pub needs_update: bool,
}

impl View for Page {
    type V = PageView;

    closed spec fn view(&self) -> PageView {
        PageView {
            kind: self.kind,
            phase: self.phase,
            current_user: match self.current_user {
                Some(u) => Some(u@),
                None => None,
            },
            account: self.account@,
            hint: self.hint@,
            needs_update: self.needs_update,
        }
    }
}

/// A page as it is made.
pub open spec fn fresh(kind: PageKind) -> PageView {
    PageView {
        kind,
        phase: PagePhase::Constructed,
        current_user: None,
        account: Seq::empty(),
        hint: Seq::empty(),
        needs_update: false,
    }
}

/// A page after `data` was applied to it: the first page of the backstage
/// holds who is logged in, the login form holds the account name, and both
/// ask to be rendered again; the other pages hold nothing.
pub open spec fn apply_to(page: PageView, data: PageDataView) -> PageView {
    match (page.kind, data) {
        (PageKind::Home, PageDataView::CurrentUser(u)) => PageView {
            phase: PagePhase::Applied,
            current_user: u,
            needs_update: true,
            ..page
        },
        (PageKind::Login, PageDataView::Account(a)) => PageView {
            phase: PagePhase::Applied,
            account: a,
            needs_update: true,
            ..page
        },
        _ => PageView { phase: PagePhase::Applied, ..page },
    }
}

/// A page after it became part of the document in the browser.
pub open spec fn attached_page(page: PageView) -> PageView {
    if page.kind == PageKind::Index || page.kind == PageKind::About {
        PageView { hint: "Coming Soon..."@, needs_update: true, ..page }
    } else {
        page
    }
}

/// What a page asks for once it is part of the document in the browser.
#[derive(Clone, Debug, PartialEq, Eq)]
pub enum Attached {
    /// Nothing.
    Nothing,
    /// To go to the page at this path.
    Redirect(String),
    /// To load a part of the list of posts.
    LoadPosts(PostListReq),
}

/// A fresh page with `data` applied.
pub open spec fn applied(kind: PageKind, data: PageDataView) -> PageView {
    apply_to(fresh(kind), data)
}

/// A fresh page with the data of a snapshot applied: what the browser
/// makes of what the server wrote, without fetching anything.
pub open spec fn hydrated(kind: PageKind, snapshot: Seq<u8>) -> Option<PageView> {
    match read_snapshot(data_kind_of(kind), snapshot) {
        Some(data) => Some(applied(kind, data)),
        None => None,
    }
}

fn copy_user(u: &Option<LoginUser>) -> (r: Option<LoginUser>)
    ensures
        match (u, r) {
            (Some(a), Some(b)) => a@ == b@,
            (None, None) => true,
            _ => false,
        },
{
    match u {
        Some(u) => Some(LoginUser { id: u.id.clone(), name: u.name.clone() }),
        None => None,
    }
}

impl Page {
    /// A page of the given type, as it is made.
    pub fn new(kind: PageKind) -> (r: Page)
        ensures
            r@ == fresh(kind),
    {
        Page {
            kind,
            phase: PagePhase::Constructed,
            current_user: None,
            account: String::new(),
            hint: String::new(),
            needs_update: false,
        }
    }

    /// The type of the page.
    pub fn kind(&self) -> (r: PageKind)
        ensures
            r == self@.kind,
    {
        self.kind
    }

    /// Where the page stands in its life.
    pub fn phase(&self) -> (r: PagePhase)
        ensures
            r == self@.phase,
    {
        self.phase
    }

    /// Whether the page has asked to be rendered again.
    pub fn needs_update(&self) -> (r: bool)
        ensures
            r == self@.needs_update,
    {
        self.needs_update
    }

    /// Who is logged in, on the backstage's first page.
    pub fn current_user(&self) -> (r: Option<LoginUser>)
        ensures
            match r {
                Some(u) => self@.current_user == Some(u@),
                None => self@.current_user is None,
            },
    {
        copy_user(&self.current_user)
    }

    /// The account name in the login form.
    pub fn account(&self) -> (r: &str)
        ensures
            r@ == self@.account,
    {
        self.account.as_str()
    }

    /// The line that the first page of a site and the page about the author show.
    pub fn hint(&self) -> (r: &str)
        ensures
            r@ == self@.hint,
    {
        self.hint.as_str()
    }

    /// What a page does once it is part of the document in the browser:
    /// the backstage's first page sends who is not logged in to the login
    /// form and else loads the newest posts; the first page of a site and
    /// the page about the author show that more is to come.
    pub fn attached(&mut self) -> (r: Attached)
        ensures
            final(self)@ == attached_page(old(self)@),
            match r {
                Attached::Nothing => old(self)@.kind != PageKind::Home,
                Attached::Redirect(path) => old(self)@.kind == PageKind::Home && old(
                    self,
                )@.current_user is None && path@ == "/backstage/login"@,
                Attached::LoadPosts(req) => old(self)@.kind == PageKind::Home && old(
                    self,
                )@.current_user is Some && req.skip == 0 && req.count == 20 && req.filter
                    == PostListFilter::All,
            },
    {
        match self.kind {
            PageKind::Home => {
                if self.current_user.is_none() {
                    Attached::Redirect("/backstage/login".to_owned())
                } else {
                    Attached::LoadPosts(load_post_list(0))
                }
            },
            PageKind::Index | PageKind::About => {
                self.hint = "Coming Soon...".to_owned();
                self.needs_update = true;
                Attached::Nothing
            },
            _ => Attached::Nothing,
        }
    }

    /// Marks that the data of the page is being fetched.
    pub fn begin_fetch(&mut self)
        ensures
            final(self)@ == (PageView { phase: PagePhase::Fetching, ..old(self)@ }),
    {
        self.phase = PagePhase::Fetching;
    }

    /// Pushes fetched data into the page.
    pub fn apply_prerendered_data(&mut self, data: &PageData)
        ensures
            final(self)@ == apply_to(old(self)@, data@),
    {
        match (self.kind, data) {
            (PageKind::Home, PageData::CurrentUser(u)) => {
                self.current_user = copy_user(u);
                self.needs_update = true;
            },
            (PageKind::Login, PageData::Account(a)) => {
                self.account = a.clone();
                self.needs_update = true;
            },
            _ => {},
        }
        self.phase = PagePhase::Applied;
    }

    /// Marks that the page was written out.
    pub fn finish(&mut self)
        ensures
            final(self)@ == (PageView { phase: PagePhase::Terminal, ..old(self)@ }),
    {
        self.phase = PagePhase::Terminal;
    }

    /// The browser's way to a page: a fresh page with the data of the
    /// server's snapshot applied. Bytes that are no snapshot of the page
    /// type's data give nothing.
    pub fn hydrate(kind: PageKind, snapshot: &[u8]) -> (r: Option<Page>)
        ensures
            match r {
                Some(p) => hydrated(kind, snapshot@) == Some(p@),
                None => hydrated(kind, snapshot@) is None,
            },
    {
        match read_data(kind.data_kind(), snapshot) {
            Some(data) => {
                let mut page = Page::new(kind);
                page.apply_prerendered_data(&data);
                Some(page)
            },
            None => None,
        }
    }
}

/// Snapshot replay equals a fresh fetch: a fresh page to which the
/// snapshot of fetched data is replayed is in the state of a fresh page to
/// which the fetched data itself was applied.
pub proof fn lemma_replay_equals_fetch(kind: PageKind, data: PageDataView)
    requires
        kind_of(data) == data_kind_of(kind),
        fits(data),
    ensures
        hydrated(kind, snapshot_of(data)) == Some(applied(kind, data)),
{
    lemma_snapshot_round_trip(data);
}

/// What the server hands on of a prerendered page.
#[derive(Clone, Debug, PartialEq, Eq)]
pub struct PrerenderResult {
    /// The page, its data applied, done with.
    pub page: Page,
    /// The snapshot for the browser.
    pub prerendered_data: Vec<u8>,
    pub title: String,
    /// Whether a declared route took the path.
    pub is_ok: bool,
}

/// Applies fetched data to a fresh page of the given type and writes the
/// snapshot of the data for the browser.
pub fn prerender(kind: PageKind, data: &PageData, meta: PageMetaData, is_ok: bool) -> (r:
    PrerenderResult)
    ensures
        r.page@ == (PageView { phase: PagePhase::Terminal, ..applied(kind, data@) }),
        r.prerendered_data@ == snapshot_of(data@),
        r.title@ == meta.title@,
        r.is_ok == is_ok,
{
    let mut page = Page::new(kind);
    page.apply_prerendered_data(data);
    let prerendered_data = get_snapshot(data);
    page.finish();
    PrerenderResult { page, prerendered_data, title: meta.title, is_ok }
}

/// The fields of a query string, or nothing for one that is malformed.
pub uninterp spec fn urlencoded_pairs(query: Seq<char>) -> Option<Seq<(Seq<char>, Seq<char>)>>;

/// Calls `serde_urlencoded::from_str` for a list of pairs of strings.
/// Trusted: the result depends on the characters of the query alone.
#[verifier::external_body]
fn parse_urlencoded(query: &str) -> (r: Option<Vec<(String, String)>>)
    ensures
        match r {
            Some(v) => urlencoded_pairs(query@) == Some(pairs_view(v@)),
            None => urlencoded_pairs(query@) is None,
        },
{
    serde_urlencoded::from_str::<Vec<(String, String)>>(query).ok()
}

/// The first of `pairs[from..]` whose name is `name`.
pub open spec fn find_field(pairs: Seq<(Seq<char>, Seq<char>)>, name: Seq<char>, from: int) -> Option<
    int,
>
    decreases pairs.len() - from,
{
    if from < 0 || from >= pairs.len() {
        None
    } else if pairs[from].0 == name {
        Some(from)
    } else {
        find_field(pairs, name, from + 1)
    }
}

/// The value of the field `name` where the query holds it exactly once;
/// nothing where it is missing or repeated.
pub open spec fn single_field(pairs: Seq<(Seq<char>, Seq<char>)>, name: Seq<char>) -> Option<
    Seq<char>,
> {
    match find_field(pairs, name, 0) {
        None => None,
        Some(i) => match find_field(pairs, name, i + 1) {
            Some(_) => None,
            None => Some(pairs[i].1),
        },
    }
}

/// The account name that a query gives the login form: the value of its one
/// field `username`; empty for a query that is malformed, or holds no such
/// field, or more than one.
pub open spec fn login_username_of(pairs: Option<Seq<(Seq<char>, Seq<char>)>>) -> Seq<char> {
    match pairs {
        None => Seq::empty(),
        Some(p) => match single_field(p, "username"@) {
            Some(v) => v,
            None => Seq::empty(),
        },
    }
}

fn find_pair(pairs: &Vec<(String, String)>, name: &str, from: usize) -> (r: Option<usize>)
    requires
        from <= pairs.len(),
    ensures
        match r {
            Some(i) => find_field(pairs_view(pairs@), name@, from as int) == Some(i as int) && i
                < pairs.len(),
            None => find_field(pairs_view(pairs@), name@, from as int) is None,
        },
{
    let mut i: usize = from;
    while i < pairs.len()
        invariant
            from <= i <= pairs.len(),
            find_field(pairs_view(pairs@), name@, from as int) == find_field(
                pairs_view(pairs@),
                name@,
                i as int,
            ),
        decreases pairs.len() - i,
    {
        if str_eq(pairs[i].0.as_str(), name) {
            return Some(i);
        }
        i += 1;
    }
    None
}

/// The account name that the fields of a query give the login form.
pub fn login_username(pairs: &Option<Vec<(String, String)>>) -> (r: String)
    ensures
        r@ == login_username_of(
            match pairs {
                Some(v) => Some(pairs_view(v@)),
                None => None,
            },
        ),
{
    match pairs {
        None => String::new(),
        Some(v) => match find_pair(v, "username", 0) {
            None => String::new(),
            Some(i) => match find_pair(v, "username", i + 1) {
                Some(_) => String::new(),
                None => v[i].1.clone(),
            },
        },
    }
}

/// The account name that a query string gives the login form.
pub fn login_query(query: &str) -> (r: String)
    ensures
        r@ == login_username_of(urlencoded_pairs(query@)),
{
    let pairs = parse_urlencoded(query);
    login_username(&pairs)
}

/// The query string of a request, read as the page type reads it.
#[derive(Clone, Debug, PartialEq, Eq)]
pub enum Query {
    /// Of a page type that reads nothing from the query.
    Empty,
    /// Of the login form: the account name to start with.
    Login(String),
}

pub enum QueryView {
    Empty,
    Login(Seq<char>),
}

impl View for Query {
    type V = QueryView;

    open spec fn view(&self) -> QueryView {
        match self {
            Query::Empty => QueryView::Empty,
            Query::Login(username) => QueryView::Login(username@),
        }
    }
}

/// The query of a page type, from the fields of a query string.
pub open spec fn query_of(kind: PageKind, pairs: Option<Seq<(Seq<char>, Seq<char>)>>) -> QueryView {
    if kind == PageKind::Login {
        QueryView::Login(login_username_of(pairs))
    } else {
        QueryView::Empty
    }
}

impl Query {
    /// Reads a query string as pages of the given type read it.
    pub fn decode(kind: PageKind, query: &str) -> (r: Query)
        ensures
            r@ == query_of(kind, urlencoded_pairs(query@)),
    {
        match kind {
            PageKind::Login => Query::Login(login_query(query)),
            _ => Query::Empty,
        }
    }
}

/// What a page is given to fetch its data with.
pub struct ReqArgs {
    /// What the route's captures took of the path.
    pub path_args: RouteMatch,
    /// The query of the request, as the page type reads it.
    pub query: Query,
    pub request_channel: RequestChannel,
}

/// What fetching the data of a page comes to.
#[derive(Clone, Debug, PartialEq, Eq)]
pub enum FetchStep {
    /// The data is known.
    Ready(PageData, PageMetaData),
    /// The procedure at this path has to be asked who is logged in; the
    /// answer goes to `finish_fetch`.
    Request(String, CurrentUserReq, PageMetaData),
}

/// The path of the procedure that says who is logged in.
pub const CURRENT_USER_PATH: &'static str = "/backstage/current-user";

/// The data that a page type has from its query alone.
pub open spec fn data_of_query(kind: PageKind, query: QueryView) -> PageDataView {
    match (kind, query) {
        (PageKind::Login, QueryView::Login(username)) => PageDataView::Account(username),
        (PageKind::Login, QueryView::Empty) => PageDataView::Account(Seq::empty()),
        _ => PageDataView::Empty,
    }
}

/// The data fetch of a page: the backstage's first page asks who is logged
/// in, the login form takes the account name from the query, and the other
/// pages fetch nothing.
pub fn get_prerendered_data(kind: PageKind, args: &ReqArgs) -> (r: FetchStep)
    ensures
        match r {
            FetchStep::Ready(data, meta) => kind != PageKind::Home && meta.title@ == title_of(kind)
                && data@ == data_of_query(kind, args.query@),
            FetchStep::Request(path, _, meta) => kind == PageKind::Home && path@
                == CURRENT_USER_PATH@ && meta.title@ == title_of(kind),
        },
{
    let meta = kind.meta_data();
    match kind {
        PageKind::Home => FetchStep::Request(CURRENT_USER_PATH.to_owned(), CurrentUserReq {  }, meta),
        PageKind::Login => match &args.query {
            Query::Login(username) => FetchStep::Ready(PageData::Account(username.clone()), meta),
            Query::Empty => FetchStep::Ready(PageData::Account(String::new()), meta),
        },
        _ => FetchStep::Ready(PageData::Empty, meta),
    }
}

/// The data of the backstage's first page, from the answer to its request:
/// the user that is logged in; nobody where nobody is, or where the request
/// failed.
pub fn finish_fetch(response: Result<CurrentUserResp, RequestError>) -> (r: PageData)
    ensures
        r@ == PageDataView::CurrentUser(
            match response {
                Ok(CurrentUserResp::Logged(u)) => Some(u@),
                _ => None,
            },
        ),
{
    match response {
        Ok(CurrentUserResp::Logged(u)) => PageData::CurrentUser(Some(u)),
        _ => PageData::CurrentUser(None),
    }
}

/// The sets of pages that a site can be rendered with.
#[derive(Clone, Copy, Debug, PartialEq, Eq, Structural)]
pub enum Theme {
    /// The backstage, which every blog has.
    Backstage,
    /// The theme with a first page and a page about the author.
    IvyLeaf,
}

/// The page type that a theme binds to a resolved route, and whether the
/// route is one that the theme declares. A route that it does not declare
/// goes to the page for paths that were not found.
pub open spec fn page_of(theme: Theme, target: Seq<char>) -> (PageKind, bool) {
    match theme {
        Theme::Backstage => if target == "/backstage"@ {
            (PageKind::Home, true)
        } else if target == "/backstage/login"@ {
            (PageKind::Login, true)
        } else {
            (PageKind::NotFound, false)
        },
        Theme::IvyLeaf => if target == "/"@ {
            (PageKind::Index, true)
        } else if target == "/about"@ {
            (PageKind::About, true)
        } else {
            (PageKind::NotFound, false)
        },
    }
}

/// The routes that a theme declares.
pub open spec fn routes_of(theme: Theme) -> Seq<Seq<char>> {
    match theme {
        Theme::Backstage => seq!["/backstage"@, "/backstage/login"@],
        Theme::IvyLeaf => seq!["/"@, "/about"@],
    }
}

/// A request for a page, resolved: the page type to run, whether a declared
/// route took the path, and what the page is given to fetch with.
pub struct PageRequest {
    pub kind: PageKind,
    pub is_ok: bool,
    pub args: ReqArgs,
}

impl Theme {
    /// The routes that the theme declares.
    pub fn routes(&self) -> (r: Vec<String>)
        ensures
            crate::text::views(r@) == routes_of(*self),
    {
        let mut r: Vec<String> = Vec::new();
        match self {
            Theme::Backstage => {
                r.push("/backstage".to_owned());
                r.push("/backstage/login".to_owned());
            },
            Theme::IvyLeaf => {
                r.push("/".to_owned());
                r.push("/about".to_owned());
            },
        }
        assert(crate::text::views(r@) =~= routes_of(*self));
        r
    }

    /// The table of the theme's routes. They hold no captures and so are
    /// never in conflict.
    pub fn route_table(&self) -> (r: RouteTable)
        ensures
            r.declared() == routes_of(*self),
    {
        let routes = self.routes();
        proof {
            reveal_strlit("/backstage");
            reveal_strlit("/backstage/login");
            reveal_strlit("/");
            reveal_strlit("/about");
            let declared = crate::text::views(routes@);
            assert forall|j: int| 0 <= j < declared.len() implies is_static_route(
                #[trigger] declared[j],
            ) by {
                lemma_no_brace_is_static(declared[j]);
            }
            lemma_static_routes_conflict_free(declared);
        }
        match init_routes(&routes) {
            Ok(table) => table,
            Err(_) => vstd::pervasive::unreached(),
        }
    }

    /// The page type that the theme binds to a resolved route.
    pub fn page_for(&self, target: &str) -> (r: (PageKind, bool))
        ensures
            r == page_of(*self, target@),
    {
        match self {
            Theme::Backstage => if str_eq(target, "/backstage") {
                (PageKind::Home, true)
            } else if str_eq(target, "/backstage/login") {
                (PageKind::Login, true)
            } else {
                (PageKind::NotFound, false)
            },
            Theme::IvyLeaf => if str_eq(target, "/") {
                (PageKind::Index, true)
            } else if str_eq(target, "/about") {
                (PageKind::About, true)
            } else {
                (PageKind::NotFound, false)
            },
        }
    }

    /// Resolves a request for a page against the theme's routes.
    pub fn prerender_maomi_component(
        &self,
        routes: &RouteTable,
        req_info: &ReqInfo,
        request_channel: RequestChannel,
    ) -> (r: PageRequest)
        ensures
            (r.kind, r.is_ok) == page_of(*self, resolve(routes.declared(), req_info.path@).target),
            r.args.path_args@ == resolve(routes.declared(), req_info.path@),
            r.args.query@ == query_of(r.kind, urlencoded_pairs(req_info.query@)),
            r.args.request_channel == request_channel,
    {
        let path_args = routes.route_path(req_info.path.as_str());
        let (kind, is_ok) = self.page_for(path_args.target());
        PageRequest {
            kind,
            is_ok,
            args: ReqArgs {
                path_args,
                query: Query::decode(kind, req_info.query.as_str()),
                request_channel,
            },
        }
    }

    /// The browser's way to the page of a path: the page type by the
    /// theme's routes, and the snapshot replayed on a fresh page.
    pub fn load_maomi_component(&self, routes: &RouteTable, path: &str, snapshot: &[u8]) -> (r:
        Option<Page>)
        ensures
            match r {
                Some(p) => hydrated(
                    page_of(*self, resolve(routes.declared(), path@).target).0,
                    snapshot@,
                ) == Some(p@),
                None => hydrated(
                    page_of(*self, resolve(routes.declared(), path@).target).0,
                    snapshot@,
                ) is None,
            },
    {
        let found = routes.route_path(path);
        let (kind, _) = self.page_for(found.target());
        Page::hydrate(kind, snapshot)
    }
}

} // verus!
