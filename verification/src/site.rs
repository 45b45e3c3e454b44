//! Site bootstrap: from the declared sites to the state that each one is
//! served with, or the reason why the server must not start.

use vstd::prelude::*;
use crate::config::{SiteConfig, SiteConfigView, SitesConfig, SitesConfigView, theme_dir_from};
use crate::names::{database_name_is_legal, is_database_name, is_site_name, site_name_is_legal};
use crate::text::{copy_strings, joined, replace_char, replaced, str_eq, views};

verus! {

/// What a site serves.
#[derive(Clone, Copy, Debug, PartialEq, Eq, Structural)]
pub enum SiteType {
    /// Pages rendered from a theme, files under `files`.
    Blog,
    /// Files under `static`, nothing else.
    Static,
}

/// The site type that a declaration's `type` names.
pub open spec fn site_type_of(s: Seq<char>) -> Option<SiteType> {
    if s == "blog"@ {
        Some(SiteType::Blog)
    } else if s == "static"@ {
        Some(SiteType::Static)
    } else {
        None
    }
}

/// The directory below a site's own that holds its files.
pub open spec fn data_dir_of(t: SiteType) -> Seq<char> {
    match t {
        SiteType::Blog => "files"@,
        SiteType::Static => "static"@,
    }
}

impl SiteType {
    /// Reads a declaration's `type`.
    pub fn parse(s: &str) -> (r: Option<SiteType>)
        ensures
            r == site_type_of(s@),
    {
        if str_eq(s, "blog") {
            Some(SiteType::Blog)
        } else if str_eq(s, "static") {
            Some(SiteType::Static)
        } else {
            None
        }
    }

    /// The directory below a site's own that holds its files.
    pub fn data_dir(&self) -> (r: &'static str)
        ensures
            r@ == data_dir_of(*self),
    {
        match self {
            SiteType::Blog => "files",
            SiteType::Static => "static",
        }
    }
}

/// Why a configuration is refused.
#[derive(Clone, Debug, PartialEq, Eq)]
pub enum ConfigError {
    /// A blog site is declared and no database server is.
    BlogNeedsDatabase,
    /// The database name is no identifier.
    IllegalDatabaseName(String),
    /// The site name holds something else than letters, digits, dashes and underlines.
    IllegalSiteName(String),
    /// The site type is neither `blog` nor `static`.
    UnrecognizedSiteType(String),
    /// The blog site of this name declares no theme.
    ThemeNotSpecified(String),
    /// The theme (first) of the site (second) is not among the resources.
    ThemeNotDefined(String, String),
}

pub enum ConfigErrorView {
    BlogNeedsDatabase,
    IllegalDatabaseName(Seq<char>),
    IllegalSiteName(Seq<char>),
    UnrecognizedSiteType(Seq<char>),
    ThemeNotSpecified(Seq<char>),
    ThemeNotDefined(Seq<char>, Seq<char>),
}

impl View for ConfigError {
    type V = ConfigErrorView;

    open spec fn view(&self) -> ConfigErrorView {
        match self {
            ConfigError::BlogNeedsDatabase => ConfigErrorView::BlogNeedsDatabase,
            ConfigError::IllegalDatabaseName(n) => ConfigErrorView::IllegalDatabaseName(n@),
            ConfigError::IllegalSiteName(n) => ConfigErrorView::IllegalSiteName(n@),
            ConfigError::UnrecognizedSiteType(t) => ConfigErrorView::UnrecognizedSiteType(t@),
            ConfigError::ThemeNotSpecified(s) => ConfigErrorView::ThemeNotSpecified(s@),
            ConfigError::ThemeNotDefined(t, s) => ConfigErrorView::ThemeNotDefined(t@, s@),
        }
    }
}

/// The words that go with a refusal.
pub open spec fn message_of(e: ConfigErrorView) -> Seq<char> {
    match e {
        ConfigErrorView::BlogNeedsDatabase => "Blog sites need database."@,
        ConfigErrorView::IllegalDatabaseName(n) => "Illegal database name \""@ + n
            + "\" (database name should be ident-compatible)."@,
        ConfigErrorView::IllegalSiteName(n) => "Illegal site name \""@ + n
            + "\" (site name should only contains letters, numbers, dashes, and underlines)."@,
        ConfigErrorView::UnrecognizedSiteType(t) => "Unrecognized site type \""@ + t + "\"."@,
        ConfigErrorView::ThemeNotSpecified(s) => "Theme is not specified for site \""@ + s + "\""@,
        ConfigErrorView::ThemeNotDefined(t, s) => "Theme \""@ + t + "\" is not defined for site \""@
            + s + "\""@,
    }
}

impl ConfigError {
    /// The words that go with this refusal.
    pub fn message(&self) -> (r: String)
        ensures
            r@ == message_of(self@),
    {
        match self {
            ConfigError::BlogNeedsDatabase => "Blog sites need database.".to_owned(),
            ConfigError::IllegalDatabaseName(n) => {
                let a = joined("Illegal database name \"", n.as_str());
                joined(a.as_str(), "\" (database name should be ident-compatible).")
            },
            ConfigError::IllegalSiteName(n) => {
                let a = joined("Illegal site name \"", n.as_str());
                joined(
                    a.as_str(),
                    "\" (site name should only contains letters, numbers, dashes, and underlines).",
                )
            },
            ConfigError::UnrecognizedSiteType(t) => {
                let a = joined("Unrecognized site type \"", t.as_str());
                joined(a.as_str(), "\".")
            },
            ConfigError::ThemeNotSpecified(s) => {
                let a = joined("Theme is not specified for site \"", s.as_str());
                joined(a.as_str(), "\"")
            },
            ConfigError::ThemeNotDefined(t, s) => {
                let a = joined("Theme \"", t.as_str());
                let b = joined(a.as_str(), "\" is not defined for site \"");
                let c = joined(b.as_str(), s.as_str());
                joined(c.as_str(), "\"")
            },
        }
    }
}

/// The database that a blog site is served from.
#[derive(Clone, Debug, PartialEq, Eq)]
pub struct DbPlan {
    pub database: String,
    pub host: String,
    pub port: Option<u16>,
    pub username: String,
    pub password: String,
}

pub struct DbPlanView {
    pub database: Seq<char>,
    pub host: Seq<char>,
    pub port: Option<u16>,
    pub username: Seq<char>,
    pub password: Seq<char>,
}

impl View for DbPlan {
    type V = DbPlanView;

    open spec fn view(&self) -> DbPlanView {
        DbPlanView {
            database: self.database@,
            host: self.host@,
            port: self.port,
            username: self.username@,
            password: self.password@,
        }
    }
}

pub open spec fn opt_plan_view(p: Option<DbPlan>) -> Option<DbPlanView> {
    match p {
        Some(p) => Some(p@),
        None => None,
    }
}

/// The state that one site is served with.
#[derive(Clone, Debug, PartialEq, Eq)]
pub struct SiteState {
    /// Seconds since the epoch at which the state was made.
    pub initialization_time: i64,
    pub host: String,
    pub host_aliases: Vec<String>,
    /// The site's directory, as path components: the sites root, `sites`, the site's name.
    pub dir: Vec<String>,
    pub theme_mod_name: String,
    pub theme_dir: String,
    pub site_type: SiteType,
    /// The database of a blog site.
    pub database: Option<DbPlan>,
    pub config: SiteConfig,
}

pub struct SiteStateView {
    pub initialization_time: i64,
    pub host: Seq<char>,
    pub host_aliases: Seq<Seq<char>>,
    pub dir: Seq<Seq<char>>,
    pub theme_mod_name: Seq<char>,
    pub theme_dir: Seq<char>,
    pub site_type: SiteType,
    pub database: Option<DbPlanView>,
    pub config: SiteConfigView,
}

impl View for SiteState {
    type V = SiteStateView;

    open spec fn view(&self) -> SiteStateView {
        SiteStateView {
            initialization_time: self.initialization_time,
            host: self.host@,
            host_aliases: views(self.host_aliases@),
            dir: views(self.dir@),
            theme_mod_name: self.theme_mod_name@,
            theme_dir: self.theme_dir@,
            site_type: self.site_type,
            database: opt_plan_view(self.database),
            config: self.config@,
        }
    }
}

/// The views of a list of site states.
pub open spec fn states_view(v: Seq<SiteState>) -> Seq<SiteStateView> {
    Seq::new(v.len(), |i: int| v[i]@)
}

/// The database of site `i`: none for a site that is no blog; for a blog the
/// declared name, or else the site's name, on the declared server.
pub open spec fn database_of(cfg: SitesConfigView, i: int) -> Result<
    Option<DbPlanView>,
    ConfigErrorView,
> {
    let site = cfg.site[i];
    if site_type_of(site.site_type) != Some(SiteType::Blog) {
        Ok(None)
    } else {
        match cfg.db {
            None => Err(ConfigErrorView::BlogNeedsDatabase),
            Some(db) => {
                let name = match site.database {
                    Some(d) => d,
                    None => site.name,
                };
                if !is_database_name(name) {
                    Err(ConfigErrorView::IllegalDatabaseName(name))
                } else {
                    Ok(
                        Some(
                            DbPlanView {
                                database: name,
                                host: match db.host {
                                    Some(h) => h,
                                    None => "localhost"@,
                                },
                                port: db.port,
                                username: db.username,
                                password: db.password,
                            },
                        ),
                    )
                }
            },
        }
    }
}

/// The theme directory of site `i`: of a blog, the directory that the
/// resources give its theme; of any other site, none.
pub open spec fn theme_dir_of(cfg: SitesConfigView, i: int, t: SiteType) -> Result<
    Seq<char>,
    ConfigErrorView,
> {
    let site = cfg.site[i];
    match t {
        SiteType::Static => Ok(Seq::empty()),
        SiteType::Blog => match site.theme {
            None => Err(ConfigErrorView::ThemeNotSpecified(site.name)),
            Some(theme) => match theme_dir_from(cfg.themes, theme, 0) {
                None => Err(ConfigErrorView::ThemeNotDefined(theme, site.name)),
                Some(d) => Ok(d),
            },
        },
    }
}

/// The state of site `i`, or why its declaration is refused. The name is
/// looked at first, then the type, then for a blog its database, and then
/// its theme.
pub open spec fn site_state_of(
    cfg: SitesConfigView,
    sites_root: Seq<char>,
    now: i64,
    i: int,
) -> Result<SiteStateView, ConfigErrorView> {
    let site = cfg.site[i];
    if !is_site_name(site.name) {
        Err(ConfigErrorView::IllegalSiteName(site.name))
    } else {
        match site_type_of(site.site_type) {
            None => Err(ConfigErrorView::UnrecognizedSiteType(site.site_type)),
            Some(t) => match database_of(cfg, i) {
                Err(e) => Err(e),
                Ok(database) => match theme_dir_of(cfg, i, t) {
                    Err(e) => Err(e),
                    Ok(theme_dir) => Ok(
                        SiteStateView {
                            initialization_time: now,
                            host: site.host,
                            host_aliases: match site.alias {
                                Some(a) => a,
                                None => Seq::empty(),
                            },
                            dir: seq![sites_root, "sites"@, site.name],
                            theme_mod_name: replaced(
                                match site.theme {
                                    Some(x) => x,
                                    None => Seq::empty(),
                                },
                                '-',
                                '_',
                            ),
                            theme_dir,
                            site_type: t,
                            database,
                            config: site,
                        },
                    ),
                },
            },
        }
    }
}

/// The refusal of the first site from `from` on whose declaration is refused.
pub open spec fn first_site_error(
    cfg: SitesConfigView,
    sites_root: Seq<char>,
    now: i64,
    from: int,
) -> Option<ConfigErrorView>
    decreases cfg.site.len() - from,
{
    if from < 0 || from >= cfg.site.len() {
        None
    } else {
        match site_state_of(cfg, sites_root, now, from) {
            Err(e) => Some(e),
            Ok(_) => first_site_error(cfg, sites_root, now, from + 1),
        }
    }
}

/// What a configuration comes to: the state of every site, in the order
/// of declaration, or the refusal of the first site that is refused.
pub open spec fn bootstrap(cfg: SitesConfigView, sites_root: Seq<char>, now: i64) -> Result<
    Seq<SiteStateView>,
    ConfigErrorView,
> {
    match first_site_error(cfg, sites_root, now, 0) {
        Some(e) => Err(e),
        None => Ok(
            Seq::new(cfg.site.len(), |i: int| site_state_of(cfg, sites_root, now, i)->Ok_0),
        ),
    }
}

/// The database of site `i`.
pub fn plan_database(config: &SitesConfig, i: usize) -> (r: Result<Option<DbPlan>, ConfigError>)
    requires
        i < config.site.len(),
    ensures
        match r {
            Ok(p) => database_of(config@, i as int) == Ok::<Option<DbPlanView>, ConfigErrorView>(
                opt_plan_view(p),
            ),
            Err(e) => database_of(config@, i as int) == Err::<Option<DbPlanView>, ConfigErrorView>(
                e@,
            ),
        },
{
    let site = &config.site[i];
    assert(config@.site[i as int] == site@);
    match SiteType::parse(site.site_type.as_str()) {
        Some(SiteType::Blog) => {},
        _ => {
            return Ok(None);
        },
    }
    match &config.db {
        None => Err(ConfigError::BlogNeedsDatabase),
        Some(db) => {
            let name = match &site.database {
                Some(d) => d.clone(),
                None => site.name.clone(),
            };
            if !database_name_is_legal(name.as_str()) {
                return Err(ConfigError::IllegalDatabaseName(name));
            }
            let host = match &db.host {
                Some(h) => h.clone(),
                None => "localhost".to_owned(),
            };
            Ok(
                Some(
                    DbPlan {
                        database: name,
                        host,
                        port: db.port,
                        username: db.username.clone(),
                        password: db.password.clone(),
                    },
                ),
            )
        },
    }
}

/// The state of site `i`, or why its declaration is refused.
pub fn site_state(config: &SitesConfig, sites_root: &str, now: i64, i: usize) -> (r: Result<
    SiteState,
    ConfigError,
>)
    requires
        i < config.site.len(),
    ensures
        match r {
            Ok(s) => site_state_of(config@, sites_root@, now, i as int) == Ok::<
                SiteStateView,
                ConfigErrorView,
            >(s@),
            Err(e) => site_state_of(config@, sites_root@, now, i as int) == Err::<
                SiteStateView,
                ConfigErrorView,
            >(e@),
        },
{
    let site = &config.site[i];
    assert(config@.site[i as int] == site@);
    if !site_name_is_legal(site.name.as_str()) {
        return Err(ConfigError::IllegalSiteName(site.name.clone()));
    }
    let site_type = match SiteType::parse(site.site_type.as_str()) {
        Some(t) => t,
        None => {
            return Err(ConfigError::UnrecognizedSiteType(site.site_type.clone()));
        },
    };
    let database = match plan_database(config, i) {
        Ok(d) => d,
        Err(e) => {
            return Err(e);
        },
    };
    let theme_dir = match site_type {
        SiteType::Static => String::new(),
        SiteType::Blog => match &site.theme {
            None => {
                return Err(ConfigError::ThemeNotSpecified(site.name.clone()));
            },
            Some(theme) => match config.theme_dir(theme.as_str()) {
                None => {
                    return Err(ConfigError::ThemeNotDefined(theme.clone(), site.name.clone()));
                },
                Some(d) => d,
            },
        },
    };
    let theme_mod_name = match &site.theme {
        Some(theme) => replace_char(theme.as_str(), '-', '_'),
        None => replace_char("", '-', '_'),
    };
    let host_aliases = match &site.alias {
        Some(a) => copy_strings(a),
        None => Vec::new(),
    };
    let mut dir: Vec<String> = Vec::new();
    dir.push(sites_root.to_owned());
    dir.push("sites".to_owned());
    dir.push(site.name.clone());
    proof {
        reveal_strlit("");
        assert(""@ =~= Seq::<char>::empty());
        assert(views(dir@) =~= seq![sites_root@, "sites"@, site.name@]);
        assert(views(host_aliases@) =~= match site@.alias {
            Some(a) => a,
            None => Seq::empty(),
        });
    }
    Ok(
        SiteState {
            initialization_time: now,
            host: site.host.clone(),
            host_aliases,
            dir,
            theme_mod_name,
            theme_dir,
            site_type,
            database,
            config: site.duplicate(),
        },
    )
}

impl SiteState {
    /// The state of every declared site, made at `now` (seconds since the
    /// epoch) below `sites_root`, or the refusal of the first site that is refused.
    pub fn from_sites_config(config: &SitesConfig, sites_root: &str, now: i64) -> (r: Result<
        Vec<SiteState>,
        ConfigError,
    >)
        ensures
            match r {
                Ok(v) => bootstrap(config@, sites_root@, now) == Ok::<
                    Seq<SiteStateView>,
                    ConfigErrorView,
                >(states_view(v@)),
                Err(e) => bootstrap(config@, sites_root@, now) == Err::<
                    Seq<SiteStateView>,
                    ConfigErrorView,
                >(e@),
            },
    {
        let n = config.site.len();
        let mut states: Vec<SiteState> = Vec::new();
        while states.len() < n
            invariant
                n == config.site.len(),
                states.len() <= n,
                first_site_error(config@, sites_root@, now, 0) == first_site_error(
                    config@,
                    sites_root@,
                    now,
                    states.len() as int,
                ),
                forall|j: int|
                    0 <= j < states.len() ==> site_state_of(config@, sites_root@, now, j) == Ok::<
                        SiteStateView,
                        ConfigErrorView,
                    >(#[trigger] states@[j]@),
            decreases n - states.len(),
        {
            let k = states.len();
            match site_state(config, sites_root, now, k) {
                Err(e) => {
                    return Err(e);
                },
                Ok(s) => {
                    states.push(s);
                },
            }
        }
        assert(states_view(states@) =~= Seq::new(
            config@.site.len(),
            |i: int| site_state_of(config@, sites_root@, now, i)->Ok_0,
        ));
        Ok(states)
    }
}

} // verus!
